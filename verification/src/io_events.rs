use vstd::prelude::*;
use crate::error::{CoreError, CoreResult};
use crate::events::DomainEvent;
use crate::ids::ProjectId;
use crate::bf::BfProjectData;
use crate::labelplus::{parse_labelplus, parse_labelplus_file, describes};
use crate::opening_project::{OpeningProject, OpeningProjectStorage};
use crate::plugin_manager::{strs_view, clone_strings};
use crate::project::ProjectView;

verus! {

/// The file names a project file lists for its pages.
pub open spec fn entry_filenames(b: BfProjectData) -> Seq<Seq<char>> {
    b.images@.map_values(|e: crate::bf::ImageEntry| e.filename@)
}

/// Parses the files that new opening projects hand on.
pub struct IoEventHandler;

impl IoEventHandler {
    /// The handler.
    pub fn new() -> (h: Self) {
        IoEventHandler
    }

    /// Handles an event: a LabelPlus file is parsed into its opening project
    /// (see `handle_parse_labelplus`); the bytes of a project file are handed
    /// back for decoding (the result goes to `handle_parse_bf`); other
    /// events are ignored.
    pub fn handle(&self, openings: &mut OpeningProjectStorage, event: &DomainEvent) -> (r: Option<(ProjectId, Vec<u8>)>)
        requires
            old(openings).wf(),
        ensures
            final(openings).wf(),
            match *event {
                DomainEvent::ParseLabelplusRequested(pid, content) => r is None && labelplus_parsed_into(
                    old(openings)@,
                    final(openings)@,
                    pid,
                    content@,
                ),
                DomainEvent::ParseBfRequested(pid, data) => r matches Some(p) && p.0 == pid && p.1@ == data@
                    && final(openings)@ == old(openings)@,
                _ => r is None && final(openings)@ == old(openings)@,
            },
    {
        match event {
            DomainEvent::ParseLabelplusRequested(pid, content) => {
                handle_parse_labelplus(openings, *pid, content.clone());
                None
            },
            DomainEvent::ParseBfRequested(pid, data) => Some((*pid, data.clone())),
            _ => None,
        }
    }
}

/// What parsing LabelPlus text `content` does to the opening projects: when
/// it parses and project `pid` is opening, the project keeps the parse and
/// asks for the file's pages (all pending); otherwise nothing changes.
pub open spec fn labelplus_parsed_into(
    o: Map<ProjectId, OpeningProject>,
    f: Map<ProjectId, OpeningProject>,
    pid: ProjectId,
    content: Seq<char>,
) -> bool {
    if o.contains_key(pid) && parse_labelplus(content) is Ok {
        let p = parse_labelplus(content)->Ok_0;
        let op = o[pid];
        let op2 = f[pid];
        &&& f == o.insert(pid, op2)
        &&& op2.labelplus_data matches Some(d) && describes(d, p)
        &&& op2.required() == p.order
        &&& op2.pending() == p.order
        &&& op2.uploaded() == op.uploaded()
        &&& op2.project@ == op.project@
        &&& op2.bf_data == op.bf_data
    } else {
        f == o
    }
}

/// Parses a LabelPlus file handed on by opening project `project_id` and
/// keeps the result there (see `labelplus_parsed_into`).
pub fn handle_parse_labelplus(openings: &mut OpeningProjectStorage, project_id: ProjectId, content: String)
    requires
        old(openings).wf(),
    ensures
        final(openings).wf(),
        labelplus_parsed_into(old(openings)@, final(openings)@, project_id, content@),
{
    match parse_labelplus_file(content.as_str()) {
        Ok(data) => {
            match openings.remove(project_id) {
                Ok(Some(mut op)) => {
                    assert(strs_view(data.image_order@) =~= crate::labelplus::name_views(data.image_order@));
                    let order = clone_strings(&data.image_order);
                    let order2 = clone_strings(&data.image_order);
                    op.labelplus_data = Some(data);
                    op.required_images = order;
                    op.pending_images = order2;
                    let ghost op2 = op;
                    let _ = openings.insert(project_id, op);
                    assert(openings@ =~= old(openings)@.insert(project_id, op2));
                },
                _ => {
                    assert(openings@ =~= old(openings)@);
                },
            }
        },
        Err(_) => {},
    }
}

/// Keeps a decoded project file in opening project `project_id`: the project
/// takes the file's name and any languages it gives, and asks for the file's
/// pages (all pending). Nothing changes when decoding failed or there is no
/// such opening project.
pub fn handle_parse_bf(openings: &mut OpeningProjectStorage, project_id: ProjectId, parsed: CoreResult<BfProjectData>)
    requires
        old(openings).wf(),
    ensures
        final(openings).wf(),
        match parsed {
            Ok(b) => if old(openings)@.contains_key(project_id) {
                let op = old(openings)@[project_id];
                let op2 = final(openings)@[project_id];
                &&& final(openings)@ == old(openings)@.insert(project_id, op2)
                &&& op2.project@ == (ProjectView {
                    name: b.metadata.project_name@,
                    source_language: match b.metadata.source_language {
                        Some(l) => l,
                        None => op.project@.source_language,
                    },
                    target_language: match b.metadata.target_language {
                        Some(l) => l,
                        None => op.project@.target_language,
                    },
                    ..op.project@
                })
                &&& op2.bf_data == Some(b)
                &&& op2.required() == entry_filenames(b)
                &&& op2.pending() == entry_filenames(b)
                &&& op2.uploaded() == op.uploaded()
                &&& op2.labelplus_data == op.labelplus_data
            } else {
                final(openings)@ == old(openings)@
            },
            Err(_) => final(openings)@ == old(openings)@,
        },
{
    match parsed {
        Ok(bf_data) => {
            match openings.remove(project_id) {
                Ok(Some(mut op)) => {
                    let mut required: Vec<String> = Vec::new();
                    let mut i: usize = 0;
                    while i < bf_data.images.len()
                        invariant
                            i <= bf_data.images@.len(),
                            strs_view(required@) == entry_filenames(bf_data).take(i as int),
                        decreases bf_data.images@.len() - i,
                    {
                        let ghost before = strs_view(required@);
                        required.push(bf_data.images[i].filename.clone());
                        assert(strs_view(required@) =~= before.push(bf_data.images@[i as int].filename@));
                        assert(entry_filenames(bf_data).take(i + 1) =~= entry_filenames(bf_data).take(
                            i as int,
                        ).push(bf_data.images@[i as int].filename@));
                        i = i + 1;
                    }
                    assert(entry_filenames(bf_data).take(bf_data.images@.len() as int) =~= entry_filenames(
                        bf_data,
                    ));
                    op.project.name = bf_data.metadata.project_name.clone();
                    match bf_data.metadata.source_language {
                        Some(l) => {
                            op.project.source_language = l;
                        },
                        None => {},
                    }
                    match bf_data.metadata.target_language {
                        Some(l) => {
                            op.project.target_language = l;
                        },
                        None => {},
                    }
                    let pending = clone_strings(&required);
                    op.bf_data = Some(bf_data);
                    op.required_images = required;
                    op.pending_images = pending;
                    let ghost op2 = op;
                    let _ = openings.insert(project_id, op);
                    assert(openings@ =~= old(openings)@.insert(project_id, op2));
                },
                _ => {
                    assert(openings@ =~= old(openings)@);
                },
            }
        },
        Err(_) => {},
    }
}

} // verus!
