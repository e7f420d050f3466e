use vstd::prelude::*;
use crate::ids::{IdGenerator, ImageId, ProjectId};
use crate::error::{CoreError, CoreResult};
use crate::events::{DomainEvent, EventView, event_views};
use crate::language::Language;
use crate::project::ProjectView;
use crate::opening_project::{
    OpeningProject,
    OpeningProjectStorage,
    listed,
    normalized,
    matched_name,
    keep_unmatched,
};
use crate::paths::{path_file_name, path_file_name_of};
use crate::plugin_manager::{strs_view, clone_strings};
use crate::textscan::{trim, trim_bounds};
use crate::text::{chars_of, decimal, push_decimal, push_str, string_from_chars, string_of};
use crate::project::opt_str_view;
use crate::image::{ImageView, estimated_size_of, delete_image_storage};
use crate::state::{AppState, ImageStorage, ImageStorageView};
use crate::labelplus_import::{import_labelplus_data_direct, labelplus_imported};
use crate::bf::{import_bf_data_direct, bf_imported};

verus! {

/// The error for a blank project name.
pub open spec fn is_blank_name_error(e: CoreError) -> bool {
    e matches CoreError::ValidationFailed { field, reason } && field@ == "project_name"@ && reason@
        == "项目名称不能为空"@
}

/// Whether a project name is blank (empty or white space only).
pub open spec fn blank_name(name: Seq<char>) -> bool {
    trim(name).len() == 0
}

fn is_blank(name: &str) -> (r: bool)
    ensures
        r == blank_name(name@),
{
    let c = chars_of(name);
    let (a, b) = trim_bounds(&c, 0, c.len());
    assert(c@.subrange(0, c@.len() as int) =~= name@);
    a == b
}

fn blank_name_error() -> (e: CoreError)
    ensures
        is_blank_name_error(e),
{
    CoreError::ValidationFailed { field: string_of("project_name"), reason: string_of("项目名称不能为空") }
}

/// A freshly created opening project named `name` under `id`, asking for no
/// pages yet, with file path `path`.
pub open spec fn fresh_opening(op: OpeningProject, id: ProjectId, name: Seq<char>, path: Option<Seq<char>>) -> bool {
    &&& op.wf()
    &&& op.project@ == (ProjectView {
        id,
        name,
        image_ids: Seq::empty(),
        file_path: path,
        source_language: Language::Japanese,
        target_language: Language::SimplifiedChinese,
    })
    &&& op.required() == Seq::<Seq<char>>::empty()
    &&& op.pending() == Seq::<Seq<char>>::empty()
    &&& op.uploaded() == Map::<Seq<char>, ImageId>::empty()
    &&& op.labelplus_data is None
    &&& op.bf_data is None
}

/// The generator after handing out one identifier.
pub open spec fn advanced(old_g: IdGenerator, new_g: IdGenerator) -> bool {
    new_g.peek() == (if old_g.peek() == u32::MAX {
        0
    } else {
        (old_g.peek() + 1) as u32
    })
}

/// A file handed on to be parsed for a new opening project.
enum ParseRequest {
    Nothing,
    Labelplus(String),
    Bf(Vec<u8>),
}

/// The event that hands the file on, if any.
spec fn request_event(id: ProjectId, req: ParseRequest) -> Option<EventView> {
    match req {
        ParseRequest::Nothing => None,
        ParseRequest::Labelplus(c) => Some(EventView::ParseLabelplusRequested(id, c@)),
        ParseRequest::Bf(d) => Some(EventView::ParseBfRequested(id, d@)),
    }
}

/// Stores a fresh opening project and announces it (after handing on the
/// file to parse, if any); refused for a blank name.
fn create_opening(
    ids: &mut IdGenerator,
    openings: &mut OpeningProjectStorage,
    events: &mut Vec<DomainEvent>,
    project_name: String,
    file_path: Option<String>,
    extra: ParseRequest,
) -> (r: CoreResult<ProjectId>)
    requires
        old(openings).wf(),
    ensures
        final(openings).wf(),
        blank_name(project_name@) ==> (r matches Err(e) && is_blank_name_error(e)) && *final(ids) == *old(ids)
            && final(openings)@ == old(openings)@ && final(events)@ == old(events)@,
        !blank_name(project_name@) ==> {
            let id = old(ids).peek();
            &&& r == Ok::<ProjectId, CoreError>(id)
            &&& advanced(*old(ids), *final(ids))
            &&& final(openings)@ == old(openings)@.insert(id, final(openings)@[id])
            &&& fresh_opening(final(openings)@[id], id, project_name@, opt_str_view(file_path))
            &&& event_views(final(events)@) == (match request_event(id, extra) {
                Some(e) => event_views(old(events)@).push(e),
                None => event_views(old(events)@),
            }).push(EventView::OpeningProjectCreated(id, project_name@))
        },
{
    if is_blank(project_name.as_str()) {
        return Err(blank_name_error());
    }
    let mut op = OpeningProject::empty(ids, project_name.clone());
    let project_id = op.project.id;
    op.project.file_path = file_path;
    let _ = openings.insert(project_id, op);
    let ghost before = event_views(events@);
    let ghost req = request_event(project_id, extra);
    match extra {
        ParseRequest::Nothing => {},
        ParseRequest::Labelplus(c) => {
            events.push(DomainEvent::ParseLabelplusRequested(project_id, c));
        },
        ParseRequest::Bf(d) => {
            events.push(DomainEvent::ParseBfRequested(project_id, d));
        },
    }
    let ghost mid = event_views(events@);
    proof {
        match req {
            Some(e) => {
                assert(mid =~= before.push(e));
            },
            None => {
                assert(mid =~= before);
            },
        }
    }
    events.push(DomainEvent::OpeningProjectCreated(project_id, project_name));
    assert(event_views(events@) =~= mid.push(events@.last()@));
    Ok(project_id)
}

/// Creates an opening project that asks for no particular pages, and
/// announces it; refused for a blank name.
pub fn create_empty_opening_project(
    ids: &mut IdGenerator,
    openings: &mut OpeningProjectStorage,
    events: &mut Vec<DomainEvent>,
    project_name: String,
) -> (r: CoreResult<ProjectId>)
    requires
        old(openings).wf(),
    ensures
        final(openings).wf(),
        blank_name(project_name@) ==> (r matches Err(e) && is_blank_name_error(e)) && *final(ids) == *old(ids)
            && final(openings)@ == old(openings)@ && final(events)@ == old(events)@,
        !blank_name(project_name@) ==> {
            let id = old(ids).peek();
            &&& r == Ok::<ProjectId, CoreError>(id)
            &&& advanced(*old(ids), *final(ids))
            &&& final(openings)@ == old(openings)@.insert(id, final(openings)@[id])
            &&& fresh_opening(final(openings)@[id], id, project_name@, None)
            &&& event_views(final(events)@) == event_views(old(events)@).push(
                EventView::OpeningProjectCreated(id, project_name@),
            )
        },
{
    create_opening(ids, openings, events, project_name, None, ParseRequest::Nothing)
}

/// Creates an opening project for a LabelPlus file: the file is handed on to
/// be parsed, then the project is announced; refused for a blank name.
pub fn create_opening_project_with_labelplus(
    ids: &mut IdGenerator,
    openings: &mut OpeningProjectStorage,
    events: &mut Vec<DomainEvent>,
    labelplus_content: String,
    project_name: String,
) -> (r: CoreResult<ProjectId>)
    requires
        old(openings).wf(),
    ensures
        final(openings).wf(),
        blank_name(project_name@) ==> (r matches Err(e) && is_blank_name_error(e)) && *final(ids) == *old(ids)
            && final(openings)@ == old(openings)@ && final(events)@ == old(events)@,
        !blank_name(project_name@) ==> {
            let id = old(ids).peek();
            &&& r == Ok::<ProjectId, CoreError>(id)
            &&& advanced(*old(ids), *final(ids))
            &&& final(openings)@ == old(openings)@.insert(id, final(openings)@[id])
            &&& fresh_opening(final(openings)@[id], id, project_name@, None)
            &&& event_views(final(events)@) == event_views(old(events)@).push(
                EventView::ParseLabelplusRequested(id, labelplus_content@),
            ).push(EventView::OpeningProjectCreated(id, project_name@))
        },
{
    create_opening(ids, openings, events, project_name, None, ParseRequest::Labelplus(labelplus_content))
}

/// Creates an opening project for a project file read from `file_path`: the
/// file is handed on to be parsed, then the project is announced; refused
/// for a blank name.
pub fn create_opening_project_with_bf_and_path(
    ids: &mut IdGenerator,
    openings: &mut OpeningProjectStorage,
    events: &mut Vec<DomainEvent>,
    bf_data: Vec<u8>,
    project_name: String,
    file_path: Option<String>,
) -> (r: CoreResult<ProjectId>)
    requires
        old(openings).wf(),
    ensures
        final(openings).wf(),
        blank_name(project_name@) ==> (r matches Err(e) && is_blank_name_error(e)) && *final(ids) == *old(ids)
            && final(openings)@ == old(openings)@ && final(events)@ == old(events)@,
        !blank_name(project_name@) ==> {
            let id = old(ids).peek();
            &&& r == Ok::<ProjectId, CoreError>(id)
            &&& advanced(*old(ids), *final(ids))
            &&& final(openings)@ == old(openings)@.insert(id, final(openings)@[id])
            &&& fresh_opening(final(openings)@[id], id, project_name@, opt_str_view(file_path))
            &&& event_views(final(events)@) == event_views(old(events)@).push(
                EventView::ParseBfRequested(id, bf_data@),
            ).push(EventView::OpeningProjectCreated(id, project_name@))
        },
{
    create_opening(ids, openings, events, project_name, file_path, ParseRequest::Bf(bf_data))
}

/// Creates an opening project for a project file: the file is handed on to
/// be parsed, then the project is announced; refused for a blank name.
pub fn create_opening_project_with_bf(
    ids: &mut IdGenerator,
    openings: &mut OpeningProjectStorage,
    events: &mut Vec<DomainEvent>,
    bf_data: Vec<u8>,
    project_name: String,
) -> (r: CoreResult<ProjectId>)
    requires
        old(openings).wf(),
    ensures
        final(openings).wf(),
        blank_name(project_name@) ==> (r matches Err(e) && is_blank_name_error(e)) && *final(ids) == *old(ids)
            && final(openings)@ == old(openings)@ && final(events)@ == old(events)@,
        !blank_name(project_name@) ==> {
            let id = old(ids).peek();
            &&& r == Ok::<ProjectId, CoreError>(id)
            &&& advanced(*old(ids), *final(ids))
            &&& final(openings)@ == old(openings)@.insert(id, final(openings)@[id])
            &&& fresh_opening(final(openings)@[id], id, project_name@, None)
            &&& event_views(final(events)@) == event_views(old(events)@).push(
                EventView::ParseBfRequested(id, bf_data@),
            ).push(EventView::OpeningProjectCreated(id, project_name@))
        },
{
    create_opening(ids, openings, events, project_name, None, ParseRequest::Bf(bf_data))
}

/// What the front end is shown of an opening project.
#[derive(Debug)]
pub struct OpeningProjectDTO {
    pub project_id: ProjectId,
    pub project_name: String,
    pub required_images: Vec<String>,
    pub pending_images: Vec<String>,
    pub uploaded_images: Vec<String>,
    pub is_complete: bool,
}

/// The asked names that have an upload, in the file's order.
pub open spec fn uploaded_in_order(req: Seq<Seq<char>>, up: Map<Seq<char>, ImageId>) -> Seq<Seq<char>> {
    req.filter(|n: Seq<char>| up.contains_key(n))
}

/// Whether `info` shows opening project `op` (under `project_id`).
pub open spec fn info_of(info: OpeningProjectDTO, project_id: ProjectId, op: OpeningProject) -> bool {
    &&& info.project_id == project_id
    &&& info.project_name@ == op.project@.name
    &&& strs_view(info.required_images@) == op.required()
    &&& strs_view(info.pending_images@) == op.pending()
    &&& strs_view(info.uploaded_images@) == uploaded_in_order(op.required(), op.uploaded())
    &&& info.is_complete == op.complete()
}

/// What the front end is shown of an opening project, if there is one.
pub fn get_opening_project_info(openings: &OpeningProjectStorage, project_id: ProjectId) -> (r: CoreResult<
    Option<OpeningProjectDTO>,
>)
    requires
        openings.wf(),
    ensures
        match r {
            Ok(Some(info)) => openings@.contains_key(project_id) && info_of(info, project_id, openings@[project_id]),
            Ok(None) => !openings@.contains_key(project_id),
            Err(_) => false,
        },
{
    match openings.get(project_id) {
        Some(op) => {
            let ghost req = op.required();
            let ghost up = op.uploaded();
            let mut uploaded: Vec<String> = Vec::new();
            let mut i: usize = 0;
            while i < op.required_images.len()
                invariant
                    openings@.contains_key(project_id),
                    *op == openings@[project_id],
                    op.wf(),
                    req == op.required(),
                    up == op.uploaded(),
                    i <= req.len(),
                    strs_view(uploaded@) == uploaded_in_order(req.take(i as int), up),
                decreases req.len() - i,
            {
                let ghost before = strs_view(uploaded@);
                assert(req.take(i + 1).drop_last() =~= req.take(i as int));
                proof {
                    reveal(Seq::filter);
                }
                if op.uploaded_images.contains_key(op.required_images[i].as_str()) {
                    uploaded.push(op.required_images[i].clone());
                    assert(strs_view(uploaded@) =~= before.push(req[i as int]));
                }
                i = i + 1;
            }
            assert(req.take(req.len() as int) =~= req);
            Ok(
                Some(
                    OpeningProjectDTO {
                        project_id,
                        project_name: op.project.name.clone(),
                        required_images: clone_strings(&op.required_images),
                        pending_images: clone_strings(&op.pending_images),
                        uploaded_images: uploaded,
                        is_complete: op.is_complete(),
                    },
                ),
            )
        },
        None => Ok(None),
    }
}

/// The name an uploaded page goes by: the name given, else the file name of
/// its path, else `image_{id}`.
pub open spec fn upload_name(image_id: ImageId, name: Option<Seq<char>>, path: Option<Seq<char>>) -> Seq<char> {
    match name {
        Some(n) => n,
        None => match path {
            Some(p) => match path_file_name_of(p) {
                Some(f) => f,
                None => "image_"@ + decimal(image_id as nat),
            },
            None => "image_"@ + decimal(image_id as nat),
        },
    }
}

fn upload_name_of(image_id: ImageId, name: Option<String>, path: Option<String>) -> (r: String)
    ensures
        r@ == upload_name(image_id, opt_str_view(name), opt_str_view(path)),
{
    match name {
        Some(n) => n,
        None => {
            let from_path = match path {
                Some(p) => path_file_name(p.as_str()),
                None => None,
            };
            match from_path {
                Some(f) => f,
                None => {
                    let mut out: Vec<char> = Vec::new();
                    push_str(&mut out, "image_");
                    push_decimal(&mut out, image_id as u64);
                    assert(out@ =~= "image_"@ + decimal(image_id as nat));
                    string_from_chars(&out)
                },
            }
        },
    }
}

/// The opening projects after a stored page named by `name` / `path` is
/// offered to opening project `project_id`: when the project wants it (it
/// asks for no particular pages, or for this one), the page is recorded as
/// uploaded under the asked name it matches, leaves the pending names and
/// joins the project's pages; otherwise nothing changes.
pub open spec fn image_recorded(
    o: OpeningProjectStorage,
    f: OpeningProjectStorage,
    project_id: ProjectId,
    image_id: ImageId,
    name: Option<Seq<char>>,
    path: Option<Seq<char>>,
) -> bool {
    let n = upload_name(image_id, name, path);
    let op = o@[project_id];
    if o@.contains_key(project_id) && (op.required().len() == 0 || listed(op.required(), n)) {
        let op2 = f@[project_id];
        &&& f@ =~= o@.insert(project_id, op2)
        &&& op2.required() == op.required()
        &&& op2.uploaded() == op.uploaded().insert(matched_name(op.required(), n), image_id)
        &&& op2.pending() == keep_unmatched(op.pending(), normalized(n))
        &&& op2.project@ == (ProjectView {
            image_ids: if op.project@.image_ids.contains(image_id) {
                op.project@.image_ids
            } else {
                op.project@.image_ids.push(image_id)
            },
            ..op.project@
        })
        &&& op2.labelplus_data == op.labelplus_data
        &&& op2.bf_data == op.bf_data
    } else {
        f@ =~= o@
    }
}

/// Records an uploaded page in an opening project when the project wants it
/// (see `OpeningProject::mark_image_uploaded`); nothing happens otherwise.
pub fn add_image_to_opening_project(
    openings: &mut OpeningProjectStorage,
    project_id: ProjectId,
    image_id: ImageId,
    name: Option<String>,
    path: Option<String>,
) -> (r: CoreResult<()>)
    requires
        old(openings).wf(),
    ensures
        final(openings).wf(),
        r is Ok,
        image_recorded(*old(openings), *final(openings), project_id, image_id, opt_str_view(name), opt_str_view(path)),
{
    let img_name = upload_name_of(image_id, name, path);
    match openings.remove(project_id) {
        Ok(Some(mut op)) => {
            if op.is_image_required(img_name.as_str()) {
                op.mark_image_uploaded(img_name, image_id);
            }
            let _ = openings.insert(project_id, op);
            proof {
                if !(old(openings)@[project_id].required().len() == 0 || listed(
                    old(openings)@[project_id].required(),
                    upload_name(image_id, opt_str_view(name), opt_str_view(path)),
                )) {
                    assert(openings@ =~= old(openings)@);
                }
            }
        },
        _ => {},
    }
    Ok(())
}

/// The name a stored page goes by in an opening project (empty when it has
/// none).
pub open spec fn page_name(img: ImageView) -> Seq<char> {
    match img.metadata.name {
        Some(n) => n,
        None => Seq::empty(),
    }
}

/// A sweep over the pages `ids` of an opening project asking for `req`:
/// each stored page that the project wants and that has no upload under its
/// name is recorded as uploaded; each stored page it does not want is noted
/// for removal, with its name. Gives the uploads, the pending names and the
/// pages to remove.
pub open spec fn flush_scan(
    req: Seq<Seq<char>>,
    ids: Seq<ImageId>,
    images: Map<ImageId, ImageView>,
    up: Map<Seq<char>, ImageId>,
    pending: Seq<Seq<char>>,
) -> (Map<Seq<char>, ImageId>, Seq<Seq<char>>, Seq<(ImageId, Seq<char>)>)
    decreases ids.len(),
{
    if ids.len() == 0 {
        (up, pending, Seq::empty())
    } else {
        let (u, p, rem) = flush_scan(req, ids.drop_last(), images, up, pending);
        let id = ids.last();
        if !images.contains_key(id) {
            (u, p, rem)
        } else {
            let name = page_name(images[id]);
            if req.len() == 0 || listed(req, name) {
                if !u.contains_key(name) {
                    (u.insert(matched_name(req, name), id), keep_unmatched(p, normalized(name)), rem)
                } else {
                    (u, p, rem)
                }
            } else {
                (u, p, rem.push((id, name)))
            }
        }
    }
}

/// The names of the noted pages.
pub open spec fn noted_names(rem: Seq<(ImageId, Seq<char>)>) -> Set<Seq<char>> {
    rem.map_values(|e: (ImageId, Seq<char>)| e.1).to_set()
}

/// The noted pages.
pub open spec fn noted_ids(rem: Seq<(ImageId, Seq<char>)>) -> Set<ImageId> {
    rem.map_values(|e: (ImageId, Seq<char>)| e.0).to_set()
}

/// Every stored image's size estimate fits in a `usize`.
pub open spec fn sizes_fit(images: Map<ImageId, ImageView>) -> bool {
    forall|id: ImageId| #[trigger] images.contains_key(id) ==> estimated_size_of(images[id]) <= usize::MAX
}

/// The stores after opening project `project_id` (which exists) is brought
/// in line with its stored pages (see `flush_scan`).
pub open spec fn pages_flushed(
    o: OpeningProjectStorage,
    f: OpeningProjectStorage,
    oi: ImageStorageView,
    fi: ImageStorageView,
    project_id: ProjectId,
) -> bool {
    let op = o@[project_id];
    let scan = flush_scan(op.required(), op.project@.image_ids, oi.images, op.uploaded(), op.pending());
    let op2 = f@[project_id];
    &&& f@ =~= o@.insert(project_id, op2)
    &&& op2.required() == op.required()
    &&& op2.pending() == scan.1
    &&& op2.uploaded() == scan.0.remove_keys(noted_names(scan.2))
    &&& op2.project@ == op.project@
    &&& op2.labelplus_data == op.labelplus_data
    &&& op2.bf_data == op.bf_data
    &&& fi.images =~= oi.images.remove_keys(noted_ids(scan.2))
    &&& fi.max_memory == oi.max_memory
}

/// Brings an opening project in line with its stored pages (see
/// `flush_scan`): wanted pages are recorded as uploaded, unwanted ones lose
/// their upload entry and are deleted. `Ok(false)` when there is no such
/// opening project.
pub fn flush_opening_project_images(
    images: &mut ImageStorage,
    openings: &mut OpeningProjectStorage,
    project_id: ProjectId,
) -> (r: CoreResult<bool>)
    requires
        old(openings).wf(),
        sizes_fit(old(images)@.images),
    ensures
        final(openings).wf(),
        r == Ok::<bool, CoreError>(old(openings)@.contains_key(project_id)),
        !old(openings)@.contains_key(project_id) ==> final(openings)@ == old(openings)@ && final(images)@
            == old(images)@,
        old(openings)@.contains_key(project_id) ==> pages_flushed(
            *old(openings),
            *final(openings),
            old(images)@,
            final(images)@,
            project_id,
        ),
{
    let mut op = match openings.remove(project_id) {
        Ok(Some(op)) => op,
        _ => {
            return Ok(false);
        },
    };
    let ghost op0 = op;
    let ghost req = op.required();
    let ghost imgs0 = images@.images;
    let ids = op.project.image_ids.clone();
    let mut removed: Vec<(ImageId, String)> = Vec::new();
    let mut i: usize = 0;
    while i < ids.len()
        invariant
            op.wf(),
            i <= ids@.len(),
            ids@ == op0.project@.image_ids,
            req == op0.required(),
            op.required() == req,
            op.project@ == op0.project@,
            op.labelplus_data == op0.labelplus_data,
            op.bf_data == op0.bf_data,
            images@.images == imgs0,
            (op.uploaded(), op.pending(), removed@.map_values(|e: (ImageId, String)| (e.0, e.1@))) == flush_scan(
                req,
                ids@.take(i as int),
                imgs0,
                op0.uploaded(),
                op0.pending(),
            ),
        decreases ids@.len() - i,
    {
        let id = ids[i];
        assert(ids@.take(i + 1).drop_last() =~= ids@.take(i as int));
        let name = match images.get(id) {
            Some(img) => Some(
                match &img.metadata.name {
                    Some(n) => n.clone(),
                    None => String::new(),
                },
            ),
            None => None,
        };
        match name {
            Some(name) => {
                if op.is_image_required(name.as_str()) {
                    if !op.uploaded_images.contains_key(name.as_str()) {
                        assert(op.project@.image_ids.contains(id)) by {
                            assert(ids@[i as int] == id);
                        }
                        op.mark_image_uploaded(name, id);
                    }
                } else {
                    let ghost before = removed@.map_values(|e: (ImageId, String)| (e.0, e.1@));
                    let entry = (id, name);
                    removed.push(entry);
                    assert(removed@.map_values(|e: (ImageId, String)| (e.0, e.1@)) =~= before.push(
                        (id, page_name(imgs0[id])),
                    ));
                }
            },
            None => {},
        }
        i = i + 1;
    }
    assert(ids@.take(ids@.len() as int) =~= ids@);
    let ghost scan = flush_scan(req, ids@, imgs0, op0.uploaded(), op0.pending());
    let ghost rem = removed@.map_values(|e: (ImageId, String)| (e.0, e.1@));
    let mut k: usize = 0;
    while k < removed.len()
        invariant
            op.wf(),
            k <= removed@.len(),
            rem == removed@.map_values(|e: (ImageId, String)| (e.0, e.1@)),
            op.required() == req,
            op.pending() == scan.1,
            op.project@ == op0.project@,
            op.labelplus_data == op0.labelplus_data,
            op.bf_data == op0.bf_data,
            op.uploaded() == scan.0.remove_keys(noted_names(rem.take(k as int))),
            images@.images == imgs0.remove_keys(noted_ids(rem.take(k as int))),
            images@.max_memory == old(images)@.max_memory,
            sizes_fit(images@.images),
        decreases removed@.len() - k,
    {
        let ghost names_before = noted_names(rem.take(k as int));
        let ghost ids_before = noted_ids(rem.take(k as int));
        let _ = op.remove_unneeded_image(removed[k].1.as_str());
        let _ = delete_image_storage(images, removed[k].0);
        proof {
            let e = rem[k as int];
            assert(rem.take(k + 1) =~= rem.take(k as int).push(e));
            assert(rem.take(k + 1).map_values(|e: (ImageId, Seq<char>)| e.1) =~= rem.take(k as int).map_values(
                |e: (ImageId, Seq<char>)| e.1,
            ).push(e.1));
            assert(rem.take(k + 1).map_values(|e: (ImageId, Seq<char>)| e.0) =~= rem.take(k as int).map_values(
                |e: (ImageId, Seq<char>)| e.0,
            ).push(e.0));
            rem.take(k as int).map_values(|e: (ImageId, Seq<char>)| e.1).lemma_push_to_set_commute(e.1);
            rem.take(k as int).map_values(|e: (ImageId, Seq<char>)| e.0).lemma_push_to_set_commute(e.0);
            assert(op.uploaded() =~= scan.0.remove_keys(names_before.insert(e.1)));
            assert(images@.images =~= imgs0.remove_keys(ids_before.insert(e.0)));
        }
        k = k + 1;
    }
    assert(rem.take(rem.len() as int) =~= rem);
    let _ = openings.insert(project_id, op);
    Ok(true)
}

/// The error for finalizing a project with pages still missing.
pub open spec fn is_incomplete_error(e: CoreError) -> bool {
    e matches CoreError::ValidationFailed { field, reason } && field@ == "images"@ && reason@
        == "还有图片未上传完成"@
}

/// The project an opening project becomes: when pages were asked for, its
/// pages are the uploads of the asked names in the file's order.
pub open spec fn finalized_project(op: OpeningProject) -> ProjectView {
    if op.required().len() == 0 {
        op.project@
    } else {
        ProjectView {
            image_ids: crate::opening_project::ordered_uploads(op.required(), op.uploaded()),
            ..op.project@
        }
    }
}

/// The steps of finalizing `op` as project `pid`: the project is stored
/// (`o` to `s1`), the kept LabelPlus file, if any, is imported (`s1` to
/// `s2`), then the kept project file, if any (`s2` to `f`).
pub open spec fn finalize_steps(o: AppState, s1: AppState, s2: AppState, f: AppState, pid: ProjectId, op: OpeningProject) -> bool {
    &&& s1.projects@ == o.projects@.insert(pid, finalized_project(op))
    &&& s1.images@ == o.images@
    &&& s1.markers@ == o.markers@
    &&& s1.thumbnails@ == o.thumbnails@
    &&& s1.bunny_cache@ == o.bunny_cache@
    &&& s1.project_ids == o.project_ids
    &&& s1.image_ids == o.image_ids
    &&& s1.marker_ids == o.marker_ids
    &&& match op.labelplus_data {
        Some(d) => labelplus_imported(s1, s2, pid, d),
        None => s2 == s1,
    }
    &&& match op.bf_data {
        Some(b) => bf_imported(s2, f, pid, b),
        None => f == s2,
    }
}

/// The stores after complete opening project `project_id` becomes a
/// project: it leaves the opening projects, the steps of `finalize_steps`
/// are taken and the event is published.
pub open spec fn finalized(
    o: AppState,
    f: AppState,
    oo: OpeningProjectStorage,
    fo: OpeningProjectStorage,
    oe: Seq<EventView>,
    fe: Seq<EventView>,
    project_id: ProjectId,
) -> bool {
    &&& fo@ == oo@.remove(project_id)
    &&& exists|s1: AppState, s2: AppState| #[trigger] finalize_steps(o, s1, s2, f, project_id, oo@[project_id])
    &&& fe == oe.push(EventView::OpeningProjectFinalized(project_id))
}

/// Turns a complete opening project into a project: it leaves the opening
/// projects, the project is stored (see `finalized_project`), the kept
/// files' markers are imported and the event is published. Refused, with
/// nothing changed, while asked pages are missing; `Ok(false)` when there is
/// no such opening project.
pub fn finalize_opening_project(
    state: &mut AppState,
    openings: &mut OpeningProjectStorage,
    events: &mut Vec<DomainEvent>,
    project_id: ProjectId,
) -> (r: CoreResult<bool>)
    requires
        old(openings).wf(),
    ensures
        final(openings).wf(),
        !old(openings)@.contains_key(project_id) ==> r == Ok::<bool, CoreError>(false) && *final(state) == *old(
            state,
        ) && final(openings)@ == old(openings)@ && final(events)@ == old(events)@,
        old(openings)@.contains_key(project_id) && !old(openings)@[project_id].complete() ==> (r matches Err(e)
            && is_incomplete_error(e)) && *final(state) == *old(state) && final(openings)@ == old(openings)@
            && final(events)@ == old(events)@,
        old(openings)@.contains_key(project_id) && old(openings)@[project_id].complete() ==> r == Ok::<
            bool,
            CoreError,
        >(true) && finalized(
            *old(state),
            *final(state),
            *old(openings),
            *final(openings),
            event_views(old(events)@),
            event_views(final(events)@),
            project_id,
        ),
{
    let mut op = match openings.remove(project_id) {
        Ok(Some(op)) => op,
        _ => {
            return Ok(false);
        },
    };
    let ghost op0 = op;
    if !op.is_complete() {
        let _ = openings.insert(project_id, op);
        assert(openings@ =~= old(openings)@);
        return Err(
            CoreError::ValidationFailed { field: string_of("images"), reason: string_of("还有图片未上传完成") },
        );
    }
    let project = op.prepare_finalize();
    state.projects.insert(project_id, project);
    let ghost s1 = *state;
    match op.labelplus_data {
        Some(d) => {
            let _ = import_labelplus_data_direct(state, project_id, d);
        },
        None => {},
    }
    let ghost s2 = *state;
    match op.bf_data {
        Some(b) => {
            let _ = import_bf_data_direct(state, project_id, b);
        },
        None => {},
    }
    assert(finalize_steps(*old(state), s1, s2, *state, project_id, op0));
    let ghost before = event_views(events@);
    events.push(DomainEvent::OpeningProjectFinalized(project_id));
    assert(event_views(events@) =~= before.push(EventView::OpeningProjectFinalized(project_id)));
    Ok(true)
}

/// The stores after opening project `project_id` (which exists) is
/// dropped: it leaves, its stored pages are deleted and the event is
/// published.
pub open spec fn opening_deleted(
    oo: OpeningProjectStorage,
    fo: OpeningProjectStorage,
    oi: ImageStorageView,
    fi: ImageStorageView,
    oe: Seq<EventView>,
    fe: Seq<EventView>,
    project_id: ProjectId,
) -> bool {
    &&& fo@ == oo@.remove(project_id)
    &&& fi.images == oi.images.remove_keys(oo@[project_id].project@.image_ids.to_set())
    &&& fi.max_memory == oi.max_memory
    &&& fe == oe.push(EventView::OpeningProjectDeleted(project_id))
}

/// Drops an opening project: its stored pages are deleted and the event is
/// published. `Ok(false)` when there is no such opening project.
pub fn delete_opening_project(
    images: &mut ImageStorage,
    openings: &mut OpeningProjectStorage,
    events: &mut Vec<DomainEvent>,
    project_id: ProjectId,
) -> (r: CoreResult<bool>)
    requires
        old(openings).wf(),
        sizes_fit(old(images)@.images),
    ensures
        final(openings).wf(),
        r == Ok::<bool, CoreError>(old(openings)@.contains_key(project_id)),
        !old(openings)@.contains_key(project_id) ==> final(openings)@ == old(openings)@ && final(images)@
            == old(images)@ && final(events)@ == old(events)@,
        old(openings)@.contains_key(project_id) ==> opening_deleted(
            *old(openings),
            *final(openings),
            old(images)@,
            final(images)@,
            event_views(old(events)@),
            event_views(final(events)@),
            project_id,
        ),
{
    let op = match openings.remove(project_id) {
        Ok(Some(op)) => op,
        _ => {
            return Ok(false);
        },
    };
    let ids = op.project.image_ids;
    let ghost imgs0 = images@.images;
    let mut i: usize = 0;
    while i < ids.len()
        invariant
            i <= ids@.len(),
            images@.images == imgs0.remove_keys(ids@.take(i as int).to_set()),
            images@.max_memory == old(images)@.max_memory,
            sizes_fit(images@.images),
        decreases ids@.len() - i,
    {
        let ghost before = ids@.take(i as int).to_set();
        let _ = delete_image_storage(images, ids[i]);
        proof {
            assert(ids@.take(i + 1) =~= ids@.take(i as int).push(ids@[i as int]));
            ids@.take(i as int).lemma_push_to_set_commute(ids@[i as int]);
            assert(images@.images =~= imgs0.remove_keys(before.insert(ids@[i as int])));
        }
        i = i + 1;
    }
    assert(ids@.take(ids@.len() as int) =~= ids@);
    let ghost evs = event_views(events@);
    events.push(DomainEvent::OpeningProjectDeleted(project_id));
    assert(event_views(events@) =~= evs.push(EventView::OpeningProjectDeleted(project_id)));
    Ok(true)
}

} // verus!
