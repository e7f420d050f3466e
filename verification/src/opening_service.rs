use vstd::prelude::*;
use vstd::utf8::{decode_utf8, valid_utf8};
use crate::ids::{IdGenerator, ImageId, ProjectId};
use crate::error::{CoreError, CoreResult};
use crate::events::{DomainEvent, EventView, event_views};
use crate::opening_project::OpeningProjectStorage;
use crate::opening_handlers::{
    OpeningProjectDTO,
    advanced,
    blank_name,
    finalized,
    fresh_opening,
    image_recorded,
    info_of,
    is_blank_name_error,
    is_incomplete_error,
    opening_deleted,
    pages_flushed,
    sizes_fit,
    create_empty_opening_project,
    create_opening_project_with_bf,
    create_opening_project_with_bf_and_path,
    create_opening_project_with_labelplus,
    get_opening_project_info,
    add_image_to_opening_project,
    flush_opening_project_images,
    finalize_opening_project,
    delete_opening_project,
};
use crate::project::opt_str_view;
use crate::state::{AppState, ImageStorage};
use crate::text::{concat_str, str_equal};
use crate::strmap::StrMap;
use crate::opening_project::OpeningProject;
use crate::labelplus::{LpMarkerView, name_views, type_views};
use crate::labelplus_points::with_points;

verus! {

/// `s` in lower case, as Unicode defines it.
pub uninterp spec fn lowercased(s: Seq<char>) -> Seq<char>;

/// The message of the error that decoding the bytes `b` as UTF-8 reports.
pub uninterp spec fn utf8_error_text(b: Seq<u8>) -> Seq<char>;

/// `str::to_lowercase`. Claimed: the result is `lowercased` of the text.
#[verifier::external_body]
fn lowercase(s: &str) -> (r: String)
    ensures
        r@ == lowercased(s@),
{
    s.to_lowercase()
}

/// `String::from_utf8`. Claimed: it succeeds exactly on valid UTF-8, with
/// the decoded text; otherwise the error's message is `utf8_error_text` of
/// the bytes.
#[verifier::external_body]
pub(crate) fn utf8_text(data: Vec<u8>) -> (r: Result<String, String>)
    ensures
        match r {
            Ok(s) => valid_utf8(data@) && s@ == decode_utf8(data@),
            Err(m) => !valid_utf8(data@) && m@ == utf8_error_text(data@),
        },
{
    match String::from_utf8(data) {
        Ok(s) => Ok(s),
        Err(e) => Err(e.to_string()),
    }
}

/// Why opening a file as a project failed: an error of the stores, or a
/// message about the file itself.
#[derive(Debug)]
pub enum OpenError {
    Core(CoreError),
    Message(String),
}

/// A file handed on to be parsed, by value.
pub enum FileRequest {
    Nothing,
    Labelplus(Seq<char>),
    Bf(Seq<u8>),
}

/// The event that hands the file on for project `id`, if any.
pub open spec fn request_notice(id: ProjectId, req: FileRequest) -> Option<EventView> {
    match req {
        FileRequest::Nothing => None,
        FileRequest::Labelplus(c) => Some(EventView::ParseLabelplusRequested(id, c)),
        FileRequest::Bf(d) => Some(EventView::ParseBfRequested(id, d)),
    }
}

/// The outcome of creating an opening project named `name` (with file path
/// `path`, handing on `req`): for a blank name the refusal (`blank_err`)
/// and nothing changed; otherwise the next identifier (`ok`), a fresh
/// opening project under it, and the notices.
pub open spec fn opening_created(
    oi: IdGenerator,
    fi: IdGenerator,
    oo: OpeningProjectStorage,
    fo: OpeningProjectStorage,
    oe: Seq<EventView>,
    fe: Seq<EventView>,
    name: Seq<char>,
    path: Option<Seq<char>>,
    req: FileRequest,
    ok: Option<ProjectId>,
    blank_err: bool,
) -> bool {
    if blank_name(name) {
        &&& blank_err
        &&& fi == oi
        &&& fo@ =~= oo@
        &&& fe =~= oe
    } else {
        let id = oi.peek();
        &&& ok == Some(id)
        &&& advanced(oi, fi)
        &&& fo@ =~= oo@.insert(id, fo@[id])
        &&& fresh_opening(fo@[id], id, name, path)
        &&& fe =~= (match request_notice(id, req) {
            Some(e) => oe.push(e),
            None => oe,
        }).push(EventView::OpeningProjectCreated(id, name))
    }
}

/// The identifier of a successful result.
pub open spec fn ok_of<E>(r: Result<u32, E>) -> Option<u32> {
    match r {
        Ok(x) => Some(x),
        Err(_) => None,
    }
}

/// Whether `r` is the refusal of a blank name.
pub open spec fn blank_refusal(r: Result<u32, CoreError>) -> bool {
    r matches Err(e) && is_blank_name_error(e)
}

/// Whether `r` is the refusal of a blank name.
pub open spec fn blank_open_refusal(r: Result<u32, OpenError>) -> bool {
    r matches Err(OpenError::Core(e)) && is_blank_name_error(e)
}

/// Whether `r` is the file error with message `m`.
pub open spec fn is_message(r: Result<u32, OpenError>, m: Seq<char>) -> bool {
    r matches Err(OpenError::Message(t)) && t@ == m
}

/// Opening projects: projects being assembled from a file and uploaded
/// pages, until they are complete.
pub struct OpeningProjectService;

impl OpeningProjectService {
    /// The service.
    pub fn new() -> (s: Self) {
        OpeningProjectService
    }

    /// Creates an opening project that asks for no particular pages.
    pub fn create_empty_opening_project(
        &self,
        ids: &mut IdGenerator,
        openings: &mut OpeningProjectStorage,
        events: &mut Vec<DomainEvent>,
        project_name: String,
    ) -> (r: Result<u32, CoreError>)
        requires
            old(openings).wf(),
        ensures
            final(openings).wf(),
            opening_created(
                *old(ids),
                *final(ids),
                *old(openings),
                *final(openings),
                event_views(old(events)@),
                event_views(final(events)@),
                project_name@,
                None,
                FileRequest::Nothing,
                ok_of(r),
                blank_refusal(r),
            ),
    {
        create_empty_opening_project(ids, openings, events, project_name)
    }

    /// Creates an opening project for a project file given as bytes, whose
    /// kind comes from its extension (compared in lower case): `bf` is a
    /// project file; `txt` and `lp` are LabelPlus files, which must be
    /// UTF-8; any other extension is refused. Refusals change nothing.
    pub fn create_opening_project_from_binary(
        &self,
        ids: &mut IdGenerator,
        openings: &mut OpeningProjectStorage,
        events: &mut Vec<DomainEvent>,
        data: Vec<u8>,
        file_extension: String,
        project_name: String,
    ) -> (r: Result<u32, OpenError>)
        requires
            old(openings).wf(),
        ensures
            final(openings).wf(),
            ({
                let ext = lowercased(file_extension@);
                let unchanged = *final(ids) == *old(ids) && final(openings)@ == old(openings)@ && final(events)@
                    == old(events)@;
                if ext == "bf"@ {
                    opening_created(
                        *old(ids),
                        *final(ids),
                        *old(openings),
                        *final(openings),
                        event_views(old(events)@),
                        event_views(final(events)@),
                        project_name@,
                        None,
                        FileRequest::Bf(data@),
                        ok_of(r),
                        blank_open_refusal(r),
                    )
                } else if ext == "txt"@ || ext == "lp"@ {
                    if valid_utf8(data@) {
                        opening_created(
                            *old(ids),
                            *final(ids),
                            *old(openings),
                            *final(openings),
                            event_views(old(events)@),
                            event_views(final(events)@),
                            project_name@,
                            None,
                            FileRequest::Labelplus(decode_utf8(data@)),
                            ok_of(r),
                            blank_open_refusal(r),
                        )
                    } else {
                        is_message(r, "Invalid UTF-8: "@ + utf8_error_text(data@)) && unchanged
                    }
                } else {
                    is_message(r, "Unsupported file type: ."@ + ext) && unchanged
                }
            }),
    {
        let extension = lowercase(file_extension.as_str());
        proof {
            reveal_strlit("bf");
            reveal_strlit("txt");
            reveal_strlit("lp");
        }
        if str_equal(extension.as_str(), "bf") {
            match self.create_opening_project_from_bf(ids, openings, events, data, project_name) {
                Ok(id) => Ok(id),
                Err(e) => Err(OpenError::Core(e)),
            }
        } else if str_equal(extension.as_str(), "txt") || str_equal(extension.as_str(), "lp") {
            match utf8_text(data) {
                Ok(content) => match self.create_opening_project_from_labelplus(ids, openings, events, content, project_name) {
                    Ok(id) => Ok(id),
                    Err(e) => Err(OpenError::Core(e)),
                },
                Err(msg) => {
                    let m = concat_str("Invalid UTF-8: ", msg.as_str());
                    proof {
                        reveal_strlit("Invalid UTF-8: ");
                    }
                    Err(OpenError::Message(m))
                },
            }
        } else {
            let m = concat_str("Unsupported file type: .", extension.as_str());
            proof {
                reveal_strlit("Unsupported file type: .");
            }
            Err(OpenError::Message(m))
        }
    }

    /// Creates an opening project for a project file.
    pub fn create_opening_project_from_bf(
        &self,
        ids: &mut IdGenerator,
        openings: &mut OpeningProjectStorage,
        events: &mut Vec<DomainEvent>,
        data: Vec<u8>,
        project_name: String,
    ) -> (r: Result<u32, CoreError>)
        requires
            old(openings).wf(),
        ensures
            final(openings).wf(),
            opening_created(
                *old(ids),
                *final(ids),
                *old(openings),
                *final(openings),
                event_views(old(events)@),
                event_views(final(events)@),
                project_name@,
                None,
                FileRequest::Bf(data@),
                ok_of(r),
                blank_refusal(r),
            ),
    {
        create_opening_project_with_bf(ids, openings, events, data, project_name)
    }

    /// Creates an opening project for a project file read from `file_path`.
    pub fn create_opening_project_from_bf_with_path(
        &self,
        ids: &mut IdGenerator,
        openings: &mut OpeningProjectStorage,
        events: &mut Vec<DomainEvent>,
        data: Vec<u8>,
        project_name: String,
        file_path: Option<String>,
    ) -> (r: Result<u32, CoreError>)
        requires
            old(openings).wf(),
        ensures
            final(openings).wf(),
            opening_created(
                *old(ids),
                *final(ids),
                *old(openings),
                *final(openings),
                event_views(old(events)@),
                event_views(final(events)@),
                project_name@,
                opt_str_view(file_path),
                FileRequest::Bf(data@),
                ok_of(r),
                blank_refusal(r),
            ),
    {
        create_opening_project_with_bf_and_path(ids, openings, events, data, project_name, file_path)
    }

    /// Creates an opening project for a LabelPlus file.
    pub fn create_opening_project_from_labelplus(
        &self,
        ids: &mut IdGenerator,
        openings: &mut OpeningProjectStorage,
        events: &mut Vec<DomainEvent>,
        content: String,
        project_name: String,
    ) -> (r: Result<u32, CoreError>)
        requires
            old(openings).wf(),
        ensures
            final(openings).wf(),
            opening_created(
                *old(ids),
                *final(ids),
                *old(openings),
                *final(openings),
                event_views(old(events)@),
                event_views(final(events)@),
                project_name@,
                None,
                FileRequest::Labelplus(content@),
                ok_of(r),
                blank_refusal(r),
            ),
    {
        create_opening_project_with_labelplus(ids, openings, events, content, project_name)
    }

    /// What the front end is shown of an opening project, if there is one.
    pub fn get_opening_project_info(&self, openings: &OpeningProjectStorage, project_id: u32) -> (r: Option<
        OpeningProjectDTO,
    >)
        requires
            openings.wf(),
        ensures
            match r {
                Some(info) => openings@.contains_key(project_id) && info_of(info, project_id, openings@[project_id]),
                None => !openings@.contains_key(project_id),
            },
    {
        match get_opening_project_info(openings, project_id) {
            Ok(info) => info,
            Err(_) => None,
        }
    }

    /// Whether there is an opening project under this identifier.
    pub fn is_opening_project(&self, openings: &OpeningProjectStorage, project_id: u32) -> (r: bool)
        ensures
            r == openings@.contains_key(project_id),
    {
        openings.contains(project_id)
    }

    /// Offers a stored page to an opening project (see `image_recorded`).
    pub fn add_image_to_opening_project(
        &self,
        openings: &mut OpeningProjectStorage,
        project_id: u32,
        image_id: u32,
        name: Option<String>,
        path: Option<String>,
    )
        requires
            old(openings).wf(),
        ensures
            final(openings).wf(),
            image_recorded(*old(openings), *final(openings), project_id, image_id, opt_str_view(name), opt_str_view(path)),
    {
        let _ = add_image_to_opening_project(openings, project_id, image_id, name, path);
    }

    /// Brings an opening project in line with its stored pages (see
    /// `pages_flushed`); whether there was such a project.
    pub fn flush_opening_project_images(
        &self,
        images: &mut ImageStorage,
        openings: &mut OpeningProjectStorage,
        project_id: u32,
    ) -> (r: bool)
        requires
            old(openings).wf(),
            sizes_fit(old(images)@.images),
        ensures
            final(openings).wf(),
            r == old(openings)@.contains_key(project_id),
            !r ==> final(openings)@ == old(openings)@ && final(images)@ == old(images)@,
            r ==> pages_flushed(*old(openings), *final(openings), old(images)@, final(images)@, project_id),
    {
        match flush_opening_project_images(images, openings, project_id) {
            Ok(result) => result,
            Err(_) => false,
        }
    }

    /// Turns a complete opening project into a project (see `finalized`);
    /// whether that happened. Nothing changes when there is no such opening
    /// project or pages are still missing.
    pub fn finalize_opening_project(
        &self,
        state: &mut AppState,
        openings: &mut OpeningProjectStorage,
        events: &mut Vec<DomainEvent>,
        project_id: u32,
    ) -> (r: bool)
        requires
            old(openings).wf(),
        ensures
            final(openings).wf(),
            r == (old(openings)@.contains_key(project_id) && old(openings)@[project_id].complete()),
            !r ==> *final(state) == *old(state) && final(openings)@ == old(openings)@ && final(events)@ == old(
                events,
            )@,
            r ==> finalized(
                *old(state),
                *final(state),
                *old(openings),
                *final(openings),
                event_views(old(events)@),
                event_views(final(events)@),
                project_id,
            ),
    {
        match finalize_opening_project(state, openings, events, project_id) {
            Ok(result) => result,
            Err(_) => false,
        }
    }

    /// Drops an opening project with its stored pages (see
    /// `opening_deleted`); whether there was one.
    pub fn delete_opening_project(
        &self,
        images: &mut ImageStorage,
        openings: &mut OpeningProjectStorage,
        events: &mut Vec<DomainEvent>,
        project_id: u32,
    ) -> (r: bool)
        requires
            old(openings).wf(),
            sizes_fit(old(images)@.images),
        ensures
            final(openings).wf(),
            r == old(openings)@.contains_key(project_id),
            !r ==> final(openings)@ == old(openings)@ && final(images)@ == old(images)@ && final(events)@ == old(
                events,
            )@,
            r ==> opening_deleted(
                *old(openings),
                *final(openings),
                old(images)@,
                final(images)@,
                event_views(old(events)@),
                event_views(final(events)@),
                project_id,
            ),
    {
        match delete_opening_project(images, openings, events, project_id) {
            Ok(result) => result,
            Err(_) => false,
        }
    }
    /// Sets the points of the markers of an opening project's LabelPlus
    /// file from their coordinate texts through `points` (see
    /// `LabelplusData::set_points`); nothing else changes, and nothing at
    /// all when there is no such project or it holds no LabelPlus file.
    pub fn set_labelplus_points(&self, openings: &mut OpeningProjectStorage, project_id: u32, points: &StrMap<u64>)
        requires
            old(openings).wf(),
            points.wf(),
        ensures
            final(openings).wf(),
            ({
                let op = old(openings)@[project_id];
                if old(openings)@.contains_key(project_id) && op.labelplus_data is Some {
                    let d = op.labelplus_data->Some_0;
                    let op2 = final(openings)@[project_id];
                    &&& final(openings)@ == old(openings)@.insert(project_id, op2)
                    &&& op2 == (OpeningProject { labelplus_data: op2.labelplus_data, ..op })
                    &&& op2.labelplus_data matches Some(d2) && {
                        &&& d2.markers_by_image.keys() == d.markers_by_image.keys()
                        &&& d2.markers_by_image.map() == d.markers_by_image.map().map_values(
                            |ms: Seq<LpMarkerView>| with_points(ms, points.map()),
                        )
                        &&& type_views(d2.marker_types@) == type_views(d.marker_types@)
                        &&& name_views(d2.image_order@) == name_views(d.image_order@)
                    }
                } else {
                    final(openings)@ == old(openings)@
                }
            }),
    {
        match openings.remove(project_id) {
            Ok(Some(mut op)) => {
                let ghost op0 = op;
                let lp = op.labelplus_data.take();
                match lp {
                    Some(mut d) => {
                        d.set_points(points);
                        op.labelplus_data = Some(d);
                    },
                    None => {
                        op.labelplus_data = None;
                    },
                }
                let _ = openings.insert(project_id, op);
                proof {
                    if op0.labelplus_data is None {
                        assert(op == op0);
                        assert(openings@ =~= old(openings)@);
                    }
                }
            },
            _ => {
                assert(openings@ =~= old(openings)@);
            },
        }
    }
}

} // verus!
