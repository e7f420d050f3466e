use vstd::prelude::*;
use crate::error::{CoreError, CoreResult};
use crate::ids::{IdGenerator, ImageId, ProjectId};
use crate::language::Language;
use crate::events::{DomainEvent, EventView, event_views};
use crate::dto::{ImageDTO, ImageMetadataDTO};
use crate::image::{ImageView, dto_describes};
use crate::project::{
    Project,
    ProjectDTO,
    ProjectView,
    dto_view,
    lists_values,
    push_unique,
    create_project_storage,
    get_project_storage,
    get_all_projects_storage,
    update_project_name_storage,
    update_project_languages_storage,
    delete_project_storage,
    project_exists_storage,
    get_project_image_ids_storage,
    add_image_to_project_storage,
    remove_image_from_project_storage,
    reorder_project_images_storage,
    find_project_by_image_storage,
    clear_project_images_storage,
    clear_all_projects_storage,
};
use crate::collections::without;
use crate::state::{ImageStorage, ProjectStorage};

verus! {

/// The views of a list of project transfer forms.
pub open spec fn project_dto_views(v: Seq<ProjectDTO>) -> Seq<ProjectView> {
    v.map_values(|d: ProjectDTO| dto_view(d))
}

/// The stored images among `ids`, in that order.
pub open spec fn stored_images(ids: Seq<ImageId>, images: Map<ImageId, ImageView>) -> Seq<ImageView>
    decreases ids.len(),
{
    if ids.len() == 0 {
        Seq::empty()
    } else {
        let rest = stored_images(ids.drop_last(), images);
        if images.contains_key(ids.last()) {
            rest.push(images[ids.last()])
        } else {
            rest
        }
    }
}

/// Whether `ds` are the transfer forms of `vs`, in order.
pub open spec fn describes_all(ds: Seq<ImageDTO>, vs: Seq<ImageView>) -> bool {
    ds.len() == vs.len() && forall|i: int| 0 <= i < ds.len() ==> dto_describes(#[trigger] ds[i], vs[i])
}

/// Whether transfer metadata describes the metadata of image value `v`.
pub open spec fn metadata_describes(md: ImageMetadataDTO, v: ImageView) -> bool {
    &&& md.id == v.metadata.id
    &&& crate::project::opt_str_view(md.name) == v.metadata.name
    &&& md.width == v.metadata.width
    &&& md.height == v.metadata.height
    &&& md.format == crate::image::opt_format_to_dto(v.metadata.format)
    &&& md.size == v.metadata.size
    &&& crate::project::opt_str_view(md.checksum) == v.metadata.checksum
}

/// The project after an update that applies when the project exists.
pub open spec fn updated_if_present(
    m: Map<ProjectId, ProjectView>,
    id: ProjectId,
    p: ProjectView,
) -> Map<ProjectId, ProjectView> {
    if m.contains_key(id) {
        m.insert(id, p)
    } else {
        m
    }
}

/// Project operations; changes that can be undone announce themselves.
pub struct ProjectService;

impl ProjectService {
    /// The service.
    pub fn new() -> (s: Self) {
        ProjectService
    }

    /// Creates a project under a fresh identifier.
    pub fn create_project(&self, projects: &mut ProjectStorage, ids: &mut IdGenerator, name: String) -> (r: CoreResult<
        ProjectId,
    >)
        ensures
            r == Ok::<ProjectId, CoreError>(old(ids).peek()),
            final(ids).peek() == (if old(ids).peek() == u32::MAX {
                0
            } else {
                (old(ids).peek() + 1) as u32
            }),
            final(projects)@ == old(projects)@.insert(
                old(ids).peek(),
                ProjectView {
                    id: old(ids).peek(),
                    name: name@,
                    image_ids: Seq::empty(),
                    file_path: None,
                    source_language: Language::Japanese,
                    target_language: Language::SimplifiedChinese,
                },
            ),
    {
        create_project_storage(projects, ids, name)
    }

    /// The transfer form of a project, if stored.
    pub fn get_project(&self, projects: &ProjectStorage, project_id: u32) -> (r: Option<ProjectDTO>)
        ensures
            match r {
                Some(d) => projects@.contains_key(project_id) && dto_view(d) == projects@[project_id],
                None => !projects@.contains_key(project_id),
            },
    {
        match self.get_project_by_id(projects, project_id) {
            Ok(opt) => opt,
            Err(_) => None,
        }
    }

    /// The transfer form of a project, if stored.
    pub fn get_project_by_id(&self, projects: &ProjectStorage, id: ProjectId) -> (r: CoreResult<Option<ProjectDTO>>)
        ensures
            match r {
                Ok(Some(d)) => projects@.contains_key(id) && dto_view(d) == projects@[id],
                Ok(None) => !projects@.contains_key(id),
                Err(_) => false,
            },
    {
        match get_project_storage(projects, id) {
            Ok(Some(p)) => Ok(Some(p.to_dto())),
            Ok(None) => Ok(None),
            Err(e) => Err(e),
        }
    }

    /// The transfer forms of all projects, in the store's order.
    pub fn get_all_projects(&self, projects: &ProjectStorage) -> (r: Vec<ProjectDTO>)
        ensures
            lists_values(project_dto_views(r@), projects@),
    {
        match self.get_all_projects_core(projects) {
            Ok(v) => v,
            Err(_) => Vec::new(),
        }
    }

    /// The transfer forms of all projects, in the store's order.
    pub fn get_all_projects_core(&self, projects: &ProjectStorage) -> (r: CoreResult<Vec<ProjectDTO>>)
        ensures
            match r {
                Ok(v) => lists_values(project_dto_views(v@), projects@),
                Err(_) => false,
            },
    {
        let all = match get_all_projects_storage(projects) {
            Ok(v) => v,
            Err(e) => {
                return Err(e);
            },
        };
        let mut out: Vec<ProjectDTO> = Vec::new();
        let mut i: usize = 0;
        while i < all.len()
            invariant
                i <= all@.len(),
                out@.len() == i,
                forall|j: int| 0 <= j < i ==> dto_view(#[trigger] out@[j]) == all@[j]@,
            decreases all@.len() - i,
        {
            out.push(all[i].to_dto());
            i = i + 1;
        }
        assert(project_dto_views(out@) =~= all@.map_values(|p: Project| p@));
        Ok(out)
    }

    /// Renames a project and announces it; whether there was one.
    pub fn update_project_name_internal(
        &self,
        projects: &mut ProjectStorage,
        events: &mut Vec<DomainEvent>,
        project_id: u32,
        name: String,
    ) -> (r: bool)
        ensures
            r == old(projects)@.contains_key(project_id),
            final(projects)@ == updated_if_present(
                old(projects)@,
                project_id,
                ProjectView { name: name@, ..old(projects)@[project_id] },
            ),
            event_views(final(events)@) == (if r {
                event_views(old(events)@).push(EventView::ProjectNameUpdated(project_id, name@))
            } else {
                event_views(old(events)@)
            }),
    {
        let result = match self.update_project_name_core(projects, project_id, name.clone()) {
            Ok(res) => res,
            Err(_) => false,
        };
        if result {
            let ghost before = event_views(events@);
            events.push(DomainEvent::ProjectNameUpdated(project_id, name));
            assert(event_views(events@) =~= before.push(EventView::ProjectNameUpdated(project_id, name@)));
        }
        result
    }

    /// Renames a project; whether there was one.
    pub fn update_project_name_core(&self, projects: &mut ProjectStorage, id: ProjectId, name: String) -> (r: CoreResult<
        bool,
    >)
        ensures
            r == Ok::<bool, CoreError>(old(projects)@.contains_key(id)),
            final(projects)@ == updated_if_present(old(projects)@, id, ProjectView { name: name@, ..old(projects)@[id] }),
    {
        update_project_name_storage(projects, id, name)
    }

    /// Sets a project's languages and announces it; whether there was one.
    pub fn update_project_languages_internal(
        &self,
        projects: &mut ProjectStorage,
        events: &mut Vec<DomainEvent>,
        project_id: u32,
        source_language: Language,
        target_language: Language,
    ) -> (r: bool)
        ensures
            r == old(projects)@.contains_key(project_id),
            final(projects)@ == updated_if_present(
                old(projects)@,
                project_id,
                ProjectView { source_language, target_language, ..old(projects)@[project_id] },
            ),
            event_views(final(events)@) == (if r {
                event_views(old(events)@).push(
                    EventView::ProjectLanguagesUpdated(project_id, source_language, target_language),
                )
            } else {
                event_views(old(events)@)
            }),
    {
        let result = match self.update_project_languages_core(projects, project_id, source_language, target_language) {
            Ok(res) => res,
            Err(_) => false,
        };
        if result {
            let ghost before = event_views(events@);
            events.push(DomainEvent::ProjectLanguagesUpdated(project_id, source_language, target_language));
            assert(event_views(events@) =~= before.push(
                EventView::ProjectLanguagesUpdated(project_id, source_language, target_language),
            ));
        }
        result
    }

    /// Sets a project's languages; whether there was one.
    pub fn update_project_languages_core(
        &self,
        projects: &mut ProjectStorage,
        id: ProjectId,
        source_language: Language,
        target_language: Language,
    ) -> (r: CoreResult<bool>)
        ensures
            r == Ok::<bool, CoreError>(old(projects)@.contains_key(id)),
            final(projects)@ == updated_if_present(
                old(projects)@,
                id,
                ProjectView { source_language, target_language, ..old(projects)@[id] },
            ),
    {
        update_project_languages_storage(projects, id, source_language, target_language)
    }

    /// Deletes a project; whether there was one.
    pub fn delete_project(&self, projects: &mut ProjectStorage, project_id: u32) -> (r: bool)
        ensures
            r == old(projects)@.contains_key(project_id),
            final(projects)@ == old(projects)@.remove(project_id),
    {
        match self.delete_project_core(projects, project_id) {
            Ok(res) => res,
            Err(_) => false,
        }
    }

    /// Deletes a project; whether there was one.
    pub fn delete_project_core(&self, projects: &mut ProjectStorage, id: ProjectId) -> (r: CoreResult<bool>)
        ensures
            r == Ok::<bool, CoreError>(old(projects)@.contains_key(id)),
            final(projects)@ == old(projects)@.remove(id),
    {
        delete_project_storage(projects, id)
    }

    /// Whether a project is stored.
    pub fn project_exists(&self, projects: &ProjectStorage, project_id: u32) -> (r: bool)
        ensures
            r == projects@.contains_key(project_id),
    {
        match self.project_exists_core(projects, project_id) {
            Ok(e) => e,
            Err(_) => false,
        }
    }

    /// Whether a project is stored.
    pub fn project_exists_core(&self, projects: &ProjectStorage, id: ProjectId) -> (r: CoreResult<bool>)
        ensures
            r == Ok::<bool, CoreError>(projects@.contains_key(id)),
    {
        project_exists_storage(projects, id)
    }

    /// The number of projects.
    pub fn project_count(&self, projects: &ProjectStorage) -> (r: CoreResult<usize>)
        ensures
            r == Ok::<usize, CoreError>(projects@.dom().len() as usize),
            projects@.dom().len() <= usize::MAX,
    {
        Ok(projects.len())
    }

    /// The transfer forms of a project's stored pages, in page order (none
    /// for an unknown project).
    pub fn get_project_images(&self, projects: &ProjectStorage, images: &ImageStorage, project_id: u32) -> (r: Vec<
        ImageDTO,
    >)
        ensures
            describes_all(
                r@,
                stored_images(
                    if projects@.contains_key(project_id) {
                        projects@[project_id].image_ids
                    } else {
                        Seq::empty()
                    },
                    images@.images,
                ),
            ),
    {
        match self.get_project_images_core(projects, images, project_id) {
            Ok(v) => v,
            Err(_) => Vec::new(),
        }
    }

    /// The transfer forms of a project's stored pages, in page order (none
    /// for an unknown project).
    pub fn get_project_images_core(&self, projects: &ProjectStorage, images: &ImageStorage, project_id: ProjectId) -> (r:
        CoreResult<Vec<ImageDTO>>)
        ensures
            match r {
                Ok(v) => describes_all(
                    v@,
                    stored_images(
                        if projects@.contains_key(project_id) {
                            projects@[project_id].image_ids
                        } else {
                            Seq::empty()
                        },
                        images@.images,
                    ),
                ),
                Err(_) => false,
            },
    {
        let ids = match self.get_project_image_ids(projects, project_id) {
            Ok(v) => v,
            Err(e) => {
                return Err(e);
            },
        };
        let mut out: Vec<ImageDTO> = Vec::new();
        let mut i: usize = 0;
        while i < ids.len()
            invariant
                i <= ids@.len(),
                describes_all(out@, stored_images(ids@.take(i as int), images@.images)),
            decreases ids@.len() - i,
        {
            assert(ids@.take(i + 1).drop_last() =~= ids@.take(i as int));
            match images.get(ids[i]) {
                Some(img) => {
                    out.push(img.to_dto());
                },
                None => {},
            }
            i = i + 1;
        }
        assert(ids@.take(ids@.len() as int) =~= ids@);
        Ok(out)
    }

    /// A project's page list (empty for an unknown project).
    pub fn get_project_image_ids(&self, projects: &ProjectStorage, project_id: ProjectId) -> (r: CoreResult<
        Vec<ImageId>,
    >)
        ensures
            match r {
                Ok(v) => v@ == (if projects@.contains_key(project_id) {
                    projects@[project_id].image_ids
                } else {
                    Seq::empty()
                }),
                Err(_) => false,
            },
    {
        get_project_image_ids_storage(projects, project_id)
    }

    /// The metadata of a project's stored pages, in page order.
    pub fn get_project_images_metadata(&self, projects: &ProjectStorage, images: &ImageStorage, project_id: u32) -> (r:
        Vec<ImageMetadataDTO>)
        ensures
            ({
                let vs = stored_images(
                    if projects@.contains_key(project_id) {
                        projects@[project_id].image_ids
                    } else {
                        Seq::empty()
                    },
                    images@.images,
                );
                &&& r@.len() == vs.len()
                &&& forall|i: int| 0 <= i < r@.len() ==> metadata_describes(#[trigger] r@[i], vs[i])
            }),
    {
        let all = match self.get_project_images_core(projects, images, project_id) {
            Ok(v) => v,
            Err(_) => Vec::new(),
        };
        let ghost vs = stored_images(
            if projects@.contains_key(project_id) {
                projects@[project_id].image_ids
            } else {
                Seq::empty()
            },
            images@.images,
        );
        let ghost ds = all@;
        let n = all.len();
        let mut out: Vec<ImageMetadataDTO> = Vec::new();
        let mut rest = all;
        let mut taken: usize = 0;
        while rest.len() > 0
            invariant
                describes_all(ds, vs),
                n == ds.len(),
                taken + rest@.len() == ds.len(),
                rest@ == ds.subrange(taken as int, ds.len() as int),
                out@.len() == taken,
                forall|i: int| 0 <= i < taken ==> #[trigger] out@[i] == ds[i].metadata,
            decreases rest@.len(),
        {
            let d = rest.remove(0);
            out.push(d.metadata);
            assert(ds[taken as int] == d);
            taken = taken + 1;
            assert(rest@ =~= ds.subrange(taken as int, ds.len() as int));
        }
        assert forall|i: int| 0 <= i < out@.len() implies metadata_describes(#[trigger] out@[i], vs[i]) by {
            assert(dto_describes(ds[i], vs[i]));
        }
        out
    }

    /// Adds a page to a project unless listed; whether there was a project.
    pub fn add_image_to_project(&self, projects: &mut ProjectStorage, project_id: u32, image_id: u32) -> (r: bool)
        ensures
            r == old(projects)@.contains_key(project_id),
            final(projects)@ == updated_if_present(
                old(projects)@,
                project_id,
                ProjectView {
                    image_ids: push_unique(old(projects)@[project_id].image_ids, image_id),
                    ..old(projects)@[project_id]
                },
            ),
    {
        match self.add_image_to_project_core(projects, project_id, image_id) {
            Ok(res) => res,
            Err(_) => false,
        }
    }

    /// Adds a page to a project unless listed; whether there was a project.
    pub fn add_image_to_project_core(&self, projects: &mut ProjectStorage, project_id: ProjectId, image_id: ImageId) -> (r:
        CoreResult<bool>)
        ensures
            r == Ok::<bool, CoreError>(old(projects)@.contains_key(project_id)),
            final(projects)@ == updated_if_present(
                old(projects)@,
                project_id,
                ProjectView {
                    image_ids: push_unique(old(projects)@[project_id].image_ids, image_id),
                    ..old(projects)@[project_id]
                },
            ),
    {
        add_image_to_project_storage(projects, project_id, image_id)
    }

    /// Drops a page from a project; whether there was a project.
    pub fn remove_image_from_project(&self, projects: &mut ProjectStorage, project_id: u32, image_id: u32) -> (r: bool)
        ensures
            r == old(projects)@.contains_key(project_id),
            final(projects)@ == updated_if_present(
                old(projects)@,
                project_id,
                ProjectView {
                    image_ids: without(old(projects)@[project_id].image_ids, image_id),
                    ..old(projects)@[project_id]
                },
            ),
    {
        match self.remove_image_from_project_core(projects, project_id, image_id) {
            Ok(res) => res,
            Err(_) => false,
        }
    }

    /// Drops a page from a project; whether there was a project.
    pub fn remove_image_from_project_core(
        &self,
        projects: &mut ProjectStorage,
        project_id: ProjectId,
        image_id: ImageId,
    ) -> (r: CoreResult<bool>)
        ensures
            r == Ok::<bool, CoreError>(old(projects)@.contains_key(project_id)),
            final(projects)@ == updated_if_present(
                old(projects)@,
                project_id,
                ProjectView {
                    image_ids: without(old(projects)@[project_id].image_ids, image_id),
                    ..old(projects)@[project_id]
                },
            ),
    {
        remove_image_from_project_storage(projects, project_id, image_id)
    }

    /// Replaces a project's page order; whether there was a project.
    pub fn reorder_project_images(&self, projects: &mut ProjectStorage, project_id: u32, image_ids: Vec<u32>) -> (r:
        bool)
        ensures
            r == old(projects)@.contains_key(project_id),
            final(projects)@ == updated_if_present(
                old(projects)@,
                project_id,
                ProjectView { image_ids: image_ids@, ..old(projects)@[project_id] },
            ),
    {
        match self.reorder_project_images_core(projects, project_id, image_ids) {
            Ok(res) => res,
            Err(_) => false,
        }
    }

    /// Replaces a project's page order; whether there was a project.
    pub fn reorder_project_images_core(
        &self,
        projects: &mut ProjectStorage,
        project_id: ProjectId,
        new_order: Vec<ImageId>,
    ) -> (r: CoreResult<bool>)
        ensures
            r == Ok::<bool, CoreError>(old(projects)@.contains_key(project_id)),
            final(projects)@ == updated_if_present(
                old(projects)@,
                project_id,
                ProjectView { image_ids: new_order@, ..old(projects)@[project_id] },
            ),
    {
        reorder_project_images_storage(projects, project_id, new_order)
    }

    /// The project that lists the page, if any (the smallest identifier,
    /// when several do).
    pub fn find_project_by_image(&self, projects: &ProjectStorage, image_id: ImageId) -> (r: CoreResult<
        Option<ProjectId>,
    >)
        ensures
            match r {
                Ok(Some(pid)) => crate::project::least_lister(projects@, image_id, pid),
                Ok(None) => forall|pid: ProjectId| #[trigger]
                    projects@.contains_key(pid) ==> !projects@[pid].image_ids.contains(image_id),
                Err(_) => false,
            },
    {
        find_project_by_image_storage(projects, image_id)
    }

    /// Empties a project's pages; whether there was a project.
    pub fn clear_project_images(&self, projects: &mut ProjectStorage, project_id: ProjectId) -> (r: CoreResult<bool>)
        ensures
            r == Ok::<bool, CoreError>(old(projects)@.contains_key(project_id)),
            final(projects)@ == updated_if_present(
                old(projects)@,
                project_id,
                ProjectView { image_ids: Seq::empty(), ..old(projects)@[project_id] },
            ),
    {
        clear_project_images_storage(projects, project_id)
    }

    /// Deletes every project.
    pub fn clear_all(&self, projects: &mut ProjectStorage)
        ensures
            final(projects)@ == Map::<ProjectId, ProjectView>::empty(),
    {
        let _ = self.clear_all_projects(projects);
    }

    /// Reacts to an event: every project is deleted when all data is being
    /// cleared; other events are ignored.
    pub fn handle(&self, projects: &mut ProjectStorage, event: &DomainEvent)
        ensures
            final(projects)@ == (match *event {
                DomainEvent::AllDataClearing => Map::<ProjectId, ProjectView>::empty(),
                _ => old(projects)@,
            }),
    {
        match event {
            DomainEvent::AllDataClearing => self.clear_all(projects),
            _ => {},
        }
    }

    /// Deletes every project.
    pub fn clear_all_projects(&self, projects: &mut ProjectStorage) -> (r: CoreResult<()>)
        ensures
            r is Ok,
            final(projects)@ == Map::<ProjectId, ProjectView>::empty(),
    {
        clear_all_projects_storage(projects)
    }
}

} // verus!
