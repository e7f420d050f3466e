use vstd::prelude::*;
use std::collections::HashMap;
use crate::error::{CoreError, CoreResult};
use crate::ids::{IdGenerator, ImageId, ProjectId};
use crate::language::Language;
use crate::state::ProjectStorage;
use crate::collections::{enumerates, vec_contains, vec_without, without};

verus! {

broadcast use vstd::std_specs::hash::group_hash_axioms;

/// A translation project: a named, ordered list of pages.
#[derive(Debug)]
pub struct Project {
    pub id: ProjectId,
    pub name: String,
    pub image_ids: Vec<ImageId>,
    pub file_path: Option<String>,
    pub source_language: Language,
    pub target_language: Language,
}

/// The abstract value of a project.
pub struct ProjectView {
    pub id: ProjectId,
    pub name: Seq<char>,
    pub image_ids: Seq<ImageId>,
    pub file_path: Option<Seq<char>>,
    pub source_language: Language,
    pub target_language: Language,
}

/// The abstract value of an optional string.
pub open spec fn opt_str_view(s: Option<String>) -> Option<Seq<char>> {
    match s {
        Some(t) => Some(t@),
        None => None,
    }
}

/// Copies an optional string.
pub fn clone_opt_string(s: &Option<String>) -> (r: Option<String>)
    ensures
        opt_str_view(r) == opt_str_view(*s),
{
    match s {
        Some(t) => Some(t.clone()),
        None => None,
    }
}

impl View for Project {
    type V = ProjectView;

    open spec fn view(&self) -> ProjectView {
        ProjectView {
            id: self.id,
            name: self.name@,
            image_ids: self.image_ids@,
            file_path: opt_str_view(self.file_path),
            source_language: self.source_language,
            target_language: self.target_language,
        }
    }
}

impl Clone for Project {
    fn clone(&self) -> (r: Self)
        ensures
            r@ == self@,
    {
        Project {
            id: self.id,
            name: self.name.clone(),
            image_ids: self.image_ids.clone(),
            file_path: clone_opt_string(&self.file_path),
            source_language: self.source_language,
            target_language: self.target_language,
        }
    }
}

/// Transfer form of a project.
#[derive(Debug)]
pub struct ProjectDTO {
    pub id: ProjectId,
    pub name: String,
    pub image_ids: Vec<ImageId>,
    pub file_path: Option<String>,
    pub source_language: Language,
    pub target_language: Language,
}

/// The abstract value of a project's transfer form.
pub open spec fn dto_view(d: ProjectDTO) -> ProjectView {
    ProjectView {
        id: d.id,
        name: d.name@,
        image_ids: d.image_ids@,
        file_path: opt_str_view(d.file_path),
        source_language: d.source_language,
        target_language: d.target_language,
    }
}

impl Project {
    /// An empty project with the default languages.
    pub fn new(id: ProjectId, name: String) -> (p: Self)
        ensures
            p@ == (ProjectView {
                id,
                name: name@,
                image_ids: Seq::empty(),
                file_path: None,
                source_language: Language::Japanese,
                target_language: Language::SimplifiedChinese,
            }),
    {
        Project {
            id,
            name,
            image_ids: Vec::new(),
            file_path: None,
            source_language: Language::default_source(),
            target_language: Language::default_target(),
        }
    }

    /// The transfer form, field for field.
    pub fn to_dto(&self) -> (d: ProjectDTO)
        ensures
            dto_view(d) == self@,
    {
        ProjectDTO {
            id: self.id,
            name: self.name.clone(),
            image_ids: self.image_ids.clone(),
            file_path: clone_opt_string(&self.file_path),
            source_language: self.source_language,
            target_language: self.target_language,
        }
    }

    /// The project described by a transfer form, field for field.
    pub fn from_dto(dto: ProjectDTO) -> (p: Self)
        ensures
            p@ == dto_view(dto),
    {
        Project {
            id: dto.id,
            name: dto.name,
            image_ids: dto.image_ids,
            file_path: dto.file_path,
            source_language: dto.source_language,
            target_language: dto.target_language,
        }
    }
}

/// Whether a result is `Ok(b)`.
pub open spec fn is_ok_with<T>(r: CoreResult<T>, v: T) -> bool {
    r == Ok::<T, CoreError>(v)
}

/// Creates a project under a fresh identifier and stores it.
pub fn create_project_storage(storage: &mut ProjectStorage, ids: &mut IdGenerator, name: String) -> (r:
    CoreResult<ProjectId>)
    ensures
        r == Ok::<ProjectId, CoreError>(old(ids).peek()),
        final(ids).peek() == (if old(ids).peek() == u32::MAX { 0 } else { (old(ids).peek() + 1) as u32 }),
        final(storage)@ == old(storage)@.insert(old(ids).peek(), new_project_view(old(ids).peek(), name@)),
{
    let id = ids.next();
    let project = Project::new(id, name);
    storage.insert(id, project);
    Ok(id)
}

/// The project that `create_project_storage` stores under `id`.
pub open spec fn new_project_view(id: ProjectId, name: Seq<char>) -> ProjectView {
    ProjectView {
        id,
        name,
        image_ids: Seq::empty(),
        file_path: None,
        source_language: Language::Japanese,
        target_language: Language::SimplifiedChinese,
    }
}

/// Creating a project under an identifier that no stored project has adds
/// one to the project count and keeps every other project.
pub proof fn law_create_adds_one_project(s: &ProjectStorage, id: ProjectId, name: Seq<char>)
    requires
        !s@.contains_key(id),
    ensures
        s@.insert(id, new_project_view(id, name)).dom().len() == s@.dom().len() + 1,
        forall|k: ProjectId| #[trigger] s@.contains_key(k) ==> s@.insert(id, new_project_view(id, name))[k] == s@[k],
{
    s.lemma_finite();
}

/// A copy of the stored project, if any.
pub fn get_project_storage(storage: &ProjectStorage, id: ProjectId) -> (r: CoreResult<Option<Project>>)
    ensures
        match r {
            Ok(Some(p)) => storage@.contains_key(id) && p@ == storage@[id],
            Ok(None) => !storage@.contains_key(id),
            Err(_) => false,
        },
{
    match storage.get(id) {
        Some(p) => Ok(Some(p.clone())),
        None => Ok(None),
    }
}

/// Whether `v` lists the values of `m`, one per key, in some order of the keys.
pub open spec fn lists_values<V>(v: Seq<V>, m: Map<u32, V>) -> bool {
    exists|ks: Seq<u32>|
        {
            &&& enumerates(ks, m.dom())
            &&& ks.len() == v.len()
            &&& forall|i: int| 0 <= i < v.len() ==> v[i] == m[#[trigger] ks[i]]
        }
}

/// The views of a sequence of projects.
pub open spec fn project_views(v: Seq<Project>) -> Seq<ProjectView> {
    v.map_values(|p: Project| p@)
}

/// A copy of every stored project, in the store's own order.
pub fn get_all_projects_storage(storage: &ProjectStorage) -> (r: CoreResult<Vec<Project>>)
    ensures
        match r {
            Ok(v) => lists_values(project_views(v@), storage@),
            Err(_) => false,
        },
{
    let keys = storage.keys();
    let mut out: Vec<Project> = Vec::new();
    let mut i: usize = 0;
    while i < keys.len()
        invariant
            i <= keys@.len(),
            enumerates(keys@, storage@.dom()),
            out@.len() == i,
            forall|j: int| 0 <= j < i ==> out@[j]@ == storage@[keys@[j]],
        decreases keys@.len() - i,
    {
        assert(storage@.dom().contains(keys@[i as int]));
        let p = storage.get(keys[i]).unwrap();
        out.push(p.clone());
        i = i + 1;
    }
    assert(enumerates(keys@, storage@.dom()) && keys@.len() == project_views(out@).len() && forall|
        j: int,
    | 0 <= j < out@.len() ==> project_views(out@)[j] == storage@[#[trigger] keys@[j]]);
    Ok(out)
}

/// Renames a stored project; `Ok(false)` when there is none.
pub fn update_project_name_storage(storage: &mut ProjectStorage, id: ProjectId, name: String) -> (r:
    CoreResult<bool>)
    ensures
        r == Ok::<bool, CoreError>(old(storage)@.contains_key(id)),
        final(storage)@ == (if old(storage)@.contains_key(id) {
            old(storage)@.insert(id, ProjectView { name: name@, ..old(storage)@[id] })
        } else {
            old(storage)@
        }),
{
    match storage.remove(id) {
        Some(mut project) => {
            project.name = name;
            storage.insert(id, project);
            assert(storage@ =~= old(storage)@.insert(id, ProjectView { name: name@, ..old(storage)@[id] }));
            Ok(true)
        },
        None => {
            assert(storage@ =~= old(storage)@);
            Ok(false)
        },
    }
}

/// `s` with `x` appended unless it is already there.
pub open spec fn push_unique(s: Seq<u32>, x: u32) -> Seq<u32> {
    if s.contains(x) {
        s
    } else {
        s.push(x)
    }
}

/// Adding a page to a project lists it exactly once: afterwards the page is
/// listed, the earlier pages stay first and in order, and a list without
/// repeats stays without repeats.
pub proof fn law_added_page_listed_once(s: Seq<u32>, x: u32)
    ensures
        push_unique(s, x).contains(x),
        push_unique(s, x).take(s.len() as int) == s,
        push_unique(s, x).len() <= s.len() + 1,
        s.no_duplicates() ==> push_unique(s, x).no_duplicates(),
{
    if !s.contains(x) {
        let t = s.push(x);
        assert(t[s.len() as int] == x);
        assert(t.take(s.len() as int) =~= s);
        assert forall|a: int, b: int| 0 <= a < t.len() && 0 <= b < t.len() && a != b && s.no_duplicates() implies t[a]
            != t[b] by {
            if a == s.len() {
                assert(t[b] == s[b]);
                if s[b] == x {
                    assert(s.contains(x));
                }
            } else if b == s.len() {
                assert(t[a] == s[a]);
                if s[a] == x {
                    assert(s.contains(x));
                }
            } else {
                assert(t[a] == s[a] && t[b] == s[b]);
            }
        }
    } else {
        assert(s.take(s.len() as int) =~= s);
    }
}

/// Appends an image to a project's pages unless already listed; `Ok(false)`
/// when there is no such project.
pub fn add_image_to_project_storage(storage: &mut ProjectStorage, project_id: ProjectId, image_id: ImageId) -> (r:
    CoreResult<bool>)
    ensures
        r == Ok::<bool, CoreError>(old(storage)@.contains_key(project_id)),
        final(storage)@ == (if old(storage)@.contains_key(project_id) {
            old(storage)@.insert(
                project_id,
                ProjectView {
                    image_ids: push_unique(old(storage)@[project_id].image_ids, image_id),
                    ..old(storage)@[project_id]
                },
            )
        } else {
            old(storage)@
        }),
{
    match storage.remove(project_id) {
        Some(mut project) => {
            if !vec_contains(&project.image_ids, image_id) {
                project.image_ids.push(image_id);
            }
            storage.insert(project_id, project);
            assert(storage@ =~= old(storage)@.insert(
                project_id,
                ProjectView {
                    image_ids: push_unique(old(storage)@[project_id].image_ids, image_id),
                    ..old(storage)@[project_id]
                },
            ));
            Ok(true)
        },
        None => {
            assert(storage@ =~= old(storage)@);
            Ok(false)
        },
    }
}

/// Drops every occurrence of an image from a project's pages; `Ok(false)`
/// when there is no such project.
pub fn remove_image_from_project_storage(storage: &mut ProjectStorage, project_id: ProjectId, image_id: ImageId) -> (r:
    CoreResult<bool>)
    ensures
        r == Ok::<bool, CoreError>(old(storage)@.contains_key(project_id)),
        final(storage)@ == (if old(storage)@.contains_key(project_id) {
            old(storage)@.insert(
                project_id,
                ProjectView {
                    image_ids: without(old(storage)@[project_id].image_ids, image_id),
                    ..old(storage)@[project_id]
                },
            )
        } else {
            old(storage)@
        }),
{
    match storage.remove(project_id) {
        Some(mut project) => {
            project.image_ids = vec_without(&project.image_ids, image_id);
            storage.insert(project_id, project);
            assert(storage@ =~= old(storage)@.insert(
                project_id,
                ProjectView {
                    image_ids: without(old(storage)@[project_id].image_ids, image_id),
                    ..old(storage)@[project_id]
                },
            ));
            Ok(true)
        },
        None => {
            assert(storage@ =~= old(storage)@);
            Ok(false)
        },
    }
}

/// The pages of a project, or none when there is no such project.
pub fn get_project_image_ids_storage(storage: &ProjectStorage, project_id: ProjectId) -> (r: CoreResult<
    Vec<ImageId>,
>)
    ensures
        match r {
            Ok(v) => v@ == (if storage@.contains_key(project_id) {
                storage@[project_id].image_ids
            } else {
                Seq::empty()
            }),
            Err(_) => false,
        },
{
    match storage.get(project_id) {
        Some(p) => Ok(p.image_ids.clone()),
        None => Ok(Vec::new()),
    }
}

/// Replaces a project's page order; `Ok(false)` when there is no such project.
pub fn reorder_project_images_storage(storage: &mut ProjectStorage, project_id: ProjectId, new_order: Vec<
    ImageId,
>) -> (r: CoreResult<bool>)
    ensures
        r == Ok::<bool, CoreError>(old(storage)@.contains_key(project_id)),
        final(storage)@ == (if old(storage)@.contains_key(project_id) {
            old(storage)@.insert(project_id, ProjectView { image_ids: new_order@, ..old(storage)@[project_id] })
        } else {
            old(storage)@
        }),
{
    match storage.remove(project_id) {
        Some(mut project) => {
            project.image_ids = new_order;
            storage.insert(project_id, project);
            assert(storage@ =~= old(storage)@.insert(
                project_id,
                ProjectView { image_ids: new_order@, ..old(storage)@[project_id] },
            ));
            Ok(true)
        },
        None => {
            assert(storage@ =~= old(storage)@);
            Ok(false)
        },
    }
}

/// Whether `pid` is the project with the smallest identifier among those
/// that list image `image_id`.
pub open spec fn least_lister(projects: Map<ProjectId, ProjectView>, image_id: ImageId, pid: ProjectId) -> bool {
    &&& projects.contains_key(pid)
    &&& projects[pid].image_ids.contains(image_id)
    &&& forall|q: ProjectId| #[trigger]
        projects.contains_key(q) && projects[q].image_ids.contains(image_id) ==> pid <= q
}

/// The project that lists the image among its pages, if any; when several
/// do, the one with the smallest identifier.
pub fn find_project_by_image_storage(storage: &ProjectStorage, image_id: ImageId) -> (r: CoreResult<
    Option<ProjectId>,
>)
    ensures
        match r {
            Ok(Some(pid)) => least_lister(storage@, image_id, pid),
            Ok(None) => forall|pid: ProjectId| #[trigger]
                storage@.contains_key(pid) ==> !storage@[pid].image_ids.contains(image_id),
            Err(_) => false,
        },
{
    let keys = storage.keys();
    let mut best: Option<ProjectId> = None;
    let mut i: usize = 0;
    while i < keys.len()
        invariant
            i <= keys@.len(),
            enumerates(keys@, storage@.dom()),
            match best {
                Some(b) => {
                    &&& storage@.contains_key(b)
                    &&& storage@[b].image_ids.contains(image_id)
                    &&& forall|j: int|
                        0 <= j < i && storage@[#[trigger] keys@[j]].image_ids.contains(image_id) ==> b <= keys@[j]
                },
                None => forall|j: int| 0 <= j < i ==> !storage@[#[trigger] keys@[j]].image_ids.contains(image_id),
            },
        decreases keys@.len() - i,
    {
        assert(storage@.dom().contains(keys@[i as int]));
        let p = storage.get(keys[i]).unwrap();
        if vec_contains(&p.image_ids, image_id) {
            match best {
                Some(b) => {
                    if keys[i] < b {
                        best = Some(keys[i]);
                    }
                },
                None => {
                    best = Some(keys[i]);
                },
            }
        }
        i = i + 1;
    }
    match best {
        Some(b) => {
            assert forall|q: ProjectId| #[trigger]
                storage@.contains_key(q) && storage@[q].image_ids.contains(image_id) implies b <= q by {
                assert(storage@.dom().contains(q));
                let j = choose|j: int| 0 <= j < keys@.len() && keys@[j] == q;
            }
            Ok(Some(b))
        },
        None => {
            assert forall|pid: ProjectId| #[trigger] storage@.contains_key(pid) implies !storage@[pid].image_ids.contains(
                image_id,
            ) by {
                assert(storage@.dom().contains(pid));
                let j = choose|j: int| 0 <= j < keys@.len() && keys@[j] == pid;
            }
            Ok(None)
        },
    }
}

/// Empties a project's pages; `Ok(false)` when there is no such project.
pub fn clear_project_images_storage(storage: &mut ProjectStorage, project_id: ProjectId) -> (r: CoreResult<bool>)
    ensures
        r == Ok::<bool, CoreError>(old(storage)@.contains_key(project_id)),
        final(storage)@ == (if old(storage)@.contains_key(project_id) {
            old(storage)@.insert(project_id, ProjectView { image_ids: Seq::empty(), ..old(storage)@[project_id] })
        } else {
            old(storage)@
        }),
{
    reorder_project_images_storage(storage, project_id, Vec::new())
}

/// Deletes a project; `Ok(true)` when there was one.
pub fn delete_project_storage(storage: &mut ProjectStorage, id: ProjectId) -> (r: CoreResult<bool>)
    ensures
        r == Ok::<bool, CoreError>(old(storage)@.contains_key(id)),
        final(storage)@ == old(storage)@.remove(id),
{
    let removed = storage.remove(id);
    Ok(removed.is_some())
}

/// Deletes every project.
pub fn clear_all_projects_storage(storage: &mut ProjectStorage) -> (r: CoreResult<()>)
    ensures
        r == Ok::<(), CoreError>(()),
        final(storage)@ == Map::<ProjectId, ProjectView>::empty(),
{
    storage.clear();
    Ok(())
}

/// The number of projects.
pub fn project_count_storage(storage: &ProjectStorage) -> (r: CoreResult<usize>)
    ensures
        r == Ok::<usize, CoreError>(storage@.dom().len() as usize),
{
    Ok(storage.len())
}

/// Whether there is a project with this identifier.
pub fn project_exists_storage(storage: &ProjectStorage, id: ProjectId) -> (r: CoreResult<bool>)
    ensures
        r == Ok::<bool, CoreError>(storage@.contains_key(id)),
{
    Ok(storage.contains(id))
}

/// Records where a project is saved; `Ok(false)` when there is no such project.
pub fn update_project_file_path_storage(storage: &mut ProjectStorage, id: ProjectId, file_path: Option<
    String,
>) -> (r: CoreResult<bool>)
    ensures
        r == Ok::<bool, CoreError>(old(storage)@.contains_key(id)),
        final(storage)@ == (if old(storage)@.contains_key(id) {
            old(storage)@.insert(id, ProjectView { file_path: opt_str_view(file_path), ..old(storage)@[id] })
        } else {
            old(storage)@
        }),
{
    match storage.remove(id) {
        Some(mut project) => {
            project.file_path = file_path;
            storage.insert(id, project);
            assert(storage@ =~= old(storage)@.insert(
                id,
                ProjectView { file_path: opt_str_view(file_path), ..old(storage)@[id] },
            ));
            Ok(true)
        },
        None => {
            assert(storage@ =~= old(storage)@);
            Ok(false)
        },
    }
}

/// Sets both languages of a project; `Ok(false)` when there is no such project.
pub fn update_project_languages_storage(
    storage: &mut ProjectStorage,
    id: ProjectId,
    source_language: Language,
    target_language: Language,
) -> (r: CoreResult<bool>)
    ensures
        r == Ok::<bool, CoreError>(old(storage)@.contains_key(id)),
        final(storage)@ == (if old(storage)@.contains_key(id) {
            old(storage)@.insert(
                id,
                ProjectView { source_language, target_language, ..old(storage)@[id] },
            )
        } else {
            old(storage)@
        }),
{
    match storage.remove(id) {
        Some(mut project) => {
            project.source_language = source_language;
            project.target_language = target_language;
            storage.insert(id, project);
            assert(storage@ =~= old(storage)@.insert(
                id,
                ProjectView { source_language, target_language, ..old(storage)@[id] },
            ));
            Ok(true)
        },
        None => {
            assert(storage@ =~= old(storage)@);
            Ok(false)
        },
    }
}

} // verus!
