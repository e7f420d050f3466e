use vstd::prelude::*;
use std::collections::HashMap;
use crate::ids::{IdGenerator, ImageId, ProjectId};
use crate::project::{Project, ProjectView};
use crate::labelplus::LabelplusData;
use crate::bf::BfProjectData;
use crate::paths::{path_file_name, path_file_name_of};
use crate::plugin_manager::strs_view;
use crate::strmap::StrMap;
use crate::language::Language;
use crate::text::{str_equal, string_of};

verus! {

broadcast use vstd::std_specs::hash::group_hash_axioms;

/// The file-name part of a page name (the name itself when the path has no
/// file name).
pub open spec fn normalized(name: Seq<char>) -> Seq<char> {
    match path_file_name_of(name) {
        Some(n) => n,
        None => name,
    }
}

/// The file-name part of a page name.
pub fn normalize_file_name(name: &str) -> (r: String)
    ensures
        r@ == normalized(name@),
{
    match path_file_name(name) {
        Some(n) => n,
        None => string_of(name),
    }
}

/// Whether position `i` of `req` is the first whose file name is `nn`.
pub open spec fn first_match_at(req: Seq<Seq<char>>, nn: Seq<char>, i: int) -> bool {
    &&& 0 <= i < req.len()
    &&& normalized(req[i]) == nn
    &&& forall|j: int| 0 <= j < i ==> normalized(#[trigger] req[j]) != nn
}

/// Whether some name of `req` has the file name of `name`.
pub open spec fn listed(req: Seq<Seq<char>>, name: Seq<char>) -> bool {
    exists|i: int| 0 <= i < req.len() && normalized(#[trigger] req[i]) == normalized(name)
}

/// The first name of `req` with the file name of `name`, or `name` itself.
pub open spec fn matched_name(req: Seq<Seq<char>>, name: Seq<char>) -> Seq<char> {
    let nn = normalized(name);
    if exists|i: int| first_match_at(req, nn, i) {
        req[choose|i: int| first_match_at(req, nn, i)]
    } else {
        name
    }
}

/// The names of `s` whose file name is not `nn`, in order.
pub open spec fn keep_unmatched(s: Seq<Seq<char>>, nn: Seq<char>) -> Seq<Seq<char>>
    decreases s.len(),
{
    if s.len() == 0 {
        s
    } else {
        let rest = keep_unmatched(s.drop_last(), nn);
        if normalized(s.last()) != nn {
            rest.push(s.last())
        } else {
            rest
        }
    }
}

/// The uploaded images of the names in `req`, in that order (names without an
/// upload are skipped).
pub open spec fn ordered_uploads(req: Seq<Seq<char>>, up: Map<Seq<char>, ImageId>) -> Seq<ImageId>
    decreases req.len(),
{
    if req.len() == 0 {
        Seq::empty()
    } else {
        let rest = ordered_uploads(req.drop_last(), up);
        if up.contains_key(req.last()) {
            rest.push(up[req.last()])
        } else {
            rest
        }
    }
}

/// A project being opened from a file: the pages the file names, those still
/// to be uploaded, the uploaded ones, and the parsed file kept for import.
pub struct OpeningProject {
    pub project: Project,
    pub required_images: Vec<String>,
    pub pending_images: Vec<String>,
    pub uploaded_images: StrMap<ImageId>,
    pub labelplus_data: Option<LabelplusData>,
    pub bf_data: Option<BfProjectData>,
}

impl OpeningProject {
    /// The page names the file asks for.
    pub open spec fn required(&self) -> Seq<Seq<char>> {
        strs_view(self.required_images@)
    }

    /// The page names still to be uploaded.
    pub open spec fn pending(&self) -> Seq<Seq<char>> {
        strs_view(self.pending_images@)
    }

    /// The uploaded pages by name.
    pub open spec fn uploaded(&self) -> Map<Seq<char>, ImageId> {
        self.uploaded_images.map()
    }

    /// Internal consistency of the opening project.
    pub open spec fn wf(&self) -> bool {
        &&& self.uploaded_images.wf()
        &&& (self.labelplus_data matches Some(d) ==> d.markers_by_image.wf())
    }

    /// Whether the project is complete.
    pub open spec fn complete(&self) -> bool {
        self.required().len() == 0 || self.pending().len() == 0
    }

    /// A new project under a fresh identifier, asking for `required_images`
    /// (all of them still to be uploaded).
    pub fn new(ids: &mut IdGenerator, name: String, required_images: Vec<String>) -> (op: Self)
        ensures
            op.wf(),
            op.project@ == (ProjectView {
                id: old(ids).peek(),
                name: name@,
                image_ids: Seq::empty(),
                file_path: None,
                source_language: Language::Japanese,
                target_language: Language::SimplifiedChinese,
            }),
            op.required() == strs_view(required_images@),
            op.pending() == strs_view(required_images@),
            op.uploaded() == Map::<Seq<char>, ImageId>::empty(),
            op.labelplus_data is None,
            op.bf_data is None,
            final(ids).peek() == (if old(ids).peek() == u32::MAX {
                0
            } else {
                (old(ids).peek() + 1) as u32
            }),
    {
        let project_id = ids.next();
        let project = Project::new(project_id, name);
        let pending = crate::plugin_manager::clone_strings(&required_images);
        OpeningProject {
            project,
            required_images,
            pending_images: pending,
            uploaded_images: StrMap::new(),
            labelplus_data: None,
            bf_data: None,
        }
    }

    /// A new project that asks for no particular pages.
    pub fn empty(ids: &mut IdGenerator, name: String) -> (op: Self)
        ensures
            op.wf(),
            op.project@ == (ProjectView {
                id: old(ids).peek(),
                name: name@,
                image_ids: Seq::empty(),
                file_path: None,
                source_language: Language::Japanese,
                target_language: Language::SimplifiedChinese,
            }),
            op.required() == Seq::<Seq<char>>::empty(),
            op.pending() == Seq::<Seq<char>>::empty(),
            op.uploaded() == Map::<Seq<char>, ImageId>::empty(),
            op.labelplus_data is None,
            op.bf_data is None,
            final(ids).peek() == (if old(ids).peek() == u32::MAX {
                0
            } else {
                (old(ids).peek() + 1) as u32
            }),
    {
        let v: Vec<String> = Vec::new();
        assert(strs_view(v@) =~= Seq::<Seq<char>>::empty());
        Self::new(ids, name, v)
    }

    /// The same project, keeping a parsed LabelPlus file for import.
    pub fn with_labelplus_data(self, data: LabelplusData) -> (op: Self)
        requires
            self.wf(),
            data.markers_by_image.wf(),
        ensures
            op.wf(),
            op.project@ == self.project@,
            op.required() == self.required(),
            op.pending() == self.pending(),
            op.uploaded() == self.uploaded(),
            op.labelplus_data == Some(data),
            op.bf_data == self.bf_data,
    {
        let mut s = self;
        s.labelplus_data = Some(data);
        s
    }

    /// The same project, keeping a parsed project file for import.
    pub fn with_bf_data(self, data: BfProjectData) -> (op: Self)
        requires
            self.wf(),
        ensures
            op.wf(),
            op.project@ == self.project@,
            op.required() == self.required(),
            op.pending() == self.pending(),
            op.uploaded() == self.uploaded(),
            op.labelplus_data == self.labelplus_data,
            op.bf_data == Some(data),
    {
        let mut s = self;
        s.bf_data = Some(data);
        s
    }

    /// Whether a page of this name belongs to the project: any page when the
    /// project asks for none, else one whose file name is that of an asked
    /// page.
    pub fn is_image_required(&self, image_name: &str) -> (r: bool)
        ensures
            r == (self.required().len() == 0 || listed(self.required(), image_name@)),
    {
        if self.required_images.len() == 0 {
            return true;
        }
        let nn = normalize_file_name(image_name);
        let mut i: usize = 0;
        while i < self.required_images.len()
            invariant
                i <= self.required_images@.len(),
                nn@ == normalized(image_name@),
                forall|j: int| 0 <= j < i ==> normalized(#[trigger] self.required()[j]) != nn@,
            decreases self.required_images@.len() - i,
        {
            let r = normalize_file_name(self.required_images[i].as_str());
            if str_equal(r.as_str(), nn.as_str()) {
                assert(normalized(self.required()[i as int]) == normalized(image_name@));
                return true;
            }
            i = i + 1;
        }
        false
    }

    /// The first asked page name with the file name `nn`, if any.
    fn find_required(&self, nn: &str) -> (r: Option<usize>)
        ensures
            match r {
                Some(i) => first_match_at(self.required(), nn@, i as int),
                None => forall|j: int| 0 <= j < self.required().len() ==> normalized(#[trigger] self.required()[j]) != nn@,
            },
    {
        let mut i: usize = 0;
        while i < self.required_images.len()
            invariant
                i <= self.required_images@.len(),
                forall|j: int| 0 <= j < i ==> normalized(#[trigger] self.required()[j]) != nn@,
            decreases self.required_images@.len() - i,
        {
            let r = normalize_file_name(self.required_images[i].as_str());
            if str_equal(r.as_str(), nn) {
                return Some(i);
            }
            i = i + 1;
        }
        None
    }

    /// Records an uploaded page: it is filed under the asked name with its
    /// file name (else under its own name), every pending name with that file
    /// name is dropped, and the image joins the project's pages unless it is
    /// there already.
    pub fn mark_image_uploaded(&mut self, image_name: String, image_id: ImageId)
        requires
            old(self).wf(),
        ensures
            final(self).wf(),
            final(self).required() == old(self).required(),
            final(self).uploaded() == old(self).uploaded().insert(
                matched_name(old(self).required(), image_name@),
                image_id,
            ),
            final(self).pending() == keep_unmatched(old(self).pending(), normalized(image_name@)),
            final(self).project@ == (ProjectView {
                image_ids: if old(self).project@.image_ids.contains(image_id) {
                    old(self).project@.image_ids
                } else {
                    old(self).project@.image_ids.push(image_id)
                },
                ..old(self).project@
            }),
            final(self).labelplus_data == old(self).labelplus_data,
            final(self).bf_data == old(self).bf_data,
    {
        let nn = normalize_file_name(image_name.as_str());
        let ghost req = self.required();
        let matched = match self.find_required(nn.as_str()) {
            Some(i) => {
                proof {
                    assert forall|k: int| first_match_at(req, nn@, k) implies k == i by {
                        if k < i {
                            assert(normalized(req[k]) != nn@);
                        } else if k > i {
                            assert(normalized(req[i as int]) != nn@);
                        }
                    }
                }
                self.required_images[i].clone()
            },
            None => image_name,
        };
        self.uploaded_images.insert(matched, image_id);
        let mut kept: Vec<String> = Vec::new();
        let mut j: usize = 0;
        while j < self.pending_images.len()
            invariant
                j <= self.pending_images@.len(),
                strs_view(kept@) == keep_unmatched(self.pending().take(j as int), nn@),
            decreases self.pending_images@.len() - j,
        {
            let ghost before = strs_view(kept@);
            assert(self.pending().take(j + 1).drop_last() =~= self.pending().take(j as int));
            let r = normalize_file_name(self.pending_images[j].as_str());
            if !str_equal(r.as_str(), nn.as_str()) {
                kept.push(self.pending_images[j].clone());
                assert(strs_view(kept@) =~= before.push(self.pending()[j as int]));
            }
            j = j + 1;
        }
        assert(self.pending().take(self.pending_images@.len() as int) =~= self.pending());
        self.pending_images = kept;
        if !crate::collections::vec_contains(&self.project.image_ids, image_id) {
            self.project.image_ids.push(image_id);
        }
    }

    /// Forgets the upload filed under a name; the image it had, if any.
    pub fn remove_unneeded_image(&mut self, image_name: &str) -> (r: Option<ImageId>)
        requires
            old(self).wf(),
        ensures
            final(self).wf(),
            final(self).uploaded() == old(self).uploaded().remove(image_name@),
            r == (if old(self).uploaded().contains_key(image_name@) {
                Some(old(self).uploaded()[image_name@])
            } else {
                None
            }),
            final(self).required() == old(self).required(),
            final(self).pending() == old(self).pending(),
            final(self).project@ == old(self).project@,
            final(self).labelplus_data == old(self).labelplus_data,
            final(self).bf_data == old(self).bf_data,
    {
        self.uploaded_images.remove(image_name)
    }

    /// Whether every asked page has been uploaded (always, when none is
    /// asked for).
    pub fn is_complete(&self) -> (r: bool)
        ensures
            r == self.complete(),
    {
        if self.required_images.len() == 0 {
            return true;
        }
        self.pending_images.len() == 0
    }

    /// The project to keep: when pages were asked for, its pages become the
    /// uploads of the asked names in the file's order.
    pub fn prepare_finalize(&mut self) -> (p: Project)
        requires
            old(self).wf(),
        ensures
            final(self).wf(),
            p@ == final(self).project@,
            final(self).project@ == (if old(self).required().len() == 0 {
                old(self).project@
            } else {
                ProjectView {
                    image_ids: ordered_uploads(old(self).required(), old(self).uploaded()),
                    ..old(self).project@
                }
            }),
            final(self).required() == old(self).required(),
            final(self).pending() == old(self).pending(),
            final(self).uploaded() == old(self).uploaded(),
            final(self).labelplus_data == old(self).labelplus_data,
            final(self).bf_data == old(self).bf_data,
    {
        if self.required_images.len() > 0 {
            let mut ordered: Vec<ImageId> = Vec::new();
            let mut i: usize = 0;
            while i < self.required_images.len()
                invariant
                    self.wf(),
                    i <= self.required_images@.len(),
                    ordered@ == ordered_uploads(self.required().take(i as int), self.uploaded()),
                decreases self.required_images@.len() - i,
            {
                assert(self.required().take(i + 1).drop_last() =~= self.required().take(i as int));
                match self.uploaded_images.get(self.required_images[i].as_str()) {
                    Some(id) => {
                        ordered.push(*id);
                    },
                    None => {},
                }
                i = i + 1;
            }
            assert(self.required().take(self.required_images@.len() as int) =~= self.required());
            self.project.image_ids = ordered;
        }
        self.project.clone()
    }
}

/// Projects being opened, keyed by project identifier.
pub struct OpeningProjectStorage {
    storage: HashMap<ProjectId, OpeningProject>,
}

impl View for OpeningProjectStorage {
    type V = Map<ProjectId, OpeningProject>;

    closed spec fn view(&self) -> Map<ProjectId, OpeningProject> {
        self.storage@
    }
}

impl OpeningProjectStorage {
    /// Every stored opening project is consistent.
    pub open spec fn wf(&self) -> bool {
        forall|id: ProjectId| #[trigger] self@.contains_key(id) ==> self@[id].wf()
    }

    /// An empty store.
    pub fn new() -> (s: Self)
        ensures
            s.wf(),
            s@ == Map::<ProjectId, OpeningProject>::empty(),
    {
        let s = OpeningProjectStorage { storage: HashMap::new() };
        assert(s@ =~= Map::<ProjectId, OpeningProject>::empty());
        s
    }

    /// Stores an opening project, replacing what was there.
    pub fn insert(&mut self, project_id: ProjectId, opening_project: OpeningProject) -> (r: crate::error::CoreResult<
        (),
    >)
        requires
            old(self).wf(),
            opening_project.wf(),
        ensures
            final(self).wf(),
            r is Ok,
            final(self)@ == old(self)@.insert(project_id, opening_project),
    {
        self.storage.insert(project_id, opening_project);
        assert forall|id: ProjectId| #[trigger] self@.contains_key(id) implies self@[id].wf() by {
            if id != project_id {
                assert(old(self)@.contains_key(id));
            }
        }
        Ok(())
    }

    /// The opening project under an identifier, if any.
    pub fn get(&self, project_id: ProjectId) -> (r: Option<&OpeningProject>)
        ensures
            match r {
                Some(op) => self@.contains_key(project_id) && *op == self@[project_id],
                None => !self@.contains_key(project_id),
            },
    {
        self.storage.get(&project_id)
    }

    /// Takes an opening project out.
    pub fn remove(&mut self, project_id: ProjectId) -> (r: crate::error::CoreResult<Option<OpeningProject>>)
        requires
            old(self).wf(),
        ensures
            final(self).wf(),
            final(self)@ == old(self)@.remove(project_id),
            r == Ok::<Option<OpeningProject>, crate::error::CoreError>(
                if old(self)@.contains_key(project_id) {
                    Some(old(self)@[project_id])
                } else {
                    None
                },
            ),
    {
        let r = self.storage.remove(&project_id);
        assert forall|id: ProjectId| #[trigger] self@.contains_key(id) implies self@[id].wf() by {
            assert(old(self)@.contains_key(id));
        }
        Ok(r)
    }

    /// Whether there is an opening project under an identifier.
    pub fn contains(&self, project_id: ProjectId) -> (r: bool)
        ensures
            r == self@.contains_key(project_id),
    {
        self.storage.contains_key(&project_id)
    }

    /// The identifiers of the opening projects, in no particular order.
    pub fn list(&self) -> (r: crate::error::CoreResult<Vec<ProjectId>>)
        ensures
            r matches Ok(v) && crate::collections::enumerates(v@, self@.dom()),
    {
        Ok(crate::collections::map_keys(&self.storage))
    }

    /// Forgets every opening project.
    pub fn clear(&mut self) -> (r: crate::error::CoreResult<()>)
        ensures
            final(self).wf(),
            r is Ok,
            final(self)@ == Map::<ProjectId, OpeningProject>::empty(),
    {
        self.storage.clear();
        assert(self@ =~= Map::<ProjectId, OpeningProject>::empty());
        Ok(())
    }
}

/// What `keep_unmatched` keeps: the names of `s` whose file name is not
/// `nn`, each an element of `s`.
pub proof fn lemma_keep_unmatched(s: Seq<Seq<char>>, nn: Seq<char>)
    ensures
        forall|i: int| 0 <= i < keep_unmatched(s, nn).len() ==> normalized(#[trigger] keep_unmatched(s, nn)[i]) != nn,
        forall|i: int| 0 <= i < keep_unmatched(s, nn).len() ==> s.contains(#[trigger] keep_unmatched(s, nn)[i]),
        keep_unmatched(s, nn).len() <= s.len(),
    decreases s.len(),
{
    if s.len() > 0 {
        let prev = s.drop_last();
        lemma_keep_unmatched(prev, nn);
        let k = keep_unmatched(s, nn);
        assert forall|i: int| 0 <= i < k.len() implies s.contains(#[trigger] k[i]) by {
            if i < keep_unmatched(prev, nn).len() {
                let x = keep_unmatched(prev, nn)[i];
                assert(prev.contains(x));
                let j = choose|j: int| 0 <= j < prev.len() && prev[j] == x;
                assert(s[j] == x);
            } else {
                assert(s[s.len() - 1] == s.last());
            }
        }
    }
}

/// An uploaded page is no longer pending: after `mark_image_uploaded` with a
/// page name, no pending name has that page's file name, and no name became
/// pending.
pub proof fn law_uploaded_page_is_no_longer_pending(pending: Seq<Seq<char>>, image_name: Seq<char>)
    ensures
        forall|i: int|
            0 <= i < keep_unmatched(pending, normalized(image_name)).len() ==> normalized(
                #[trigger] keep_unmatched(pending, normalized(image_name))[i],
            ) != normalized(image_name),
        forall|i: int|
            0 <= i < keep_unmatched(pending, normalized(image_name)).len() ==> pending.contains(
                #[trigger] keep_unmatched(pending, normalized(image_name))[i],
            ),
{
    lemma_keep_unmatched(pending, normalized(image_name));
}

/// A project is complete exactly when it asks for no pages or none is
/// pending; in particular, once nothing is pending it can be finalized.
pub proof fn law_nothing_pending_means_complete(op: OpeningProject)
    requires
        op.pending().len() == 0,
    ensures
        op.complete(),
{
}

} // verus!
