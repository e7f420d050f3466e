use vstd::prelude::*;
use std::collections::HashMap;
use crate::error::{CoreError, CoreResult};
use crate::ids::{MarkerId, ProjectId};
use crate::state::AppState;
use crate::labelplus::{LabelplusData, describes, is_validation_error, parse_labelplus, validate_labelplus_file};
use crate::labelplus_import::{import_labelplus_data_direct, is_project_not_found, labelplus_imported};
use crate::labelplus_export::{MarkerCoordText, export_labelplus_data, exported_text};
use crate::bf::{BfProjectData, describes_project, save_project};
use crate::strmap::StrMap;
use crate::labelplus_points::{describes_with_points, with_points};
use crate::labelplus::{LpMarkerView, sections_map};

verus! {

/// Import and export of whole projects.
pub struct IOService;

impl IOService {
    /// The service.
    pub fn new() -> (s: Self) {
        IOService
    }

    /// The content of a project file for a project (see `save_project`);
    /// packing it into the archive is the caller's part.
    pub fn export_bf(&self, state: &AppState, project_id: ProjectId) -> (r: CoreResult<BfProjectData>)
        ensures
            !state.projects@.contains_key(project_id) ==> (r matches Err(e) && is_project_not_found(e, project_id)),
            state.projects@.contains_key(project_id) ==> (r matches Ok(d) && describes_project(
                d,
                state.projects@[project_id],
                state.images@.images,
                state.markers@.markers,
            )),
    {
        let result = save_project(state, project_id)?;
        Ok(result)
    }

    /// A project written as a LabelPlus file (see `export_labelplus_data`).
    pub fn export_labelplus(
        &self,
        state: &AppState,
        project_id: ProjectId,
        coords: &HashMap<MarkerId, MarkerCoordText>,
    ) -> (r: CoreResult<String>)
        requires
            forall|k: MarkerId|
                state.markers@.markers.contains_key(k) ==> #[trigger] coords@.contains_key(state.markers@.markers[k].id),
        ensures
            !state.projects@.contains_key(project_id) ==> (r matches Err(e) && is_project_not_found(e, project_id)),
            state.projects@.contains_key(project_id) ==> (r matches Ok(text) && exported_text(
                *state,
                project_id,
                coords@.map_values(|c: MarkerCoordText| c@),
                text@,
            )),
    {
        let result = export_labelplus_data(state, project_id, coords)?;
        Ok(result)
    }

    /// Reads a LabelPlus file, sets its markers' points from their
    /// coordinate texts through `points` (see `set_points`) and puts the
    /// markers onto the project's pages. A malformed file or an unknown
    /// project is an error and nothing changes.
    pub fn import_labelplus(
        &self,
        state: &mut AppState,
        project_id: ProjectId,
        content: &str,
        points: &StrMap<u64>,
    ) -> (r: CoreResult<()>)
        requires
            points.wf(),
        ensures
            match parse_labelplus(content@) {
                Err(err) => {
                    &&& r matches Err(e) && is_validation_error(e, err)
                    &&& *final(state) == *old(state)
                },
                Ok(p) => if old(state).projects@.contains_key(project_id) {
                    &&& r == Ok::<(), CoreError>(())
                    &&& exists|d: LabelplusData| describes_with_points(d, p, points.map()) && labelplus_imported(
                        *old(state),
                        *final(state),
                        project_id,
                        d,
                    )
                } else {
                    &&& r matches Err(e) && is_project_not_found(e, project_id)
                    &&& final(state).markers@ == old(state).markers@
                    &&& final(state).images@ == old(state).images@
                    &&& final(state).projects@ == old(state).projects@
                    &&& final(state).marker_ids == old(state).marker_ids
                },
            },
    {
        let mut data = self.validate_labelplus(content)?;
        data.set_points(points);
        let ghost gd = data;
        let ghost o = *state;
        match import_labelplus_data_direct(state, project_id, data) {
            Ok(()) => {},
            Err(e) => {
                return Err(e);
            },
        }
        proof {
            let p = parse_labelplus(content@)->Ok_0;
            assert(gd.markers_by_image.map() =~= sections_map(p.sections).map_values(
                |ms: Seq<LpMarkerView>| with_points(ms, points.map()),
            ));
            assert(describes_with_points(gd, p, points.map()));
            assert(labelplus_imported(o, *state, project_id, gd));
        }
        Ok(())
    }

    /// Checks a LabelPlus file (see `parse_labelplus`).
    pub fn validate_labelplus(&self, content: &str) -> (r: CoreResult<LabelplusData>)
        ensures
            match r {
                Ok(d) => parse_labelplus(content@) matches Ok(p) && describes(d, p),
                Err(e) => parse_labelplus(content@) matches Err(err) && is_validation_error(e, err),
            },
    {
        validate_labelplus_file(content)
    }
}

} // verus!
