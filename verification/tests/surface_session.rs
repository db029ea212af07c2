use millo::heightmap::{
    reopened, HeightmapOperationSnapshot, HeightmapOperationState, HeightmapProgress,
    PendingSurfaceMap, SurfaceSessionError, SurfaceSessionStore,
};

/// A measured grid as these tests need it: the grid size and each point's
/// height, `None` until probed.
#[derive(Debug, Clone, PartialEq)]
struct Grid {
    columns: usize,
    rows: usize,
    samples: Vec<Option<f64>>,
}

fn map(columns: usize, rows: usize) -> Grid {
    Grid { columns, rows, samples: vec![None; columns * rows] }
}

fn progress(map: &Grid) -> HeightmapProgress {
    let measured = map.samples.iter().filter(|sample| sample.is_some()).count();
    HeightmapProgress {
        measured,
        triggered: measured,
        total: map.samples.len(),
        complete: measured == map.samples.len(),
    }
}

fn running(sequence: u64, map: Grid) -> HeightmapOperationSnapshot<Grid> {
    HeightmapOperationSnapshot {
        operation_sequence: sequence,
        state: HeightmapOperationState::Running,
        current_sequence: Some(0),
        progress: progress(&map),
        map: Some(map),
        error: None,
    }
}

fn completed(sequence: u64, z_offset: f64) -> HeightmapOperationSnapshot<Grid> {
    let mut measured = map(2, 2);
    for (index, sample) in measured.samples.iter_mut().enumerate() {
        *sample = Some(z_offset + index as f64 * 0.01);
    }
    let mut snapshot = running(sequence, measured);
    snapshot.state = HeightmapOperationState::Completed;
    snapshot.current_sequence = None;
    snapshot
}

fn measure(store: &mut SurfaceSessionStore<Grid>, sequence: u64, z: f64) -> u64 {
    store.begin("machine-1".to_owned(), running(sequence, map(2, 2)), sequence * 10).unwrap();
    store.checkpoint(completed(sequence, z), sequence * 10 + 1).unwrap();
    store.activate_completed(sequence, sequence * 10 + 2).unwrap()
}

#[test]
fn incomplete_replacement_never_destroys_the_active_map() {
    let mut store = SurfaceSessionStore::in_memory();
    measure(&mut store, 1, 0.1);
    let active = store.session().active.as_ref().unwrap().map.clone();
    let id = store.session().active.as_ref().unwrap().map_id;

    store.begin("machine-1".to_owned(), running(2, map(3, 3)), 20).unwrap();
    store.discard_pending();

    let kept = store.session().active.as_ref().unwrap();
    assert_eq!(kept.map, active);
    assert_eq!(kept.map_id, id);
}

#[test]
fn completed_replacement_is_atomic_and_gets_a_new_identity() {
    let mut store = SurfaceSessionStore::in_memory();
    assert_eq!(measure(&mut store, 1, 0.1), 1);
    assert_eq!(measure(&mut store, 2, 0.2), 2);
    let active = store.session().active.as_ref().unwrap();
    assert_eq!(active.map_id, 2);
    assert_eq!(active.map.samples[0], Some(0.2));
    assert!(store.session().pending.is_none());
}

#[test]
fn coordinate_change_disarms_but_retains_the_map() {
    let mut store = SurfaceSessionStore::in_memory();
    measure(&mut store, 1, 0.1);
    assert_eq!(store.set_application_enabled(true, true), Ok(()));

    store.disarm_for_coordinate_change();
    let disarmed = store.session();
    assert!(disarmed.active.is_some());
    assert!(!disarmed.application_enabled);
    assert!(disarmed.requires_setup_confirmation);
    assert!(disarmed.coordinate_binding_stale);
    assert_eq!(store.set_application_enabled(true, true), Err(SurfaceSessionError::CoordinateBindingStale));
}

#[test]
fn restart_restores_data_but_requires_fixture_confirmation_before_application() {
    let mut store = SurfaceSessionStore::in_memory();
    measure(&mut store, 1, 0.1);
    store.set_application_enabled(true, true).unwrap();
    let session = store.session();
    let copy = millo::heightmap::SurfaceSession {
        schema_version: session.schema_version,
        revision: session.revision,
        next_map_id: session.next_map_id,
        active: session.active.as_ref().map(|active| millo::heightmap::StoredSurfaceMap {
            map_id: active.map_id,
            machine_profile_id: active.machine_profile_id.clone(),
            created_at_unix_ms: active.created_at_unix_ms,
            map: active.map.clone(),
        }),
        pending: None,
        application_enabled: session.application_enabled,
        requires_setup_confirmation: session.requires_setup_confirmation,
        coordinate_binding_stale: session.coordinate_binding_stale,
    };
    let (restored, rewrite) = reopened(copy, false);
    assert!(restored.active.is_some());
    assert!(!restored.application_enabled);
    assert!(restored.requires_setup_confirmation);
    assert!(rewrite);

    let (again, rewrite_again) = reopened(restored, false);
    assert!(!again.application_enabled);
    assert!(again.requires_setup_confirmation);
    assert!(!rewrite_again);
}

#[test]
fn resumes_a_pending_draft_without_changing_its_grid_or_samples() {
    let mut store = SurfaceSessionStore::in_memory();
    let mut measured = map(2, 2);
    measured.samples[0] = Some(-0.1);
    store.begin("machine-a".to_owned(), running(7, measured.clone()), 5).unwrap();
    let mut failed = running(7, measured.clone());
    failed.state = HeightmapOperationState::Failed;
    failed.current_sequence = Some(1);
    failed.error = Some("probe miss".to_owned());
    store.checkpoint(failed, 10).unwrap();

    let resumed = running(8, measured.clone());
    let same = store.session().pending.as_ref().unwrap().operation.map.as_ref() == resumed.map.as_ref();
    store.resume_pending("machine-a", resumed, same, 20).unwrap();

    let pending = store.session().pending.as_ref().unwrap();
    assert_eq!(pending.operation.operation_sequence, 8);
    assert_eq!(pending.operation.state, HeightmapOperationState::Running);
    assert_eq!(pending.operation.progress.measured, 1);
    assert_eq!(pending.operation.map.as_ref().unwrap().samples[0], Some(-0.1));
}

#[test]
fn resume_rejects_changed_geometry_or_measured_values() {
    let mut store = SurfaceSessionStore::in_memory();
    let mut measured = map(2, 2);
    measured.samples[0] = Some(-0.1);
    store.begin("machine-a".to_owned(), running(7, measured.clone()), 5).unwrap();
    let mut failed = running(7, measured.clone());
    failed.state = HeightmapOperationState::Failed;
    store.checkpoint(failed, 10).unwrap();

    let mut changed = measured;
    changed.samples[0] = Some(-0.2);
    let resumed = running(8, changed);
    let same = store.session().pending.as_ref().unwrap().operation.map.as_ref() == resumed.map.as_ref();
    assert_eq!(
        store.resume_pending("machine-a", resumed, same, 20),
        Err(SurfaceSessionError::ResumeMapMismatch)
    );
    assert_eq!(
        store.resume_pending("machine-b", running(9, map(2, 2)), true, 20),
        Err(SurfaceSessionError::PendingMachineMismatch)
    );
}

#[test]
fn session_changes_check_the_operation_they_belong_to() {
    let mut store: SurfaceSessionStore<Grid> = SurfaceSessionStore::in_memory();
    assert_eq!(store.checkpoint(running(1, map(2, 2)), 1), Err(SurfaceSessionError::NoPendingMap));
    let mut idle = running(1, map(2, 2));
    idle.state = HeightmapOperationState::Idle;
    assert_eq!(
        store.begin("machine-1".to_owned(), idle, 1),
        Err(SurfaceSessionError::InvalidOperation("pending map must start in Running state"))
    );
    assert_eq!(store.set_application_enabled(true, true), Err(SurfaceSessionError::NoMap));
    assert_eq!(store.set_application_enabled(false, false), Ok(()));

    store.begin("machine-1".to_owned(), running(1, map(2, 2)), 1).unwrap();
    assert_eq!(store.checkpoint(running(2, map(2, 2)), 2), Err(SurfaceSessionError::OperationMismatch));
    assert_eq!(store.activate_completed(1, 3), Err(SurfaceSessionError::IncompleteMap));
    assert_eq!(store.activate_completed(2, 3), Err(SurfaceSessionError::OperationMismatch));

    let previous = PendingSurfaceMap {
        machine_profile_id: "machine-1".to_owned(),
        updated_at_unix_ms: 0,
        operation: running(1, map(2, 2)),
    };
    assert_eq!(store.restore_pending_after_failed_resume(5, previous), Err(SurfaceSessionError::OperationMismatch));
    let revision = store.session().revision;
    store.forget_active();
    assert_eq!(store.session().revision, revision + 1);
    assert!(store.session().pending.is_some());

    measure(&mut store, 3, 0.0);
    assert_eq!(store.set_application_enabled(true, false), Err(SurfaceSessionError::SetupConfirmationRequired));
}
