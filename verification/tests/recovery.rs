use millo::dry_run::ProgramExecutionOptions;
use millo::journal::{SenderFailure, SenderFailureKind, SenderMode, SenderSnapshot, SenderState};
use millo::recovery::{
    candidate_for_record, choose_loaded_record, should_restore_interrupted_parent,
    ProgramRecoveryError, ProgramRecoveryStore, ProgramRunIntent, RecoveryInterruptionKind,
    RecoveryContinuity, RecoveryProgramFacts, RecoverySeed, RestartPoint,
};

const WALL_MS: u64 = 1_700_000_000_000;
const WALL_US: u64 = 1_700_000_000_000_000;
const MACHINE: &str = "usb:1234:5678:serial";
const PROGRAM: &str = "fp-interrupted";

fn running_snapshot() -> SenderSnapshot {
    SenderSnapshot {
        run_sequence: 1,
        state: SenderState::Running,
        mode: Some(SenderMode::CutRun),
        source_name: Some("interrupted.nc".to_owned()),
        total_lines: 10,
        dispatched_lines: 9,
        acknowledged_lines: 8,
        last_acknowledged_source_line: Some(8),
        last_acknowledged_command: Some("G1 Z-1 F100".to_owned()),
        current_source_line: Some(9),
        current_command: Some("G1 X30".to_owned()),
        executing_source_line: Some(9),
        shutdown_commands_acknowledged: false,
        elapsed_ms: 0,
        failure: None,
    }
}

fn seed(snapshot: &SenderSnapshot) -> RecoverySeed {
    RecoverySeed {
        machine_fingerprint: MACHINE.to_owned(),
        profile_id: Some("machine-1".to_owned()),
        source_name: "interrupted.nc".to_owned(),
        source: "G21 G90 G94 G17 G54\nG0 Z5\nG0 X0 Y0\nG1 Z-1 F100\nG1 X10\nG0 Z5\nG0 X20 Y0\nG1 Z-1 F100\nG1 X30\nM30".to_owned(),
        program_fingerprint: PROGRAM.to_owned(),
        intent: ProgramRunIntent::Cutting,
        execution_options: ProgramExecutionOptions::defaults(),
        run_sequence: snapshot.run_sequence,
        start_machine_position: None,
        start_work_position: None,
        start_work_coordinate_offset: None,
    }
}

fn facts(fingerprint: &str) -> RecoveryProgramFacts {
    RecoveryProgramFacts {
        fingerprint: Ok(fingerprint.to_owned()),
        first_anchor_line: Some(2),
        restart_anchor_line: Some(7),
    }
}

fn armed(store: &mut ProgramRecoveryStore, snapshot: &SenderSnapshot, offset_s: u64) -> u64 {
    store
        .arm(
            seed(snapshot),
            snapshot,
            Ok(PROGRAM.to_owned()),
            true,
            WALL_MS + offset_s * 1_000,
            WALL_US + offset_s * 1_000_000,
            offset_s * 1_000,
        )
        .unwrap()
}

#[test]
fn completed_runs_are_not_offered_and_dismissal_is_id_bound() {
    let snapshot = running_snapshot();
    let mut store = ProgramRecoveryStore::in_memory();
    let id = armed(&mut store, &snapshot, 0);
    let mut completed = snapshot;
    completed.state = SenderState::Completed;
    assert!(store.observe(&completed, WALL_MS, 0));
    assert_eq!(store.candidate(&facts(PROGRAM)), Ok(None));
    assert_eq!(
        store.dismiss(id + 1),
        Err(ProgramRecoveryError::RecordMismatch { expected: id + 1, actual: id })
    );
    assert_eq!(store.dismiss(id), Ok(()));
    assert_eq!(store.candidate(&facts(PROGRAM)), Ok(None));
    assert!(store.record().is_none());
}

#[test]
fn failed_run_remains_recoverable_only_for_the_bound_controller() {
    let snapshot = running_snapshot();
    let mut store = ProgramRecoveryStore::in_memory();
    let id = armed(&mut store, &snapshot, 0);
    let mut failed = snapshot;
    failed.state = SenderState::Failed;
    failed.failure = Some(SenderFailure {
        kind: SenderFailureKind::Disconnected,
        message: "controller power disappeared".to_owned(),
        grbl_code: None,
        source_line: None,
        command: None,
    });
    assert!(store.observe(&failed, WALL_MS + 1_000, 1_000));

    let offered = store.candidate(&facts(PROGRAM)).unwrap().unwrap();
    assert_eq!(offered.id, id);
    assert!(offered.ready);
    assert_eq!(offered.interruption, RecoveryInterruptionKind::ControllerDisconnected);
    assert!(store.machine_matches(id, MACHINE));
    assert!(!store.machine_matches(id, "usb:ffff:ffff:other"));
    assert!(!store.machine_matches(id + 1, MACHINE));
}

#[test]
fn unrelated_snapshot_with_a_reused_process_sequence_cannot_hide_recovery() {
    let snapshot = running_snapshot();
    let mut store = ProgramRecoveryStore::in_memory();
    let id = armed(&mut store, &snapshot, 0);
    let mut unrelated = snapshot;
    unrelated.source_name = Some("mock-after-restart.nc".to_owned());
    unrelated.mode = Some(SenderMode::MockDryRun);
    unrelated.state = SenderState::Completed;

    assert!(!store.observe(&unrelated, WALL_MS + 1_000, 1_000));
    assert_eq!(store.candidate(&facts(PROGRAM)).unwrap().unwrap().id, id);
}

#[test]
fn unresolved_evidence_can_only_be_replaced_by_its_prepared_recovery_program() {
    let snapshot = running_snapshot();
    let mut store = ProgramRecoveryStore::in_memory();
    let id = armed(&mut store, &snapshot, 0);

    let mut unrelated = seed(&snapshot);
    unrelated.source_name = "other.nc".to_owned();
    unrelated.source = "G21 G90\nG0 X1".to_owned();
    unrelated.program_fingerprint = "fp-other".to_owned();
    let mut unrelated_snapshot = snapshot.clone();
    unrelated_snapshot.source_name = Some("other.nc".to_owned());
    assert_eq!(
        store.arm(
            unrelated,
            &unrelated_snapshot,
            Ok("fp-other".to_owned()),
            true,
            WALL_MS + 1_000,
            WALL_US + 1_000_000,
            1_000,
        ),
        Err(ProgramRecoveryError::OutstandingRecovery {
            id,
            source_name: "interrupted.nc".to_owned()
        })
    );

    assert_eq!(store.mark_prepared(id, "fp-recovery".to_owned()), Ok(()));
    let mut approved = seed(&snapshot);
    approved.source_name = format!("recovery-{id}-interrupted.nc");
    approved.program_fingerprint = "fp-recovery".to_owned();
    let mut approved_snapshot = snapshot;
    approved_snapshot.source_name = Some(approved.source_name.clone());
    approved_snapshot.executing_source_line = None;

    let replacement = store
        .arm(
            approved,
            &approved_snapshot,
            Ok("fp-recovery".to_owned()),
            true,
            WALL_MS + 2_000,
            WALL_US + 2_000_000,
            2_000,
        )
        .unwrap();
    assert_ne!(replacement, id);
    assert_eq!(store.rollback_arm(replacement), Ok(()));
    assert_eq!(store.candidate(&facts(PROGRAM)).unwrap().unwrap().id, id);
}

#[test]
fn failed_recovery_before_its_first_physical_line_restores_the_parent() {
    let snapshot = running_snapshot();
    let mut store = ProgramRecoveryStore::in_memory();
    let parent = armed(&mut store, &snapshot, 0);
    assert_eq!(store.commit_arm(parent), Ok(()));
    assert_eq!(store.mark_prepared(parent, "fp-recovery".to_owned()), Ok(()));
    let mut approved = seed(&snapshot);
    approved.source_name = format!("recovery-{parent}-interrupted.nc");
    approved.program_fingerprint = "fp-recovery".to_owned();
    let mut child_snapshot = snapshot;
    child_snapshot.source_name = Some(approved.source_name.clone());
    child_snapshot.executing_source_line = None;
    let child = store
        .arm(
            approved,
            &child_snapshot,
            Ok("fp-recovery".to_owned()),
            true,
            WALL_MS + 1_000,
            WALL_US + 1_000_000,
            1_000,
        )
        .unwrap();
    assert_eq!(store.commit_arm(child), Ok(()));
    child_snapshot.state = SenderState::Failed;

    assert!(store.observe(&child_snapshot, WALL_MS + 2_000, 2_000));
    assert_eq!(store.candidate(&facts(PROGRAM)).unwrap().unwrap().id, parent);
}

#[test]
fn arming_checks_the_run_before_the_program() {
    let snapshot = running_snapshot();
    let mut store = ProgramRecoveryStore::in_memory();
    let mut zero = seed(&snapshot);
    zero.run_sequence = 0;
    assert_eq!(
        store.arm(zero, &snapshot, Ok(PROGRAM.to_owned()), true, WALL_MS, WALL_US, 0),
        Err(ProgramRecoveryError::InvalidRunSequence)
    );
    let mut mock = snapshot.clone();
    mock.mode = Some(SenderMode::MockDryRun);
    assert_eq!(
        store.arm(seed(&mock), &mock, Ok(PROGRAM.to_owned()), true, WALL_MS, WALL_US, 0),
        Err(ProgramRecoveryError::InvalidSenderMode)
    );
    let mut air = snapshot.clone();
    air.mode = Some(SenderMode::AirRun);
    assert_eq!(
        store.arm(seed(&air), &air, Ok(PROGRAM.to_owned()), true, WALL_MS, WALL_US, 0),
        Err(ProgramRecoveryError::PreparedRunMismatch)
    );
    assert_eq!(
        store.arm(seed(&snapshot), &snapshot, Err("bad word".to_owned()), true, WALL_MS, WALL_US, 0),
        Err(ProgramRecoveryError::InvalidSource("bad word".to_owned()))
    );
    assert_eq!(
        store.arm(seed(&snapshot), &snapshot, Ok("fp-changed".to_owned()), true, WALL_MS, WALL_US, 0),
        Err(ProgramRecoveryError::ProgramChanged)
    );
    assert_eq!(
        store.arm(seed(&snapshot), &snapshot, Ok(PROGRAM.to_owned()), false, WALL_MS, WALL_US, 0),
        Err(ProgramRecoveryError::CheckpointUnavailable)
    );
    let mut done = snapshot.clone();
    done.state = SenderState::Completed;
    assert_eq!(
        store.arm(seed(&done), &done, Ok(PROGRAM.to_owned()), true, WALL_MS, WALL_US, 0),
        Err(ProgramRecoveryError::Missing)
    );
    assert!(store.record().is_none());
    assert_eq!(store.arm(seed(&snapshot), &snapshot, Ok(PROGRAM.to_owned()), true, WALL_MS, WALL_US, 0), Ok(WALL_US));
}

#[test]
fn offers_a_checkpoint_restart_when_the_executing_line_is_known() {
    let snapshot = running_snapshot();
    let mut store = ProgramRecoveryStore::in_memory();
    armed(&mut store, &snapshot, 0);
    let offered = store.candidate(&facts(PROGRAM)).unwrap().unwrap();
    assert!(offered.ready);
    assert!(offered.checkpoint_restart_available);
    assert!(offered.full_restart_available);
    assert_eq!(offered.restart_source_line, Some(7));
    assert_eq!(offered.interruption, RecoveryInterruptionKind::HostStopped);
    assert_eq!(
        offered.detail,
        "Checkpoint restart from source line 7 replays 2 line(s); full restart remains available"
    );

    let blocked = store.candidate(&facts("fp-changed")).unwrap().unwrap();
    assert!(!blocked.ready);
    assert!(!blocked.full_restart_available);
    assert_eq!(blocked.detail, "Stored source fingerprint mismatch; recovery is blocked");

    let record = store.record().unwrap();
    let no_anchor = RecoveryProgramFacts {
        fingerprint: Ok(PROGRAM.to_owned()),
        first_anchor_line: Some(2),
        restart_anchor_line: None,
    };
    assert_eq!(
        candidate_for_record(record, &no_anchor),
        Err(ProgramRecoveryError::CheckpointUnavailable)
    );
}

#[test]
fn missing_ln_leaves_only_a_full_restart() {
    let mut snapshot = running_snapshot();
    snapshot.executing_source_line = None;
    let mut store = ProgramRecoveryStore::in_memory();
    armed(&mut store, &snapshot, 0);
    let offered = store.candidate(&facts(PROGRAM)).unwrap().unwrap();
    assert!(offered.ready);
    assert!(!offered.checkpoint_restart_available);
    assert!(offered.full_restart_available);
    assert_eq!(offered.restart_source_line, Some(2));
}

#[test]
fn progress_is_written_when_it_matters_and_the_executing_line_is_kept() {
    let snapshot = running_snapshot();
    let mut store = ProgramRecoveryStore::in_memory();
    armed(&mut store, &snapshot, 0);
    let mut moved = snapshot.clone();
    moved.executing_source_line = Some(10);
    assert!(!store.observe(&moved, WALL_MS + 100, 100));
    assert!(store.observe(&moved, WALL_MS + 1_500, 1_500));
    let mut silent = moved.clone();
    silent.executing_source_line = None;
    silent.state = SenderState::Paused;
    assert!(store.observe(&silent, WALL_MS + 1_600, 1_600));
    let record = store.record().unwrap();
    assert_eq!(record.executing_source_line, Some(10));
    assert_eq!(record.state, SenderState::Paused);
    assert_eq!(record.updated_at_unix_ms, WALL_MS + 1_600);
}

#[test]
fn rollback_and_commit_need_the_pending_arm() {
    let snapshot = running_snapshot();
    let mut store = ProgramRecoveryStore::in_memory();
    let id = armed(&mut store, &snapshot, 0);
    assert_eq!(store.commit_arm(id + 1), Err(ProgramRecoveryError::ArmNotPending(id + 1)));
    assert_eq!(store.rollback_arm(id + 1), Err(ProgramRecoveryError::ArmNotPending(id + 1)));
    assert_eq!(store.rollback_arm(id), Ok(()));
    assert!(store.record().is_none());
    assert_eq!(store.rollback_arm(id), Err(ProgramRecoveryError::ArmNotPending(id)));
}

#[test]
fn loading_prefers_the_parent_of_an_unstarted_recovery_and_falls_back_to_the_backup() {
    let snapshot = running_snapshot();
    let mut store = ProgramRecoveryStore::in_memory();
    let parent = armed(&mut store, &snapshot, 0);
    store.mark_prepared(parent, "fp-recovery".to_owned()).unwrap();
    let mut child_seed = seed(&snapshot);
    child_seed.source_name = format!("recovery-{parent}-interrupted.nc");
    child_seed.program_fingerprint = "fp-recovery".to_owned();
    let mut child_snapshot = snapshot.clone();
    child_snapshot.source_name = Some(child_seed.source_name.clone());
    child_snapshot.executing_source_line = None;
    let mut parent_store = ProgramRecoveryStore::in_memory();
    armed(&mut parent_store, &snapshot, 0);
    parent_store.mark_prepared(parent, "fp-recovery".to_owned()).unwrap();
    store
        .arm(child_seed, &child_snapshot, Ok("fp-recovery".to_owned()), true, WALL_MS + 1_000, WALL_US + 1_000_000, 1_000)
        .unwrap();

    let backup = ProgramRecoveryStore::with_record(None);
    assert!(backup.record().is_none());
    let parent_store_record = Some(take_record(parent_store));
    let child_record = Some(take_record(store));
    assert!(should_restore_interrupted_parent(&child_record, &parent_store_record));
    assert!(!should_restore_interrupted_parent(&parent_store_record, &child_record));

    let chosen: Result<_, String> = choose_loaded_record(Ok(Some(child_record)), Ok(Some(parent_store_record)));
    let (record, from_backup) = chosen.unwrap().unwrap();
    assert!(from_backup);
    assert_eq!(record.unwrap().id, parent);

    let corrupt: Result<_, String> = choose_loaded_record(Err("corrupt".to_owned()), Ok(Some(None)));
    assert!(matches!(corrupt, Ok(Some((None, true)))));
    let lost: Result<_, String> = choose_loaded_record(Err("corrupt".to_owned()), Ok(None));
    assert_eq!(lost.unwrap_err(), "corrupt");
    let empty: Result<_, String> = choose_loaded_record(Ok(None), Ok(None));
    assert!(matches!(empty, Ok(None)));
}

fn take_record(store: ProgramRecoveryStore) -> millo::recovery::RecoveryRecord {
    let record = store.record().unwrap();
    millo::recovery::RecoveryRecord {
        id: record.id,
        machine_fingerprint: record.machine_fingerprint.clone(),
        profile_id: record.profile_id.clone(),
        source_name: record.source_name.clone(),
        source: record.source.clone(),
        program_fingerprint: record.program_fingerprint.clone(),
        intent: record.intent,
        execution_options: record.execution_options,
        run_sequence: record.run_sequence,
        state: record.state,
        created_at_unix_ms: record.created_at_unix_ms,
        updated_at_unix_ms: record.updated_at_unix_ms,
        total_lines: record.total_lines,
        acknowledged_lines: record.acknowledged_lines,
        executing_source_line: record.executing_source_line,
        failure: record.failure.clone(),
        start_machine_position: None,
        start_work_position: None,
        start_work_coordinate_offset: None,
        prepared_recovery_fingerprint: record.prepared_recovery_fingerprint.clone(),
    }
}

#[test]
fn preparing_a_recovery_picks_its_restart_point_from_the_checked_record() {
    let snapshot = running_snapshot();
    let mut store = ProgramRecoveryStore::in_memory();
    assert_eq!(
        store.restart_point(1, Ok(PROGRAM.to_owned()), RecoveryContinuity::ControllerInterrupted),
        Err(ProgramRecoveryError::Missing)
    );
    let id = armed(&mut store, &snapshot, 0);
    assert_eq!(
        store.restart_point(id + 1, Ok(PROGRAM.to_owned()), RecoveryContinuity::ControllerInterrupted),
        Err(ProgramRecoveryError::RecordMismatch { expected: id + 1, actual: id })
    );
    assert_eq!(
        store.restart_point(id, Err("bad line".to_owned()), RecoveryContinuity::ControllerInterrupted),
        Err(ProgramRecoveryError::InvalidSource("bad line".to_owned()))
    );
    assert_eq!(
        store.restart_point(id, Ok("fp-changed".to_owned()), RecoveryContinuity::ControllerInterrupted),
        Err(ProgramRecoveryError::ProgramChanged)
    );
    assert_eq!(
        store.restart_point(id, Ok(PROGRAM.to_owned()), RecoveryContinuity::HostInterruptedMachinePowered),
        Ok(RestartPoint::Checkpoint { interrupted_line: 9 })
    );
    assert_eq!(
        store.restart_point(id, Ok(PROGRAM.to_owned()), RecoveryContinuity::MotionPowerLostOrUnknown),
        Ok(RestartPoint::FullRestart)
    );

    let mut unknown_line = running_snapshot();
    unknown_line.executing_source_line = None;
    let mut store = ProgramRecoveryStore::in_memory();
    let id = armed(&mut store, &unknown_line, 0);
    assert_eq!(
        store.restart_point(id, Ok(PROGRAM.to_owned()), RecoveryContinuity::ControllerInterrupted),
        Err(ProgramRecoveryError::ExecutingLineUnavailable)
    );
}
