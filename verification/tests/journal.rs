use millo::journal::{
    is_terminal, recovery_disposition, RecoveryDisposition, RunJournal, SenderFailure,
    SenderFailureKind, SenderMode, SenderSnapshot, SenderState, ACK_CHECKPOINT_INTERVAL,
};

const WALL_MS: u64 = 1_700_000_000_000;

fn snapshot(sequence: u64, state: SenderState, acknowledged: usize) -> SenderSnapshot {
    SenderSnapshot {
        run_sequence: sequence,
        state,
        mode: Some(SenderMode::CutRun),
        source_name: Some("complex.nc".to_owned()),
        total_lines: 1_000,
        dispatched_lines: acknowledged.saturating_add(10),
        acknowledged_lines: acknowledged,
        last_acknowledged_source_line: Some(acknowledged),
        last_acknowledged_command: Some(format!("G1 X{acknowledged}")),
        current_source_line: None,
        executing_source_line: None,
        current_command: None,
        shutdown_commands_acknowledged: false,
        elapsed_ms: 0,
        failure: None,
    }
}

#[test]
fn checkpoints_are_throttled_but_terminal_state_is_always_persisted() {
    let now = 0;
    let mut journal = RunJournal::in_memory(1);

    assert!(journal.observe(&snapshot(1, SenderState::Running, 0), WALL_MS, now));
    assert!(!journal.observe(&snapshot(1, SenderState::Running, 20), WALL_MS + 50, now + 50));
    assert!(journal.observe(
        &snapshot(1, SenderState::Running, ACK_CHECKPOINT_INTERVAL),
        WALL_MS + 1_000,
        now + 1_000,
    ));
    let mut completed = snapshot(1, SenderState::Completed, 1_000);
    completed.shutdown_commands_acknowledged = true;
    assert!(journal.observe(&completed, WALL_MS + 2_000, now + 2_000));
    assert_eq!(journal.entries()[0].recovery, RecoveryDisposition::NotRequired);
    assert!(journal.entries()[0].shutdown_commands_acknowledged);
    assert!(!journal.observe(&completed, WALL_MS + 20_000, now + 20_000));
}

#[test]
fn failed_runs_retain_the_exact_line_but_never_become_resume_tokens() {
    let now = 0;
    let mut failed = snapshot(7, SenderState::Failed, 42);
    failed.current_source_line = Some(43);
    failed.current_command = Some("G2 X10 Y10 I5 J0".to_owned());
    failed.failure = Some(SenderFailure {
        kind: SenderFailureKind::GrblError,
        message: "error:33".to_owned(),
        grbl_code: Some(33),
        source_line: Some(43),
        command: failed.current_command.clone(),
    });
    let mut journal = RunJournal::in_memory(1);

    journal.observe(&failed, WALL_MS, now);

    let entry = &journal.entries()[0];
    assert_eq!(entry.current_source_line, Some(43));
    assert_eq!(entry.recovery, RecoveryDisposition::RestartBlocked);
    assert!(entry.recovery_detail.contains("Automatic restart"));
}

#[test]
fn the_journal_keeps_only_its_newest_runs() {
    let mut journal = RunJournal::new(false, 2, 1);
    for sequence in 1..=3u64 {
        assert!(journal.observe(
            &snapshot(sequence, SenderState::Completed, 1_000),
            WALL_MS + sequence * 1_000,
            sequence * 1_000,
        ));
    }
    assert_eq!(journal.entries().len(), 2);
    assert_eq!(journal.entries()[0].run_sequence, 2);
    assert_eq!(journal.entries()[1].run_sequence, 3);
}

#[test]
fn idle_or_unnamed_snapshots_are_not_journaled() {
    let mut journal = RunJournal::in_memory(1);
    assert!(!journal.observe(&snapshot(1, SenderState::Idle, 0), WALL_MS, 0));
    let mut unnamed = snapshot(1, SenderState::Running, 0);
    unnamed.source_name = None;
    assert!(!journal.observe(&unnamed, WALL_MS, 0));
    assert!(!journal.observe(&snapshot(0, SenderState::Running, 0), WALL_MS, 0));
    assert!(journal.entries().is_empty());
}

#[test]
fn a_persistent_journal_waits_for_the_written_checkpoint() {
    let mut journal = RunJournal::new(true, 10, 1);
    let running = snapshot(1, SenderState::Running, 0);
    assert!(journal.observe(&running, WALL_MS, 0));
    assert!(journal.observe(&running, WALL_MS, 0));
    journal.checkpoint_written(&running, 0);
    assert!(!journal.observe(&running, WALL_MS, 10));
    assert!(journal.observe(&running, WALL_MS, 2_000));
}

#[test]
fn terminal_states_and_their_recovery() {
    assert!(is_terminal(SenderState::Cancelled));
    assert!(!is_terminal(SenderState::Paused));
    assert_eq!(recovery_disposition(SenderState::Cancelled), RecoveryDisposition::RestartBlocked);
    assert_eq!(recovery_disposition(SenderState::Running), RecoveryDisposition::CheckpointOnly);
    assert_eq!(recovery_disposition(SenderState::Completed), RecoveryDisposition::NotRequired);
}
