//! Classifying how a program run was interrupted, for recovery.
use vstd::prelude::*;

use crate::dry_run::ProgramExecutionOptions;
use crate::grbl::Position;
use crate::journal::{
    copy_failure, is_terminal, terminal, SenderFailure, SenderFailureKind, SenderMode,
    SenderSnapshot, SenderState,
};
use crate::restart::MAX_SOURCE_NAME_BYTES;
use crate::text::{dec, push_dec, push_str, string_from_chars};
use vstd::utf8::encode_utf8;

verus! {

/// What is known about the machine's continuity since the interruption.
#[derive(Clone, Copy, Debug, PartialEq, Eq, Structural)]
pub enum RecoveryContinuity {
    ControllerInterrupted,
    HostInterruptedMachinePowered,
    MotionPowerLostOrUnknown,
}

/// How a recorded run ended before completing.
#[derive(Clone, Copy, Debug, PartialEq, Eq, Structural)]
pub enum RecoveryInterruptionKind {
    HostStopped,
    ControllerDisconnected,
    ControllerReset,
    ControllerUnresponsive,
    ControllerAlarm,
    ProgramRejected,
    OperatorStopped,
    Unknown,
}

/// A run still in progress was cut off by the host; a cancelled one by the
/// operator; otherwise the failure's kind says what happened.
pub open spec fn interruption_of(state: SenderState, failure: Option<SenderFailureKind>) -> RecoveryInterruptionKind {
    if state == SenderState::Ready || state == SenderState::Running || state == SenderState::Paused
        || state == SenderState::ToolChange || state == SenderState::Draining {
        RecoveryInterruptionKind::HostStopped
    } else if state == SenderState::Cancelled {
        RecoveryInterruptionKind::OperatorStopped
    } else {
        match failure {
            Some(SenderFailureKind::Disconnected) | Some(SenderFailureKind::Transport) =>
                RecoveryInterruptionKind::ControllerDisconnected,
            Some(SenderFailureKind::Reset) => RecoveryInterruptionKind::ControllerReset,
            Some(SenderFailureKind::Timeout) => RecoveryInterruptionKind::ControllerUnresponsive,
            Some(SenderFailureKind::Alarm) => RecoveryInterruptionKind::ControllerAlarm,
            Some(SenderFailureKind::GrblError) => RecoveryInterruptionKind::ProgramRejected,
            _ => RecoveryInterruptionKind::Unknown,
        }
    }
}

/// How a recorded run in `state`, with the given failure kind, was interrupted.
pub fn recovery_interruption(state: SenderState, failure: Option<SenderFailureKind>) -> (r: RecoveryInterruptionKind)
    ensures
        r == interruption_of(state, failure),
{
    if state == SenderState::Ready || state == SenderState::Running || state == SenderState::Paused
        || state == SenderState::ToolChange || state == SenderState::Draining {
        return RecoveryInterruptionKind::HostStopped;
    }
    if state == SenderState::Cancelled {
        return RecoveryInterruptionKind::OperatorStopped;
    }
    match failure {
        Some(SenderFailureKind::Disconnected) | Some(SenderFailureKind::Transport) =>
            RecoveryInterruptionKind::ControllerDisconnected,
        Some(SenderFailureKind::Reset) => RecoveryInterruptionKind::ControllerReset,
        Some(SenderFailureKind::Timeout) => RecoveryInterruptionKind::ControllerUnresponsive,
        Some(SenderFailureKind::Alarm) => RecoveryInterruptionKind::ControllerAlarm,
        Some(SenderFailureKind::GrblError) => RecoveryInterruptionKind::ProgramRejected,
        _ => RecoveryInterruptionKind::Unknown,
    }
}

/// `recovery-<id>-<original>`, or `recovery-<id>.nc` when that is too long.
pub open spec fn recovery_name(id: u64, original: Seq<char>) -> Seq<char> {
    let long = "recovery-"@ + dec(id as nat) + "-"@ + original;
    if encode_utf8(long).len() as usize <= MAX_SOURCE_NAME_BYTES {
        long
    } else {
        "recovery-"@ + dec(id as nat) + ".nc"@
    }
}

/// The source name of a recovery program.
pub fn recovery_source_name(id: u64, original: &str) -> (r: String)
    ensures
        r@ == recovery_name(id, original@),
{
    let mut long: Vec<char> = Vec::new();
    push_str(&mut long, "recovery-");
    push_dec(&mut long, id);
    push_str(&mut long, "-");
    push_str(&mut long, original);
    assert(long@ =~= "recovery-"@ + dec(id as nat) + "-"@ + original@);
    let name = string_from_chars(long.as_slice());
    if name.as_str().len() <= MAX_SOURCE_NAME_BYTES {
        name
    } else {
        let mut short: Vec<char> = Vec::new();
        push_str(&mut short, "recovery-");
        push_dec(&mut short, id);
        push_str(&mut short, ".nc");
        assert(short@ =~= "recovery-"@ + dec(id as nat) + ".nc"@);
        string_from_chars(short.as_slice())
    }
}

// ---------------------------------------------------------------------------
// The recovery record of a physical run
// ---------------------------------------------------------------------------

/// Whether a run moves the machine only, or cuts.
#[derive(Clone, Copy, Debug, PartialEq, Eq, Structural)]
pub enum ProgramRunIntent {
    AirRun,
    Cutting,
}

/// While only the executing line moves, a recorded run is written again at
/// most this often, in milliseconds.
pub const RECOVERY_CHECKPOINT_INTERVAL_MS: u64 = 1000;

/// What the host knows of a physical run as it starts.
#[derive(Debug)]
pub struct RecoverySeed {
    pub machine_fingerprint: String,
    pub profile_id: Option<String>,
    pub source_name: String,
    pub source: String,
    pub program_fingerprint: String,
    pub intent: ProgramRunIntent,
    pub execution_options: ProgramExecutionOptions,
    pub run_sequence: u64,
    pub start_machine_position: Option<Position>,
    pub start_work_position: Option<Position>,
    pub start_work_coordinate_offset: Option<Position>,
}

/// A recorded physical run: the seed it started from and what the sender
/// last reported of it.
#[derive(Debug)]
pub struct RecoveryRecord {
    pub id: u64,
    pub machine_fingerprint: String,
    pub profile_id: Option<String>,
    pub source_name: String,
    pub source: String,
    pub program_fingerprint: String,
    pub intent: ProgramRunIntent,
    pub execution_options: ProgramExecutionOptions,
    pub run_sequence: u64,
    pub state: SenderState,
    pub created_at_unix_ms: u64,
    pub updated_at_unix_ms: u64,
    pub total_lines: usize,
    pub acknowledged_lines: usize,
    pub executing_source_line: Option<usize>,
    pub failure: Option<SenderFailure>,
    pub start_machine_position: Option<Position>,
    pub start_work_position: Option<Position>,
    pub start_work_coordinate_offset: Option<Position>,
    /// The fingerprint of the recovery program prepared from this record, once
    /// one was.
    pub prepared_recovery_fingerprint: Option<String>,
}

/// When, and at which state, the record was last written.
#[derive(Clone, Copy, Debug, PartialEq, Eq, Structural)]
pub struct RecoveryCheckpoint {
    pub run_sequence: u64,
    pub state: SenderState,
    pub executing_source_line: Option<usize>,
    pub persisted_at_ms: u64,
}

/// Why a recovery operation was refused.
#[derive(Debug, PartialEq, Eq)]
pub enum ProgramRecoveryError {
    UnsupportedSchema(u16),
    Missing,
    RecordMismatch { expected: u64, actual: u64 },
    ProgramChanged,
    ExecutingLineUnavailable,
    CheckpointUnavailable,
    InvalidSenderMode,
    InvalidRunSequence,
    PreparedRunMismatch,
    InvalidSource(String),
    OutstandingRecovery { id: u64, source_name: String },
    ArmNotPending(u64),
}

/// The recovery record of the last physical run, with what is needed to undo
/// the arming of a new one.
pub struct ProgramRecoveryStore {
    record: Option<RecoveryRecord>,
    checkpoint: Option<RecoveryCheckpoint>,
    pending_arm: Option<(u64, Option<RecoveryRecord>)>,
}

/// View of a [`ProgramRecoveryStore`]: the record, the last write, and the
/// arm that can still be rolled back with the record it replaced.
pub struct RecoveryStoreV {
    pub record: Option<RecoveryRecord>,
    pub checkpoint: Option<RecoveryCheckpoint>,
    pub pending: Option<(u64, Option<RecoveryRecord>)>,
}

impl View for ProgramRecoveryStore {
    type V = RecoveryStoreV;

    closed spec fn view(&self) -> RecoveryStoreV {
        RecoveryStoreV { record: self.record, checkpoint: self.checkpoint, pending: self.pending_arm }
    }
}

/// An air run matches air-run mode; a cut, cut-run mode.
pub open spec fn intent_matches(intent: ProgramRunIntent, mode: Option<SenderMode>) -> bool {
    ||| intent == ProgramRunIntent::AirRun && mode == Some(SenderMode::AirRun)
    ||| intent == ProgramRunIntent::Cutting && mode == Some(SenderMode::CutRun)
}

/// `name` is present and reads `wanted`.
pub open spec fn names(name: Option<String>, wanted: String) -> bool {
    name matches Some(n) && n@ == wanted@
}

/// The snapshot reports the run the record was made for.
pub open spec fn snapshot_matches(snapshot: SenderSnapshot, record: RecoveryRecord) -> bool {
    &&& snapshot.run_sequence == record.run_sequence
    &&& names(snapshot.source_name, record.source_name)
    &&& intent_matches(record.intent, snapshot.mode)
}

/// The seed is the recovery program prepared from `active`, on the same machine.
pub open spec fn approved_replacement(active: RecoveryRecord, seed: RecoverySeed) -> bool {
    &&& active.machine_fingerprint@ == seed.machine_fingerprint@
    &&& active.prepared_recovery_fingerprint matches Some(p) && p@ == seed.program_fingerprint@
}

/// Why a seed cannot be armed against the store and the sender's snapshot, if
/// it cannot: the run sequence, the sender's mode, the run it reports, and an
/// unfinished record that the seed does not recover.
pub open spec fn arm_refusal(s: RecoveryStoreV, seed: RecoverySeed, snapshot: SenderSnapshot) -> Option<ProgramRecoveryError> {
    if seed.run_sequence == 0 || snapshot.run_sequence != seed.run_sequence {
        Some(ProgramRecoveryError::InvalidRunSequence)
    } else if !(snapshot.mode == Some(SenderMode::AirRun) || snapshot.mode == Some(SenderMode::CutRun)) {
        Some(ProgramRecoveryError::InvalidSenderMode)
    } else if !names(snapshot.source_name, seed.source_name) || !intent_matches(seed.intent, snapshot.mode) {
        Some(ProgramRecoveryError::PreparedRunMismatch)
    } else {
        match s.record {
            Some(a) => if a.state != SenderState::Completed && !approved_replacement(a, seed) {
                Some(ProgramRecoveryError::OutstandingRecovery { id: a.id, source_name: a.source_name })
            } else {
                None
            },
            None => None,
        }
    }
}

/// The record armed from a seed and the sender's snapshot.
pub open spec fn armed_record(seed: RecoverySeed, snapshot: SenderSnapshot, now_unix_ms: u64, now_unix_us: u64) -> RecoveryRecord {
    RecoveryRecord {
        id: now_unix_us,
        machine_fingerprint: seed.machine_fingerprint,
        profile_id: seed.profile_id,
        source_name: seed.source_name,
        source: seed.source,
        program_fingerprint: seed.program_fingerprint,
        intent: seed.intent,
        execution_options: seed.execution_options,
        run_sequence: seed.run_sequence,
        state: snapshot.state,
        created_at_unix_ms: now_unix_ms,
        updated_at_unix_ms: now_unix_ms,
        total_lines: snapshot.total_lines,
        acknowledged_lines: snapshot.acknowledged_lines,
        executing_source_line: snapshot.executing_source_line,
        failure: snapshot.failure,
        start_machine_position: seed.start_machine_position,
        start_work_position: seed.start_work_position,
        start_work_coordinate_offset: seed.start_work_coordinate_offset,
        prepared_recovery_fingerprint: None,
    }
}

/// The store and the answer after arming: refused as `arm_refusal` says; then
/// refused when the seed's program does not parse, does not carry the seed's
/// fingerprint, when the run is already complete, or when the program has no
/// restart anchor for it; otherwise the new record replaces the old one, which
/// is kept until the arm is committed or rolled back.
pub open spec fn arm_outcome(
    s: RecoveryStoreV,
    seed: RecoverySeed,
    snapshot: SenderSnapshot,
    seed_program_fingerprint: Result<String, String>,
    anchors_available: bool,
    now_unix_ms: u64,
    now_unix_us: u64,
    monotonic_ms: u64,
) -> (RecoveryStoreV, Result<u64, ProgramRecoveryError>) {
    match arm_refusal(s, seed, snapshot) {
        Some(e) => (s, Err(e)),
        None => match seed_program_fingerprint {
            Err(m) => (s, Err(ProgramRecoveryError::InvalidSource(m))),
            Ok(fp) => if fp@ != seed.program_fingerprint@ {
                (s, Err(ProgramRecoveryError::ProgramChanged))
            } else if snapshot.state == SenderState::Completed {
                (s, Err(ProgramRecoveryError::Missing))
            } else if !anchors_available {
                (s, Err(ProgramRecoveryError::CheckpointUnavailable))
            } else {
                (
                    RecoveryStoreV {
                        record: Some(armed_record(seed, snapshot, now_unix_ms, now_unix_us)),
                        checkpoint: Some(
                            RecoveryCheckpoint {
                                run_sequence: seed.run_sequence,
                                state: snapshot.state,
                                executing_source_line: snapshot.executing_source_line,
                                persisted_at_ms: monotonic_ms,
                            },
                        ),
                        pending: Some((now_unix_us, s.record)),
                    },
                    Ok(now_unix_us),
                )
            },
        },
    }
}

/// A recovery run that failed or was cancelled before the controller reported
/// its first physical line gives the store back to the record it replaced.
pub open spec fn restores_parent(s: RecoveryStoreV, snapshot: SenderSnapshot) -> bool {
    match s.record {
        Some(r) => {
            &&& snapshot_matches(snapshot, r)
            &&& r.executing_source_line is None
            &&& snapshot.executing_source_line is None
            &&& (snapshot.state == SenderState::Failed || snapshot.state == SenderState::Cancelled)
            &&& s.pending matches Some(p) && p.0 == r.id && p.1 is Some
        },
        None => false,
    }
}

/// The record after a snapshot of its run: the sender's state, counts and
/// failure; the executing line when the snapshot reports one, else the one
/// already known.
pub open spec fn observed_record(r: RecoveryRecord, snapshot: SenderSnapshot, now_unix_ms: u64) -> RecoveryRecord {
    RecoveryRecord {
        state: snapshot.state,
        updated_at_unix_ms: now_unix_ms,
        total_lines: snapshot.total_lines,
        acknowledged_lines: snapshot.acknowledged_lines,
        failure: snapshot.failure,
        executing_source_line: if snapshot.executing_source_line is Some {
            snapshot.executing_source_line
        } else {
            r.executing_source_line
        },
        ..r
    }
}

/// Milliseconds from `since` to `now`; none when `now` is earlier.
pub open spec fn elapsed_ms(now: u64, since: u64) -> int {
    if now >= since { now - since } else { 0 }
}

/// The record must be written: never written, another run or state, a
/// terminal state, or a new executing line once the interval has passed.
pub open spec fn write_due(
    c: Option<RecoveryCheckpoint>,
    snapshot: SenderSnapshot,
    executing: Option<usize>,
    monotonic_ms: u64,
) -> bool {
    match c {
        None => true,
        Some(c) => {
            ||| c.run_sequence != snapshot.run_sequence
            ||| c.state != snapshot.state
            ||| (c.executing_source_line != executing && elapsed_ms(monotonic_ms, c.persisted_at_ms)
                >= RECOVERY_CHECKPOINT_INTERVAL_MS)
            ||| terminal(snapshot.state)
        },
    }
}

/// The store after a snapshot, and whether its record must be written now.
pub open spec fn observe_outcome(
    s: RecoveryStoreV,
    snapshot: SenderSnapshot,
    now_unix_ms: u64,
    monotonic_ms: u64,
) -> (RecoveryStoreV, bool) {
    if restores_parent(s, snapshot) {
        (RecoveryStoreV { record: s.pending.unwrap().1, checkpoint: None, pending: None }, true)
    } else {
        match s.record {
            None => (s, false),
            Some(r) => if !snapshot_matches(snapshot, r) {
                (s, false)
            } else {
                let r2 = observed_record(r, snapshot, now_unix_ms);
                if !write_due(s.checkpoint, snapshot, r2.executing_source_line, monotonic_ms) {
                    (RecoveryStoreV { record: Some(r2), checkpoint: s.checkpoint, pending: s.pending }, false)
                } else {
                    (
                        RecoveryStoreV {
                            record: Some(r2),
                            checkpoint: Some(
                                RecoveryCheckpoint {
                                    run_sequence: snapshot.run_sequence,
                                    state: snapshot.state,
                                    executing_source_line: r2.executing_source_line,
                                    persisted_at_ms: monotonic_ms,
                                },
                            ),
                            pending: if r2.executing_source_line is Some { None } else { s.pending },
                        },
                        true,
                    )
                }
            },
        }
    }
}

/// The store and the answer after rolling back the arm `recovery_id`.
pub open spec fn rollback_outcome(s: RecoveryStoreV, recovery_id: u64) -> (RecoveryStoreV, Result<(), ProgramRecoveryError>) {
    match s.pending {
        Some(p) => if p.0 == recovery_id {
            (RecoveryStoreV { record: p.1, checkpoint: None, pending: None }, Ok(()))
        } else {
            (s, Err(ProgramRecoveryError::ArmNotPending(recovery_id)))
        },
        None => (s, Err(ProgramRecoveryError::ArmNotPending(recovery_id))),
    }
}

/// The record is `recovery_id`'s: `Missing` without a record,
/// `RecordMismatch` when it is another's.
pub open spec fn record_refusal(s: RecoveryStoreV, recovery_id: u64) -> Option<ProgramRecoveryError> {
    match s.record {
        None => Some(ProgramRecoveryError::Missing),
        Some(r) => if r.id != recovery_id {
            Some(ProgramRecoveryError::RecordMismatch { expected: recovery_id, actual: r.id })
        } else {
            None
        },
    }
}

/// Where a recovery program restarts the interrupted run.
#[derive(Clone, Copy, Debug, PartialEq, Eq, Structural)]
pub enum RestartPoint {
    /// From the last safe checkpoint at or before the line that was executing.
    Checkpoint { interrupted_line: usize },
    /// From the program's first execution checkpoint.
    FullRestart,
}

/// What preparing a recovery of the record `recovery_id` decides, given the
/// fingerprint of the program read back from the record (or why it could
/// not be read): the record must be there and be that one, its program must
/// read and be unchanged; a machine that may have lost motion power restarts
/// from the beginning, any other from the line that was executing, which
/// must then be known.
pub open spec fn restart_outcome(
    s: RecoveryStoreV,
    recovery_id: u64,
    program_fingerprint: Result<Seq<char>, Seq<char>>,
    continuity: RecoveryContinuity,
) -> Result<RestartPoint, RestartRefusalV> {
    match record_refusal(s, recovery_id) {
        Some(e) => Err(RestartRefusalV::Refused(e)),
        None => match program_fingerprint {
            Err(m) => Err(RestartRefusalV::InvalidSource(m)),
            Ok(f) => if f != s.record.unwrap().program_fingerprint@ {
                Err(RestartRefusalV::Refused(ProgramRecoveryError::ProgramChanged))
            } else if continuity == RecoveryContinuity::MotionPowerLostOrUnknown {
                Ok(RestartPoint::FullRestart)
            } else {
                match s.record.unwrap().executing_source_line {
                    Some(l) => Ok(RestartPoint::Checkpoint { interrupted_line: l }),
                    None => Err(RestartRefusalV::Refused(ProgramRecoveryError::ExecutingLineUnavailable)),
                }
            },
        },
    }
}

/// A refusal of [`restart_outcome`]: one of the store's errors, or the
/// program text that did not read.
pub enum RestartRefusalV {
    Refused(ProgramRecoveryError),
    InvalidSource(Seq<char>),
}

/// Whether an error is the refusal `k` names.
pub open spec fn error_is(e: ProgramRecoveryError, k: RestartRefusalV) -> bool {
    match k {
        RestartRefusalV::Refused(x) => e == x,
        RestartRefusalV::InvalidSource(m) => e matches ProgramRecoveryError::InvalidSource(t) && t@ == m,
    }
}

fn intent_matches_exec(intent: ProgramRunIntent, mode: Option<SenderMode>) -> (r: bool)
    ensures
        r == intent_matches(intent, mode),
{
    match (intent, mode) {
        (ProgramRunIntent::AirRun, Some(SenderMode::AirRun)) => true,
        (ProgramRunIntent::Cutting, Some(SenderMode::CutRun)) => true,
        _ => false,
    }
}

fn names_exec(name: &Option<String>, wanted: &String) -> (r: bool)
    ensures
        r == names(*name, *wanted),
{
    match name {
        Some(n) => *n == *wanted,
        None => false,
    }
}

fn same_line(a: Option<usize>, b: Option<usize>) -> (r: bool)
    ensures
        r == (a == b),
{
    match (a, b) {
        (Some(x), Some(y)) => x == y,
        (None, None) => true,
        _ => false,
    }
}

/// The snapshot reports the run `record` was made for: the same run
/// sequence, source name, and a sender mode that matches its intent.
pub fn snapshot_matches_record(snapshot: &SenderSnapshot, record: &RecoveryRecord) -> (r: bool)
    ensures
        r == snapshot_matches(*snapshot, *record),
{
    snapshot.run_sequence == record.run_sequence && names_exec(&snapshot.source_name, &record.source_name)
        && intent_matches_exec(record.intent, snapshot.mode)
}

fn approved_replacement_exec(active: &RecoveryRecord, seed: &RecoverySeed) -> (r: bool)
    ensures
        r == approved_replacement(*active, *seed),
{
    if active.machine_fingerprint != seed.machine_fingerprint {
        return false;
    }
    match &active.prepared_recovery_fingerprint {
        Some(p) => *p == seed.program_fingerprint,
        None => false,
    }
}

/// On loading, the backup's record is taken over the current one when the
/// current record is a recovery run that never reached a physical line,
/// armed on the same machine in place of the backup's unfinished record.
pub open spec fn restores_interrupted_parent(current: Option<RecoveryRecord>, backup: Option<RecoveryRecord>) -> bool {
    match (current, backup) {
        (Some(c), Some(p)) => {
            &&& c.state != SenderState::Completed
            &&& c.executing_source_line is None
            &&& p.state != SenderState::Completed
            &&& p.machine_fingerprint@ == c.machine_fingerprint@
            &&& p.prepared_recovery_fingerprint matches Some(f) && f@ == c.program_fingerprint@
        },
        _ => false,
    }
}

/// Whether loading should take the backup's record over the current one.
pub fn should_restore_interrupted_parent(current: &Option<RecoveryRecord>, backup: &Option<RecoveryRecord>) -> (r: bool)
    ensures
        r == restores_interrupted_parent(*current, *backup),
{
    match (current, backup) {
        (Some(c), Some(p)) => {
            c.state != SenderState::Completed && c.executing_source_line.is_none() && p.state
                != SenderState::Completed && p.machine_fingerprint == c.machine_fingerprint && match &p.prepared_recovery_fingerprint {
                Some(f) => *f == c.program_fingerprint,
                None => false,
            }
        },
        _ => false,
    }
}

/// The stored record a store starts from, and whether it came from the
/// backup, given what reading the primary file and its backup gave (`Ok(None)`
/// where the file does not exist). A readable primary wins unless the backup
/// holds the parent of an interrupted recovery run; an unreadable or missing
/// primary falls back to a backup that exists; a primary that fails with no
/// backup to fall back on fails the load.
pub fn choose_loaded_record<E>(
    primary: Result<Option<Option<RecoveryRecord>>, E>,
    backup: Result<Option<Option<RecoveryRecord>>, E>,
) -> (r: Result<Option<(Option<RecoveryRecord>, bool)>, E>)
    ensures
        r == (match primary {
            Ok(Some(p)) => match backup {
                Ok(Some(b)) => if restores_interrupted_parent(p, b) {
                    Ok(Some((b, true)))
                } else {
                    Ok(Some((p, false)))
                },
                _ => Ok(Some((p, false))),
            },
            Ok(None) => match backup {
                Ok(Some(b)) => Ok(Some((b, true))),
                Ok(None) => Ok(None),
                Err(e) => Err(e),
            },
            Err(pe) => match backup {
                Ok(Some(b)) => Ok(Some((b, true))),
                _ => Err(pe),
            },
        }),
{
    match primary {
        Ok(Some(p)) => match backup {
            Ok(Some(b)) => if should_restore_interrupted_parent(&p, &b) {
                Ok(Some((b, true)))
            } else {
                Ok(Some((p, false)))
            },
            _ => Ok(Some((p, false))),
        },
        Ok(None) => match backup {
            Ok(Some(b)) => Ok(Some((b, true))),
            Ok(None) => Ok(None),
            Err(e) => Err(e),
        },
        Err(pe) => match backup {
            Ok(Some(b)) => Ok(Some((b, true))),
            _ => Err(pe),
        },
    }
}

/// What the record's program, parsed again with its options, gives an offer
/// to recover it.
#[derive(Debug)]
pub struct RecoveryProgramFacts {
    /// The program's fingerprint, or the parser's message.
    pub fingerprint: Result<String, String>,
    /// The source line of the program's first execution checkpoint.
    pub first_anchor_line: Option<usize>,
    /// The source line of the restart anchor for the record's executing line:
    /// the last clearance rapid at or before it, else the first motion at or
    /// before it, when an execution checkpoint stands there.
    pub restart_anchor_line: Option<usize>,
}

/// An offer to recover an unfinished run.
#[derive(Debug, PartialEq, Eq)]
pub struct ProgramRecoveryCandidate {
    pub id: u64,
    pub source_name: String,
    pub intent: ProgramRunIntent,
    pub state: SenderState,
    pub updated_at_unix_ms: u64,
    pub total_lines: usize,
    pub acknowledged_lines: usize,
    pub executing_source_line: Option<usize>,
    pub restart_source_line: Option<usize>,
    pub checkpoint_restart_available: bool,
    pub full_restart_available: bool,
    pub interruption: RecoveryInterruptionKind,
    pub ready: bool,
    pub detail: String,
}

/// `c` is the offer for `record` with the given restart line, availabilities,
/// readiness and detail.
pub open spec fn is_offer(
    c: ProgramRecoveryCandidate,
    record: RecoveryRecord,
    restart: Option<usize>,
    checkpoint: bool,
    full: bool,
    ready: bool,
    detail: Seq<char>,
) -> bool {
    {
        &&& c.id == record.id
        &&& c.source_name@ == record.source_name@
        &&& c.intent == record.intent
        &&& c.state == record.state
        &&& c.updated_at_unix_ms == record.updated_at_unix_ms
        &&& c.total_lines == record.total_lines
        &&& c.acknowledged_lines == record.acknowledged_lines
        &&& c.executing_source_line == record.executing_source_line
        &&& c.restart_source_line == restart
        &&& c.checkpoint_restart_available == checkpoint
        &&& c.full_restart_available == full
        &&& c.interruption == interruption_of(record.state, match record.failure {
            Some(f) => Some(f.kind),
            None => None,
        })
        &&& c.ready == ready
        &&& c.detail@ == detail
    }
}

/// The detail of an offer that can restart from a checkpoint.
pub open spec fn checkpoint_detail(anchor: usize, executing: usize) -> Seq<char> {
    "Checkpoint restart from source line "@ + dec(anchor as nat) + " replays "@ + dec(
        (if executing >= anchor { executing - anchor } else { 0 }) as nat,
    ) + " line(s); full restart remains available"@
}

/// The offer to recover `record`, as its program's facts allow: none for a
/// completed run; a blocked offer when the stored source no longer has its
/// fingerprint; a checkpoint restart when the controller reported the
/// executing line, else a full restart only.
pub open spec fn candidate_ok(
    record: RecoveryRecord,
    facts: RecoveryProgramFacts,
    r: Result<Option<ProgramRecoveryCandidate>, ProgramRecoveryError>,
) -> bool {
    if record.state == SenderState::Completed {
        r == Ok::<Option<ProgramRecoveryCandidate>, ProgramRecoveryError>(None)
    } else {
        match facts.fingerprint {
            Err(m) => r == Err::<Option<ProgramRecoveryCandidate>, _>(ProgramRecoveryError::InvalidSource(m)),
            Ok(fp) => if fp@ != record.program_fingerprint@ {
                r matches Ok(Some(c)) && is_offer(
                    c,
                    record,
                    None,
                    false,
                    false,
                    false,
                    "Stored source fingerprint mismatch; recovery is blocked"@,
                )
            } else {
                match facts.first_anchor_line {
                    None => r == Err::<Option<ProgramRecoveryCandidate>, _>(
                        ProgramRecoveryError::CheckpointUnavailable,
                    ),
                    Some(first) => match record.executing_source_line {
                        Some(executing) => match facts.restart_anchor_line {
                            None => r == Err::<Option<ProgramRecoveryCandidate>, _>(
                                ProgramRecoveryError::CheckpointUnavailable,
                            ),
                            Some(anchor) => r matches Ok(Some(c)) && is_offer(
                                c,
                                record,
                                Some(anchor),
                                true,
                                true,
                                true,
                                checkpoint_detail(anchor, executing),
                            ),
                        },
                        None => r matches Ok(Some(c)) && is_offer(
                            c,
                            record,
                            Some(first),
                            false,
                            true,
                            true,
                            "GRBL did not expose physical Ln telemetry; only a full program restart is available"@,
                        ),
                    },
                }
            },
        }
    }
}

fn make_offer(
    record: &RecoveryRecord,
    restart: Option<usize>,
    checkpoint: bool,
    full: bool,
    ready: bool,
    detail: String,
) -> (c: ProgramRecoveryCandidate)
    ensures
        is_offer(c, *record, restart, checkpoint, full, ready, detail@),
{
    let failure_kind = match &record.failure {
        Some(f) => Some(f.kind),
        None => None,
    };
    ProgramRecoveryCandidate {
        id: record.id,
        source_name: record.source_name.clone(),
        intent: record.intent,
        state: record.state,
        updated_at_unix_ms: record.updated_at_unix_ms,
        total_lines: record.total_lines,
        acknowledged_lines: record.acknowledged_lines,
        executing_source_line: record.executing_source_line,
        restart_source_line: restart,
        checkpoint_restart_available: checkpoint,
        full_restart_available: full,
        interruption: recovery_interruption(record.state, failure_kind),
        ready,
        detail,
    }
}

/// The offer to recover `record`, given what its program gives.
pub fn candidate_for_record(record: &RecoveryRecord, facts: &RecoveryProgramFacts) -> (r: Result<Option<ProgramRecoveryCandidate>, ProgramRecoveryError>)
    ensures
        candidate_ok(*record, *facts, r),
{
    if record.state == SenderState::Completed {
        return Ok(None);
    }
    match &facts.fingerprint {
        Err(m) => {
            return Err(ProgramRecoveryError::InvalidSource(m.clone()));
        },
        Ok(fp) => {
            if *fp != record.program_fingerprint {
                return Ok(Some(make_offer(
                    record,
                    None,
                    false,
                    false,
                    false,
                    "Stored source fingerprint mismatch; recovery is blocked".to_owned(),
                )));
            }
        },
    }
    let first = match facts.first_anchor_line {
        Some(first) => first,
        None => {
            return Err(ProgramRecoveryError::CheckpointUnavailable);
        },
    };
    match record.executing_source_line {
        Some(executing) => match facts.restart_anchor_line {
            None => Err(ProgramRecoveryError::CheckpointUnavailable),
            Some(anchor) => {
                let replayed: usize = if executing >= anchor { executing - anchor } else { 0 };
                let mut msg: Vec<char> = Vec::new();
                push_str(&mut msg, "Checkpoint restart from source line ");
                push_dec(&mut msg, anchor as u64);
                push_str(&mut msg, " replays ");
                push_dec(&mut msg, replayed as u64);
                push_str(&mut msg, " line(s); full restart remains available");
                assert(msg@ =~= checkpoint_detail(anchor, executing));
                Ok(Some(make_offer(record, Some(anchor), true, true, true, string_from_chars(msg.as_slice()))))
            },
        },
        None => Ok(Some(make_offer(
            record,
            Some(first),
            false,
            true,
            true,
            "GRBL did not expose physical Ln telemetry; only a full program restart is available".to_owned(),
        ))),
    }
}

impl ProgramRecoveryStore {
    /// A store with no record.
    pub fn in_memory() -> (s: Self)
        ensures
            s@.record is None,
            s@.checkpoint is None,
            s@.pending is None,
    {
        ProgramRecoveryStore { record: None, checkpoint: None, pending_arm: None }
    }

    /// A store holding a record read back from disk, with nothing pending.
    pub fn with_record(record: Option<RecoveryRecord>) -> (s: Self)
        ensures
            s@.record == record,
            s@.checkpoint is None,
            s@.pending is None,
    {
        ProgramRecoveryStore { record, checkpoint: None, pending_arm: None }
    }

    /// The offer to recover the store's record, given what its program
    /// gives; none without a record.
    pub fn candidate(&self, facts: &RecoveryProgramFacts) -> (r: Result<Option<ProgramRecoveryCandidate>, ProgramRecoveryError>)
        ensures
            match self@.record {
                Some(record) => candidate_ok(record, *facts, r),
                None => r == Ok::<Option<ProgramRecoveryCandidate>, ProgramRecoveryError>(None),
            },
    {
        match &self.record {
            Some(record) => candidate_for_record(record, facts),
            None => Ok(None),
        }
    }

    /// The record the store holds.
    pub fn record(&self) -> (r: Option<&RecoveryRecord>)
        ensures
            match r {
                Some(x) => self@.record == Some(*x),
                None => self@.record is None,
            },
    {
        match &self.record {
            Some(x) => Some(x),
            None => None,
        }
    }

    fn refusal(&self, seed: &RecoverySeed, snapshot: &SenderSnapshot) -> (r: Option<ProgramRecoveryError>)
        ensures
            r == arm_refusal(self@, *seed, *snapshot),
    {
        if seed.run_sequence == 0 || snapshot.run_sequence != seed.run_sequence {
            return Some(ProgramRecoveryError::InvalidRunSequence);
        }
        match snapshot.mode {
            Some(SenderMode::AirRun) | Some(SenderMode::CutRun) => {},
            _ => {
                return Some(ProgramRecoveryError::InvalidSenderMode);
            },
        }
        if !names_exec(&snapshot.source_name, &seed.source_name) || !intent_matches_exec(seed.intent, snapshot.mode) {
            return Some(ProgramRecoveryError::PreparedRunMismatch);
        }
        match &self.record {
            Some(a) => {
                if a.state != SenderState::Completed && !approved_replacement_exec(a, seed) {
                    Some(ProgramRecoveryError::OutstandingRecovery { id: a.id, source_name: a.source_name.clone() })
                } else {
                    None
                }
            },
            None => None,
        }
    }

    /// Records a physical run as it starts. `seed_program_fingerprint` is the
    /// fingerprint of the seed's program as parsed with its options, or the
    /// parser's message; `anchors_available` says whether that program has a
    /// restart anchor for the snapshot (a first execution checkpoint, and one
    /// at or before the executing line when one is reported). The new record's
    /// id is `now_unix_us`; the record it replaces is kept until the arm is
    /// committed or rolled back.
    pub fn arm(
        &mut self,
        seed: RecoverySeed,
        snapshot: &SenderSnapshot,
        seed_program_fingerprint: Result<String, String>,
        anchors_available: bool,
        now_unix_ms: u64,
        now_unix_us: u64,
        monotonic_ms: u64,
    ) -> (r: Result<u64, ProgramRecoveryError>)
        ensures
            (final(self)@, r) == arm_outcome(
                old(self)@,
                seed,
                *snapshot,
                seed_program_fingerprint,
                anchors_available,
                now_unix_ms,
                now_unix_us,
                monotonic_ms,
            ),
    {
        match self.refusal(&seed, snapshot) {
            Some(e) => {
                return Err(e);
            },
            None => {},
        }
        match seed_program_fingerprint {
            Err(m) => {
                return Err(ProgramRecoveryError::InvalidSource(m));
            },
            Ok(fp) => {
                if fp != seed.program_fingerprint {
                    return Err(ProgramRecoveryError::ProgramChanged);
                }
            },
        }
        if snapshot.state == SenderState::Completed {
            return Err(ProgramRecoveryError::Missing);
        }
        if !anchors_available {
            return Err(ProgramRecoveryError::CheckpointUnavailable);
        }
        let run_sequence = seed.run_sequence;
        let record = RecoveryRecord {
            id: now_unix_us,
            machine_fingerprint: seed.machine_fingerprint,
            profile_id: seed.profile_id,
            source_name: seed.source_name,
            source: seed.source,
            program_fingerprint: seed.program_fingerprint,
            intent: seed.intent,
            execution_options: seed.execution_options,
            run_sequence: seed.run_sequence,
            state: snapshot.state,
            created_at_unix_ms: now_unix_ms,
            updated_at_unix_ms: now_unix_ms,
            total_lines: snapshot.total_lines,
            acknowledged_lines: snapshot.acknowledged_lines,
            executing_source_line: snapshot.executing_source_line,
            failure: copy_failure(&snapshot.failure),
            start_machine_position: seed.start_machine_position,
            start_work_position: seed.start_work_position,
            start_work_coordinate_offset: seed.start_work_coordinate_offset,
            prepared_recovery_fingerprint: None,
        };
        let previous = self.record.take();
        self.pending_arm = Some((now_unix_us, previous));
        self.record = Some(record);
        self.checkpoint = Some(
            RecoveryCheckpoint {
                run_sequence,
                state: snapshot.state,
                executing_source_line: snapshot.executing_source_line,
                persisted_at_ms: monotonic_ms,
            },
        );
        Ok(now_unix_us)
    }

    /// Takes in a snapshot of the sender. A snapshot of another run changes
    /// nothing. Returns whether the record must be written now.
    pub fn observe(&mut self, snapshot: &SenderSnapshot, now_unix_ms: u64, monotonic_ms: u64) -> (write: bool)
        ensures
            (final(self)@, write) == observe_outcome(old(self)@, *snapshot, now_unix_ms, monotonic_ms),
    {
        let ghost s0 = self@;
        let restore = match &self.record {
            Some(r) => {
                snapshot_matches_record(snapshot, r) && r.executing_source_line.is_none()
                    && snapshot.executing_source_line.is_none() && (snapshot.state == SenderState::Failed
                    || snapshot.state == SenderState::Cancelled) && match &self.pending_arm {
                    Some(p) => p.0 == r.id && p.1.is_some(),
                    None => false,
                }
            },
            None => false,
        };
        if restore {
            let pending = self.pending_arm.take();
            match pending {
                Some(p) => {
                    self.record = p.1;
                },
                None => {},
            }
            self.checkpoint = None;
            return true;
        }
        let taken = self.record.take();
        match taken {
            None => {
                return false;
            },
            Some(r) => {
                if !snapshot_matches_record(snapshot, &r) {
                    self.record = Some(r);
                    return false;
                }
                let executing = if snapshot.executing_source_line.is_some() {
                    snapshot.executing_source_line
                } else {
                    r.executing_source_line
                };
                let r2 = RecoveryRecord {
                    state: snapshot.state,
                    updated_at_unix_ms: now_unix_ms,
                    total_lines: snapshot.total_lines,
                    acknowledged_lines: snapshot.acknowledged_lines,
                    failure: copy_failure(&snapshot.failure),
                    executing_source_line: executing,
                    ..r
                };
                self.record = Some(r2);
                let due = match self.checkpoint {
                    None => true,
                    Some(c) => {
                        let elapsed: u64 = if monotonic_ms >= c.persisted_at_ms {
                            monotonic_ms - c.persisted_at_ms
                        } else {
                            0
                        };
                        c.run_sequence != snapshot.run_sequence || c.state != snapshot.state || (!same_line(
                            c.executing_source_line,
                            executing,
                        ) && elapsed >= RECOVERY_CHECKPOINT_INTERVAL_MS) || is_terminal(snapshot.state)
                    },
                };
                if !due {
                    return false;
                }
                self.checkpoint = Some(
                    RecoveryCheckpoint {
                        run_sequence: snapshot.run_sequence,
                        state: snapshot.state,
                        executing_source_line: executing,
                        persisted_at_ms: monotonic_ms,
                    },
                );
                if executing.is_some() {
                    self.pending_arm = None;
                }
                true
            },
        }
    }

    /// `Ok` when `recovery_id` is the arm that can still be rolled back.
    pub fn commit_arm(&self, recovery_id: u64) -> (r: Result<(), ProgramRecoveryError>)
        ensures
            match self@.pending {
                Some(p) => if p.0 == recovery_id {
                    r is Ok
                } else {
                    r == Err::<(), _>(ProgramRecoveryError::ArmNotPending(recovery_id))
                },
                None => r == Err::<(), _>(ProgramRecoveryError::ArmNotPending(recovery_id)),
            },
    {
        match &self.pending_arm {
            Some(p) => if p.0 == recovery_id {
                Ok(())
            } else {
                Err(ProgramRecoveryError::ArmNotPending(recovery_id))
            },
            None => Err(ProgramRecoveryError::ArmNotPending(recovery_id)),
        }
    }

    /// Undoes the arm `recovery_id`: the record it replaced comes back.
    pub fn rollback_arm(&mut self, recovery_id: u64) -> (r: Result<(), ProgramRecoveryError>)
        ensures
            (final(self)@, r) == rollback_outcome(old(self)@, recovery_id),
    {
        let pending = self.pending_arm.take();
        match pending {
            Some(p) => {
                if p.0 == recovery_id {
                    self.record = p.1;
                    self.checkpoint = None;
                    Ok(())
                } else {
                    self.pending_arm = Some(p);
                    Err(ProgramRecoveryError::ArmNotPending(recovery_id))
                }
            },
            None => Err(ProgramRecoveryError::ArmNotPending(recovery_id)),
        }
    }

    /// Forgets the record `recovery_id`; any other id is refused and changes
    /// nothing.
    pub fn dismiss(&mut self, recovery_id: u64) -> (r: Result<(), ProgramRecoveryError>)
        ensures
            match record_refusal(old(self)@, recovery_id) {
                Some(e) => r == Err::<(), _>(e) && final(self)@ == old(self)@,
                None => r is Ok && final(self)@.record is None && final(self)@.checkpoint is None
                    && final(self)@.pending is None,
            },
    {
        match &self.record {
            None => {
                return Err(ProgramRecoveryError::Missing);
            },
            Some(r) => {
                if r.id != recovery_id {
                    return Err(ProgramRecoveryError::RecordMismatch { expected: recovery_id, actual: r.id });
                }
            },
        }
        self.record = None;
        self.checkpoint = None;
        self.pending_arm = None;
        Ok(())
    }

    /// The first decisions of preparing a recovery of the record
    /// `recovery_id`: which record, whether its program is unchanged
    /// (`program_fingerprint` is the fingerprint of the program read back
    /// from the record, or the reader's message when it did not read), and
    /// where the recovery restarts.
    pub fn restart_point(
        &self,
        recovery_id: u64,
        program_fingerprint: Result<String, String>,
        continuity: RecoveryContinuity,
    ) -> (r: Result<RestartPoint, ProgramRecoveryError>)
        ensures
            match restart_outcome(
                self@,
                recovery_id,
                match program_fingerprint {
                    Ok(f) => Ok(f@),
                    Err(m) => Err(m@),
                },
                continuity,
            ) {
                Ok(p) => r == Ok::<RestartPoint, ProgramRecoveryError>(p),
                Err(k) => r matches Err(e) && error_is(e, k),
            },
    {
        let record = match &self.record {
            None => {
                return Err(ProgramRecoveryError::Missing);
            },
            Some(r) => r,
        };
        if record.id != recovery_id {
            return Err(ProgramRecoveryError::RecordMismatch { expected: recovery_id, actual: record.id });
        }
        let fingerprint = match program_fingerprint {
            Err(m) => {
                return Err(ProgramRecoveryError::InvalidSource(m));
            },
            Ok(f) => f,
        };
        if fingerprint != record.program_fingerprint {
            return Err(ProgramRecoveryError::ProgramChanged);
        }
        if continuity == RecoveryContinuity::MotionPowerLostOrUnknown {
            return Ok(RestartPoint::FullRestart);
        }
        match record.executing_source_line {
            Some(l) => Ok(RestartPoint::Checkpoint { interrupted_line: l }),
            None => Err(ProgramRecoveryError::ExecutingLineUnavailable),
        }
    }

    /// Notes the fingerprint of the recovery program prepared from the record
    /// `recovery_id`, so that that program alone may be armed in its place.
    pub fn mark_prepared(&mut self, recovery_id: u64, prepared_fingerprint: String) -> (r: Result<(), ProgramRecoveryError>)
        ensures
            match record_refusal(old(self)@, recovery_id) {
                Some(e) => r == Err::<(), _>(e) && final(self)@ == old(self)@,
                None => r is Ok && final(self)@.checkpoint == old(self)@.checkpoint
                    && final(self)@.pending == old(self)@.pending && final(self)@.record == Some(
                    RecoveryRecord {
                        prepared_recovery_fingerprint: Some(prepared_fingerprint),
                        ..old(self)@.record.unwrap()
                    },
                ),
            },
    {
        match &self.record {
            None => {
                return Err(ProgramRecoveryError::Missing);
            },
            Some(r) => {
                if r.id != recovery_id {
                    return Err(ProgramRecoveryError::RecordMismatch { expected: recovery_id, actual: r.id });
                }
            },
        }
        let taken = self.record.take();
        match taken {
            Some(r) => {
                self.record = Some(RecoveryRecord { prepared_recovery_fingerprint: Some(prepared_fingerprint), ..r });
            },
            None => {},
        }
        Ok(())
    }

    /// The record is `recovery_id`'s and was made on the machine `fingerprint`.
    pub fn machine_matches(&self, recovery_id: u64, fingerprint: &str) -> (r: bool)
        ensures
            r == (self@.record matches Some(x) && x.id == recovery_id && x.machine_fingerprint@ == fingerprint@),
    {
        match &self.record {
            Some(x) => x.id == recovery_id && crate::text::chars_eq_str(crate::text::chars_of(x.machine_fingerprint.as_str()).as_slice(), fingerprint),
            None => false,
        }
    }
}


/// While a record is unfinished, only the recovery program prepared from it,
/// on the same machine, can be armed in its place: any other seed is refused
/// and the store keeps its record.
pub proof fn lemma_unfinished_record_blocks_other_runs(
    s: RecoveryStoreV,
    seed: RecoverySeed,
    snapshot: SenderSnapshot,
    seed_program_fingerprint: Result<String, String>,
    anchors_available: bool,
    now_unix_ms: u64,
    now_unix_us: u64,
    monotonic_ms: u64,
)
    requires
        s.record matches Some(a) && a.state != SenderState::Completed && !approved_replacement(a, seed),
    ensures
        ({
            let (after, r) = arm_outcome(
                s,
                seed,
                snapshot,
                seed_program_fingerprint,
                anchors_available,
                now_unix_ms,
                now_unix_us,
                monotonic_ms,
            );
            after == s && r is Err
        }),
{
}

/// Rolling back an arm puts back the record the store held before it.
pub proof fn lemma_rollback_undoes_arm(
    s: RecoveryStoreV,
    seed: RecoverySeed,
    snapshot: SenderSnapshot,
    seed_program_fingerprint: Result<String, String>,
    anchors_available: bool,
    now_unix_ms: u64,
    now_unix_us: u64,
    monotonic_ms: u64,
)
    requires
        arm_outcome(
            s,
            seed,
            snapshot,
            seed_program_fingerprint,
            anchors_available,
            now_unix_ms,
            now_unix_us,
            monotonic_ms,
        ).1 is Ok,
    ensures
        ({
            let (armed, id) = arm_outcome(
                s,
                seed,
                snapshot,
                seed_program_fingerprint,
                anchors_available,
                now_unix_ms,
                now_unix_us,
                monotonic_ms,
            );
            let (back, r) = rollback_outcome(armed, id.unwrap());
            back.record == s.record && back.pending is None && r is Ok
        }),
{
}

/// A snapshot of another run, or one that arrives when there is no record,
/// changes nothing and asks for no write.
pub proof fn lemma_unrelated_snapshot_changes_nothing(
    s: RecoveryStoreV,
    snapshot: SenderSnapshot,
    now_unix_ms: u64,
    monotonic_ms: u64,
)
    requires
        s.record matches Some(r) ==> !snapshot_matches(snapshot, r),
    ensures
        observe_outcome(s, snapshot, now_unix_ms, monotonic_ms) == (s, false),
{
}

/// Once a record knows the line the controller was executing, later
/// snapshots never take that knowledge away.
pub proof fn lemma_executing_line_is_never_forgotten(
    s: RecoveryStoreV,
    snapshot: SenderSnapshot,
    now_unix_ms: u64,
    monotonic_ms: u64,
)
    requires
        s.record matches Some(r) && r.executing_source_line is Some,
    ensures
        observe_outcome(s, snapshot, now_unix_ms, monotonic_ms).0.record matches Some(r2)
            && r2.executing_source_line is Some,
{
}

/// A recovery run that fails or is cancelled before the controller reports
/// its first physical line gives the store back to the record it replaced.
pub proof fn lemma_failed_recovery_before_first_line_restores_parent(
    s: RecoveryStoreV,
    seed: RecoverySeed,
    snapshot: SenderSnapshot,
    seed_program_fingerprint: Result<String, String>,
    anchors_available: bool,
    now_unix_ms: u64,
    now_unix_us: u64,
    monotonic_ms: u64,
    later: SenderSnapshot,
    later_unix_ms: u64,
    later_monotonic_ms: u64,
)
    requires
        s.record is Some,
        arm_outcome(
            s,
            seed,
            snapshot,
            seed_program_fingerprint,
            anchors_available,
            now_unix_ms,
            now_unix_us,
            monotonic_ms,
        ).1 is Ok,
        snapshot.executing_source_line is None,
        later.run_sequence == snapshot.run_sequence,
        later.source_name == snapshot.source_name,
        later.mode == snapshot.mode,
        later.executing_source_line is None,
        later.state == SenderState::Failed || later.state == SenderState::Cancelled,
    ensures
        ({
            let armed = arm_outcome(
                s,
                seed,
                snapshot,
                seed_program_fingerprint,
                anchors_available,
                now_unix_ms,
                now_unix_us,
                monotonic_ms,
            ).0;
            let (after, write) = observe_outcome(armed, later, later_unix_ms, later_monotonic_ms);
            after.record == s.record && after.pending is None && write
        }),
{
}


/// A recovery run armed in place of an unfinished record, before it reaches
/// its first physical line, is the case in which loading takes the replaced
/// record back from the backup file.
pub proof fn lemma_reload_prefers_the_parent_of_an_unstarted_recovery(
    s: RecoveryStoreV,
    seed: RecoverySeed,
    snapshot: SenderSnapshot,
    seed_program_fingerprint: Result<String, String>,
    anchors_available: bool,
    now_unix_ms: u64,
    now_unix_us: u64,
    monotonic_ms: u64,
)
    requires
        s.record matches Some(p) && p.state != SenderState::Completed,
        snapshot.executing_source_line is None,
        arm_outcome(
            s,
            seed,
            snapshot,
            seed_program_fingerprint,
            anchors_available,
            now_unix_ms,
            now_unix_us,
            monotonic_ms,
        ).1 is Ok,
    ensures
        restores_interrupted_parent(
            arm_outcome(
                s,
                seed,
                snapshot,
                seed_program_fingerprint,
                anchors_available,
                now_unix_ms,
                now_unix_us,
                monotonic_ms,
            ).0.record,
            s.record,
        ),
{
}

} // verus!
