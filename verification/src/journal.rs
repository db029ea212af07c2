//! The run journal: a bounded history of program runs, updated from sender
//! snapshots and checkpointed to storage at a throttled rate.
//!
//! Writing the journal is the caller's part: [`RunJournal::observe`] says when
//! a checkpoint is due, and [`RunJournal::checkpoint_written`] records that it
//! was written.
use vstd::prelude::*;

verus! {

/// Runs are kept up to this many entries.
pub const DEFAULT_MAX_ENTRIES: usize = 100;

/// A checkpoint is due after this many more acknowledged lines.
pub const ACK_CHECKPOINT_INTERVAL: usize = 250;

/// A checkpoint of a running program is due after this many milliseconds.
pub const TIME_CHECKPOINT_INTERVAL_MS: u64 = 2000;

#[derive(Clone, Copy, Debug, PartialEq, Eq, Structural)]
pub enum SenderState {
    Idle,
    Ready,
    Running,
    Paused,
    ToolChange,
    Draining,
    Completed,
    Failed,
    Cancelled,
}

#[derive(Clone, Copy, Debug, PartialEq, Eq, Structural)]
pub enum SenderMode {
    AirRun,
    CutRun,
    MockDryRun,
}

#[derive(Clone, Copy, Debug, PartialEq, Eq, Structural)]
pub enum SenderFailureKind {
    GrblError,
    Alarm,
    Disconnected,
    Timeout,
    Reset,
    Transport,
    UnsafeState,
    Internal,
}

/// Why a run failed.
#[derive(Clone, Debug, PartialEq, Eq)]
pub struct SenderFailure {
    pub kind: SenderFailureKind,
    pub message: String,
    pub grbl_code: Option<u16>,
    pub source_line: Option<usize>,
    pub command: Option<String>,
}

fn copy_text(o: &Option<String>) -> (r: Option<String>)
    ensures
        r == *o,
{
    match o {
        Some(t) => Some(t.clone()),
        None => None,
    }
}

impl SenderFailure {
    /// A field-by-field copy.
    pub fn copy(&self) -> (r: SenderFailure)
        ensures
            r == *self,
    {
        SenderFailure {
            kind: self.kind,
            message: self.message.clone(),
            grbl_code: self.grbl_code,
            source_line: self.source_line,
            command: copy_text(&self.command),
        }
    }
}

pub(crate) fn copy_failure(o: &Option<SenderFailure>) -> (r: Option<SenderFailure>)
    ensures
        r == *o,
{
    match o {
        Some(f) => Some(f.copy()),
        None => None,
    }
}

/// What the sender reports about the run in progress. Elapsed time is in milliseconds.
#[derive(Clone, Debug)]
pub struct SenderSnapshot {
    pub run_sequence: u64,
    pub state: SenderState,
    pub mode: Option<SenderMode>,
    pub source_name: Option<String>,
    pub total_lines: usize,
    pub dispatched_lines: usize,
    pub acknowledged_lines: usize,
    pub last_acknowledged_source_line: Option<usize>,
    pub last_acknowledged_command: Option<String>,
    pub current_source_line: Option<usize>,
    pub current_command: Option<String>,
    /// The source line the controller reports executing (its `Ln` field), when it does.
    pub executing_source_line: Option<usize>,
    pub shutdown_commands_acknowledged: bool,
    pub elapsed_ms: u64,
    pub failure: Option<SenderFailure>,
}

/// What a journal entry says about recovering the run.
#[derive(Clone, Copy, Debug, PartialEq, Eq, Structural)]
pub enum RecoveryDisposition {
    CheckpointOnly,
    NotRequired,
    RestartBlocked,
}

/// One run as the journal records it.
#[derive(Clone, Debug)]
pub struct RunJournalEntry {
    pub application_session: u64,
    pub run_sequence: u64,
    pub source_name: String,
    pub mode: SenderMode,
    pub state: SenderState,
    pub created_at_unix_ms: u64,
    pub updated_at_unix_ms: u64,
    pub total_lines: usize,
    pub dispatched_lines: usize,
    pub acknowledged_lines: usize,
    pub last_acknowledged_source_line: Option<usize>,
    pub last_acknowledged_command: Option<String>,
    pub current_source_line: Option<usize>,
    pub current_command: Option<String>,
    pub shutdown_commands_acknowledged: bool,
    pub elapsed_ms: u64,
    pub failure: Option<SenderFailure>,
    pub recovery: RecoveryDisposition,
    pub recovery_detail: String,
}

pub open spec fn terminal(s: SenderState) -> bool {
    s == SenderState::Completed || s == SenderState::Failed || s == SenderState::Cancelled
}

pub open spec fn disposition(s: SenderState) -> RecoveryDisposition {
    if s == SenderState::Completed {
        RecoveryDisposition::NotRequired
    } else if s == SenderState::Failed || s == SenderState::Cancelled {
        RecoveryDisposition::RestartBlocked
    } else {
        RecoveryDisposition::CheckpointOnly
    }
}

pub open spec fn detail(s: SenderState) -> Seq<char> {
    if s == SenderState::Completed {
        "Program completed; no recovery is required"@
    } else if s == SenderState::Failed || s == SenderState::Cancelled {
        "Automatic restart from a line is blocked; re-establish machine position, modal state and a safe approach before creating a new authorization"@
    } else {
        "Diagnostic checkpoint only; it is not an executable resume token"@
    }
}

pub fn is_terminal(state: SenderState) -> (r: bool)
    ensures
        r == terminal(state),
{
    state == SenderState::Completed || state == SenderState::Failed || state
        == SenderState::Cancelled
}

pub fn recovery_disposition(state: SenderState) -> (r: RecoveryDisposition)
    ensures
        r == disposition(state),
{
    if state == SenderState::Completed {
        RecoveryDisposition::NotRequired
    } else if state == SenderState::Failed || state == SenderState::Cancelled {
        RecoveryDisposition::RestartBlocked
    } else {
        RecoveryDisposition::CheckpointOnly
    }
}

pub fn recovery_detail(state: SenderState) -> (r: &'static str)
    ensures
        r@ == detail(state),
{
    if state == SenderState::Completed {
        "Program completed; no recovery is required"
    } else if state == SenderState::Failed || state == SenderState::Cancelled {
        "Automatic restart from a line is blocked; re-establish machine position, modal state and a safe approach before creating a new authorization"
    } else {
        "Diagnostic checkpoint only; it is not an executable resume token"
    }
}

/// The entry carries the snapshot's progress, taken at `now`.
pub open spec fn carries(e: RunJournalEntry, s: &SenderSnapshot, now_unix_ms: u64) -> bool {
    &&& e.state == s.state
    &&& e.updated_at_unix_ms == now_unix_ms
    &&& e.total_lines == s.total_lines
    &&& e.dispatched_lines == s.dispatched_lines
    &&& e.acknowledged_lines == s.acknowledged_lines
    &&& e.last_acknowledged_source_line == s.last_acknowledged_source_line
    &&& e.last_acknowledged_command == s.last_acknowledged_command
    &&& e.current_source_line == s.current_source_line
    &&& e.current_command == s.current_command
    &&& e.shutdown_commands_acknowledged == s.shutdown_commands_acknowledged
    &&& e.elapsed_ms == s.elapsed_ms
    &&& e.failure == s.failure
    &&& e.recovery == disposition(s.state)
    &&& e.recovery_detail@ == detail(s.state)
}

impl RunJournalEntry {
    fn update(&mut self, snapshot: &SenderSnapshot, now_unix_ms: u64)
        ensures
            carries(*final(self), snapshot, now_unix_ms),
            final(self).application_session == old(self).application_session,
            final(self).run_sequence == old(self).run_sequence,
            final(self).source_name == old(self).source_name,
            final(self).mode == old(self).mode,
            final(self).created_at_unix_ms == old(self).created_at_unix_ms,
    {
        self.state = snapshot.state;
        self.updated_at_unix_ms = now_unix_ms;
        self.total_lines = snapshot.total_lines;
        self.dispatched_lines = snapshot.dispatched_lines;
        self.acknowledged_lines = snapshot.acknowledged_lines;
        self.last_acknowledged_source_line = snapshot.last_acknowledged_source_line;
        self.last_acknowledged_command = copy_text(&snapshot.last_acknowledged_command);
        self.current_source_line = snapshot.current_source_line;
        self.current_command = copy_text(&snapshot.current_command);
        self.shutdown_commands_acknowledged = snapshot.shutdown_commands_acknowledged;
        self.elapsed_ms = snapshot.elapsed_ms;
        self.failure = copy_failure(&snapshot.failure);
        self.recovery = recovery_disposition(snapshot.state);
        self.recovery_detail = recovery_detail(snapshot.state).to_owned();
    }
}


/// The last checkpoint that was written.
#[derive(Clone, Copy, Debug, PartialEq, Eq, Structural)]
pub struct PersistedCheckpoint {
    pub run_sequence: u64,
    pub state: SenderState,
    pub acknowledged_lines: usize,
    pub persisted_at_ms: u64,
    pub terminal: bool,
}

/// The run history of one application session.
#[derive(Debug)]
pub struct RunJournal {
    persistent: bool,
    max_entries: usize,
    application_session: u64,
    entries: Vec<RunJournalEntry>,
    checkpoint: Option<PersistedCheckpoint>,
}

pub struct JournalV {
    pub persistent: bool,
    pub max_entries: usize,
    pub application_session: u64,
    pub entries: Seq<RunJournalEntry>,
    pub checkpoint: Option<PersistedCheckpoint>,
}

impl View for RunJournal {
    type V = JournalV;

    closed spec fn view(&self) -> JournalV {
        JournalV {
            persistent: self.persistent,
            max_entries: self.max_entries,
            application_session: self.application_session,
            entries: self.entries@,
            checkpoint: self.checkpoint,
        }
    }
}

/// Snapshots that do not describe a run are not journaled.
pub open spec fn ignored(s: &SenderSnapshot) -> bool {
    s.run_sequence == 0 || s.mode is None || s.source_name is None || s.state == SenderState::Idle
        || s.state == SenderState::Ready
}

/// Index of this session's entry for the run, if there is one.
pub open spec fn find_run(es: Seq<RunJournalEntry>, session: u64, run: u64) -> Option<nat>
    decreases es.len(),
{
    if es.len() == 0 {
        None
    } else if es[0].application_session == session && es[0].run_sequence == run {
        Some(0)
    } else {
        match find_run(es.drop_first(), session, run) {
            Some(i) => Some(i + 1),
            None => None,
        }
    }
}

/// Whether a checkpoint is due: for a new run, without an earlier checkpoint,
/// on a change of run or state, after enough acknowledged lines, after enough
/// time while running, or on first reaching a terminal state.
pub open spec fn checkpoint_due(
    new_run: bool,
    cp: Option<PersistedCheckpoint>,
    s: &SenderSnapshot,
    monotonic_ms: u64,
) -> bool {
    new_run || match cp {
        None => true,
        Some(c) => {
            ||| c.run_sequence != s.run_sequence
            ||| c.state != s.state
            ||| (s.acknowledged_lines >= c.acknowledged_lines && s.acknowledged_lines
                - c.acknowledged_lines >= ACK_CHECKPOINT_INTERVAL)
            ||| (!terminal(s.state) && monotonic_ms >= c.persisted_at_ms && monotonic_ms
                - c.persisted_at_ms >= TIME_CHECKPOINT_INTERVAL_MS)
            ||| (terminal(s.state) && !c.terminal)
        },
    }
}

/// A new entry for the run in the snapshot.
pub open spec fn new_entry(e: RunJournalEntry, session: u64, s: &SenderSnapshot, now_unix_ms: u64) -> bool {
    &&& carries(e, s, now_unix_ms)
    &&& e.application_session == session
    &&& e.run_sequence == s.run_sequence
    &&& s.source_name == Some(e.source_name)
    &&& s.mode == Some(e.mode)
    &&& e.created_at_unix_ms == now_unix_ms
}

/// `after` is `before` with the run's entry updated (or appended at the end),
/// then the first `dropped` entries removed.
pub open spec fn observed(
    before: Seq<RunJournalEntry>,
    after: Seq<RunJournalEntry>,
    session: u64,
    s: &SenderSnapshot,
    now_unix_ms: u64,
    dropped: nat,
) -> bool {
    let found = find_run(before, session, s.run_sequence);
    let target: nat = match found {
        Some(i) => i,
        None => before.len(),
    };
    let total: nat = match found {
        Some(_) => before.len(),
        None => before.len() + 1,
    };
    &&& dropped <= total
    &&& after.len() == total - dropped
    &&& forall|j: int|
        0 <= j < after.len() ==> {
            let k = j + dropped;
            if k == target {
                match found {
                    Some(i) => {
                        &&& carries(#[trigger] after[j], s, now_unix_ms)
                        &&& after[j].application_session == before[k].application_session
                        &&& after[j].run_sequence == before[k].run_sequence
                        &&& after[j].source_name == before[k].source_name
                        &&& after[j].mode == before[k].mode
                        &&& after[j].created_at_unix_ms == before[k].created_at_unix_ms
                    },
                    None => new_entry(after[j], session, s, now_unix_ms),
                }
            } else {
                after[j] == before[k]
            }
        }
}

/// How many of the oldest entries a checkpoint drops to stay within the bound.
pub open spec fn excess(total: nat, max: nat) -> nat {
    if total > max {
        (total - max) as nat
    } else {
        0
    }
}

proof fn lemma_find_run(es: Seq<RunJournalEntry>, session: u64, run: u64)
    ensures
        match find_run(es, session, run) {
            Some(i) => i < es.len() && es[i as int].application_session == session
                && es[i as int].run_sequence == run && forall|k: int|
                0 <= k < i ==> !(es[k].application_session == session && es[k].run_sequence
                    == run),
            None => forall|k: int|
                0 <= k < es.len() ==> !(es[k].application_session == session
                    && es[k].run_sequence == run),
        },
    decreases es.len(),
{
    if es.len() > 0 && !(es[0].application_session == session && es[0].run_sequence == run) {
        lemma_find_run(es.drop_first(), session, run);
        let t = es.drop_first();
        assert forall|k: int| 0 < k < es.len() implies es[k] == t[k - 1] by {}
    }
}

/// The checkpoint that records `s` as written at `monotonic_ms`.
pub open spec fn checkpoint_of(s: &SenderSnapshot, monotonic_ms: u64) -> PersistedCheckpoint {
    PersistedCheckpoint {
        run_sequence: s.run_sequence,
        state: s.state,
        acknowledged_lines: s.acknowledged_lines,
        persisted_at_ms: monotonic_ms,
        terminal: terminal(s.state),
    }
}

impl RunJournal {
    /// An empty journal for `session` that keeps at most `max_entries` runs.
    pub fn new(persistent: bool, max_entries: usize, application_session: u64) -> (j: Self)
        ensures
            j@.persistent == persistent,
            j@.max_entries == max_entries,
            j@.application_session == application_session,
            j@.entries.len() == 0,
            j@.checkpoint is None,
    {
        RunJournal {
            persistent,
            max_entries,
            application_session,
            entries: Vec::new(),
            checkpoint: None,
        }
    }

    /// An in-memory journal with the default bound.
    pub fn in_memory(application_session: u64) -> (j: Self)
        ensures
            !j@.persistent,
            j@.max_entries == DEFAULT_MAX_ENTRIES,
            j@.application_session == application_session,
            j@.entries.len() == 0,
            j@.checkpoint is None,
    {
        Self::new(false, DEFAULT_MAX_ENTRIES, application_session)
    }

    pub fn entries(&self) -> (r: &[RunJournalEntry])
        ensures
            r@ == self@.entries,
    {
        self.entries.as_slice()
    }

    /// Whether checkpoints are written to a file.
    pub fn persistent(&self) -> (r: bool)
        ensures
            r == self@.persistent,
    {
        self.persistent
    }

    /// Replaces the entries with loaded ones, keeping the newest within the bound.
    pub fn restore(&mut self, entries: Vec<RunJournalEntry>)
        ensures
            final(self)@.entries == entries@.skip(excess(entries@.len(), old(self)@.max_entries as nat) as int),
            final(self)@.persistent == old(self)@.persistent,
            final(self)@.max_entries == old(self)@.max_entries,
            final(self)@.application_session == old(self)@.application_session,
            final(self)@.checkpoint == old(self)@.checkpoint,
    {
        self.entries = entries;
        self.trim();
    }

    fn trim(&mut self)
        ensures
            final(self)@.entries == old(self)@.entries.skip(
                excess(old(self)@.entries.len(), old(self)@.max_entries as nat) as int,
            ),
            final(self)@.persistent == old(self)@.persistent,
            final(self)@.max_entries == old(self)@.max_entries,
            final(self)@.application_session == old(self)@.application_session,
            final(self)@.checkpoint == old(self)@.checkpoint,
    {
        if self.entries.len() > self.max_entries {
            let drop = self.entries.len() - self.max_entries;
            let ghost before = self.entries@;
            let mut rest: Vec<RunJournalEntry> = Vec::new();
            std::mem::swap(&mut rest, &mut self.entries);
            let mut i: usize = 0;
            while i < drop
                invariant
                    i <= drop <= before.len(),
                    rest@ == before.skip(i as int),
                decreases drop - i,
            {
                rest.remove(0);
                i = i + 1;
                assert(rest@ =~= before.skip(i as int));
            }
            self.entries = rest;
        } else {
            assert(self.entries@.skip(0) =~= self.entries@);
        }
    }

    fn find(&self, run_sequence: u64) -> (r: Option<usize>)
        ensures
            match r {
                Some(i) => find_run(self@.entries, self@.application_session, run_sequence) == Some(i as nat),
                None => find_run(self@.entries, self@.application_session, run_sequence) is None,
            },
    {
        let ghost es = self.entries@;
        let mut i: usize = 0;
        assert(es.skip(0) =~= es);
        while i < self.entries.len()
            invariant
                i <= es.len(),
                es == self.entries@,
                find_run(es, self.application_session, run_sequence) == match find_run(
                    es.skip(i as int),
                    self.application_session,
                    run_sequence,
                ) {
                    Some(k) => Some((k + i) as nat),
                    None => None,
                },
            decreases self.entries.len() - i,
        {
            assert(es.skip(i as int)[0] == es[i as int]);
            if self.entries[i].application_session == self.application_session
                && self.entries[i].run_sequence == run_sequence {
                return Some(i);
            }
            assert(es.skip(i as int).drop_first() =~= es.skip(i + 1));
            i = i + 1;
        }
        None
    }

    /// Records a snapshot. Returns whether a checkpoint is now due. An
    /// in-memory journal records the checkpoint at once; for a persistent one
    /// the caller writes the entries and then calls [`Self::checkpoint_written`].
    pub fn observe(&mut self, snapshot: &SenderSnapshot, now_unix_ms: u64, monotonic_ms: u64) -> (due: bool)
        ensures
            final(self)@.persistent == old(self)@.persistent,
            final(self)@.max_entries == old(self)@.max_entries,
            final(self)@.application_session == old(self)@.application_session,
            final(self)@.checkpoint == (if due && !old(self)@.persistent {
                Some(checkpoint_of(snapshot, monotonic_ms))
            } else {
                old(self)@.checkpoint
            }),
            ignored(snapshot) ==> !due && final(self)@.entries == old(self)@.entries,
            !ignored(snapshot) ==> {
                let found = find_run(old(self)@.entries, old(self)@.application_session, snapshot.run_sequence);
                let total: nat = if found is Some {
                    old(self)@.entries.len()
                } else {
                    old(self)@.entries.len() + 1
                };
                &&& due == checkpoint_due(found is None, old(self)@.checkpoint, snapshot, monotonic_ms)
                &&& observed(
                    old(self)@.entries,
                    final(self)@.entries,
                    old(self)@.application_session,
                    snapshot,
                    now_unix_ms,
                    if due {
                        excess(total, old(self)@.max_entries as nat)
                    } else {
                        0
                    },
                )
            },
    {
        if snapshot.run_sequence == 0 || snapshot.mode.is_none() || snapshot.source_name.is_none()
            || snapshot.state == SenderState::Idle || snapshot.state == SenderState::Ready {
            return false;
        }
        let ghost before = self.entries@;
        proof {
            lemma_find_run(before, self.application_session, snapshot.run_sequence);
        }
        let found = self.find(snapshot.run_sequence);
        let new_run = found.is_none();
        match found {
            Some(i) => {
                let mut entry = self.entries.remove(i);
                entry.update(snapshot, now_unix_ms);
                self.entries.insert(i, entry);
                assert forall|j: int| 0 <= j < self.entries@.len() && j != i implies self.entries@[j]
                    == before[j] by {}
            },
            None => {
                let name = match &snapshot.source_name {
                    Some(n) => n.clone(),
                    None => String::new(),
                };
                let mode = match snapshot.mode {
                    Some(m) => m,
                    None => SenderMode::AirRun,
                };
                let mut entry = RunJournalEntry {
                    application_session: self.application_session,
                    run_sequence: snapshot.run_sequence,
                    source_name: name,
                    mode,
                    state: snapshot.state,
                    created_at_unix_ms: now_unix_ms,
                    updated_at_unix_ms: now_unix_ms,
                    total_lines: 0,
                    dispatched_lines: 0,
                    acknowledged_lines: 0,
                    last_acknowledged_source_line: None,
                    last_acknowledged_command: None,
                    current_source_line: None,
                    current_command: None,
                    shutdown_commands_acknowledged: false,
                    elapsed_ms: 0,
                    failure: None,
                    recovery: RecoveryDisposition::CheckpointOnly,
                    recovery_detail: String::new(),
                };
                entry.update(snapshot, now_unix_ms);
                self.entries.push(entry);
            },
        }
        let ghost mid = self.entries@;
        assert(observed(before, mid, self.application_session, snapshot, now_unix_ms, 0));
        let terminal_now = is_terminal(snapshot.state);
        let due = new_run || match &self.checkpoint {
            None => true,
            Some(c) => {
                c.run_sequence != snapshot.run_sequence || c.state != snapshot.state || (
                snapshot.acknowledged_lines >= c.acknowledged_lines && snapshot.acknowledged_lines
                    - c.acknowledged_lines >= ACK_CHECKPOINT_INTERVAL) || (!terminal_now
                    && monotonic_ms >= c.persisted_at_ms && monotonic_ms - c.persisted_at_ms
                    >= TIME_CHECKPOINT_INTERVAL_MS) || (terminal_now && !c.terminal)
            },
        };
        if !due {
            return false;
        }
        self.trim();
        proof {
            let d = excess(mid.len(), self.max_entries as nat);
            assert(self.entries@ == mid.skip(d as int));
            assert forall|j: int| 0 <= j < self.entries@.len() implies self.entries@[j] == mid[j + d] by {}
        }
        if !self.persistent {
            self.checkpoint_written(snapshot, monotonic_ms);
        }
        true
    }

    /// Records that the checkpoint for this snapshot was written at `monotonic_ms`.
    pub fn checkpoint_written(&mut self, snapshot: &SenderSnapshot, monotonic_ms: u64)
        ensures
            final(self)@.checkpoint == Some(checkpoint_of(snapshot, monotonic_ms)),
            final(self)@.entries == old(self)@.entries,
            final(self)@.persistent == old(self)@.persistent,
            final(self)@.max_entries == old(self)@.max_entries,
            final(self)@.application_session == old(self)@.application_session,
    {
        self.checkpoint = Some(
            PersistedCheckpoint {
                run_sequence: snapshot.run_sequence,
                state: snapshot.state,
                acknowledged_lines: snapshot.acknowledged_lines,
                persisted_at_ms: monotonic_ms,
                terminal: is_terminal(snapshot.state),
            },
        );
    }
}


/// The first snapshot of a run is always checkpointed.
pub proof fn lemma_new_run_is_checkpointed(
    cp: Option<PersistedCheckpoint>,
    s: &SenderSnapshot,
    monotonic_ms: u64,
)
    ensures
        checkpoint_due(true, cp, s, monotonic_ms),
{
}

/// Reaching a terminal state is checkpointed even when it comes right after
/// the previous checkpoint.
pub proof fn lemma_terminal_state_is_checkpointed(
    c: PersistedCheckpoint,
    s: &SenderSnapshot,
    monotonic_ms: u64,
)
    requires
        terminal(s.state),
        !c.terminal,
    ensures
        checkpoint_due(false, Some(c), s, monotonic_ms),
{
}

/// Once a terminal state has been checkpointed, repeating the same snapshot is
/// not checkpointed again, however much time passes.
pub proof fn lemma_terminal_state_is_checkpointed_once(
    c: PersistedCheckpoint,
    s: &SenderSnapshot,
    monotonic_ms: u64,
)
    requires
        terminal(s.state),
        c.terminal,
        c.run_sequence == s.run_sequence,
        c.state == s.state,
        c.acknowledged_lines == s.acknowledged_lines,
    ensures
        !checkpoint_due(false, Some(c), s, monotonic_ms),
{
}

/// Progress of fewer than the interval's lines within the interval's time is not checkpointed.
pub proof fn lemma_checkpoints_are_throttled(c: PersistedCheckpoint, s: &SenderSnapshot, monotonic_ms: u64)
    requires
        !terminal(s.state),
        c.run_sequence == s.run_sequence,
        c.state == s.state,
        c.acknowledged_lines <= s.acknowledged_lines < c.acknowledged_lines + ACK_CHECKPOINT_INTERVAL,
        c.persisted_at_ms <= monotonic_ms < c.persisted_at_ms + TIME_CHECKPOINT_INTERVAL_MS,
    ensures
        !checkpoint_due(false, Some(c), s, monotonic_ms),
{
}

/// After a checkpoint the journal holds at most its bound of entries.
pub proof fn lemma_checkpointed_journal_is_bounded(total: nat, max: nat)
    ensures
        total - excess(total, max) <= max,
{
}

/// A failed or cancelled run is never offered as resumable, and only a
/// completed run needs no recovery.
pub proof fn lemma_failed_runs_are_not_resumable(s: SenderState)
    ensures
        (s == SenderState::Failed || s == SenderState::Cancelled) ==> disposition(s)
            == RecoveryDisposition::RestartBlocked,
        disposition(s) == RecoveryDisposition::NotRequired <==> s == SenderState::Completed,
{
}

} // verus!
