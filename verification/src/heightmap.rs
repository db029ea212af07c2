//! Surface probing: how a probe touches the work, where an operation stands,
//! how far a map has been measured, and the session that keeps the measured
//! map and the one being measured. The maps themselves (probe positions and
//! heights) are carried through as they are; the session decides what
//! happens to them.
use vstd::prelude::*;

verus! {

/// Most probe points on one axis of a grid.
pub const MAX_GRID_AXIS_POINTS: usize = 101;

/// Most probe points in a grid.
pub const MAX_GRID_POINTS: usize = 10000;

/// Why a probe grid's shape is refused.
#[derive(Clone, Copy, Debug, PartialEq, Eq, Structural)]
pub enum GridRefusal {
    /// Fewer than two points on an axis.
    TooSmall,
    /// More than [`MAX_GRID_AXIS_POINTS`] on an axis.
    TooLarge,
    /// More than [`MAX_GRID_POINTS`] in all.
    TooManyPoints,
}

/// The first rule a grid of `columns` by `rows` points breaks, if any.
pub open spec fn grid_refusal(columns: nat, rows: nat) -> Option<GridRefusal> {
    if columns < 2 || rows < 2 {
        Some(GridRefusal::TooSmall)
    } else if columns > MAX_GRID_AXIS_POINTS || rows > MAX_GRID_AXIS_POINTS {
        Some(GridRefusal::TooLarge)
    } else if columns * rows > MAX_GRID_POINTS {
        Some(GridRefusal::TooManyPoints)
    } else {
        None
    }
}

/// Checks the shape of a probe grid: at least two and at most
/// [`MAX_GRID_AXIS_POINTS`] points on each axis, at most [`MAX_GRID_POINTS`]
/// in all.
pub fn check_grid(columns: usize, rows: usize) -> (r: Result<(), GridRefusal>)
    ensures
        match grid_refusal(columns as nat, rows as nat) {
            Some(g) => r == Err::<(), GridRefusal>(g),
            None => r is Ok,
        },
{
    if columns < 2 || rows < 2 {
        return Err(GridRefusal::TooSmall);
    }
    if columns > MAX_GRID_AXIS_POINTS || rows > MAX_GRID_AXIS_POINTS {
        return Err(GridRefusal::TooLarge);
    }
    assert(columns * rows <= 101 * 101) by (nonlinear_arith)
        requires
            columns <= 101,
            rows <= 101,
    ;
    if columns * rows > MAX_GRID_POINTS {
        return Err(GridRefusal::TooManyPoints);
    }
    Ok(())
}

/// How the probe touches the work.
#[derive(Clone, Copy, Debug, PartialEq, Eq, Structural)]
pub enum HeightmapContactMode {
    DirectSurface,
    FixedPlate,
}

impl Default for HeightmapContactMode {
    fn default() -> (r: Self)
        ensures
            r == HeightmapContactMode::DirectSurface,
    {
        HeightmapContactMode::DirectSurface
    }
}

/// Where a probing operation stands.
#[derive(Clone, Copy, Debug, PartialEq, Eq, Structural)]
pub enum HeightmapOperationState {
    Idle,
    Running,
    Paused,
    Completed,
    Failed,
    Cancelled,
}

impl Default for HeightmapOperationState {
    fn default() -> (r: Self)
        ensures
            r == HeightmapOperationState::Idle,
    {
        HeightmapOperationState::Idle
    }
}

/// How many grid points have a sample, how many of those touched, and the total.
#[derive(Clone, Copy, Debug, PartialEq, Eq, Structural)]
pub struct HeightmapProgress {
    pub measured: usize,
    pub triggered: usize,
    pub total: usize,
    pub complete: bool,
}

/// Points that have a sample.
pub open spec fn measured_count(samples: Seq<Option<bool>>) -> nat
    decreases samples.len(),
{
    if samples.len() == 0 {
        0
    } else {
        measured_count(samples.drop_last()) + if samples.last() is Some {
            1nat
        } else {
            0nat
        }
    }
}

/// Points whose sample touched.
pub open spec fn triggered_count(samples: Seq<Option<bool>>) -> nat
    decreases samples.len(),
{
    if samples.len() == 0 {
        0
    } else {
        triggered_count(samples.drop_last()) + if samples.last() == Some(true) {
            1nat
        } else {
            0nat
        }
    }
}

/// Progress of a map whose grid points hold `None` until probed and then
/// whether the probe touched.
pub fn sample_progress(samples: &[Option<bool>]) -> (p: HeightmapProgress)
    ensures
        p.measured == measured_count(samples@),
        p.triggered == triggered_count(samples@),
        p.total == samples@.len(),
        p.complete == (p.measured == p.total),
{
    let mut measured: usize = 0;
    let mut triggered: usize = 0;
    let mut i: usize = 0;
    while i < samples.len()
        invariant
            i <= samples.len(),
            measured == measured_count(samples@.take(i as int)),
            triggered == triggered_count(samples@.take(i as int)),
            measured <= i,
            triggered <= i,
        decreases samples.len() - i,
    {
        assert(samples@.take(i + 1).drop_last() =~= samples@.take(i as int));
        assert(samples@.take(i + 1).last() == samples@[i as int]);
        match samples[i] {
            Some(t) => {
                measured = measured + 1;
                if t {
                    triggered = triggered + 1;
                }
            },
            None => {},
        }
        i = i + 1;
    }
    assert(samples@.take(samples.len() as int) =~= samples@);
    HeightmapProgress {
        measured,
        triggered,
        total: samples.len(),
        complete: measured == samples.len(),
    }
}

proof fn lemma_counts_bounded(samples: Seq<Option<bool>>)
    ensures
        triggered_count(samples) <= measured_count(samples) <= samples.len(),
    decreases samples.len(),
{
    if samples.len() > 0 {
        lemma_counts_bounded(samples.drop_last());
    }
}

/// Touches are a subset of measurements, which never exceed the grid.
pub proof fn lemma_progress_is_ordered(samples: Seq<Option<bool>>)
    ensures
        triggered_count(samples) <= measured_count(samples),
        measured_count(samples) <= samples.len(),
{
    lemma_counts_bounded(samples);
}


// ---------------------------------------------------------------------------
// The surface session
// ---------------------------------------------------------------------------

/// Version of the surface-session file.
pub const SURFACE_SESSION_SCHEMA_VERSION: u16 = 1;

/// A probing operation as the session keeps it, with the map `M` it measures.
#[derive(Clone, Debug)]
pub struct HeightmapOperationSnapshot<M> {
    pub operation_sequence: u64,
    pub state: HeightmapOperationState,
    pub map: Option<M>,
    pub current_sequence: Option<usize>,
    pub progress: HeightmapProgress,
    pub error: Option<String>,
}

/// The map that compensation uses, with the identity it was given.
#[derive(Clone, Debug)]
pub struct StoredSurfaceMap<M> {
    pub map_id: u64,
    pub machine_profile_id: String,
    pub created_at_unix_ms: u64,
    pub map: M,
}

/// The map being measured, and for which machine.
#[derive(Clone, Debug)]
pub struct PendingSurfaceMap<M> {
    pub machine_profile_id: String,
    pub updated_at_unix_ms: u64,
    pub operation: HeightmapOperationSnapshot<M>,
}

/// The measured map, the one being measured, and whether compensation may
/// be applied.
#[derive(Clone, Debug)]
pub struct SurfaceSession<M> {
    pub schema_version: u16,
    pub revision: u64,
    pub next_map_id: u64,
    pub active: Option<StoredSurfaceMap<M>>,
    pub pending: Option<PendingSurfaceMap<M>>,
    pub application_enabled: bool,
    pub requires_setup_confirmation: bool,
    pub coordinate_binding_stale: bool,
}

/// Why a surface-session change was refused.
#[derive(Debug, PartialEq, Eq)]
pub enum SurfaceSessionError {
    InvalidOperation(&'static str),
    NoPendingMap,
    OperationMismatch,
    PendingMachineMismatch,
    ResumeMapMismatch,
    NoMap,
    IncompleteMap,
    SetupConfirmationRequired,
    CoordinateBindingStale,
    UnsupportedSchema(u16),
}

/// `n + 1`, held at the largest `u64`.
pub open spec fn bumped(n: u64) -> u64 {
    if n == u64::MAX { n } else { (n + 1) as u64 }
}

fn bump(n: u64) -> (r: u64)
    ensures
        r == bumped(n),
{
    if n == u64::MAX { n } else { n + 1 }
}

/// A fresh session: no maps, nothing armed, the first map id is 1.
pub open spec fn fresh_session<M>(s: SurfaceSession<M>) -> bool {
    &&& s.schema_version == SURFACE_SESSION_SCHEMA_VERSION
    &&& s.revision == 0
    &&& s.next_map_id == 1
    &&& s.active is None
    &&& s.pending is None
    &&& !s.application_enabled
    &&& !s.requires_setup_confirmation
    &&& !s.coordinate_binding_stale
}

/// The session as a restart leaves it: with a measured map, compensation is
/// off and waits for a confirmation.
pub open spec fn reopened_session<M>(session: SurfaceSession<M>) -> SurfaceSession<M> {
    if session.active is Some {
        SurfaceSession { application_enabled: false, requires_setup_confirmation: true, ..session }
    } else {
        session
    }
}

/// A session read back after a restart keeps its maps, but compensation
/// with a measured map is never armed again without a new confirmation: the
/// workpiece may have moved. Also returns whether the file must be written
/// again (it came from the backup, or its flags changed).
pub fn reopened<M>(session: SurfaceSession<M>, recovered: bool) -> (r: (SurfaceSession<M>, bool))
    ensures
        r.0 == reopened_session(session),
        r.1 == (recovered || (session.active is Some && (session.application_enabled
            || !session.requires_setup_confirmation))),
{
    let changed = session.active.is_some() && (session.application_enabled || !session.requires_setup_confirmation);
    if session.active.is_some() {
        (SurfaceSession { application_enabled: false, requires_setup_confirmation: true, ..session }, recovered || changed)
    } else {
        (session, recovered || changed)
    }
}

/// The session with `pending` replaced and the revision moved on.
pub open spec fn with_pending<M>(s: SurfaceSession<M>, pending: Option<PendingSurfaceMap<M>>) -> SurfaceSession<M> {
    SurfaceSession { pending, revision: bumped(s.revision), ..s }
}

/// The session once the draft `p` is the measured map.
pub open spec fn activated<M>(s: SurfaceSession<M>, p: PendingSurfaceMap<M>, now_unix_ms: u64) -> SurfaceSession<M> {
    SurfaceSession {
        active: Some(
            StoredSurfaceMap {
                map_id: s.next_map_id,
                machine_profile_id: p.machine_profile_id,
                created_at_unix_ms: now_unix_ms,
                map: p.operation.map.unwrap(),
            },
        ),
        pending: None,
        next_map_id: bumped(s.next_map_id),
        application_enabled: false,
        requires_setup_confirmation: true,
        coordinate_binding_stale: false,
        revision: bumped(s.revision),
        ..s
    }
}

/// Why turning compensation on or off is refused, if it is.
pub open spec fn enable_refusal<M>(s: SurfaceSession<M>, enabled: bool, setup_confirmed: bool) -> Option<SurfaceSessionError> {
    if enabled && s.active is None {
        Some(SurfaceSessionError::NoMap)
    } else if enabled && !setup_confirmed {
        Some(SurfaceSessionError::SetupConfirmationRequired)
    } else if enabled && s.coordinate_binding_stale {
        Some(SurfaceSessionError::CoordinateBindingStale)
    } else {
        None
    }
}

/// The session after a change of work coordinates.
pub open spec fn disarmed<M>(s: SurfaceSession<M>) -> SurfaceSession<M> {
    SurfaceSession {
        application_enabled: false,
        requires_setup_confirmation: s.active is Some,
        coordinate_binding_stale: s.active is Some,
        revision: bumped(s.revision),
        ..s
    }
}

/// Every measured map's id was handed out before the next one.
pub open spec fn ids_ok<M>(s: SurfaceSession<M>) -> bool {
    s.active matches Some(a) ==> a.map_id < s.next_map_id
}

/// The keeper of the surface session.
pub struct SurfaceSessionStore<M> {
    session: SurfaceSession<M>,
}

impl<M> View for SurfaceSessionStore<M> {
    type V = SurfaceSession<M>;

    closed spec fn view(&self) -> SurfaceSession<M> {
        self.session
    }
}

impl<M> SurfaceSessionStore<M> {
    /// A store with a fresh session.
    pub fn in_memory() -> (s: Self)
        ensures
            fresh_session(s@),
    {
        SurfaceSessionStore {
            session: SurfaceSession {
                schema_version: SURFACE_SESSION_SCHEMA_VERSION,
                revision: 0,
                next_map_id: 1,
                active: None,
                pending: None,
                application_enabled: false,
                requires_setup_confirmation: false,
                coordinate_binding_stale: false,
            },
        }
    }

    /// A store over a session read back from disk (see [`reopened`]).
    pub fn with_session(session: SurfaceSession<M>) -> (s: Self)
        ensures
            s@ == session,
    {
        SurfaceSessionStore { session }
    }

    /// The session.
    pub fn session(&self) -> (r: &SurfaceSession<M>)
        ensures
            *r == self@,
    {
        &self.session
    }

    /// Starts measuring a map for a machine. The operation must be running
    /// and carry its map. The measured map is not touched.
    pub fn begin(
        &mut self,
        machine_profile_id: String,
        operation: HeightmapOperationSnapshot<M>,
        now_unix_ms: u64,
    ) -> (r: Result<(), SurfaceSessionError>)
        ensures
            if operation.state != HeightmapOperationState::Running || operation.map is None {
                r matches Err(SurfaceSessionError::InvalidOperation(m)) && m@
                    == "pending map must start in Running state"@ && final(self)@ == old(self)@
            } else {
                r is Ok && final(self)@ == with_pending(
                    old(self)@,
                    Some(PendingSurfaceMap { machine_profile_id, updated_at_unix_ms: now_unix_ms, operation }),
                )
            },
    {
        if operation.state != HeightmapOperationState::Running || operation.map.is_none() {
            return Err(SurfaceSessionError::InvalidOperation("pending map must start in Running state"));
        }
        let revision = bump(self.session.revision);
        self.session.pending = Some(PendingSurfaceMap { machine_profile_id, updated_at_unix_ms: now_unix_ms, operation });
        self.session.revision = revision;
        Ok(())
    }

    /// Records the progress of the operation being measured.
    pub fn checkpoint(&mut self, operation: HeightmapOperationSnapshot<M>, now_unix_ms: u64) -> (r: Result<(), SurfaceSessionError>)
        ensures
            match old(self)@.pending {
                None => r == Err::<(), _>(SurfaceSessionError::NoPendingMap) && final(self)@ == old(self)@,
                Some(p) => if p.operation.operation_sequence != operation.operation_sequence {
                    r == Err::<(), _>(SurfaceSessionError::OperationMismatch) && final(self)@ == old(self)@
                } else {
                    r is Ok && final(self)@ == with_pending(
                        old(self)@,
                        Some(PendingSurfaceMap { operation, updated_at_unix_ms: now_unix_ms, ..p }),
                    )
                },
            },
    {
        let taken = self.session.pending.take();
        match taken {
            None => Err(SurfaceSessionError::NoPendingMap),
            Some(p) => {
                if p.operation.operation_sequence != operation.operation_sequence {
                    self.session.pending = Some(p);
                    return Err(SurfaceSessionError::OperationMismatch);
                }
                let revision = bump(self.session.revision);
                self.session.pending = Some(PendingSurfaceMap { operation, updated_at_unix_ms: now_unix_ms, ..p });
                self.session.revision = revision;
                Ok(())
            },
        }
    }

    /// Continues measuring the pending map, for the same machine, with a
    /// running operation whose map keeps the saved grid and measured samples
    /// (`same_grid_and_samples`, as the caller compared the two maps, the
    /// probe depth aside).
    pub fn resume_pending(
        &mut self,
        machine_profile_id: &str,
        operation: HeightmapOperationSnapshot<M>,
        same_grid_and_samples: bool,
        now_unix_ms: u64,
    ) -> (r: Result<(), SurfaceSessionError>)
        ensures
            if operation.state != HeightmapOperationState::Running {
                r matches Err(SurfaceSessionError::InvalidOperation(m)) && m@
                    == "resumed map must start in Running state"@ && final(self)@ == old(self)@
            } else {
                match old(self)@.pending {
                    None => r == Err::<(), _>(SurfaceSessionError::NoPendingMap) && final(self)@ == old(self)@,
                    Some(p) => if p.machine_profile_id@ != machine_profile_id@ {
                        r == Err::<(), _>(SurfaceSessionError::PendingMachineMismatch) && final(self)@ == old(self)@
                    } else if p.operation.map is None || operation.map is None {
                        r == Err::<(), _>(SurfaceSessionError::NoMap) && final(self)@ == old(self)@
                    } else if !same_grid_and_samples {
                        r == Err::<(), _>(SurfaceSessionError::ResumeMapMismatch) && final(self)@ == old(self)@
                    } else {
                        r is Ok && final(self)@ == with_pending(
                            old(self)@,
                            Some(PendingSurfaceMap { operation, updated_at_unix_ms: now_unix_ms, ..p }),
                        )
                    },
                }
            },
    {
        if operation.state != HeightmapOperationState::Running {
            return Err(SurfaceSessionError::InvalidOperation("resumed map must start in Running state"));
        }
        let taken = self.session.pending.take();
        match taken {
            None => Err(SurfaceSessionError::NoPendingMap),
            Some(p) => {
                let same_machine = crate::text::chars_eq_str(
                    crate::text::chars_of(p.machine_profile_id.as_str()).as_slice(),
                    machine_profile_id,
                );
                if !same_machine {
                    self.session.pending = Some(p);
                    return Err(SurfaceSessionError::PendingMachineMismatch);
                }
                if p.operation.map.is_none() || operation.map.is_none() {
                    self.session.pending = Some(p);
                    return Err(SurfaceSessionError::NoMap);
                }
                if !same_grid_and_samples {
                    self.session.pending = Some(p);
                    return Err(SurfaceSessionError::ResumeMapMismatch);
                }
                let revision = bump(self.session.revision);
                self.session.pending = Some(PendingSurfaceMap { operation, updated_at_unix_ms: now_unix_ms, ..p });
                self.session.revision = revision;
                Ok(())
            },
        }
    }

    /// Puts back the draft a failed resume replaced.
    pub fn restore_pending_after_failed_resume(
        &mut self,
        failed_operation_sequence: u64,
        previous: PendingSurfaceMap<M>,
    ) -> (r: Result<(), SurfaceSessionError>)
        ensures
            match old(self)@.pending {
                None => r == Err::<(), _>(SurfaceSessionError::NoPendingMap) && final(self)@ == old(self)@,
                Some(p) => if p.operation.operation_sequence != failed_operation_sequence {
                    r == Err::<(), _>(SurfaceSessionError::OperationMismatch) && final(self)@ == old(self)@
                } else {
                    r is Ok && final(self)@ == with_pending(old(self)@, Some(previous))
                },
            },
    {
        match &self.session.pending {
            None => Err(SurfaceSessionError::NoPendingMap),
            Some(p) => {
                if p.operation.operation_sequence != failed_operation_sequence {
                    return Err(SurfaceSessionError::OperationMismatch);
                }
                let revision = bump(self.session.revision);
                self.session.pending = Some(previous);
                self.session.revision = revision;
                Ok(())
            },
        }
    }

    /// Makes the completed draft the measured map, under the next map id.
    /// The draft's recorded progress must show every point measured and
    /// touched. Compensation is then off until the operator confirms the
    /// setup.
    pub fn activate_completed(
        &mut self,
        operation_sequence: u64,
        now_unix_ms: u64,
    ) -> (r: Result<u64, SurfaceSessionError>)
        ensures
            r is Err ==> final(self)@ == old(self)@,
            match old(self)@.pending {
                None => r == Err::<u64, _>(SurfaceSessionError::NoPendingMap) && final(self)@ == old(self)@,
                Some(p) => if p.operation.operation_sequence != operation_sequence {
                    r == Err::<u64, _>(SurfaceSessionError::OperationMismatch) && final(self)@ == old(self)@
                } else if p.operation.map is None {
                    r == Err::<u64, _>(SurfaceSessionError::NoMap) && final(self)@ == old(self)@
                } else if !p.operation.progress.complete || p.operation.progress.triggered
                    != p.operation.progress.total {
                    r == Err::<u64, _>(SurfaceSessionError::IncompleteMap) && final(self)@ == old(self)@
                } else {
                    r == Ok::<u64, SurfaceSessionError>(old(self)@.next_map_id) && final(self)@ == activated(
                        old(self)@,
                        p,
                        now_unix_ms,
                    )
                },
            },
    {
        match &self.session.pending {
            None => {
                return Err(SurfaceSessionError::NoPendingMap);
            },
            Some(p) => {
                if p.operation.operation_sequence != operation_sequence {
                    return Err(SurfaceSessionError::OperationMismatch);
                }
                if p.operation.map.is_none() {
                    return Err(SurfaceSessionError::NoMap);
                }
                if !p.operation.progress.complete || p.operation.progress.triggered != p.operation.progress.total {
                    return Err(SurfaceSessionError::IncompleteMap);
                }
            },
        }
        let taken = self.session.pending.take();
        match taken {
            Some(p) => match p.operation.map {
                Some(map) => {
                    let id = self.session.next_map_id;
                    self.session.active = Some(
                        StoredSurfaceMap {
                            map_id: id,
                            machine_profile_id: p.machine_profile_id,
                            created_at_unix_ms: now_unix_ms,
                            map,
                        },
                    );
                    self.session.next_map_id = bump(id);
                    self.session.application_enabled = false;
                    self.session.requires_setup_confirmation = true;
                    self.session.coordinate_binding_stale = false;
                    self.session.revision = bump(self.session.revision);
                    Ok(id)
                },
                None => Err(SurfaceSessionError::NoMap),
            },
            None => Err(SurfaceSessionError::NoPendingMap),
        }
    }

    /// Turns compensation on or off. On needs a measured map, the operator's
    /// confirmation that the setup has not moved, and a map measured in the
    /// current work coordinates.
    pub fn set_application_enabled(&mut self, enabled: bool, setup_confirmed: bool) -> (r: Result<(), SurfaceSessionError>)
        ensures
            match enable_refusal(old(self)@, enabled, setup_confirmed) {
                Some(e) => r == Err::<(), _>(e) && final(self)@ == old(self)@,
                None => r is Ok && final(self)@ == (SurfaceSession {
                    application_enabled: enabled,
                    requires_setup_confirmation: false,
                    revision: bumped(old(self)@.revision),
                    ..old(self)@
                })
            },
    {
        if enabled {
            if self.session.active.is_none() {
                return Err(SurfaceSessionError::NoMap);
            }
            if !setup_confirmed {
                return Err(SurfaceSessionError::SetupConfirmationRequired);
            }
            if self.session.coordinate_binding_stale {
                return Err(SurfaceSessionError::CoordinateBindingStale);
            }
        }
        self.session.application_enabled = enabled;
        self.session.requires_setup_confirmation = false;
        self.session.revision = bump(self.session.revision);
        Ok(())
    }

    /// Work coordinates changed: compensation goes off, and a measured map
    /// needs a new confirmation and no longer matches the coordinates.
    pub fn disarm_for_coordinate_change(&mut self)
        ensures
            final(self)@ == disarmed(old(self)@),
    {
        let has_map = self.session.active.is_some();
        self.session.application_enabled = false;
        self.session.requires_setup_confirmation = has_map;
        self.session.coordinate_binding_stale = has_map;
        self.session.revision = bump(self.session.revision);
    }

    /// Drops the draft; the measured map stays.
    pub fn discard_pending(&mut self)
        ensures
            final(self)@ == with_pending(old(self)@, None),
    {
        self.session.pending = None;
        self.session.revision = bump(self.session.revision);
    }

    /// Forgets the measured map and turns compensation off.
    pub fn forget_active(&mut self)
        ensures
            final(self)@ == (SurfaceSession {
                active: None,
                application_enabled: false,
                requires_setup_confirmation: false,
                coordinate_binding_stale: false,
                revision: bumped(old(self)@.revision),
                ..old(self)@
            }),
    {
        self.session.active = None;
        self.session.application_enabled = false;
        self.session.requires_setup_confirmation = false;
        self.session.coordinate_binding_stale = false;
        self.session.revision = bump(self.session.revision);
    }
}

/// Compensation can be turned on exactly when there is a measured map, the
/// operator confirmed the setup, and the map was measured in the current
/// work coordinates.
pub proof fn lemma_compensation_needs_a_confirmed_current_map<M>(s: SurfaceSession<M>, setup_confirmed: bool)
    ensures
        enable_refusal(s, true, setup_confirmed) is None <==> (s.active is Some && setup_confirmed
            && !s.coordinate_binding_stale),
{
}

/// After a change of work coordinates, compensation is off and cannot be
/// turned on again with the map measured before it.
pub proof fn lemma_coordinate_change_disarms_the_map<M>(s: SurfaceSession<M>, setup_confirmed: bool)
    ensures
        !disarmed(s).application_enabled,
        disarmed(s).active == s.active,
        enable_refusal(disarmed(s), true, setup_confirmed) is Some,
{
}

/// After a restart, compensation with a measured map is off and waits for
/// the operator's confirmation; the map itself is kept.
pub proof fn lemma_restart_never_rearms_compensation<M>(session: SurfaceSession<M>)
    requires
        session.active is Some,
    ensures
        !reopened_session(session).application_enabled,
        reopened_session(session).requires_setup_confirmation,
        reopened_session(session).active == session.active,
{
}

/// Starting, checkpointing, resuming, restoring or discarding a draft never
/// touches the measured map or whether compensation is on.
pub proof fn lemma_drafts_never_touch_the_measured_map<M>(s: SurfaceSession<M>, pending: Option<PendingSurfaceMap<M>>)
    ensures
        with_pending(s, pending).active == s.active,
        with_pending(s, pending).application_enabled == s.application_enabled,
{
}

/// A completed draft replaces the measured map under an id no earlier map
/// had, and compensation waits for a confirmation.
pub proof fn lemma_activation_gives_a_new_identity<M>(s: SurfaceSession<M>, p: PendingSurfaceMap<M>, now_unix_ms: u64)
    requires
        ids_ok(s),
        s.next_map_id < u64::MAX,
    ensures
        ids_ok(activated(s, p, now_unix_ms)),
        s.active matches Some(a) ==> activated(s, p, now_unix_ms).active.unwrap().map_id != a.map_id,
        !activated(s, p, now_unix_ms).application_enabled,
        activated(s, p, now_unix_ms).requires_setup_confirmation,
{
}

} // verus!
