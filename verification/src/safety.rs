//! Short-lived, single-use permissions for the two operations that need an
//! explicit operator step: a controller soft reset and a test jog.
//!
//! Time is a monotonic millisecond clock supplied by the caller.
use vstd::prelude::*;

use crate::controller::{ControllerSnapshot, HardwareInspection, stable_idle};

verus! {

/// How long a soft-reset challenge stays valid.
pub const RESET_CHALLENGE_TTL_MS: u64 = 10000;

/// How long a test-jog authorization stays valid.
pub const TEST_JOG_AUTHORIZATION_TTL_MS: u64 = 15000;

#[derive(Clone, Copy, Debug, PartialEq, Eq, Structural)]
pub enum SafetyError {
    IncompleteOperatorConfirmation,
    ReadinessBlocked { blockers: usize },
    UnsafeControllerState,
    ResetChallengeMissing,
    ResetChallengeMismatch,
    ResetChallengeExpired,
    TestJogAuthorizationMissing,
    TestJogAuthorizationMismatch,
    TestJogAuthorizationExpired,
    ControllerSessionChanged,
}

/// The three things an operator confirms before a test jog.
#[derive(Clone, Copy, Debug, PartialEq, Eq, Structural)]
pub struct OperatorConfirmation {
    pub spindle_off: bool,
    pub tool_clear: bool,
    pub power_control_reachable: bool,
}

impl OperatorConfirmation {
    pub open spec fn complete(&self) -> bool {
        self.spindle_off && self.tool_clear && self.power_control_reachable
    }

    pub fn is_complete(&self) -> (r: bool)
        ensures
            r == self.complete(),
    {
        self.spindle_off && self.tool_clear && self.power_control_reachable
    }
}

/// A challenge that must be echoed to confirm a soft reset.
#[derive(Clone, Copy, Debug, PartialEq, Eq, Structural)]
pub struct ResetChallenge {
    pub id: u64,
    pub expires_in_ms: u64,
}

/// Permission for one test jog.
#[derive(Clone, Copy, Debug, PartialEq, Eq, Structural)]
pub struct TestJogAuthorization {
    pub id: u64,
    pub expires_in_ms: u64,
}

/// The pending soft-reset challenge.
#[derive(Clone, Copy, Debug, PartialEq, Eq, Structural)]
pub struct ResetLease {
    pub id: u64,
    pub expires_at_ms: u64,
}

/// The pending test-jog authorization and the controller session it belongs to.
#[derive(Clone, Copy, Debug, PartialEq, Eq, Structural)]
pub struct TestJogLease {
    pub authorization: TestJogAuthorization,
    pub expires_at_ms: u64,
    pub reset_count: u64,
    pub reconnect_count: u32,
}

/// Issues and checks the reset challenge and the test-jog lease.
#[derive(Debug)]
pub struct SafetyManager {
    next_id: u64,
    reset: Option<ResetLease>,
    test_jog: Option<TestJogLease>,
}

/// The state of a [`SafetyManager`]: the last identifier issued and the two leases.
pub struct SafetyV {
    pub next_id: u64,
    pub reset: Option<ResetLease>,
    pub test_jog: Option<TestJogLease>,
}

impl View for SafetyManager {
    type V = SafetyV;

    closed spec fn view(&self) -> SafetyV {
        SafetyV { next_id: self.next_id, reset: self.reset, test_jog: self.test_jog }
    }
}

/// The identifier issued after `n`: one more, or `n` again once the counter is full.
pub open spec fn next_id_after(n: u64) -> u64 {
    if n < u64::MAX {
        (n + 1) as u64
    } else {
        n
    }
}

/// `now + ttl`, saturating at the end of the clock.
pub open spec fn deadline(now: u64, ttl: u64) -> u64 {
    if now + ttl <= u64::MAX {
        (now + ttl) as u64
    } else {
        u64::MAX
    }
}

/// Whether the test-jog lease may be used now against this snapshot.
pub open spec fn jog_validity(
    lease: Option<TestJogLease>,
    snapshot: &ControllerSnapshot,
    now_ms: u64,
) -> Result<(), SafetyError> {
    match lease {
        None => Err(SafetyError::TestJogAuthorizationMissing),
        Some(l) => if now_ms > l.expires_at_ms {
            Err(SafetyError::TestJogAuthorizationExpired)
        } else if l.reset_count != snapshot.reset_count || l.reconnect_count
            != snapshot.reconnect_count {
            Err(SafetyError::ControllerSessionChanged)
        } else if !stable_idle(snapshot) {
            Err(SafetyError::UnsafeControllerState)
        } else {
            Ok(())
        },
    }
}

/// The answer to a soft-reset confirmation, given the pending challenge.
pub open spec fn reset_confirmation(
    challenge: Option<ResetLease>,
    id: u64,
    now_ms: u64,
) -> Result<(), SafetyError> {
    match challenge {
        None => Err(SafetyError::ResetChallengeMissing),
        Some(c) => if c.id != id {
            Err(SafetyError::ResetChallengeMismatch)
        } else if now_ms > c.expires_at_ms {
            Err(SafetyError::ResetChallengeExpired)
        } else {
            Ok(())
        },
    }
}

/// The answer to a test-jog consumption, given the pending lease.
pub open spec fn jog_consumption(
    lease: Option<TestJogLease>,
    id: u64,
    snapshot: &ControllerSnapshot,
    now_ms: u64,
) -> Result<(), SafetyError> {
    match jog_validity(lease, snapshot, now_ms) {
        Err(e) => Err(e),
        Ok(()) => if lease.unwrap().authorization.id != id {
            Err(SafetyError::TestJogAuthorizationMismatch)
        } else {
            Ok(())
        },
    }
}

/// Why an authorization request is refused, if it is.
pub open spec fn authorization_refusal(
    confirmation: OperatorConfirmation,
    inspection: &HardwareInspection,
    snapshot: &ControllerSnapshot,
) -> Option<SafetyError> {
    if !confirmation.complete() {
        Some(SafetyError::IncompleteOperatorConfirmation)
    } else if !inspection.readiness.test_jog_ready {
        Some(SafetyError::ReadinessBlocked { blockers: inspection.readiness.blocker_count })
    } else if !stable_idle(snapshot) {
        Some(SafetyError::UnsafeControllerState)
    } else {
        None
    }
}

impl Default for SafetyManager {
    fn default() -> (r: Self)
        ensures
            r@.next_id == 0,
            r@.reset is None,
            r@.test_jog is None,
    {
        SafetyManager { next_id: 0, reset: None, test_jog: None }
    }
}

impl SafetyManager {
    fn allocate_id(&mut self) -> (id: u64)
        ensures
            id == next_id_after(old(self)@.next_id),
            final(self)@.next_id == id,
            final(self)@.reset == old(self)@.reset,
            final(self)@.test_jog == old(self)@.test_jog,
    {
        self.next_id = self.next_id.saturating_add(1);
        self.next_id
    }

    /// Issues a new soft-reset challenge, replacing any pending one.
    pub fn request_soft_reset(&mut self, now_ms: u64) -> (c: ResetChallenge)
        ensures
            c.id == next_id_after(old(self)@.next_id),
            c.expires_in_ms == RESET_CHALLENGE_TTL_MS,
            final(self)@.next_id == c.id,
            final(self)@.reset == Some(
                ResetLease { id: c.id, expires_at_ms: deadline(now_ms, RESET_CHALLENGE_TTL_MS) },
            ),
            final(self)@.test_jog == old(self)@.test_jog,
    {
        let id = self.allocate_id();
        self.reset = Some(
            ResetLease { id, expires_at_ms: now_ms.saturating_add(RESET_CHALLENGE_TTL_MS) },
        );
        ResetChallenge { id, expires_in_ms: RESET_CHALLENGE_TTL_MS }
    }

    /// Checks an echoed challenge. The pending challenge is used up whatever the
    /// answer; a successful confirmation also withdraws any test-jog lease.
    pub fn confirm_soft_reset(&mut self, id: u64, now_ms: u64) -> (r: Result<(), SafetyError>)
        ensures
            r == reset_confirmation(old(self)@.reset, id, now_ms),
            final(self)@.reset is None,
            final(self)@.next_id == old(self)@.next_id,
            final(self)@.test_jog == (if r is Ok {
                None
            } else {
                old(self)@.test_jog
            }),
    {
        let challenge = match self.reset.take() {
            Some(c) => c,
            None => {
                return Err(SafetyError::ResetChallengeMissing);
            },
        };
        if challenge.id != id {
            return Err(SafetyError::ResetChallengeMismatch);
        }
        if now_ms > challenge.expires_at_ms {
            return Err(SafetyError::ResetChallengeExpired);
        }
        self.test_jog = None;
        Ok(())
    }

    /// Grants one test jog when the operator has confirmed everything, the
    /// hardware is ready and the controller is connected and idle.
    pub fn authorize_test_jog(
        &mut self,
        confirmation: OperatorConfirmation,
        inspection: &HardwareInspection,
        snapshot: &ControllerSnapshot,
        now_ms: u64,
    ) -> (r: Result<TestJogAuthorization, SafetyError>)
        ensures
            match authorization_refusal(confirmation, inspection, snapshot) {
                Some(e) => r == Err::<TestJogAuthorization, SafetyError>(e) && final(self)@
                    == old(self)@,
                None => {
                    &&& r matches Ok(a)
                    &&& a.id == next_id_after(old(self)@.next_id)
                    &&& a.expires_in_ms == TEST_JOG_AUTHORIZATION_TTL_MS
                    &&& final(self)@.next_id == a.id
                    &&& final(self)@.reset == old(self)@.reset
                    &&& final(self)@.test_jog == Some(
                        TestJogLease {
                            authorization: a,
                            expires_at_ms: deadline(now_ms, TEST_JOG_AUTHORIZATION_TTL_MS),
                            reset_count: snapshot.reset_count,
                            reconnect_count: snapshot.reconnect_count,
                        },
                    )
                },
            },
    {
        if !confirmation.is_complete() {
            return Err(SafetyError::IncompleteOperatorConfirmation);
        }
        if !inspection.readiness.test_jog_ready {
            return Err(
                SafetyError::ReadinessBlocked { blockers: inspection.readiness.blocker_count },
            );
        }
        if !snapshot.is_stable_idle() {
            return Err(SafetyError::UnsafeControllerState);
        }
        let authorization = TestJogAuthorization {
            id: self.allocate_id(),
            expires_in_ms: TEST_JOG_AUTHORIZATION_TTL_MS,
        };
        self.test_jog = Some(
            TestJogLease {
                authorization,
                expires_at_ms: now_ms.saturating_add(TEST_JOG_AUTHORIZATION_TTL_MS),
                reset_count: snapshot.reset_count,
                reconnect_count: snapshot.reconnect_count,
            },
        );
        Ok(authorization)
    }

    fn test_jog_is_valid(&self, snapshot: &ControllerSnapshot, now_ms: u64) -> (r: Result<
        (),
        SafetyError,
    >)
        ensures
            r == jog_validity(self@.test_jog, snapshot, now_ms),
    {
        let lease = match &self.test_jog {
            Some(l) => l,
            None => {
                return Err(SafetyError::TestJogAuthorizationMissing);
            },
        };
        if now_ms > lease.expires_at_ms {
            return Err(SafetyError::TestJogAuthorizationExpired);
        }
        if lease.reset_count != snapshot.reset_count || lease.reconnect_count
            != snapshot.reconnect_count {
            return Err(SafetyError::ControllerSessionChanged);
        }
        if !snapshot.is_stable_idle() {
            return Err(SafetyError::UnsafeControllerState);
        }
        Ok(())
    }

    /// Drops a test-jog lease that is no longer valid and a reset challenge that has expired.
    pub fn observe(&mut self, snapshot: &ControllerSnapshot, now_ms: u64)
        ensures
            final(self)@.next_id == old(self)@.next_id,
            final(self)@.test_jog == (if jog_validity(old(self)@.test_jog, snapshot, now_ms) is Ok {
                old(self)@.test_jog
            } else {
                None
            }),
            final(self)@.reset == (match old(self)@.reset {
                Some(c) => if now_ms > c.expires_at_ms {
                    None
                } else {
                    Some(c)
                },
                None => None,
            }),
    {
        if self.test_jog_is_valid(snapshot, now_ms).is_err() {
            self.test_jog = None;
        }
        let expired = match &self.reset {
            Some(c) => now_ms > c.expires_at_ms,
            None => false,
        };
        if expired {
            self.reset = None;
        }
    }

    /// Uses up the test-jog lease: whatever the answer, no lease is left.
    pub fn consume_test_jog(
        &mut self,
        id: u64,
        snapshot: &ControllerSnapshot,
        now_ms: u64,
    ) -> (r: Result<(), SafetyError>)
        ensures
            r == jog_consumption(old(self)@.test_jog, id, snapshot, now_ms),
            final(self)@.test_jog is None,
            final(self)@.next_id == old(self)@.next_id,
            final(self)@.reset == old(self)@.reset,
    {
        let validation = self.test_jog_is_valid(snapshot, now_ms);
        let lease = match self.test_jog.take() {
            Some(l) => l,
            None => {
                return match validation {
                    Err(e) => Err(e),
                    Ok(()) => Err(SafetyError::TestJogAuthorizationMissing),
                };
            },
        };
        match validation {
            Err(e) => {
                return Err(e);
            },
            Ok(()) => {},
        }
        if lease.authorization.id != id {
            return Err(SafetyError::TestJogAuthorizationMismatch);
        }
        Ok(())
    }

    /// Withdraws any test-jog lease.
    pub fn invalidate_test_jog(&mut self)
        ensures
            final(self)@.test_jog is None,
            final(self)@.next_id == old(self)@.next_id,
            final(self)@.reset == old(self)@.reset,
    {
        self.test_jog = None;
    }
}


/// A test-jog lease authorizes one jog: once consumed (whatever the answer),
/// the next consumption is refused as missing.
pub proof fn lemma_test_jog_single_use(id: u64, snapshot: &ControllerSnapshot, now_ms: u64)
    ensures
        jog_consumption(None, id, snapshot, now_ms) == Err::<(), SafetyError>(
            SafetyError::TestJogAuthorizationMissing,
        ),
{
}

/// A reset challenge is confirmed at most once: after any confirmation attempt,
/// the next attempt is refused as missing.
pub proof fn lemma_reset_challenge_single_use(id: u64, now_ms: u64)
    ensures
        reset_confirmation(None, id, now_ms) == Err::<(), SafetyError>(
            SafetyError::ResetChallengeMissing,
        ),
{
}

/// Each newly issued identifier is larger than every identifier issued before,
/// until the counter is full.
pub proof fn lemma_identifiers_increase(previous: u64)
    requires
        previous < u64::MAX,
    ensures
        next_id_after(previous) > previous,
{
}

/// A test jog is only authorized with a complete operator confirmation, a ready
/// hardware report and a connected, idle controller without alarm.
pub proof fn lemma_authorization_requires_safe_state(
    confirmation: OperatorConfirmation,
    inspection: &HardwareInspection,
    snapshot: &ControllerSnapshot,
)
    requires
        authorization_refusal(confirmation, inspection, snapshot) is None,
    ensures
        confirmation.complete(),
        inspection.readiness.test_jog_ready,
        stable_idle(snapshot),
{
}

/// A lease is only accepted before it expires, in the controller session it was
/// issued for, while the controller is connected and idle.
pub proof fn lemma_lease_bound_to_session(
    lease: TestJogLease,
    id: u64,
    snapshot: &ControllerSnapshot,
    now_ms: u64,
)
    requires
        jog_consumption(Some(lease), id, snapshot, now_ms) is Ok,
    ensures
        lease.authorization.id == id,
        now_ms <= lease.expires_at_ms,
        lease.reset_count == snapshot.reset_count,
        lease.reconnect_count == snapshot.reconnect_count,
        stable_idle(snapshot),
{
}

/// A challenge issued at `issued_ms` is not accepted after its time to live.
pub proof fn lemma_reset_challenge_expires(id: u64, issued_ms: u64, now_ms: u64)
    requires
        issued_ms + RESET_CHALLENGE_TTL_MS <= u64::MAX,
        now_ms > issued_ms + RESET_CHALLENGE_TTL_MS,
    ensures
        reset_confirmation(
            Some(ResetLease { id, expires_at_ms: deadline(issued_ms, RESET_CHALLENGE_TTL_MS) }),
            id,
            now_ms,
        ) == Err::<(), SafetyError>(SafetyError::ResetChallengeExpired),
{
}

} // verus!
