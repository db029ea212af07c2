use millo::controller::{
    ConnectionState, ControllerSnapshot, HardwareInspection, HardwareProfile, ReadinessReport,
    SpindleControl,
};
use millo::grbl::{DeviceInspection, MachineMode, MachineState};
use millo::safety::{
    OperatorConfirmation, SafetyError, SafetyManager, RESET_CHALLENGE_TTL_MS,
    TEST_JOG_AUTHORIZATION_TTL_MS,
};
use millo::text_map::TextMap;
use millo::word::Decimal;

fn zero() -> Decimal {
    Decimal { negative: false, int_digits: vec!['0'], frac_digits: Vec::new() }
}

fn idle_snapshot() -> ControllerSnapshot {
    ControllerSnapshot {
        connection: ConnectionState::Connected,
        machine: MachineState {
            mode: MachineMode::Idle,
            reported_mode: "Idle".to_owned(),
            substate: None,
            machine_position: None,
            work_position: None,
            work_coordinate_offset: None,
            feed_rate: zero(),
            spindle_speed: zero(),
            buffer_state: None,
            overrides: None,
            pins: None,
            accessories: None,
            line_number: None,
        },
        alarm: None,
        reset_notice: None,
        poll_sequence: 0,
        reset_count: 0,
        reconnect_count: 0,
    }
}

fn alarm_snapshot() -> ControllerSnapshot {
    let mut snapshot = idle_snapshot();
    snapshot.machine.mode = MachineMode::Alarm;
    snapshot
}

fn ready_inspection() -> HardwareInspection {
    HardwareInspection {
        device: DeviceInspection {
            firmware_version: None,
            firmware_build_info: None,
            firmware_options: None,
            controller_capabilities: None,
            settings: TextMap::new(),
            modal_state: Vec::new(),
            parameters: TextMap::new(),
            responses: Vec::new(),
        },
        readiness: ReadinessReport {
            profile: HardwareProfile {
                name: "test".to_owned(),
                axes: vec!["X".to_owned(), "Y".to_owned(), "Z".to_owned()],
                spindle_control: SpindleControl::Manual,
                homing_installed: false,
                limit_switches_installed: false,
                probe_installed: false,
                emergency_stop_installed: false,
            },
            test_jog_ready: true,
            probe_ready: false,
            blocker_count: 0,
            caution_count: 0,
            checks: Vec::new(),
        },
    }
}

fn confirmation() -> OperatorConfirmation {
    OperatorConfirmation { spindle_off: true, tool_clear: true, power_control_reachable: true }
}

#[test]
fn reset_requires_the_current_unexpired_challenge() {
    let now = 1_000;
    let mut safety = SafetyManager::default();
    let challenge = safety.request_soft_reset(now);

    assert_eq!(
        safety.confirm_soft_reset(challenge.id + 1, now),
        Err(SafetyError::ResetChallengeMismatch)
    );
    assert_eq!(safety.confirm_soft_reset(challenge.id, now), Err(SafetyError::ResetChallengeMissing));

    let expired = safety.request_soft_reset(now);
    assert_eq!(
        safety.confirm_soft_reset(expired.id, now + RESET_CHALLENGE_TTL_MS + 1),
        Err(SafetyError::ResetChallengeExpired)
    );
}

#[test]
fn test_jog_requires_every_operator_confirmation() {
    let mut safety = SafetyManager::default();
    let mut incomplete = confirmation();
    incomplete.spindle_off = false;

    let result = safety.authorize_test_jog(incomplete, &ready_inspection(), &idle_snapshot(), 0);

    assert_eq!(result, Err(SafetyError::IncompleteOperatorConfirmation));
}

#[test]
fn readiness_blockers_prevent_authorization() {
    let mut safety = SafetyManager::default();
    let mut inspection = ready_inspection();
    inspection.readiness.test_jog_ready = false;
    inspection.readiness.blocker_count = 2;

    let result = safety.authorize_test_jog(confirmation(), &inspection, &idle_snapshot(), 0);

    assert_eq!(result, Err(SafetyError::ReadinessBlocked { blockers: 2 }));
}

#[test]
fn authorization_is_short_lived_and_single_use() {
    let now = 5_000;
    let snapshot = idle_snapshot();
    let mut safety = SafetyManager::default();
    let authorization =
        safety.authorize_test_jog(confirmation(), &ready_inspection(), &snapshot, now).unwrap();

    safety.consume_test_jog(authorization.id, &snapshot, now).unwrap();
    assert_eq!(
        safety.consume_test_jog(authorization.id, &snapshot, now),
        Err(SafetyError::TestJogAuthorizationMissing)
    );

    let expired =
        safety.authorize_test_jog(confirmation(), &ready_inspection(), &snapshot, now).unwrap();
    assert_eq!(
        safety.consume_test_jog(expired.id, &snapshot, now + TEST_JOG_AUTHORIZATION_TTL_MS + 1),
        Err(SafetyError::TestJogAuthorizationExpired)
    );
}

#[test]
fn alarm_reset_or_reconnect_invalidates_authorization() {
    let now = 0;
    let snapshot = idle_snapshot();
    let mut safety = SafetyManager::default();
    safety.authorize_test_jog(confirmation(), &ready_inspection(), &snapshot, now).unwrap();

    safety.observe(&alarm_snapshot(), now);
    assert_eq!(
        safety.consume_test_jog(1, &snapshot, now),
        Err(SafetyError::TestJogAuthorizationMissing)
    );

    let authorization =
        safety.authorize_test_jog(confirmation(), &ready_inspection(), &snapshot, now).unwrap();
    let mut reconnected = idle_snapshot();
    reconnected.reconnect_count = 1;
    assert_eq!(
        safety.consume_test_jog(authorization.id, &reconnected, now),
        Err(SafetyError::ControllerSessionChanged)
    );
}

#[test]
fn authorization_refuses_a_controller_that_is_not_idle() {
    let mut safety = SafetyManager::default();
    let result = safety.authorize_test_jog(confirmation(), &ready_inspection(), &alarm_snapshot(), 0);
    assert_eq!(result, Err(SafetyError::UnsafeControllerState));
}

#[test]
fn identifiers_increase_across_challenges_and_authorizations() {
    let mut safety = SafetyManager::default();
    let first = safety.request_soft_reset(0);
    let second =
        safety.authorize_test_jog(confirmation(), &ready_inspection(), &idle_snapshot(), 0).unwrap();
    let third = safety.request_soft_reset(0);
    assert!(first.id < second.id && second.id < third.id);
    assert_eq!(first.expires_in_ms, RESET_CHALLENGE_TTL_MS);
    assert_eq!(second.expires_in_ms, TEST_JOG_AUTHORIZATION_TTL_MS);
}

#[test]
fn a_confirmed_reset_clears_the_challenge() {
    let mut safety = SafetyManager::default();
    let challenge = safety.request_soft_reset(100);
    assert_eq!(safety.confirm_soft_reset(challenge.id, 100 + RESET_CHALLENGE_TTL_MS), Ok(()));
    assert_eq!(
        safety.confirm_soft_reset(challenge.id, 100),
        Err(SafetyError::ResetChallengeMissing)
    );
}

#[test]
fn a_withdrawn_authorization_cannot_be_used() {
    let mut safety = SafetyManager::default();
    let snapshot = idle_snapshot();
    let authorization =
        safety.authorize_test_jog(confirmation(), &ready_inspection(), &snapshot, 0).unwrap();
    safety.invalidate_test_jog();
    assert_eq!(
        safety.consume_test_jog(authorization.id, &snapshot, 0),
        Err(SafetyError::TestJogAuthorizationMissing)
    );
}
