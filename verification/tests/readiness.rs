use millo::controller::{
    ConnectionState, ControllerSnapshot, HardwareProfile, ReadinessLevel, ReadinessReport,
    SpindleControl,
};
use millo::grbl::{
    CommandCompletion, CommandResponse, DeviceInspection, MachineMode, MachineState,
};
use millo::readiness::assess;
use millo::text_map::TextMap;
use millo::word::Decimal;

fn zero() -> Decimal {
    Decimal { negative: false, int_digits: vec!['0'], frac_digits: Vec::new() }
}

fn ready_snapshot() -> ControllerSnapshot {
    ControllerSnapshot {
        connection: ConnectionState::Connected,
        machine: MachineState {
            mode: MachineMode::Idle,
            reported_mode: "Idle".to_owned(),
            substate: None,
            machine_position: None,
            work_position: None,
            work_coordinate_offset: None,
            feed_rate: zero(),
            spindle_speed: zero(),
            buffer_state: None,
            overrides: None,
            pins: None,
            accessories: None,
            line_number: None,
        },
        alarm: None,
        reset_notice: None,
        poll_sequence: 0,
        reset_count: 0,
        reconnect_count: 0,
    }
}

fn first_machine() -> HardwareProfile {
    HardwareProfile {
        name: "First machine".to_owned(),
        axes: vec!["X".to_owned(), "Y".to_owned(), "Z".to_owned()],
        spindle_control: SpindleControl::Manual,
        homing_installed: false,
        limit_switches_installed: false,
        probe_installed: false,
        emergency_stop_installed: false,
    }
}

fn ok(command: &str) -> CommandResponse {
    CommandResponse {
        command: command.to_owned(),
        completion: CommandCompletion::Acknowledged,
        lines: Vec::new(),
        code: None,
    }
}

fn representative_inspection() -> DeviceInspection {
    let mut settings = TextMap::new();
    for (key, value) in [
        ("$6", "0"),
        ("$20", "0"),
        ("$21", "0"),
        ("$22", "0"),
        ("$32", "0"),
        ("$100", "800.000"),
        ("$101", "800.000"),
        ("$102", "800.000"),
        ("$110", "1000.000"),
        ("$111", "1000.000"),
        ("$112", "600.000"),
        ("$120", "30.000"),
        ("$121", "30.000"),
        ("$122", "30.000"),
        ("$130", "300.000"),
        ("$131", "180.000"),
        ("$132", "45.000"),
    ] {
        settings.insert(key.to_owned(), value.to_owned());
    }
    let mut parameters = TextMap::new();
    parameters.insert("PRB".to_owned(), "0.000,0.000,0.000:0".to_owned());
    DeviceInspection {
        firmware_version: Some("1.1h.20190825".to_owned()),
        firmware_build_info: None,
        firmware_options: None,
        controller_capabilities: None,
        settings,
        modal_state: ["G0", "G54", "G17", "G21", "G91", "G94", "M5", "M9", "T0", "F0", "S0"]
            .iter()
            .map(|code| (*code).to_owned())
            .collect(),
        parameters,
        responses: vec![ok("$I"), ok("$$"), ok("$G"), ok("$#")],
    }
}

fn level_of(report: &ReadinessReport, id: &str) -> ReadinessLevel {
    report.checks.iter().find(|check| check.id == id).unwrap().level
}

#[test]
fn known_unhomed_router_is_ready_only_for_a_guarded_test_jog() {
    let report = assess(&first_machine(), &representative_inspection(), &ready_snapshot());

    assert!(report.test_jog_ready);
    assert!(!report.probe_ready);
    assert_eq!(report.blocker_count, 0);
    assert!(report.caution_count >= 4);
    assert!(report
        .checks
        .iter()
        .any(|check| { check.id == "modal-units" && check.level == ReadinessLevel::Caution }));
}

#[test]
fn enabled_homing_or_limits_conflict_with_the_recorded_hardware() {
    let mut inspection = representative_inspection();
    inspection.settings.insert("$21".to_owned(), "1".to_owned());

    let report = assess(&first_machine(), &inspection, &ready_snapshot());

    assert!(!report.test_jog_ready);
    assert!(report.checks.iter().any(|check| {
        check.id == "unhomed-operation" && check.level == ReadinessLevel::Blocker
    }));
}

#[test]
fn missing_axis_tuning_blocks_motion() {
    let mut inspection = representative_inspection();
    inspection.settings.remove("$122");

    let report = assess(&first_machine(), &inspection, &ready_snapshot());

    assert!(!report.test_jog_ready);
    assert!(report.checks.iter().any(|check| {
        check.id == "axis-acceleration" && check.level == ReadinessLevel::Blocker
    }));
}

#[test]
fn alarm_state_blocks_motion_even_when_static_settings_are_valid() {
    let mut snapshot = ready_snapshot();
    snapshot.machine.mode = MachineMode::Alarm;
    snapshot.machine.reported_mode = "Alarm".to_owned();

    let report = assess(&first_machine(), &representative_inspection(), &snapshot);

    assert!(!report.test_jog_ready);
    assert!(report.checks.iter().any(|check| {
        check.id == "controller-state" && check.level == ReadinessLevel::Blocker
    }));
}

#[test]
fn laser_mode_blocks_the_milling_profile() {
    let mut inspection = representative_inspection();
    inspection.settings.insert("$32".to_owned(), "1".to_owned());

    let report = assess(&first_machine(), &inspection, &ready_snapshot());

    assert!(!report.test_jog_ready);
    assert!(report
        .checks
        .iter()
        .any(|check| { check.id == "milling-mode" && check.level == ReadinessLevel::Blocker }));
}

#[test]
fn evidence_prints_settings_as_numbers_and_lists_the_checks_in_order() {
    let report = assess(&first_machine(), &representative_inspection(), &ready_snapshot());
    let ids: Vec<&str> = report.checks.iter().map(|check| check.id.as_str()).collect();
    assert_eq!(
        ids,
        vec![
            "controller-state",
            "inspection-queries",
            "firmware",
            "axis-steps",
            "axis-rates",
            "axis-acceleration",
            "axis-travel",
            "unhomed-operation",
            "milling-mode",
            "modal-units",
            "spindle",
            "probe-input",
            "emergency-stop",
        ]
    );
    assert_eq!(
        report.checks[3].evidence.as_deref(),
        Some("X=800 · Y=800 · Z=800 steps/mm")
    );
    assert_eq!(report.checks[1].evidence.as_deref(), Some("$I $$ $G $#"));
    assert_eq!(
        report.checks[0].evidence.as_deref(),
        Some("connection=Connected, mode=Idle")
    );
    assert_eq!(
        report.checks[7].evidence.as_deref(),
        Some("$20=0 · $21=0 · $22=0")
    );
    assert_eq!(
        report.checks[11].evidence.as_deref(),
        Some("installed=false · $6=0 · PRB=0.000,0.000,0.000:0")
    );
    assert_eq!(report.checks[12].evidence, None);
    assert_eq!(report.caution_count, 5);
    assert_eq!(report.profile.name, "First machine");
}

#[test]
fn failed_queries_and_missing_settings_are_named_in_the_evidence() {
    let mut inspection = representative_inspection();
    inspection.responses.remove(2);
    inspection.settings.insert("$111".to_owned(), "-5".to_owned());
    let report = assess(&first_machine(), &inspection, &ready_snapshot());
    assert_eq!(level_of(&report, "inspection-queries"), ReadinessLevel::Blocker);
    assert_eq!(report.checks[1].evidence.as_deref(), Some("failed: $G"));
    assert_eq!(
        report.checks[4].evidence.as_deref(),
        Some("X=1000 · Y=missing · Z=600 mm/min")
    );
    assert_eq!(report.blocker_count, 2);
}

#[test]
fn an_installed_probe_without_a_probe_record_blocks() {
    let mut profile = first_machine();
    profile.probe_installed = true;
    let mut inspection = representative_inspection();
    inspection.parameters.remove("PRB");
    let report = assess(&profile, &inspection, &ready_snapshot());
    assert_eq!(level_of(&report, "probe-input"), ReadinessLevel::Blocker);
    assert!(!report.test_jog_ready);
}

#[test]
fn absolute_millimetres_with_controller_spindle_and_estop_pass() {
    let mut profile = first_machine();
    profile.spindle_control = SpindleControl::Controller;
    profile.emergency_stop_installed = true;
    let mut inspection = representative_inspection();
    inspection.modal_state[4] = "G90".to_owned();
    let report = assess(&profile, &inspection, &ready_snapshot());
    assert_eq!(level_of(&report, "modal-units"), ReadinessLevel::Pass);
    assert_eq!(level_of(&report, "spindle"), ReadinessLevel::Pass);
    assert_eq!(level_of(&report, "emergency-stop"), ReadinessLevel::Pass);
    assert_eq!(report.caution_count, 2);
}
