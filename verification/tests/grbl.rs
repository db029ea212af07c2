use millo::grbl::{
    active_work_coordinate_system, build_device_inspection, encode_set_work_zero,
    parse_incoming_line, parse_status_line, work_coordinate_parameter, CommandCompletion,
    CommandResponse, IncomingLine, MachineMode, StatusParseError, WorkAxis, WorkCoordinateSystem,
};
use millo::word::Decimal;

#[test]
fn non_finite_or_unsupported_position_vectors_are_rejected() {
    for vector in [
        "0,0,0,NaN",
        "0,0,0,inf",
        "NaN,0,0,90",
        "0,0,0,0,0",
        "0,0",
        "0,0,0,",
    ] {
        for field in ["MPos", "WPos", "WCO"] {
            assert!(
                parse_status_line(&format!("<Idle|{field}:{vector}>")).is_err(),
                "{field}:{vector}"
            );
        }
    }
}

#[test]
fn grblhal_startup_banner_marks_a_reset_boundary() {
    match parse_incoming_line("GrblHAL 1.1f ['$' or '$HELP' for help]").unwrap() {
        IncomingLine::ResetBanner { version, .. } => assert_eq!(version.as_deref(), Some("1.1f")),
        other => panic!("unexpected {other:?}"),
    }
}

#[test]
fn preserves_unknown_machine_modes() {
    let state = parse_status_line("<Calibrate|MPos:0,0,0>").unwrap();

    assert_eq!(state.mode, MachineMode::Unknown);
    assert_eq!(state.reported_mode, "Calibrate");
}

#[test]
fn rejects_malformed_typed_telemetry() {
    assert_eq!(
        parse_status_line("<Idle|MPos:0,0,0|Bf:15>").unwrap_err(),
        StatusParseError::InvalidValueCount {
            field: "Bf".to_owned(),
            expected: 2,
        }
    );
    assert!(matches!(
        parse_status_line("<Idle|MPos:0,0,0|Ln:-1>"),
        Err(StatusParseError::InvalidNumber { field, .. }) if field == "Ln"
    ));
}

fn decimal_text(d: &Decimal) -> String {
    d.canonical_text().into_iter().collect()
}

fn response(command: &str, lines: &[&str]) -> CommandResponse {
    CommandResponse {
        command: command.to_owned(),
        completion: CommandCompletion::Acknowledged,
        lines: lines.iter().map(|line| (*line).to_owned()).collect(),
        code: None,
    }
}

#[test]
fn parses_hold_substate_and_a_axis() {
    let state = parse_status_line("<Hold:1|MPos:1,2,3,4|FS:120,9000>").unwrap();

    assert_eq!(state.mode, MachineMode::Hold);
    assert_eq!(state.substate, Some(1));
    let a = state.machine_position.unwrap().a.unwrap();
    assert_eq!(decimal_text(&a), "4");
    assert_eq!(decimal_text(&state.feed_rate), "120");
    assert_eq!(decimal_text(&state.spindle_speed), "9000");
}

#[test]
fn parses_buffers_overrides_pins_accessories_and_line_number() {
    let state =
        parse_status_line("<Run|MPos:1,2,3|Bf:15,127|Ov:95,50,110|Pn:XYZPDHRS|A:SCFM|Ln:73>")
            .unwrap();

    assert_eq!(state.buffer_state.unwrap().planner_available, 15);
    assert_eq!(state.buffer_state.unwrap().rx_available, 127);
    assert_eq!(state.overrides.unwrap().feed_percent, 95);
    assert_eq!(state.overrides.unwrap().rapid_percent, 50);
    assert_eq!(state.overrides.unwrap().spindle_percent, 110);
    let pins = state.pins.unwrap();
    assert!(pins.x_limit && pins.y_limit && pins.z_limit && pins.probe);
    assert!(pins.door && pins.hold && pins.soft_reset && pins.cycle_start);
    let accessories = state.accessories.unwrap();
    assert!(accessories.spindle_clockwise && accessories.spindle_counterclockwise);
    assert!(accessories.flood_coolant && accessories.mist_coolant);
    assert_eq!(state.line_number, Some(73));
}

#[test]
fn classifies_reset_banner() {
    let line = parse_incoming_line("Grbl 1.1h ['$' for help]").unwrap();

    match line {
        IncomingLine::ResetBanner { raw, version } => {
            assert_eq!(raw, "Grbl 1.1h ['$' for help]");
            assert_eq!(version, Some("1.1h".to_owned()));
        }
        other => panic!("unexpected {other:?}"),
    }
}

#[test]
fn classifies_alarm_with_code() {
    let line = parse_incoming_line("ALARM:3").unwrap();

    match line {
        IncomingLine::Alarm { code, raw } => {
            assert_eq!(code, Some(3));
            assert_eq!(raw, "ALARM:3");
        }
        other => panic!("unexpected {other:?}"),
    }
}

#[test]
fn builds_device_inspection_from_grbl_queries() {
    let responses = vec![
        response("$I", &["[VER:1.1h.20240101:Millo Mock]", "[OPT:V,15,128]"]),
        response("$$", &["$0=10", "$30=12000", "not-a-setting"]),
        response("$G", &["[GC:G0 G54 G17 G21 G90 G94 M5 M9 T0 F0 S0]"]),
        response("$#", &["[G54:1.000,2.000,3.000]", "[TLO:0.000]"]),
    ];

    let inspection = build_device_inspection(responses);

    assert_eq!(
        inspection.firmware_version.as_deref(),
        Some("1.1h.20240101")
    );
    assert_eq!(
        inspection.firmware_build_info.as_deref(),
        Some("Millo Mock")
    );
    assert_eq!(inspection.firmware_options.as_deref(), Some("V,15,128"));
    assert_eq!(
        inspection
            .controller_capabilities
            .as_ref()
            .and_then(|capabilities| capabilities.rx_buffer_bytes),
        Some(128)
    );
    assert_eq!(inspection.settings.get("$30").as_deref(), Some("12000"));
    assert_eq!(inspection.modal_state[1], "G54");
    assert_eq!(
        inspection.parameters.get("G54").as_deref(),
        Some("1.000,2.000,3.000")
    );
    assert_eq!(inspection.responses.len(), 4);
}

#[test]
fn encodes_work_zero_only_for_typed_axis_and_coordinate_system() {
    assert_eq!(
        encode_set_work_zero(WorkAxis::X, WorkCoordinateSystem::G54),
        "G10 L20 P1 X0"
    );
    assert_eq!(
        encode_set_work_zero(WorkAxis::Y, WorkCoordinateSystem::G56),
        "G10 L20 P3 Y0"
    );
    assert_eq!(
        encode_set_work_zero(WorkAxis::Z, WorkCoordinateSystem::G59),
        "G10 L20 P6 Z0"
    );
}

#[test]
fn finds_only_supported_active_work_coordinate_systems() {
    assert_eq!(
        active_work_coordinate_system(&["G0".to_owned(), "G55".to_owned()]),
        Some(WorkCoordinateSystem::G55)
    );
    assert_eq!(
        active_work_coordinate_system(&["G0".to_owned(), "G53".to_owned()]),
        None
    );
}

#[test]
fn work_coordinate_parameters_name_the_offset_register() {
    assert_eq!(work_coordinate_parameter(WorkCoordinateSystem::G54), "G54");
    assert_eq!(work_coordinate_parameter(WorkCoordinateSystem::G59), "G59");
}

#[test]
fn status_frames_without_angle_brackets_or_state_are_refused() {
    assert_eq!(
        parse_status_line("Idle|MPos:0,0,0").unwrap_err(),
        StatusParseError::InvalidFrame
    );
    assert_eq!(
        parse_status_line("<|MPos:0,0,0>").unwrap_err(),
        StatusParseError::MissingState
    );
}
