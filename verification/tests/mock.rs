use millo::mock::{MockTransport, ReadOutcome, TransportError, WriteEffect, DEFAULT_STATUS};

fn line(transport: &mut MockTransport) -> String {
    match transport.read_line().unwrap() {
        ReadOutcome::Line(line) => line,
        ReadOutcome::Stall => panic!("the mock stalled"),
    }
}

#[test]
fn responds_to_realtime_status_query() {
    let mut transport = MockTransport::default();
    transport.connect();
    transport.write(b"?", false).unwrap();

    let response = line(&mut transport);

    assert_eq!(response, DEFAULT_STATUS);
    assert_eq!(transport.control().writes(), vec![b"?".to_vec()]);
}

#[test]
fn can_script_an_unresponsive_controller() {
    let mut transport = MockTransport::default();
    transport.control().queue_stall();
    transport.connect();
    transport.write(b"?", false).unwrap();

    assert!(matches!(transport.read_line(), Ok(ReadOutcome::Stall)));
}

#[test]
fn reset_cycle_keeps_banner_and_status_in_order() {
    let mut transport = MockTransport::default();
    transport.control().queue_reset("1.1h");
    transport.connect();
    transport.write(b"?", false).unwrap();

    assert_eq!(line(&mut transport), "Grbl 1.1h ['$' for help]");
    assert_eq!(line(&mut transport), DEFAULT_STATUS);
}

#[test]
fn alarm_persists_until_control_clears_it() {
    let mut transport = MockTransport::default();
    transport.control().queue_alarm(3);
    transport.connect();
    transport.write(b"?", false).unwrap();
    assert_eq!(line(&mut transport), "ALARM:3");
    assert!(line(&mut transport).starts_with("<Alarm|"));

    transport.write(b"?", false).unwrap();
    assert!(line(&mut transport).starts_with("<Alarm|"));

    transport.control().clear_alarm();
    transport.write(b"?", false).unwrap();
    assert_eq!(line(&mut transport), DEFAULT_STATUS);
}

#[test]
fn answers_device_inspector_queries_in_command_order() {
    let mut transport = MockTransport::default();
    transport.connect();
    transport.write(b"$I\n", false).unwrap();

    assert!(line(&mut transport).starts_with("[VER:"));
    assert!(line(&mut transport).starts_with("[OPT:"));
    assert_eq!(line(&mut transport), "ok");
}

#[test]
fn feed_hold_changes_a_running_mock_before_the_next_status() {
    let mut transport = MockTransport::with_status(
        "<Run|MPos:1.000,2.000,3.000|WPos:1.000,2.000,3.000|FS:120,0>".to_owned(),
    );
    transport.connect();

    transport.write(b"!", false).unwrap();
    transport.write(b"?", false).unwrap();

    assert!(line(&mut transport).starts_with("<Hold:0|"));
}

#[test]
fn soft_reset_emits_a_banner_and_returns_to_idle() {
    let mut transport = MockTransport::with_status(
        "<Alarm|MPos:1.000,2.000,3.000|WPos:1.000,2.000,3.000|FS:0,0>".to_owned(),
    );
    transport.connect();

    transport.write(b"\x18", false).unwrap();
    assert_eq!(line(&mut transport), "Grbl 1.1h ['$' for help]");
    transport.write(b"?", false).unwrap();
    assert_eq!(line(&mut transport), DEFAULT_STATUS);
}

#[test]
fn a_disconnected_mock_refuses_reads_and_writes() {
    let mut transport = MockTransport::default();
    assert_eq!(transport.write(b"?", false), Err(TransportError::NotConnected));
    assert!(matches!(transport.read_line(), Err(TransportError::NotConnected)));
    transport.connect();
    assert!(matches!(transport.read_line(), Err(TransportError::NoData)));
    transport.control().queue_disconnect();
    transport.write(b"?", false).unwrap();
    assert!(matches!(transport.read_line(), Err(TransportError::NotConnected)));
    assert!(!transport.is_connected());
}

#[test]
fn a_step_jog_is_handed_back_and_its_status_runs_out() {
    let mut transport = MockTransport::default();
    transport.connect();
    assert_eq!(
        transport.write(b"$J=G91 G21 Y-0.100 F50.000\n", true),
        Ok(WriteEffect::StepJog)
    );
    transport.start_jog(
        "<Jog|MPos:0.000,-0.100,0.000|WPos:0.000,-0.100,0.000|FS:50.000,0>".to_owned(),
        1,
    );
    assert_eq!(line(&mut transport), "ok");
    assert_eq!(transport.write(b"?", false), Ok(WriteEffect::JogFinished));
    assert!(line(&mut transport).starts_with("<Jog|"));
}

#[test]
fn jog_cancel_is_reported_only_while_jogging() {
    let mut transport = MockTransport::default();
    transport.connect();
    assert_eq!(transport.write(&[0x85], false), Ok(WriteEffect::Done));
    transport.start_jog(
        "<Jog|MPos:1.000,0.000,0.000|WPos:1.000,0.000,0.000|FS:100.000,0>".to_owned(),
        10,
    );
    assert_eq!(transport.write(&[0x85], false), Ok(WriteEffect::JogCancelled));
}

#[test]
fn scripted_query_errors_replace_the_default_answer() {
    let mut transport = MockTransport::default();
    transport.control().queue_query_error(9);
    transport.connect();
    transport.write(b"$$\n", false).unwrap();
    assert_eq!(line(&mut transport), "error:9");
}
