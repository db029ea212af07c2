use millo::controller::{
    ConnectionState, ControllerSnapshot, HardwareInspection, HardwareProfile, ReadinessCheck,
    ReadinessLevel, ReadinessReport, SpindleControl,
};
use millo::grbl::{DeviceInspection, MachineMode, MachineState};
use millo::lexer::{finish_line, lex_line, LexWord, Token};
use millo::modal::{apply_words, finish_block_checks, BlockOutcome, BlockWord, ModalState};
use millo::program::{
    LineTiming, ProgramLine, ProgramListing, ProgramMotion, ProgramMotionMode, ToolpathKind,
};
use millo::run::{assess_real_run_preflight, RunPreflightLevel};
use millo::text_map::TextMap;
use millo::word::{parse_decimal_at, Decimal};

/// Reads a program through the library's line and block stages. Motions are
/// listed without geometry: every block that moves counts, with a nominal
/// size, and lines carry no timing.
fn listing(source: &str, block_delete: bool) -> ProgramListing {
    let mut warnings = Vec::new();
    let mut lines = Vec::new();
    let mut motions = Vec::new();
    let mut timings = Vec::new();
    let mut modal = ModalState::default();
    for (index, raw) in source.lines().enumerate() {
        let source_line = index + 1;
        let start = warnings.len();
        let lexed = lex_line(raw, source_line, &mut warnings);
        let mut words = Vec::new();
        for token in lexed.tokens {
            match token {
                Token::Word { letter, number } => words.push(LexWord { letter, number }),
                Token::Diagnostic(warning) => warnings.push(warning),
            }
        }
        let shape = finish_line(
            &words,
            lexed.checksum,
            lexed.optional_block,
            block_delete,
            source_line,
            &mut warnings,
        );
        if !shape.complete {
            modal.preview_complete = false;
        }
        if shape.executable && !shape.block_deleted {
            timings.push(LineTiming { source_line, duration_ms: Some(0) });
            let block: Vec<BlockWord> = words
                .iter()
                .map(|word| {
                    let chars: Vec<char> = word.number.chars().collect();
                    BlockWord { letter: word.letter, value: parse_decimal_at(&chars, 0).unwrap() }
                })
                .collect();
            let pass = apply_words(&mut modal, &block, source_line, &mut warnings);
            let checks = finish_block_checks(&mut modal, pass, &block, source_line, &mut warnings);
            if let BlockOutcome::Motion { skip_motion } = checks.outcome {
                if skip_motion {
                    modal.preview_complete = false;
                } else if matches!(
                    pass.motion,
                    ProgramMotionMode::ArcClockwise | ProgramMotionMode::ArcCounterclockwise
                ) && !words.iter().any(|word| matches!(word.letter, 'I' | 'J' | 'K' | 'R'))
                {
                    // An arc with neither centre nor radius has no geometry.
                    modal.preview_complete = false;
                } else {
                    let kind = match pass.motion {
                        ProgramMotionMode::Linear => ToolpathKind::Linear,
                        ProgramMotionMode::ArcClockwise => ToolpathKind::ArcClockwise,
                        ProgramMotionMode::ArcCounterclockwise => ToolpathKind::ArcCounterclockwise,
                        _ => ToolpathKind::Rapid,
                    };
                    motions.push(ProgramMotion { source_line, kind });
                }
            }
        }
        lines.push(ProgramLine {
            source_line,
            source: raw.to_owned(),
            normalized: shape.normalized,
            executable: shape.executable,
            optional_block: lexed.optional_block,
            block_deleted: shape.block_deleted,
            checksum: lexed.checksum,
            warning_count: warnings.len() - start,
        });
    }
    ProgramListing {
        source_name: "first-cut.nc".to_owned(),
        block_delete_enabled: block_delete,
        line_count: lines.len(),
        preview_complete: modal.preview_complete,
        time_estimate_complete: modal.time_estimate_complete,
        has_cutting_below_zero: false,
        lines,
        warnings,
        line_timings: timings,
        motion_count: motions.len(),
        bounds_size: if motions.is_empty() { None } else { Some("1.000 × 1.000 × 0.000".to_owned()) },
        motions,
    }
}

fn program(source: &str) -> ProgramListing {
    listing(source, false)
}

fn zero() -> Decimal {
    Decimal { negative: false, int_digits: vec!['0'], frac_digits: Vec::new() }
}

fn snapshot(mode: MachineMode) -> ControllerSnapshot {
    ControllerSnapshot {
        connection: ConnectionState::Connected,
        machine: MachineState {
            mode,
            reported_mode: if mode == MachineMode::Idle { "Idle".to_owned() } else { "Run".to_owned() },
            substate: None,
            machine_position: None,
            work_position: None,
            work_coordinate_offset: None,
            feed_rate: zero(),
            spindle_speed: zero(),
            buffer_state: None,
            overrides: None,
            pins: None,
            accessories: None,
            line_number: None,
        },
        alarm: None,
        reset_notice: None,
        poll_sequence: 42,
        reset_count: 0,
        reconnect_count: 0,
    }
}

fn hardware(checks: Vec<ReadinessCheck>) -> HardwareInspection {
    let blocker_count = checks.iter().filter(|item| item.level == ReadinessLevel::Blocker).count();
    HardwareInspection {
        device: DeviceInspection {
            firmware_version: None,
            firmware_build_info: None,
            firmware_options: None,
            controller_capabilities: None,
            settings: TextMap::new(),
            modal_state: ["G0", "G54", "G21", "G90", "M5"].iter().map(|code| (*code).to_owned()).collect(),
            parameters: TextMap::new(),
            responses: Vec::new(),
        },
        readiness: ReadinessReport {
            profile: HardwareProfile {
                name: "First machine".to_owned(),
                axes: vec!["X".to_owned(), "Y".to_owned(), "Z".to_owned()],
                spindle_control: SpindleControl::Manual,
                homing_installed: false,
                limit_switches_installed: false,
                probe_installed: false,
                emergency_stop_installed: false,
            },
            test_jog_ready: blocker_count == 0,
            probe_ready: false,
            blocker_count,
            caution_count: 0,
            checks,
        },
    }
}

fn readiness_check(id: &str, level: ReadinessLevel) -> ReadinessCheck {
    ReadinessCheck {
        id: id.to_owned(),
        level,
        title: id.to_owned(),
        detail: id.to_owned(),
        evidence: None,
    }
}

#[test]
fn clears_a_motion_only_program_but_retains_operator_cautions() {
    let report = assess_real_run_preflight(
        &program("G21 G90 G94\nG0 Z2\nG1 X5 Y2 F50\nM5"),
        hardware(vec![readiness_check("axis-steps", ReadinessLevel::Pass)]),
        &snapshot(MachineMode::Idle),
    );

    assert!(report.ready);
    assert_eq!(report.blocker_count, 0);
    assert_eq!(report.caution_count, 3);
    assert_eq!(report.poll_sequence, 42);
    assert_eq!(report.total_program_blockers, 0);
}

#[test]
fn retains_the_exact_source_line_for_forbidden_spindle_control() {
    let report = assess_real_run_preflight(
        &program("G21 G90 G94\nM3 S12000\nG1 X1 F50"),
        hardware(Vec::new()),
        &snapshot(MachineMode::Idle),
    );

    assert!(!report.ready);
    assert_eq!(report.program_blockers[0].source_line, Some(2));
    assert!(report.program_blockers.iter().any(|blocker| blocker.kind == "spindle-activation"));
}

#[test]
fn probe_only_readiness_does_not_block_a_program_without_probing() {
    let report = assess_real_run_preflight(
        &program("G21 G90 G94\nG1 X1 F10"),
        hardware(vec![readiness_check("probe-input", ReadinessLevel::Blocker)]),
        &snapshot(MachineMode::Idle),
    );

    assert!(report.ready);
    assert_eq!(report.hardware.readiness.blocker_count, 1);
}

#[test]
fn missing_motion_and_non_idle_state_are_independent_blockers() {
    let report = assess_real_run_preflight(
        &program("G21 G90\nM5"),
        hardware(vec![readiness_check("controller-state", ReadinessLevel::Blocker)]),
        &snapshot(MachineMode::Run),
    );

    assert!(!report.ready);
    assert_eq!(report.blocker_count, 2);
    assert!(report
        .checks
        .iter()
        .any(|item| item.id == "controller-state" && item.level == RunPreflightLevel::Blocker));
    assert!(report
        .checks
        .iter()
        .any(|item| item.id == "program-geometry" && item.level == RunPreflightLevel::Blocker));
}

#[test]
fn blocks_motion_that_relies_on_ambient_controller_modes() {
    let report = assess_real_run_preflight(
        &program("G1 X1 F10"),
        hardware(Vec::new()),
        &snapshot(MachineMode::Idle),
    );

    let modal = report.checks.iter().find(|item| item.id == "program-modal-contract").unwrap();
    assert_eq!(modal.level, RunPreflightLevel::Blocker);
    assert!(modal.detail.contains("G21, G90, G94"));
    assert_eq!(modal.source_line, Some(1));
}
