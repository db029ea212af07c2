use millo::dry_run::{
    build_dry_run_plan, build_program_run_plan, explicit_axes, non_motion_prefix, numbered_command,
    prepare_program_run_plan, DryRunPlan,
    DryRunBlockerKind, DryRunLine, DryRunLineKind, DryRunPolicyError, PlanStage,
    ProgramExecutionOptions, ProgramRunPolicy,
};
use millo::lexer::{finish_line, lex_line, LexWord, Token};
use millo::modal::{apply_words, finish_block_checks, BlockOutcome, BlockWord, ModalState};
use millo::program::{
    LineTiming, ProgramLine, ProgramListing, ProgramMotion, ProgramMotionMode, ToolpathKind,
};
use millo::word::parse_decimal_at;

/// Reads a program through the library's line and block stages. Motions are
/// listed without geometry: every block that moves counts, with a nominal
/// size, and lines carry no timing.
fn listing(source: &str, block_delete: bool) -> ProgramListing {
    let mut warnings = Vec::new();
    let mut lines = Vec::new();
    let mut motions = Vec::new();
    let mut timings = Vec::new();
    let mut modal = ModalState::default();
    for (index, raw) in source.lines().enumerate() {
        let source_line = index + 1;
        let start = warnings.len();
        let lexed = lex_line(raw, source_line, &mut warnings);
        let mut words = Vec::new();
        for token in lexed.tokens {
            match token {
                Token::Word { letter, number } => words.push(LexWord { letter, number }),
                Token::Diagnostic(warning) => warnings.push(warning),
            }
        }
        let shape = finish_line(
            &words,
            lexed.checksum,
            lexed.optional_block,
            block_delete,
            source_line,
            &mut warnings,
        );
        if !shape.complete {
            modal.preview_complete = false;
        }
        if shape.executable && !shape.block_deleted {
            timings.push(LineTiming { source_line, duration_ms: Some(0) });
            let block: Vec<BlockWord> = words
                .iter()
                .map(|word| {
                    let chars: Vec<char> = word.number.chars().collect();
                    BlockWord { letter: word.letter, value: parse_decimal_at(&chars, 0).unwrap() }
                })
                .collect();
            let pass = apply_words(&mut modal, &block, source_line, &mut warnings);
            let checks = finish_block_checks(&mut modal, pass, &block, source_line, &mut warnings);
            if let BlockOutcome::Motion { skip_motion } = checks.outcome {
                if skip_motion {
                    modal.preview_complete = false;
                } else if matches!(
                    pass.motion,
                    ProgramMotionMode::ArcClockwise | ProgramMotionMode::ArcCounterclockwise
                ) && !words.iter().any(|word| matches!(word.letter, 'I' | 'J' | 'K' | 'R'))
                {
                    // An arc with neither centre nor radius has no geometry.
                    modal.preview_complete = false;
                } else {
                    let kind = match pass.motion {
                        ProgramMotionMode::Linear => ToolpathKind::Linear,
                        ProgramMotionMode::ArcClockwise => ToolpathKind::ArcClockwise,
                        ProgramMotionMode::ArcCounterclockwise => ToolpathKind::ArcCounterclockwise,
                        _ => ToolpathKind::Rapid,
                    };
                    motions.push(ProgramMotion { source_line, kind });
                }
            }
        }
        lines.push(ProgramLine {
            source_line,
            source: raw.to_owned(),
            normalized: shape.normalized,
            executable: shape.executable,
            optional_block: lexed.optional_block,
            block_deleted: shape.block_deleted,
            checksum: lexed.checksum,
            warning_count: warnings.len() - start,
        });
    }
    ProgramListing {
        source_name: "fixture.nc".to_owned(),
        block_delete_enabled: block_delete,
        line_count: lines.len(),
        preview_complete: modal.preview_complete,
        time_estimate_complete: modal.time_estimate_complete,
        has_cutting_below_zero: false,
        lines,
        warnings,
        line_timings: timings,
        motion_count: motions.len(),
        bounds_size: if motions.is_empty() { None } else { Some("1.000 × 1.000 × 0.000".to_owned()) },
        motions,
    }
}

fn parse(source: &str) -> ProgramListing {
    listing(source, false)
}

fn parse_with_block_delete(source: &str) -> ProgramListing {
    listing(source, true)
}

fn commands(lines: &[DryRunLine]) -> Vec<&str> {
    lines.iter().map(DryRunLine::command).collect()
}

fn ready(stage: Result<PlanStage, DryRunPolicyError>) -> millo::dry_run::DryRunPlan {
    match stage {
        Ok(PlanStage::Ready(plan)) => plan,
        Ok(PlanStage::Transform { .. }) => panic!("unexpected transformation"),
        Err(_) => panic!("plan refused"),
    }
}

fn refused(result: Result<millo::dry_run::DryRunPlan, DryRunPolicyError>) -> DryRunPolicyError {
    match result {
        Ok(_) => panic!("plan accepted"),
        Err(error) => error,
    }
}

#[test]
fn builds_only_from_normalized_lines_and_adds_an_off_preamble() {
    let plan = match build_dry_run_plan(&parse("G21 G90 ; units\nG0 X1\nM5 M9")) {
        Ok(plan) => plan,
        Err(_) => panic!("plan refused"),
    };

    assert_eq!(commands(plan.lines()), vec!["M5", "M9", "G21 G90", "G0 X1", "M5 M9", "M5", "M9"]);
    assert_eq!(plan.lines()[0].kind(), DryRunLineKind::SafetyPreamble);
    assert_eq!(plan.lines()[2].source_line(), Some(1));
}

#[test]
fn wire_commands_replace_file_numbers_with_source_line_numbers() {
    let plan = match build_dry_run_plan(&parse("N900 G21 G90\nN950 G0 X1")) {
        Ok(plan) => plan,
        Err(_) => panic!("plan refused"),
    };
    let wire = plan.lines().iter().map(DryRunLine::wire_command).collect::<Vec<_>>();

    assert_eq!(wire[0], "M5");
    assert_eq!(wire[2], "N1 G21 G90");
    assert_eq!(wire[3], "N2 G0 X1");
    assert!(wire.iter().all(|command| !command.contains("N900")));
}

#[test]
fn blocks_each_operator_critical_command_family() {
    let program = parse("M3\nS1000\nM8\nG38.2 Z-1 F10\nM6\nG53 G0 X0\nG10 L20 P1 X0");
    let error = refused(build_dry_run_plan(&program));
    let kinds: Vec<DryRunBlockerKind> = error.blockers().iter().map(|blocker| blocker.kind).collect();

    assert!(kinds.contains(&DryRunBlockerKind::SpindleActivation));
    assert!(kinds.contains(&DryRunBlockerKind::SpindleSpeed));
    assert!(kinds.contains(&DryRunBlockerKind::CoolantActivation));
    assert!(kinds.contains(&DryRunBlockerKind::ProbeCycle));
    assert!(kinds.contains(&DryRunBlockerKind::ToolChange));
    assert!(kinds.contains(&DryRunBlockerKind::MachineCoordinateMotion));
    assert!(kinds.contains(&DryRunBlockerKind::CoordinateMutation));
}

#[test]
fn cutting_policy_accepts_spindle_words_but_keeps_other_guards() {
    let plan = match build_program_run_plan(
        &parse("G21 G90 G94\nS12000 M3\nG1 X1 F50\nM5"),
        ProgramRunPolicy::Cutting,
    ) {
        Ok(plan) => plan,
        Err(_) => panic!("plan refused"),
    };
    assert!(plan.lines().iter().any(|line| line.command() == "S12000 M3"));

    let rejected = refused(build_program_run_plan(
        &parse("G21 G90 G94\nM8\nG1 X1 F50"),
        ProgramRunPolicy::Cutting,
    ));
    assert!(rejected
        .blockers()
        .iter()
        .any(|blocker| blocker.kind == DryRunBlockerKind::CoolantActivation));
}

#[test]
fn cutting_policy_turns_m6_into_an_isolated_host_barrier() {
    let plan = match build_program_run_plan(
        &parse("G21 G90 G94\nT2 M6\nG1 X1 F50\nT7\nM6\nM30"),
        ProgramRunPolicy::Cutting,
    ) {
        Ok(plan) => plan,
        Err(_) => panic!("plan refused"),
    };
    let lines = plan.lines();

    let first_change = lines.iter().position(|line| line.kind() == DryRunLineKind::ToolChange).unwrap();
    assert_eq!(lines[first_change - 1].command(), "T2");
    assert_eq!(lines[first_change].command(), "T2 M6");
    assert_eq!(lines[first_change].tool_number(), Some(2));

    let changes = lines.iter().filter(|line| line.kind() == DryRunLineKind::ToolChange).collect::<Vec<_>>();
    assert_eq!(changes.len(), 2);
    assert_eq!(changes[1].command(), "M6");
    assert_eq!(changes[1].tool_number(), Some(7));
}

#[test]
fn m6_remains_blocked_in_air_runs_and_cannot_share_a_cutting_block() {
    let air = refused(build_program_run_plan(&parse("T2 M6"), ProgramRunPolicy::AirRun));
    assert!(air.blockers().iter().any(|blocker| blocker.kind == DryRunBlockerKind::ToolChange));

    for source in ["M6 G0 X1", "M6 S12000", "M6 M5", "M6 P1"] {
        let error = refused(build_program_run_plan(&parse(source), ProgramRunPolicy::Cutting));
        assert!(error.blockers().iter().any(|blocker| {
            blocker.kind == DryRunBlockerKind::ToolChange && blocker.message.contains("must be isolated")
        }));
    }
}

#[test]
fn classifies_program_pause_and_stops_the_plan_at_program_end() {
    let plan = match build_program_run_plan(
        &parse("G21\nM0\nG1 X1 F10\nM30\nG1 X99"),
        ProgramRunPolicy::Cutting,
    ) {
        Ok(plan) => plan,
        Err(_) => panic!("plan refused"),
    };
    assert_eq!(plan.lines()[3].kind(), DryRunLineKind::ProgramPause);
    assert_eq!(plan.lines()[5].kind(), DryRunLineKind::SafetyEpilogue);
    assert_eq!(plan.lines()[6].kind(), DryRunLineKind::SafetyEpilogue);
    assert_eq!(plan.lines()[7].kind(), DryRunLineKind::ProgramEnd);
    assert!(!plan.lines().iter().any(|line| line.command().contains("X99")));
}

#[test]
fn optional_stop_and_block_delete_are_independent_host_options() {
    let source = "G21 G90 G94\n/G1 X1 F10\nM1\nG1 X2 F10\nM30";
    let default = match build_program_run_plan(&parse(source), ProgramRunPolicy::Cutting) {
        Ok(plan) => plan,
        Err(_) => panic!("plan refused"),
    };
    assert!(default.lines().iter().any(|line| line.command() == "G1 X1 F10"));
    assert!(!default.lines().iter().any(|line| line.command() == "M1"));

    let options = ProgramExecutionOptions {
        optional_stop: true,
        block_delete: true,
        ..ProgramExecutionOptions::defaults()
    };
    let configured = ready(prepare_program_run_plan(
        &parse_with_block_delete(source),
        ProgramRunPolicy::Cutting,
        options,
    ));
    assert!(!configured.lines().iter().any(|line| line.command() == "G1 X1 F10"));
    assert!(configured
        .lines()
        .iter()
        .any(|line| line.command() == "M1" && line.kind() == DryRunLineKind::OptionalPause));
    assert_eq!(configured.execution_options(), options);
}

#[test]
fn rejects_ambiguous_pause_blocks_and_parse_option_mismatch() {
    for source in ["M0 G1 X1 F10", "M1 S1000"] {
        let error = refused(build_program_run_plan(&parse(source), ProgramRunPolicy::Cutting));
        assert!(error.blockers().iter().any(|blocker| {
            blocker.kind == DryRunBlockerKind::UnsupportedProgram && blocker.message.contains("must be isolated")
        }));
    }

    let mismatch = match prepare_program_run_plan(
        &parse_with_block_delete("G21\n/G1 X1 F10"),
        ProgramRunPolicy::Cutting,
        ProgramExecutionOptions::defaults(),
    ) {
        Err(error) => error,
        Ok(_) => panic!("plan accepted"),
    };
    assert!(mismatch.blockers().iter().any(|blocker| {
        blocker.kind == DryRunBlockerKind::UnsupportedProgram && blocker.message.contains("disagree")
    }));
}

#[test]
fn parser_safety_errors_cannot_be_bypassed_by_summary_flags() {
    let mut program = parse("M80\nG1 X1");
    program.preview_complete = true;

    let error = refused(build_dry_run_plan(&program));

    assert!(error
        .blockers()
        .iter()
        .any(|blocker| blocker.kind == DryRunBlockerKind::UnsupportedProgram));
}

#[test]
fn blocks_incomplete_preview_and_grbl_lines_over_the_sender_limit() {
    let incomplete = refused(build_dry_run_plan(&parse("G2 X1 Y1")));
    assert!(incomplete
        .blockers()
        .iter()
        .any(|blocker| blocker.kind == DryRunBlockerKind::IncompletePreview));

    let oversized_source = format!("G1 X1 F1.{}", "0".repeat(260));
    let oversized = refused(build_dry_run_plan(&parse(&oversized_source)));
    assert!(oversized
        .blockers()
        .iter()
        .any(|blocker| blocker.kind == DryRunBlockerKind::CommandTooLong));
}

#[test]
fn depth_adjustment_requires_a_cut_below_zero_and_stays_within_ten_millimetres() {
    let program = parse("G21 G90 G94\nG1 X1 F100\nM30");
    let options = ProgramExecutionOptions {
        cutting_depth_adjustment_um: Some(-100),
        ..ProgramExecutionOptions::defaults()
    };
    let error = match prepare_program_run_plan(&program, ProgramRunPolicy::Cutting, options) {
        Err(error) => error,
        Ok(_) => panic!("plan accepted"),
    };
    assert!(error.blockers().iter().any(|blocker| {
        blocker.kind == DryRunBlockerKind::CuttingDepthAdjustment && blocker.message.contains("below work Z0")
    }));

    let mut cutting = parse("G21 G90 G94\nG1 Z-1 F100\nM30");
    cutting.has_cutting_below_zero = true;
    let too_deep = ProgramExecutionOptions {
        cutting_depth_adjustment_um: Some(-10_001),
        ..ProgramExecutionOptions::defaults()
    };
    assert!(prepare_program_run_plan(&cutting, ProgramRunPolicy::Cutting, too_deep).is_err());
    match prepare_program_run_plan(&cutting, ProgramRunPolicy::Cutting, options) {
        Ok(PlanStage::Transform { depth_adjustment_um, heightmap, .. }) => {
            assert_eq!(depth_adjustment_um, Some(-100));
            assert!(!heightmap);
        }
        _ => panic!("expected a transformation"),
    }
}

#[test]
fn numbered_commands_prefix_the_source_line() {
    assert_eq!(numbered_command(12, "G1 X1"), "N12 G1 X1");
}

#[test]
fn explicit_axes_reports_the_coordinates_a_command_names() {
    assert_eq!(explicit_axes("G0 X1 Y2"), (true, true));
    assert_eq!(explicit_axes("G1 x-1.5 Z-1 F100"), (true, false));
    assert_eq!(explicit_axes("G0 Z5"), (false, false));
    assert_eq!(explicit_axes("M3 S1000 Y0"), (false, true));
    assert_eq!(explicit_axes(""), (false, false));
}

#[test]
fn non_motion_prefix_keeps_what_is_not_motion() {
    assert_eq!(non_motion_prefix("N10 G1 X1 Y2 Z-1 F100 M8"), Some("M8".to_owned()));
    assert_eq!(non_motion_prefix("G0 G54 X0 Y0 S12000 M3"), Some("G54 S12000 M3".to_owned()));
    assert_eq!(non_motion_prefix("G2 X1 Y1 I0.5 J0 R2"), None);
    assert_eq!(non_motion_prefix("G1.0 X1"), None);
    assert_eq!(non_motion_prefix("(comment) X1"), Some("(comment)".to_owned()));
}

#[test]
fn compensated_lines_respect_the_sender_length_and_plans_total_their_time() {
    let line = DryRunLine::compensated(7, "G90 G21 G94 G1 X1.0000 Y2.0000 Z-0.1000 F100.000".to_owned(), Some(250))
        .ok()
        .unwrap();
    assert_eq!(line.source_line(), Some(7));
    assert_eq!(line.kind(), DryRunLineKind::Program);
    assert_eq!(line.estimated_duration_ms(), Some(250));
    assert_eq!(line.wire_command(), "N7 G90 G21 G94 G1 X1.0000 Y2.0000 Z-0.1000 F100.000");
    match DryRunLine::compensated(7, format!("G1 {}", "X1 ".repeat(100)), None) {
        Err(DryRunPolicyError::Rejected(1, blockers)) => {
            assert_eq!(blockers[0].kind, DryRunBlockerKind::HeightmapCompensation);
            assert_eq!(blockers[0].source_line, Some(7));
            assert_eq!(blockers[0].message, "heightmap command exceeds the sender line-length limit");
        }
        _ => panic!("an overlong command must be refused"),
    }

    let plan = match build_dry_run_plan(&parse("G21 G90\nG0 X1")) {
        Ok(plan) => plan,
        Err(_) => panic!("the program is valid"),
    };
    let lines = vec![
        DryRunLine::compensated(2, "G90 G21 G94 G0 X1.0000 Z1.0000".to_owned(), Some(100)).ok().unwrap(),
        DryRunLine::compensated(2, "G90 G21 G94 G1 X1.0000 Z0.5000".to_owned(), Some(u64::MAX)).ok().unwrap(),
        plan.lines()[0].duplicate(),
    ];
    let timed = DryRunPlan::with_lines(&plan, lines);
    assert_eq!(timed.source_name(), plan.source_name());
    assert_eq!(timed.lines().len(), 3);
    assert_eq!(timed.estimated_total_ms(), u64::MAX);
    assert_eq!(timed.time_estimate_complete(), plan.lines()[0].estimated_duration_ms().is_some());
    let untimed = DryRunPlan::with_lines(
        &plan,
        vec![DryRunLine::compensated(2, "G1 X1".to_owned(), None).ok().unwrap()],
    );
    assert_eq!(untimed.estimated_total_ms(), 0);
    assert!(!untimed.time_estimate_complete());
}

#[test]
fn codes_within_one_billionth_count_as_the_code() {
    let error = refused(build_dry_run_plan(&parse("G21 G90\nM3.0000000001")));
    assert!(error.blockers().iter().any(|blocker| blocker.kind == DryRunBlockerKind::SpindleActivation));

    let plan = match build_dry_run_plan(&parse("G21 G90\nG0 X1\nM2.0000000001\nG0 X2")) {
        Ok(plan) => plan,
        Err(_) => panic!("plan refused"),
    };
    let last = plan.lines().last().unwrap();
    assert_eq!(last.kind(), DryRunLineKind::ProgramEnd);
    assert_eq!(last.source_line(), Some(3));
    assert!(plan.lines().iter().all(|line| line.source_line() != Some(4)));
}
