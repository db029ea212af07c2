use millo::lexer::{
    finish_line, lex_line, strip_comments, strip_optional_block, tokenize, validate_checksum,
    LexWord, Token,
};
use millo::modal::{apply_words, finish_block_checks, BlockOutcome, BlockWord, ModalState};
use millo::program::{
    ProgramMotionMode, ProgramParseError, ProgramParseRequest, ProgramUnitMode, ProgramWarning,
    ProgramWarningCode, ProgramWarningSeverity,
};
use millo::request::{
    check_diagnostic_count, check_parse_request, check_source_line, MAX_PROGRAM_DIAGNOSTICS,
    MAX_SOURCE_BYTES, MAX_SOURCE_LINE_BYTES,
};
use millo::word::parse_decimal_at;

fn chars(text: &str) -> Vec<char> {
    text.chars().collect()
}

fn text(chars: &[char]) -> String {
    chars.iter().collect()
}

fn block(text: &str) -> Vec<BlockWord> {
    text.split_whitespace()
        .map(|word| {
            let letters: Vec<char> = word.chars().collect();
            BlockWord {
                letter: letters[0],
                value: parse_decimal_at(&letters[1..], 0).unwrap(),
            }
        })
        .collect()
}

fn has(warnings: &[ProgramWarning], code: ProgramWarningCode) -> bool {
    warnings.iter().any(|warning| warning.code == code)
}

#[test]
fn a_checksum_is_refused_and_only_the_code_before_it_is_read() {
    let mut warnings = Vec::new();
    let (payload, checksum) = validate_checksum(&chars("N1 G0 X1*97"), 4, &mut warnings);
    assert_eq!(text(&payload), "N1 G0 X1");
    assert_eq!(checksum, None);
    assert_eq!(warnings.len(), 1);
    assert_eq!(warnings[0].code, ProgramWarningCode::ChecksumUnsupported);
    assert_eq!(warnings[0].severity, ProgramWarningSeverity::Error);
    assert_eq!(warnings[0].message, "'*' block checksums are not supported; the block is refused");
    assert_eq!(warnings[0].source_line, 4);
}

#[test]
fn every_checksum_form_fails_closed_and_comments_hide_separators() {
    for source in ["N1 G0 X1*98", "N1 G0 X1*300", "G0*1*2"] {
        let mut warnings = Vec::new();
        let (payload, checksum) = validate_checksum(&chars(source), 1, &mut warnings);
        assert_eq!(checksum, None);
        assert_eq!(warnings.len(), 1, "{source}");
        assert_eq!(warnings[0].code, ProgramWarningCode::ChecksumUnsupported);
        assert_eq!(warnings[0].severity, ProgramWarningSeverity::Error);
        assert!(!text(&payload).contains('*'));
    }

    let mut warnings = Vec::new();
    let (payload, checksum) = validate_checksum(&chars("G0 (a*b) X1 ; *3"), 1, &mut warnings);
    assert_eq!(text(&payload), "G0 (a*b) X1 ; *3");
    assert_eq!(checksum, None);
    assert!(warnings.is_empty());
}

#[test]
fn comments_are_removed_and_unbalanced_parentheses_reported() {
    let mut warnings = Vec::new();
    assert_eq!(text(&strip_comments(&chars("G0 (move) X1 ; rest"), 2, &mut warnings)), "G0  X1 ");
    assert!(warnings.is_empty());

    let mut warnings = Vec::new();
    assert_eq!(text(&strip_comments(&chars("G0 (open"), 2, &mut warnings)), "G0 ");
    assert_eq!(warnings[0].code, ProgramWarningCode::UnclosedComment);
    assert_eq!(warnings[0].severity, ProgramWarningSeverity::Error);

    let mut warnings = Vec::new();
    assert_eq!(text(&strip_comments(&chars("G0 ) X1"), 2, &mut warnings)), "G0  X1");
    assert_eq!(warnings[0].code, ProgramWarningCode::UnexpectedCommentClose);
    assert_eq!(warnings[0].severity, ProgramWarningSeverity::Warning);
}

#[test]
fn a_leading_slash_marks_an_optional_block() {
    let mut warnings = Vec::new();
    let (code, optional) = strip_optional_block(&chars("  /G1 X1"), 3, &mut warnings);
    assert_eq!(text(&code), "  G1 X1");
    assert!(optional);
    assert_eq!(warnings[0].code, ProgramWarningCode::OptionalBlock);

    let mut warnings = Vec::new();
    let (code, optional) = strip_optional_block(&chars("G1 /X1"), 3, &mut warnings);
    assert_eq!(text(&code), "G1 /X1");
    assert!(!optional);
    assert!(warnings.is_empty());
}

#[test]
fn tokens_are_upper_cased_words_and_diagnostics_in_order() {
    let tokens = tokenize(&chars("g1 x-1.5 %Y2 G /"), 7);
    let mut words = Vec::new();
    let mut diagnostics = Vec::new();
    for token in tokens {
        match token {
            Token::Word { letter, number } => words.push(format!("{letter}{number}")),
            Token::Diagnostic(warning) => diagnostics.push(warning),
        }
    }
    assert_eq!(words, vec!["G1", "X-1.5", "Y2"]);
    assert_eq!(diagnostics.len(), 2);
    assert_eq!(diagnostics[0].message, "G word has no numeric value");
    assert_eq!(diagnostics[1].code, ProgramWarningCode::OptionalBlockUnsupported);
    assert!(diagnostics.iter().all(|warning| warning.source_line == 7));
}

#[test]
fn program_numbers_must_stand_alone_and_percent_lines_are_not_executable() {
    let mut warnings = Vec::new();
    let lexed = lex_line("O1001 G21", 1, &mut warnings);
    let words: Vec<LexWord> = lexed
        .tokens
        .into_iter()
        .filter_map(|token| match token {
            Token::Word { letter, number } => Some(LexWord { letter, number }),
            Token::Diagnostic(_) => None,
        })
        .collect();
    let shape = finish_line(&words, lexed.checksum, lexed.optional_block, false, 1, &mut warnings);
    assert_eq!(shape.normalized, "O1001 G21");
    assert!(shape.executable);
    assert!(!shape.complete);
    assert!(warnings.iter().any(|warning| warning.message.contains("metadata-only")));

    let mut warnings = Vec::new();
    let lexed = lex_line("%", 2, &mut warnings);
    assert!(lexed.tokens.is_empty());
    let shape = finish_line(&Vec::new(), lexed.checksum, lexed.optional_block, false, 2, &mut warnings);
    assert!(!shape.executable);
    assert!(warnings.is_empty());
}

#[test]
fn block_delete_skips_only_optional_executable_lines() {
    let mut warnings = Vec::new();
    let words = vec![LexWord { letter: 'G', number: "1".to_owned() }];
    assert!(finish_line(&words, None, true, true, 1, &mut warnings).block_deleted);
    assert!(!finish_line(&words, None, true, false, 1, &mut warnings).block_deleted);
    assert!(!finish_line(&words, None, false, true, 1, &mut warnings).block_deleted);
}

#[test]
fn repeated_value_words_leave_the_preview_incomplete() {
    let mut state = ModalState::default();
    let mut warnings = Vec::new();
    let pass = apply_words(&mut state, &block("G1 X1 X2 F10"), 5, &mut warnings);
    assert!(!state.preview_complete);
    assert!(pass.skip_motion);
    assert!(has(&warnings, ProgramWarningCode::DuplicateWord));
    assert_eq!(warnings[0].message, "X appears more than once; GRBL rejects repeated value words");
}

#[test]
fn two_codes_of_one_modal_group_conflict() {
    let mut state = ModalState::default();
    let mut warnings = Vec::new();
    apply_words(&mut state, &block("G0 G1 X1"), 2, &mut warnings);
    assert!(!state.preview_complete);
    assert!(warnings.iter().any(|warning| {
        warning.code == ProgramWarningCode::ModalGroupConflict
            && warning.severity == ProgramWarningSeverity::Error
            && warning.message == "more than one G-code from modal group 1 in one block"
    }));

    let mut warnings = Vec::new();
    apply_words(&mut ModalState::default(), &block("M3 M4 S1000"), 2, &mut warnings);
    assert!(has(&warnings, ProgramWarningCode::ModalGroupConflict));
}

#[test]
fn modal_codes_change_the_state_and_record_program_features() {
    let mut state = ModalState::default();
    let mut warnings = Vec::new();
    let pass = apply_words(&mut state, &block("G20 G91 G2 T3"), 1, &mut warnings);
    assert_eq!(state.units, ProgramUnitMode::Inches);
    assert!(state.features.uses_imperial_units);
    assert!(state.features.uses_incremental_distance);
    assert_eq!(state.selected_tool, Some(3));
    assert_eq!(pass.motion, ProgramMotionMode::ArcClockwise);
    assert!(pass.feed_reset);
    assert!(warnings.is_empty());
}

#[test]
fn machine_coordinate_moves_and_probes_are_kept_out_of_the_preview() {
    let mut state = ModalState::default();
    let mut warnings = Vec::new();
    let pass = apply_words(&mut state, &block("G53 G0 X0"), 3, &mut warnings);
    assert!(pass.skip_motion);
    assert!(state.features.has_machine_coordinate_move);
    assert!(warnings.iter().any(|warning| {
        warning.code == ProgramWarningCode::UnsafeMachineCommand
            && warning.severity == ProgramWarningSeverity::Safety
    }));

    let mut state = ModalState::default();
    let pass = apply_words(&mut state, &block("G38.2 Z-1 F10"), 4, &mut warnings);
    assert!(pass.skip_motion);
    assert!(state.features.has_probe_cycle);
}

#[test]
fn unknown_codes_and_letters_are_reported() {
    let mut warnings = Vec::new();
    apply_words(&mut ModalState::default(), &block("M10"), 2, &mut warnings);
    assert!(warnings.iter().any(|warning| {
        warning.code == ProgramWarningCode::UnsupportedMCode
            && warning.severity == ProgramWarningSeverity::Safety
    }));

    let mut state = ModalState::default();
    let mut warnings = Vec::new();
    apply_words(&mut state, &block("E5"), 2, &mut warnings);
    assert!(!state.preview_complete);
    assert_eq!(warnings[0].message, "E words are not supported by the preview parser");

    let mut state = ModalState::default();
    let mut warnings = Vec::new();
    apply_words(&mut state, &block("T256"), 2, &mut warnings);
    assert_eq!(warnings[0].message, "T tool number must be an integer from 0 to 255");
    assert_eq!(state.selected_tool, None);
}

#[test]
fn the_checks_after_the_words_cover_feed_dwell_context_and_arcs() {
    let mut state = ModalState::default();
    let mut warnings = Vec::new();
    let words = block("G1 X1 F0");
    let pass = apply_words(&mut state, &words, 1, &mut warnings);
    let checks = finish_block_checks(&mut state, pass, &words, 1, &mut warnings);
    assert_eq!(checks.feed_valid, Some(false));
    assert!(!state.time_estimate_complete);
    assert_eq!(checks.outcome, BlockOutcome::Motion { skip_motion: false });

    let mut state = ModalState::default();
    let mut warnings = Vec::new();
    let words = block("G4 P-1");
    let pass = apply_words(&mut state, &words, 2, &mut warnings);
    let checks = finish_block_checks(&mut state, pass, &words, 2, &mut warnings);
    assert_eq!(checks.outcome, BlockOutcome::Dwell { seconds_valid: false });
    assert!(has(&warnings, ProgramWarningCode::DwellDefinition));

    let mut state = ModalState::default();
    let mut warnings = Vec::new();
    let words = block("G1 X1 I0 F10");
    let pass = apply_words(&mut state, &words, 3, &mut warnings);
    let checks = finish_block_checks(&mut state, pass, &words, 3, &mut warnings);
    assert_eq!(checks.outcome, BlockOutcome::Motion { skip_motion: true });
    assert_eq!(warnings[0].message, "I is not valid for the active command in this block");

    let mut state = ModalState::default();
    let mut warnings = Vec::new();
    let words = block("G2 I-5 J0");
    let pass = apply_words(&mut state, &words, 4, &mut warnings);
    let checks = finish_block_checks(&mut state, pass, &words, 4, &mut warnings);
    assert_eq!(checks.outcome, BlockOutcome::Done);
    assert!(warnings.iter().any(|warning| warning.message.contains("explicit X, Y, or Z")));

    let mut state = ModalState::default();
    let mut warnings = Vec::new();
    let words = block("G80 X1");
    let pass = apply_words(&mut state, &words, 5, &mut warnings);
    let checks = finish_block_checks(&mut state, pass, &words, 5, &mut warnings);
    assert_eq!(checks.outcome, BlockOutcome::Done);
    assert!(!state.preview_complete);
}

#[test]
fn rejects_missing_identity_empty_source_and_oversized_input() {
    let request = |name: &str, source: &str| ProgramParseRequest {
        source_name: name.to_owned(),
        source: source.to_owned(),
    };
    assert_eq!(
        check_parse_request(&request(" ", "G0 X1")).unwrap_err(),
        ProgramParseError::MissingSourceName
    );
    assert!(matches!(
        check_parse_request(&request(&"x".repeat(256), "G0 X1")),
        Err(ProgramParseError::SourceNameTooLong { .. })
    ));
    assert_eq!(
        check_parse_request(&request("empty.nc", "\n  ")).unwrap_err(),
        ProgramParseError::EmptySource
    );
    assert!(matches!(
        check_parse_request(&request("huge.nc", &" ".repeat(MAX_SOURCE_BYTES + 1))),
        Err(ProgramParseError::SourceTooLarge { .. })
    ));
    let (lines, name) = check_parse_request(&request("  job.nc ", "G0 X1\nG1 X2\n")).unwrap();
    assert_eq!(lines, 2);
    assert_eq!(name, "job.nc");
}

#[test]
fn line_and_diagnostic_limits_refuse_the_program() {
    assert_eq!(check_source_line(3, "G0 X1"), Ok(()));
    assert_eq!(
        check_source_line(3, &"X".repeat(MAX_SOURCE_LINE_BYTES + 1)),
        Err(ProgramParseError::SourceLineTooLong { source_line: 3, max_bytes: MAX_SOURCE_LINE_BYTES })
    );
    assert_eq!(check_diagnostic_count(MAX_PROGRAM_DIAGNOSTICS), Ok(()));
    assert_eq!(
        check_diagnostic_count(MAX_PROGRAM_DIAGNOSTICS + 1),
        Err(ProgramParseError::TooManyDiagnostics { max_warnings: MAX_PROGRAM_DIAGNOSTICS })
    );
}

#[test]
fn codes_match_values_within_one_millionth() {
    let mut state = ModalState::default();
    let mut warnings = Vec::new();
    let pass = apply_words(&mut state, &block("G10.0000001 L20 P1 X0"), 3, &mut warnings);
    assert!(pass.skip_motion);
    assert!(warnings.iter().any(|warning| {
        warning.code == ProgramWarningCode::UnsafeMachineCommand
            && warning.severity == ProgramWarningSeverity::Safety
            && warning.source_line == 3
    }));
    assert!(!warnings.iter().any(|warning| warning.code == ProgramWarningCode::UnsupportedGCode));

    let mut state = ModalState::default();
    let mut warnings = Vec::new();
    apply_words(&mut state, &block("G52.9999995"), 1, &mut warnings);
    assert!(state.features.has_machine_coordinate_move);

    let mut state = ModalState::default();
    let mut warnings = Vec::new();
    let pass = apply_words(&mut state, &block("G1.000001 X1 F10"), 1, &mut warnings);
    assert_eq!(pass.motion, ProgramMotionMode::Rapid);
    assert!(warnings.iter().any(|warning| warning.code == ProgramWarningCode::UnsupportedGCode));

    let mut state = ModalState::default();
    let mut warnings = Vec::new();
    apply_words(&mut state, &block("G-0.0000001 X1"), 1, &mut warnings);
    assert!(!warnings.iter().any(|warning| warning.code == ProgramWarningCode::UnsupportedGCode));
}
