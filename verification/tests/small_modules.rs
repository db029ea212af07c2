use millo::heightmap::{sample_progress, HeightmapContactMode, HeightmapOperationState};
use millo::journal::{SenderFailureKind, SenderState};
use millo::recovery::{recovery_interruption, recovery_source_name, RecoveryInterruptionKind};
use millo::restart::{has_program_end, safe_start_source_name, wcs_word};
use millo::heightmap::{check_grid, GridRefusal};
use millo::program::{
    dry_run_eligible, ProgramWarning, ProgramWarningCode, ProgramWarningSeverity,
    ProgramWorkCoordinateSystem,
};
use millo::text_map::TextMap;
use millo::word::{parse_decimal_at, Decimal};

fn decimal(text: &str) -> Decimal {
    let chars: Vec<char> = text.chars().collect();
    parse_decimal_at(&chars, 0).unwrap()
}

fn canonical(text: &str) -> String {
    decimal(text).canonical_text().into_iter().collect()
}

fn rounded(text: &str) -> String {
    decimal(text).rounded_text().into_iter().collect()
}

#[test]
fn progress_counts_measured_and_touching_points() {
    let progress = sample_progress(&[Some(true), None, Some(false), Some(true)]);
    assert_eq!(progress.measured, 3);
    assert_eq!(progress.triggered, 2);
    assert_eq!(progress.total, 4);
    assert!(!progress.complete);
    assert!(sample_progress(&[Some(false)]).complete);
    assert!(sample_progress(&[]).complete);
    assert_eq!(HeightmapContactMode::default(), HeightmapContactMode::DirectSurface);
    assert_eq!(HeightmapOperationState::default(), HeightmapOperationState::Idle);
}

#[test]
fn interruptions_are_classified_from_state_and_failure() {
    assert_eq!(recovery_interruption(SenderState::Running, None), RecoveryInterruptionKind::HostStopped);
    assert_eq!(recovery_interruption(SenderState::Cancelled, None), RecoveryInterruptionKind::OperatorStopped);
    assert_eq!(
        recovery_interruption(SenderState::Failed, Some(SenderFailureKind::Transport)),
        RecoveryInterruptionKind::ControllerDisconnected
    );
    assert_eq!(
        recovery_interruption(SenderState::Failed, Some(SenderFailureKind::GrblError)),
        RecoveryInterruptionKind::ProgramRejected
    );
    assert_eq!(
        recovery_interruption(SenderState::Failed, Some(SenderFailureKind::Internal)),
        RecoveryInterruptionKind::Unknown
    );
}

#[test]
fn generated_source_names_fall_back_when_too_long() {
    assert_eq!(recovery_source_name(7, "job.nc"), "recovery-7-job.nc");
    assert_eq!(recovery_source_name(7, &"x".repeat(300)), "recovery-7.nc");
    assert_eq!(safe_start_source_name(11, "long-job.nc"), "safe-start-L11-long-job.nc");
    assert_eq!(safe_start_source_name(11, &"y".repeat(300)), "safe-start-L11.nc");
}

#[test]
fn program_end_and_coordinate_words() {
    assert!(has_program_end("G0 X1 M30"));
    assert!(has_program_end("M2"));
    assert!(has_program_end("M02"));
    assert!(!has_program_end("M3 S1000"));
    assert!(!has_program_end("M300"));
    assert_eq!(wcs_word(ProgramWorkCoordinateSystem::G57), "G57");
}

#[test]
fn text_map_insert_replace_get_and_remove() {
    let mut map = TextMap::new();
    map.insert("$100".to_owned(), "250".to_owned());
    map.insert("$101".to_owned(), "251".to_owned());
    map.insert("$100".to_owned(), "260".to_owned());
    assert_eq!(map.get("$100").as_deref(), Some("260"));
    assert_eq!(map.entries().len(), 2);
    map.remove("$100");
    assert_eq!(map.get("$100"), None);
    assert_eq!(map.get("$101").as_deref(), Some("251"));
    map.remove("missing");
    assert_eq!(map.entries().len(), 1);
}

#[test]
fn decimals_print_like_numbers() {
    assert_eq!(canonical("250.000"), "250");
    assert_eq!(canonical("-007.50"), "-7.5");
    assert_eq!(canonical(".5"), "0.5");
    assert_eq!(rounded("2.5"), "2");
    assert_eq!(rounded("3.5"), "4");
    assert_eq!(rounded("9.51"), "10");
    assert!(decimal("38.2").in_probe_family());
    assert!(decimal("3.000").is(3));
    assert!(!decimal("3.1").is(3));
    assert_eq!(decimal("255").tool(), Some(255));
    assert_eq!(decimal("256").tool(), None);
    assert!(!decimal("-0.00").nonzero());
}

#[test]
fn probe_grids_need_two_to_one_hundred_and_one_points_per_axis() {
    assert_eq!(check_grid(2, 2), Ok(()));
    assert_eq!(check_grid(1, 5), Err(GridRefusal::TooSmall));
    assert_eq!(check_grid(5, 0), Err(GridRefusal::TooSmall));
    assert_eq!(check_grid(102, 5), Err(GridRefusal::TooLarge));
    assert_eq!(check_grid(100, 100), Ok(()));
    assert_eq!(check_grid(101, 100), Err(GridRefusal::TooManyPoints));
}

#[test]
fn text_map_entries_keep_their_first_insertion_order() {
    let mut map = TextMap::new();
    map.insert("b".to_owned(), "1".to_owned());
    map.insert("a".to_owned(), "2".to_owned());
    map.insert("c".to_owned(), "3".to_owned());
    map.insert("b".to_owned(), "4".to_owned());
    map.remove("a");
    let keys: Vec<(&str, &str)> = map.entries().iter().map(|(k, v)| (k.as_str(), v.as_str())).collect();
    assert_eq!(keys, vec![("b", "4"), ("c", "3")]);
}

#[test]
fn a_program_is_eligible_only_with_a_complete_preview_and_plain_warnings() {
    let note = |severity| ProgramWarning {
        source_line: 1,
        severity,
        code: ProgramWarningCode::OptionalBlock,
        message: String::new(),
    };
    assert!(dry_run_eligible(true, &[]));
    assert!(dry_run_eligible(true, &[note(ProgramWarningSeverity::Warning)]));
    assert!(!dry_run_eligible(false, &[]));
    assert!(!dry_run_eligible(true, &[note(ProgramWarningSeverity::Warning), note(ProgramWarningSeverity::Safety)]));
    assert!(!dry_run_eligible(true, &[note(ProgramWarningSeverity::Error)]));
}
