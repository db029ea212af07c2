use millo::gerber::normalize_legacy_coordinate_commands;
use millo::pcb::{
    admit_decoded, decode_source, gcode_name, validate_request, PcbError, PcbLayerRole,
    PcbSourceFile, MAX_DECODED_TOTAL_BYTES, MAX_ENCODED_FILE_BYTES, MAX_PCB_FILES,
};

fn file(name: &str, base64: &str) -> PcbSourceFile {
    PcbSourceFile {
        source_name: name.to_owned(),
        source_base64: base64.to_owned(),
        role: PcbLayerRole::Copper,
    }
}

fn normalized(text: &str) -> Result<String, PcbError> {
    normalize_legacy_coordinate_commands("top.gbr", text.as_bytes())
        .map(|bytes| String::from_utf8(bytes).unwrap())
}

fn unsupported(feature: &str) -> PcbError {
    PcbError::UnsupportedGerberFeature("top.gbr".to_owned(), feature.to_owned())
}

#[test]
fn legacy_absolute_mode_becomes_a_comment() {
    assert_eq!(
        normalized("G04 header*\nG90*\nX0Y0D02*\nM02*"),
        Ok("G04 header*\nG04 Millo accepted legacy G90 absolute mode*\nX0Y0D02*\nM02*".to_owned())
    );
    assert_eq!(normalized("G90D10*\nM02*"), Ok("D10*\nM02*".to_owned()));
}

#[test]
fn legacy_units_become_extended_units_unless_already_declared() {
    assert_eq!(normalized("G70*\nM02*"), Ok("%MOIN*%\nM02*".to_owned()));
    assert_eq!(normalized("G71D10*\nM02*"), Ok("%MOMM*%\nD10*\nM02*".to_owned()));
    assert_eq!(
        normalized("%MOIN*%\nG70*\nM02*"),
        Ok("%MOIN*%\nG04 Millo accepted legacy G70 inch mode*\nM02*".to_owned())
    );
    assert_eq!(
        normalized("%MOMM*%\n  G71D11*"),
        Ok("%MOMM*%\n  D11*".to_owned())
    );
}

#[test]
fn incremental_coordinates_and_contradicting_units_are_refused() {
    assert_eq!(normalized("G91*\nM02*"), Err(unsupported("incremental coordinates")));
    assert_eq!(
        normalized("%MOMM*%\nG70*"),
        Err(unsupported("conflicting legacy and extended units"))
    );
    assert_eq!(
        normalized("%MOIN*%\nG71*"),
        Err(unsupported("conflicting legacy and extended units"))
    );
}

#[test]
fn extended_blocks_and_other_commands_are_left_alone() {
    let text = "%FSLAX24Y24*%\n%ADD10C,0.1*%\nG900*\nG01X1Y1D01*\nM02*";
    assert_eq!(normalized(text), Ok(text.to_owned()));
    assert_eq!(normalized(""), Ok(String::new()));
    assert_eq!(normalized("no star"), Ok("no star".to_owned()));
}

#[test]
fn requests_need_files_a_valid_transform_and_usable_names() {
    assert_eq!(validate_request(&Vec::new(), true), Err(PcbError::MissingFiles));
    let many: Vec<PcbSourceFile> = (0..=MAX_PCB_FILES).map(|i| file(&format!("f{i}.gbr"), "")).collect();
    assert_eq!(validate_request(&many, true), Err(PcbError::TooManyFiles(16)));
    assert_eq!(validate_request(&vec![file("top.gbr", "")], false), Err(PcbError::InvalidTransform));
    assert_eq!(validate_request(&vec![file(" top.gbr ", ""), file("drill.xln", "")], true), Ok(()));
    assert_eq!(
        validate_request(&vec![file("top.gbr", ""), file("a/b.gbr", ""), file("   ", "")], true),
        Err(PcbError::InvalidSourceName("a/b.gbr".to_owned()))
    );
    assert_eq!(
        validate_request(&vec![file("   ", "")], true),
        Err(PcbError::InvalidSourceName("   ".to_owned()))
    );
    assert_eq!(
        validate_request(&vec![file(&"x".repeat(256), "")], true),
        Err(PcbError::InvalidSourceName("x".repeat(256)))
    );
}

#[test]
fn sources_decode_from_base64_within_the_total_limit() {
    assert_eq!(decode_source(&file("a.gbr", "aGVsbG8="), 10), Ok((b"hello".to_vec(), 15)));
    assert_eq!(
        decode_source(&file("a.gbr", "not base64!"), 0),
        Err(PcbError::InvalidBase64("a.gbr".to_owned()))
    );
    assert_eq!(
        decode_source(&file("a.gbr", "aGVsbG8="), MAX_DECODED_TOTAL_BYTES - 4),
        Err(PcbError::SourceTooLarge("a.gbr".to_owned()))
    );
    let huge = "A".repeat(MAX_ENCODED_FILE_BYTES + 4);
    assert_eq!(
        decode_source(&file("big.gbr", &huge), 0),
        Err(PcbError::SourceTooLarge("big.gbr".to_owned()))
    );
    assert_eq!(admit_decoded("a.gbr", None, 0), Err(PcbError::InvalidBase64("a.gbr".to_owned())));
    assert_eq!(admit_decoded("a.gbr", Some(vec![1, 2]), usize::MAX), Err(PcbError::SourceTooLarge("a.gbr".to_owned())));
    assert_eq!(admit_decoded("a.gbr", Some(vec![1, 2]), 3), Ok((vec![1, 2], 5)));
}

#[test]
fn generated_programs_are_named_with_the_nc_extension() {
    assert_eq!(gcode_name(" board "), "board.nc");
    assert_eq!(gcode_name("board.NC"), "board.NC");
    assert_eq!(gcode_name("board.nc"), "board.nc");
    assert_eq!(gcode_name("board.gbr"), "board.gbr.nc");
}
