//! The parsed-program vocabulary: source lines, diagnostics and modal states.
use vstd::prelude::*;

verus! {

/// Source name and text of a G-code program.
#[derive(Debug)]
pub struct ProgramParseRequest {
    pub source_name: String,
    pub source: String,
}

/// Options that change how a program is read.
#[derive(Clone, Copy, Debug, PartialEq, Eq, Structural)]
pub struct ProgramParseOptions {
    pub block_delete: bool,
}

#[derive(Clone, Copy, Debug, PartialEq, Eq, Structural)]
pub enum ToolpathKind {
    Rapid,
    Linear,
    ArcClockwise,
    ArcCounterclockwise,
}

#[derive(Clone, Copy, Debug, PartialEq, Eq, Structural)]
pub enum ProgramWarningSeverity {
    Warning,
    Safety,
    Error,
}

#[derive(Clone, Copy, Debug, PartialEq, Eq, Structural)]
pub enum ProgramWarningCode {
    UnclosedComment,
    UnexpectedCommentClose,
    InvalidToken,
    DuplicateWord,
    OptionalBlock,
    OptionalBlockUnsupported,
    ChecksumValidated,
    ChecksumInvalid,
    ChecksumUnsupported,
    UnsupportedGCode,
    UnsupportedMCode,
    UnsupportedWord,
    UnsupportedPlane,
    CoordinateSystemIgnored,
    UnsafeMachineCommand,
    SpindleActivation,
    SpindleSpeed,
    ToolChange,
    ArcDefinition,
    DwellDefinition,
    FeedRate,
    RotaryTimingUnavailable,
    ModalGroupConflict,
    PreviewLimit,
}

/// A diagnostic attached to a source line.
#[derive(Debug)]
pub struct ProgramWarning {
    pub source_line: usize,
    pub severity: ProgramWarningSeverity,
    pub code: ProgramWarningCode,
    pub message: String,
}

/// One source line with its normalized form.
#[derive(Debug)]
pub struct ProgramLine {
    pub source_line: usize,
    pub source: String,
    pub normalized: String,
    pub executable: bool,
    pub optional_block: bool,
    pub block_deleted: bool,
    pub checksum: Option<u8>,
    pub warning_count: usize,
}

#[derive(Clone, Copy, Debug, PartialEq, Eq, Structural)]
pub enum ProgramMotionMode {
    /// Motion cancelled by G80 (`None` in the serialized form).
    Cancelled,
    Rapid,
    Linear,
    ArcClockwise,
    ArcCounterclockwise,
}

#[derive(Clone, Copy, Debug, PartialEq, Eq, Structural)]
pub enum ProgramUnitMode {
    Millimeters,
    Inches,
}

#[derive(Clone, Copy, Debug, PartialEq, Eq, Structural)]
pub enum ProgramDistanceMode {
    Absolute,
    Incremental,
}

#[derive(Clone, Copy, Debug, PartialEq, Eq, Structural)]
pub enum ProgramFeedMode {
    InverseTime,
    UnitsPerMinute,
}

#[derive(Clone, Copy, Debug, PartialEq, Eq, Structural)]
pub enum ProgramPlane {
    Xy,
    Xz,
    Yz,
}

#[derive(Clone, Copy, Debug, PartialEq, Eq, Structural)]
pub enum ProgramSpindleMode {
    Off,
    Clockwise,
    Counterclockwise,
}

#[derive(Clone, Copy, Debug, PartialEq, Eq, Structural)]
pub enum ProgramWorkCoordinateSystem {
    G54,
    G55,
    G56,
    G57,
    G58,
    G59,
}

/// Program features that the sender and the operator care about.
#[derive(Clone, Copy, Debug, PartialEq, Eq, Structural)]
pub struct ProgramFeatures {
    pub uses_rotary_a: bool,
    pub uses_rotary_arc: bool,
    pub uses_inverse_time_feed: bool,
    pub uses_imperial_units: bool,
    pub uses_incremental_distance: bool,
    pub has_spindle_activation: bool,
    pub has_spindle_speed: bool,
    pub has_tool_change: bool,
    pub has_probe_cycle: bool,
    pub has_machine_coordinate_move: bool,
}

/// Why a program could not be read at all.
#[derive(Clone, Copy, Debug, PartialEq, Eq, Structural)]
pub enum ProgramParseError {
    MissingSourceName,
    SourceNameTooLong { max_bytes: usize },
    EmptySource,
    SourceTooLarge { max_bytes: usize },
    TooManyLines { max_lines: usize },
    SourceLineTooLong { source_line: usize, max_bytes: usize },
    TooManyDiagnostics { max_warnings: usize },
}

/// Per-line execution time of a program, in milliseconds; `None` when unknown.
#[derive(Debug)]
pub struct LineTiming {
    pub source_line: usize,
    pub duration_ms: Option<u64>,
}

/// One preview motion: the source line it comes from and how it moves.
#[derive(Clone, Copy, Debug, PartialEq, Eq, Structural)]
pub struct ProgramMotion {
    pub source_line: usize,
    pub kind: ToolpathKind,
}

/// What run planning reads of a parsed program: its lines, its diagnostics,
/// its completeness flags, its preview motions and its per-line timings.
#[derive(Debug)]
pub struct ProgramListing {
    pub source_name: String,
    pub block_delete_enabled: bool,
    pub line_count: usize,
    pub preview_complete: bool,
    pub time_estimate_complete: bool,
    /// Some cutting (non-rapid) toolpath point lies below work Z0.
    pub has_cutting_below_zero: bool,
    pub lines: Vec<ProgramLine>,
    pub warnings: Vec<ProgramWarning>,
    pub line_timings: Vec<LineTiming>,
    /// The preview toolpath, one entry per segment, in program order.
    pub motions: Vec<ProgramMotion>,
    /// Number of motion commands in the preview.
    pub motion_count: usize,
    /// Size of the preview bounds as `x × y × z` in millimetres with three
    /// decimals; present exactly when the preview has bounds.
    pub bounds_size: Option<String>,
}

/// Whether a read program may go to a dry run: its preview is complete and
/// every diagnostic is a plain warning (no error, no safety warning).
pub fn dry_run_eligible(preview_complete: bool, warnings: &[ProgramWarning]) -> (r: bool)
    ensures
        r == (preview_complete && forall|i: int|
            0 <= i < warnings@.len() ==> (#[trigger] warnings@[i]).severity
                == ProgramWarningSeverity::Warning),
{
    if !preview_complete {
        return false;
    }
    let mut i: usize = 0;
    while i < warnings.len()
        invariant
            i <= warnings@.len(),
            forall|k: int| 0 <= k < i ==> (#[trigger] warnings@[k]).severity == ProgramWarningSeverity::Warning,
        decreases warnings.len() - i,
    {
        if warnings[i].severity != ProgramWarningSeverity::Warning {
            return false;
        }
        i = i + 1;
    }
    true
}

} // verus!
