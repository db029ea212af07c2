//! The modal part of reading a G-code block: which codes a block selects,
//! which words it may hold together, and what it records about the program.
//!
//! Word values are exact decimals. A code matches every value that lies
//! within one millionth of it (so `G1`, `G01.000` and `G1.0000001` are G1);
//! the probing family `G38.x` is every value from 38 up to 39. Positions, distances and feed arithmetic are not part of this
//! pass: it reports what the block asks for and the caller moves the tool.
use vstd::prelude::*;

use crate::lexer::{WarningV, warn, warnings_view};
use crate::program::{
    ProgramDistanceMode, ProgramFeatures, ProgramFeedMode, ProgramMotionMode, ProgramPlane,
    ProgramSpindleMode, ProgramUnitMode, ProgramWarning, ProgramWarningCode,
    ProgramWarningSeverity, ProgramWorkCoordinateSystem,
};
use crate::text::{all_digits, dec, digits_value, push_chars, push_dec, push_str, string_from_chars};
use crate::word::{
    Decimal, DecimalV, all_zero, canonical, dec_in_probe_family, dec_nonzero, dec_tool,
    rounded,
};

verus! {

/// The modal state that blocks change.
#[derive(Clone, Copy, Debug, PartialEq, Eq, Structural)]
pub struct ModalState {
    pub motion: ProgramMotionMode,
    pub units: ProgramUnitMode,
    pub distance: ProgramDistanceMode,
    pub arc_distance: ProgramDistanceMode,
    pub feed_mode: ProgramFeedMode,
    pub plane: ProgramPlane,
    pub work_coordinate_system: ProgramWorkCoordinateSystem,
    pub selected_tool: Option<u8>,
    pub spindle_mode: ProgramSpindleMode,
    pub features: ProgramFeatures,
    pub preview_complete: bool,
    pub time_estimate_complete: bool,
}

/// The state at the start of a program: G0 G21 G90 G91.1 G94 G17 G54, spindle off.
pub open spec fn initial_modal() -> ModalState {
    ModalState {
        motion: ProgramMotionMode::Rapid,
        units: ProgramUnitMode::Millimeters,
        distance: ProgramDistanceMode::Absolute,
        arc_distance: ProgramDistanceMode::Incremental,
        feed_mode: ProgramFeedMode::UnitsPerMinute,
        plane: ProgramPlane::Xy,
        work_coordinate_system: ProgramWorkCoordinateSystem::G54,
        selected_tool: None,
        spindle_mode: ProgramSpindleMode::Off,
        features: ProgramFeatures {
            uses_rotary_a: false,
            uses_rotary_arc: false,
            uses_inverse_time_feed: false,
            uses_imperial_units: false,
            uses_incremental_distance: false,
            has_spindle_activation: false,
            has_spindle_speed: false,
            has_tool_change: false,
            has_probe_cycle: false,
            has_machine_coordinate_move: false,
        },
        preview_complete: true,
        time_estimate_complete: true,
    }
}

impl Default for ModalState {
    fn default() -> (r: Self)
        ensures
            r == initial_modal(),
    {
        ModalState {
            motion: ProgramMotionMode::Rapid,
            units: ProgramUnitMode::Millimeters,
            distance: ProgramDistanceMode::Absolute,
            arc_distance: ProgramDistanceMode::Incremental,
            feed_mode: ProgramFeedMode::UnitsPerMinute,
            plane: ProgramPlane::Xy,
            work_coordinate_system: ProgramWorkCoordinateSystem::G54,
            selected_tool: None,
            spindle_mode: ProgramSpindleMode::Off,
            features: ProgramFeatures {
                uses_rotary_a: false,
                uses_rotary_arc: false,
                uses_inverse_time_feed: false,
                uses_imperial_units: false,
                uses_incremental_distance: false,
                has_spindle_activation: false,
                has_spindle_speed: false,
                has_tool_change: false,
                has_probe_cycle: false,
                has_machine_coordinate_move: false,
            },
            preview_complete: true,
            time_estimate_complete: true,
        }
    }
}

/// A word of a block: its letter and exact value.
#[derive(Debug)]
pub struct BlockWord {
    pub letter: char,
    pub value: Decimal,
}

pub struct BlockWordV {
    pub letter: char,
    pub value: DecimalV,
}

pub open spec fn block_words_view(v: Seq<BlockWord>) -> Seq<BlockWordV> {
    v.map_values(|w: BlockWord| BlockWordV { letter: w.letter, value: w.value@ })
}

/// Every value holds only digits around its point.
pub open spec fn words_wf(v: Seq<BlockWord>) -> bool {
    forall|i: int|
        0 <= i < v.len() ==> all_digits((#[trigger] v[i]).value.int_digits@) && all_digits(
            v[i].value.frac_digits@,
        )
}

/// An integer from 54 to 59.
pub open spec fn dec_work_system(d: DecimalV) -> bool {
    !d.negative && all_zero(d.frac_digits) && 54 <= digits_value(d.int_digits) <= 59
}

/// Six `'0'` characters.
pub open spec fn six_zeros() -> Seq<char> {
    seq!['0', '0', '0', '0', '0', '0']
}

/// The magnitude in millionths, cut after the sixth fraction digit: for
/// `12.3456789` it is 12345678.
pub open spec fn millionths(d: DecimalV) -> nat {
    digits_value(d.int_digits) * 1_000_000 + digits_value((d.frac_digits + six_zeros()).take(6))
}

/// Some fraction digit after the sixth is not zero, so the magnitude lies
/// strictly above `millionths(d)` millionths.
pub open spec fn beyond_millionths(d: DecimalV) -> bool {
    d.frac_digits.len() > 6 && !all_zero(d.frac_digits.skip(6))
}

/// `|value - c / 1_000_000| < 1 / 1_000_000`. The magnitude is
/// `(millionths(d) + t) / 1_000_000` with `0 <= t < 1`, and `t > 0` exactly
/// when `beyond_millionths(d)`; a negative value is that close to `c >= 0`
/// only when `c` is zero and the magnitude is under one millionth.
pub open spec fn within_millionth(d: DecimalV, c: nat) -> bool {
    if d.negative {
        c == 0 && millionths(d) == 0
    } else {
        millionths(d) == c || (millionths(d) + 1 == c && beyond_millionths(d))
    }
}

/// The value is the code `k`: it lies within one millionth of `k`.
#[verifier::opaque]
pub open spec fn is_code(d: DecimalV, k: nat) -> bool {
    within_millionth(d, k * 1_000_000)
}

/// The value is the code `whole.tenth`: it lies within one millionth of it.
#[verifier::opaque]
pub open spec fn is_tenths_code(d: DecimalV, whole: nat, tenth: nat) -> bool {
    within_millionth(d, whole * 1_000_000 + tenth * 100_000)
}

/// The value lies in the probing family.
#[verifier::opaque]
pub open spec fn is_probe_code(d: DecimalV) -> bool {
    dec_in_probe_family(d)
}

/// The value selects one of G54 to G59.
#[verifier::opaque]
pub open spec fn is_work_system_code(d: DecimalV) -> bool {
    dec_work_system(d)
}

/// The value is not zero.
#[verifier::opaque]
pub open spec fn is_nonzero(d: DecimalV) -> bool {
    dec_nonzero(d)
}

/// The value as a tool number.
#[verifier::opaque]
pub open spec fn tool_of(d: DecimalV) -> Option<u8> {
    dec_tool(d)
}

/// The modal group of a G code, if it has one.
pub open spec fn g_group(d: DecimalV) -> Option<u8> {
    if is_code(d, 0) || is_code(d, 1) || is_code(d, 2) || is_code(d, 3) || is_code(d, 80)
        || is_probe_code(d) {
        Some(1)
    } else if is_code(d, 17) || is_code(d, 18) || is_code(d, 19) {
        Some(2)
    } else if is_code(d, 90) || is_code(d, 91) {
        Some(3)
    } else if is_tenths_code(d, 90, 1) || is_tenths_code(d, 91, 1) {
        Some(4)
    } else if is_code(d, 93) || is_code(d, 94) || is_code(d, 95) {
        Some(5)
    } else if is_code(d, 20) || is_code(d, 21) {
        Some(6)
    } else if is_code(d, 4) || is_code(d, 10) || is_code(d, 28) || is_code(d, 30) || is_code(d, 53)
        || is_code(d, 92) {
        Some(0)
    } else if is_code(d, 40) {
        Some(7)
    } else if is_code(d, 49) {
        Some(8)
    } else if is_work_system_code(d) {
        Some(12)
    } else if is_code(d, 61) {
        Some(13)
    } else {
        None
    }
}

/// The modal group of an M code, if it has one.
pub open spec fn m_group(d: DecimalV) -> Option<u8> {
    if is_code(d, 0) || is_code(d, 1) || is_code(d, 2) || is_code(d, 30) {
        Some(4)
    } else if is_code(d, 3) || is_code(d, 4) || is_code(d, 5) {
        Some(7)
    } else if is_code(d, 7) || is_code(d, 8) || is_code(d, 9) {
        Some(8)
    } else {
        None
    }
}

/// Letters that may appear once per block.
pub open spec fn value_letter(c: char) -> bool {
    c == 'X' || c == 'Y' || c == 'Z' || c == 'A' || c == 'I' || c == 'J' || c == 'K' || c == 'R'
        || c == 'F' || c == 'S' || c == 'T' || c == 'N' || c == 'P' || c == 'L' || c == 'H'
        || c == 'D' || c == 'Q' || c == 'O'
}

/// Letters the preview parser reads or ignores.
pub open spec fn known_letter(c: char) -> bool {
    c == 'G' || c == 'M' || c == 'S' || c == 'T' || c == 'A' || c == 'N' || c == 'O' || c == 'X'
        || c == 'Y' || c == 'Z' || c == 'I' || c == 'J' || c == 'K' || c == 'R' || c == 'F' || c
        == 'P' || c == 'L' || c == 'H' || c == 'D' || c == 'Q'
}

/// The state of the pass over a block's words.
pub struct PassV {
    pub st: ModalState,
    pub seen: Seq<char>,
    pub g_groups: Seq<u8>,
    pub m_groups: Seq<u8>,
    pub motion: ProgramMotionMode,
    pub skip_motion: bool,
    pub dwell: bool,
    pub feed_reset: bool,
    pub warnings: Seq<WarningV>,
}

pub open spec fn err(p: PassV, line: usize, code: ProgramWarningCode, msg: Seq<char>) -> PassV {
    PassV {
        skip_motion: true,
        warnings: p.warnings.push(warn(line, ProgramWarningSeverity::Error, code, msg)),
        ..p
    }
}

pub open spec fn note(
    p: PassV,
    line: usize,
    severity: ProgramWarningSeverity,
    code: ProgramWarningCode,
    msg: Seq<char>,
) -> PassV {
    PassV { warnings: p.warnings.push(warn(line, severity, code, msg)), ..p }
}

pub open spec fn with_state(p: PassV, st: ModalState) -> PassV {
    PassV { st, ..p }
}

/// What a G code selects.
#[derive(Clone, Copy, Debug, PartialEq, Eq, Structural)]
pub enum GClass {
    Motion(ProgramMotionMode),
    Plane(ProgramPlane),
    Inches,
    Millimeters,
    Absolute,
    Incremental,
    ArcAbsolute,
    ArcIncremental,
    InverseTime,
    UnitsPerMinute,
    PerRevolution,
    Ignored,
    PathBlending,
    WorkSystem(ProgramWorkCoordinateSystem),
    Dwell,
    MachineCommand,
    Unsupported,
}

/// The system G54 to G59 that an integer 54 to 59 selects.
pub open spec fn work_system_of(d: DecimalV) -> ProgramWorkCoordinateSystem {
    let v = digits_value(d.int_digits);
    if v == 54 {
        ProgramWorkCoordinateSystem::G54
    } else if v == 55 {
        ProgramWorkCoordinateSystem::G55
    } else if v == 56 {
        ProgramWorkCoordinateSystem::G56
    } else if v == 57 {
        ProgramWorkCoordinateSystem::G57
    } else if v == 58 {
        ProgramWorkCoordinateSystem::G58
    } else {
        ProgramWorkCoordinateSystem::G59
    }
}

/// What a G code selects, tested in this order.
pub open spec fn g_class(d: DecimalV) -> GClass {
    if is_code(d, 0) {
        GClass::Motion(ProgramMotionMode::Rapid)
    } else if is_code(d, 1) {
        GClass::Motion(ProgramMotionMode::Linear)
    } else if is_code(d, 2) {
        GClass::Motion(ProgramMotionMode::ArcClockwise)
    } else if is_code(d, 3) {
        GClass::Motion(ProgramMotionMode::ArcCounterclockwise)
    } else if is_code(d, 17) {
        GClass::Plane(ProgramPlane::Xy)
    } else if is_code(d, 18) {
        GClass::Plane(ProgramPlane::Xz)
    } else if is_code(d, 19) {
        GClass::Plane(ProgramPlane::Yz)
    } else if is_code(d, 20) {
        GClass::Inches
    } else if is_code(d, 21) {
        GClass::Millimeters
    } else if is_code(d, 90) {
        GClass::Absolute
    } else if is_code(d, 91) {
        GClass::Incremental
    } else if is_tenths_code(d, 90, 1) {
        GClass::ArcAbsolute
    } else if is_tenths_code(d, 91, 1) {
        GClass::ArcIncremental
    } else if is_code(d, 93) {
        GClass::InverseTime
    } else if is_code(d, 94) {
        GClass::UnitsPerMinute
    } else if is_code(d, 95) {
        GClass::PerRevolution
    } else if is_code(d, 40) || is_code(d, 49) {
        GClass::Ignored
    } else if is_code(d, 80) {
        GClass::Motion(ProgramMotionMode::Cancelled)
    } else if is_code(d, 61) {
        GClass::Ignored
    } else if is_code(d, 64) {
        GClass::PathBlending
    } else if is_work_system_code(d) {
        GClass::WorkSystem(work_system_of(d))
    } else if is_code(d, 4) {
        GClass::Dwell
    } else if is_code(d, 10) || is_code(d, 28) || is_code(d, 30) || is_code(d, 53) || is_code(d, 92)
        || is_probe_code(d) {
        GClass::MachineCommand
    } else {
        GClass::Unsupported
    }
}

/// What one G code does.
pub open spec fn g_code(p: PassV, d: DecimalV, line: usize) -> PassV {
    let st = p.st;
    let f = st.features;
    match g_class(d) {
        GClass::Motion(m) => PassV { motion: m, ..p },
        GClass::Plane(pl) => with_state(p, ModalState { plane: pl, ..st }),
        GClass::Inches => PassV {
            st: ModalState {
                units: ProgramUnitMode::Inches,
                features: ProgramFeatures { uses_imperial_units: true, ..f },
                ..st
            },
            feed_reset: p.feed_reset || st.units != ProgramUnitMode::Inches,
            ..p
        },
        GClass::Millimeters => PassV {
            st: ModalState { units: ProgramUnitMode::Millimeters, ..st },
            feed_reset: p.feed_reset || st.units != ProgramUnitMode::Millimeters,
            ..p
        },
        GClass::Absolute => with_state(p, ModalState { distance: ProgramDistanceMode::Absolute, ..st }),
        GClass::Incremental => with_state(
            p,
            ModalState {
                distance: ProgramDistanceMode::Incremental,
                features: ProgramFeatures { uses_incremental_distance: true, ..f },
                ..st
            },
        ),
        GClass::ArcAbsolute => err(
            with_state(p, ModalState { arc_distance: ProgramDistanceMode::Absolute, ..st }),
            line,
            ProgramWarningCode::UnsupportedGCode,
            "G90.1 absolute arc centers can be previewed but are not supported by GRBL 1.1"@,
        ),
        GClass::ArcIncremental => with_state(
            p,
            ModalState { arc_distance: ProgramDistanceMode::Incremental, ..st },
        ),
        GClass::InverseTime => PassV {
            st: ModalState {
                feed_mode: ProgramFeedMode::InverseTime,
                features: ProgramFeatures { uses_inverse_time_feed: true, ..f },
                ..st
            },
            feed_reset: p.feed_reset || st.feed_mode != ProgramFeedMode::InverseTime,
            ..p
        },
        GClass::UnitsPerMinute => PassV {
            st: ModalState { feed_mode: ProgramFeedMode::UnitsPerMinute, ..st },
            feed_reset: p.feed_reset || st.feed_mode != ProgramFeedMode::UnitsPerMinute,
            ..p
        },
        GClass::PerRevolution => err(
            p,
            line,
            ProgramWarningCode::UnsupportedGCode,
            "G95 units-per-revolution feed is not supported by GRBL 1.1"@,
        ),
        GClass::Ignored => p,
        GClass::PathBlending => err(
            p,
            line,
            ProgramWarningCode::UnsupportedGCode,
            "G64 is not supported by GRBL 1.1"@,
        ),
        GClass::WorkSystem(wcs) => note(
            with_state(p, ModalState { work_coordinate_system: wcs, ..st }),
            line,
            ProgramWarningSeverity::Warning,
            ProgramWarningCode::CoordinateSystemIgnored,
            "G"@ + rounded(d) + " is recorded but work offsets are not applied to local preview"@,
        ),
        GClass::Dwell => PassV { dwell: true, ..p },
        GClass::MachineCommand => PassV {
            st: ModalState {
                features: ProgramFeatures {
                    has_probe_cycle: f.has_probe_cycle || is_probe_code(d),
                    has_machine_coordinate_move: f.has_machine_coordinate_move || is_code(d, 53),
                    ..f
                },
                ..st
            },
            skip_motion: true,
            warnings: p.warnings.push(
                warn(
                    line,
                    ProgramWarningSeverity::Safety,
                    ProgramWarningCode::UnsafeMachineCommand,
                    "G"@ + canonical(d) + " is excluded from preview and future dry run"@,
                ),
            ),
            ..p
        },
        GClass::Unsupported => err(
            p,
            line,
            ProgramWarningCode::UnsupportedGCode,
            "G"@ + canonical(d) + " is not supported by the preview parser"@,
        ),
    }
}

/// What an M code selects.
#[derive(Clone, Copy, Debug, PartialEq, Eq, Structural)]
pub enum MClass {
    Spindle(ProgramSpindleMode),
    ToolChange,
    Coolant,
    SpindleStop,
    Neutral,
    Unknown,
}

/// What an M code selects, tested in this order.
pub open spec fn m_class(d: DecimalV) -> MClass {
    if is_code(d, 3) {
        MClass::Spindle(ProgramSpindleMode::Clockwise)
    } else if is_code(d, 4) {
        MClass::Spindle(ProgramSpindleMode::Counterclockwise)
    } else if is_code(d, 6) {
        MClass::ToolChange
    } else if is_code(d, 7) || is_code(d, 8) {
        MClass::Coolant
    } else if is_code(d, 5) {
        MClass::SpindleStop
    } else if is_code(d, 9) || is_code(d, 0) || is_code(d, 1) || is_code(d, 2) || is_code(d, 30) {
        MClass::Neutral
    } else {
        MClass::Unknown
    }
}

/// What one M code does.
pub open spec fn m_code(p: PassV, d: DecimalV, line: usize) -> PassV {
    let st = p.st;
    let f = st.features;
    match m_class(d) {
        MClass::Spindle(mode) => note(
            with_state(
                p,
                ModalState {
                    spindle_mode: mode,
                    features: ProgramFeatures { has_spindle_activation: true, ..f },
                    ..st
                },
            ),
            line,
            ProgramWarningSeverity::Safety,
            ProgramWarningCode::SpindleActivation,
            "M"@ + rounded(d) + " spindle activation will be blocked by dry run"@,
        ),
        MClass::ToolChange => note(
            with_state(p, ModalState { features: ProgramFeatures { has_tool_change: true, ..f }, ..st }),
            line,
            ProgramWarningSeverity::Safety,
            ProgramWarningCode::ToolChange,
            "M6 requires a host-managed operator tool-change barrier"@,
        ),
        MClass::Coolant => note(
            p,
            line,
            ProgramWarningSeverity::Safety,
            ProgramWarningCode::UnsafeMachineCommand,
            "M"@ + rounded(d) + " coolant activation will be blocked by dry run"@,
        ),
        MClass::SpindleStop => with_state(p, ModalState { spindle_mode: ProgramSpindleMode::Off, ..st }),
        MClass::Neutral => p,
        MClass::Unknown => note(
            p,
            line,
            ProgramWarningSeverity::Safety,
            ProgramWarningCode::UnsupportedMCode,
            "M"@ + rounded(d) + " is unknown and will be blocked by dry run"@,
        ),
    }
}

/// A repeated value letter is an error.
pub open spec fn duplicate_step(p: PassV, w: BlockWordV, line: usize) -> PassV {
    if p.seen.contains(w.letter) && value_letter(w.letter) {
        PassV {
            st: ModalState { preview_complete: false, ..p.st },
            ..err(
                p,
                line,
                ProgramWarningCode::DuplicateWord,
                seq![w.letter] + " appears more than once; GRBL rejects repeated value words"@,
            )
        }
    } else {
        p
    }
}

/// Two codes of one modal group in a block are an error.
pub open spec fn group_step(groups: Seq<u8>, group: Option<u8>) -> (Seq<u8>, Option<u8>) {
    match group {
        Some(g) => if groups.contains(g) {
            (groups, Some(g))
        } else {
            (groups.push(g), None)
        },
        None => (groups, None),
    }
}

pub open spec fn conflict(p: PassV, line: usize, kind: Seq<char>, g: u8) -> PassV {
    PassV {
        st: ModalState { preview_complete: false, ..p.st },
        ..err(
            p,
            line,
            ProgramWarningCode::ModalGroupConflict,
            "more than one "@ + kind + "-code from modal group "@ + dec(g as nat) + " in one block"@,
        )
    }
}

/// A G word: its modal group, then its code.
#[verifier::opaque]
pub open spec fn g_word(p: PassV, d: DecimalV, line: usize) -> PassV {
    let (gs, c) = group_step(p.g_groups, g_group(d));
    let q = PassV { g_groups: gs, ..p };
    let q2 = match c {
        Some(g) => conflict(q, line, "G"@, g),
        None => q,
    };
    g_code(q2, d, line)
}

/// An M word: its modal group, then its code.
#[verifier::opaque]
pub open spec fn m_word(p: PassV, d: DecimalV, line: usize) -> PassV {
    let (ms, c) = group_step(p.m_groups, m_group(d));
    let q = PassV { m_groups: ms, ..p };
    let q2 = match c {
        Some(g) => conflict(q, line, "M"@, g),
        None => q,
    };
    m_code(q2, d, line)
}

/// Records the letter as seen in this block.
pub open spec fn seen_step(p: PassV, w: BlockWordV) -> PassV {
    PassV {
        seen: if p.seen.contains(w.letter) {
            p.seen
        } else {
            p.seen.push(w.letter)
        },
        ..p
    }
}

/// One word of a block, read in order.
pub open spec fn word_step(p: PassV, w: BlockWordV, line: usize) -> PassV {
    letter_step(seen_step(duplicate_step(p, w, line), w), w, line)
}

/// An S word: a nonzero speed is recorded and flagged.
#[verifier::opaque]
pub open spec fn s_word(p: PassV, d: DecimalV, line: usize) -> PassV {
    let st = p.st;
    if is_nonzero(d) {
        note(
            with_state(
                p,
                ModalState { features: ProgramFeatures { has_spindle_speed: true, ..st.features }, ..st },
            ),
            line,
            ProgramWarningSeverity::Safety,
            ProgramWarningCode::SpindleSpeed,
            "spindle speed is recorded but will be blocked by dry run"@,
        )
    } else {
        p
    }
}

/// A T word: selects a tool in 0..=255, or is refused.
#[verifier::opaque]
pub open spec fn t_word(p: PassV, d: DecimalV, line: usize) -> PassV {
    let st = p.st;
    match tool_of(d) {
        Some(t) => with_state(p, ModalState { selected_tool: Some(t), ..st }),
        None => PassV {
            st: ModalState { preview_complete: false, ..st },
            ..err(
                p,
                line,
                ProgramWarningCode::UnsupportedWord,
                "T tool number must be an integer from 0 to 255"@,
            )
        },
    }
}

/// A word whose letter the preview does not read: accepted when the letter
/// is known, refused otherwise.
#[verifier::opaque]
pub open spec fn other_word(p: PassV, letter: char, line: usize) -> PassV {
    let st = p.st;
    if known_letter(letter) {
        p
    } else {
        PassV {
            st: ModalState { preview_complete: false, ..st },
            ..err(
                p,
                line,
                ProgramWarningCode::UnsupportedWord,
                seq![letter] + " words are not supported by the preview parser"@,
            )
        }
    }
}

/// What the word's letter does.
pub open spec fn letter_step(p: PassV, w: BlockWordV, line: usize) -> PassV {
    let d = w.value;
    let st = p.st;
    if w.letter == 'G' {
        g_word(p, d, line)
    } else if w.letter == 'M' {
        m_word(p, d, line)
    } else if w.letter == 'S' {
        s_word(p, d, line)
    } else if w.letter == 'T' {
        t_word(p, d, line)
    } else if w.letter == 'A' {
        with_state(
            p,
            ModalState { features: ProgramFeatures { uses_rotary_a: true, ..st.features }, ..st },
        )
    } else {
        other_word(p, w.letter, line)
    }
}

pub open spec fn words_pass(p: PassV, ws: Seq<BlockWordV>, line: usize) -> PassV
    decreases ws.len(),
{
    if ws.len() == 0 {
        p
    } else {
        words_pass(word_step(p, ws[0], line), ws.drop_first(), line)
    }
}

/// The pass before any word is read.
pub open spec fn pass_start(st: ModalState) -> PassV {
    PassV {
        st,
        seen: Seq::empty(),
        g_groups: Seq::empty(),
        m_groups: Seq::empty(),
        motion: st.motion,
        skip_motion: false,
        dwell: false,
        feed_reset: false,
        warnings: Seq::empty(),
    }
}


// ---------------------------------------------------------------------------
// Implementation
// ---------------------------------------------------------------------------

struct Pass {
    st: ModalState,
    seen: Vec<char>,
    g_groups: Vec<u8>,
    m_groups: Vec<u8>,
    motion: ProgramMotionMode,
    skip_motion: bool,
    dwell: bool,
    feed_reset: bool,
    warnings: Vec<ProgramWarning>,
}

impl View for Pass {
    type V = PassV;

    closed spec fn view(&self) -> PassV {
        PassV {
            st: self.st,
            seen: self.seen@,
            g_groups: self.g_groups@,
            m_groups: self.m_groups@,
            motion: self.motion,
            skip_motion: self.skip_motion,
            dwell: self.dwell,
            feed_reset: self.feed_reset,
            warnings: warnings_view(self.warnings@),
        }
    }
}

/// The first six fraction digits, missing ones read as zero, as a number.
fn six_fraction_digits(f: &[char]) -> (r: u64)
    requires
        all_digits(f@),
    ensures
        r == digits_value((f@ + six_zeros()).take(6)),
        r < 1_000_000,
{
    let ghost p = f@ + six_zeros();
    let mut acc: u64 = 0;
    let mut i: usize = 0;
    while i < 6
        invariant
            i <= 6,
            p == f@ + six_zeros(),
            all_digits(f@),
            acc == digits_value(p.take(i as int)),
            acc < 1_000_000,
            i <= 5 ==> acc < 100_000,
            i <= 4 ==> acc < 10_000,
            i <= 3 ==> acc < 1_000,
            i <= 2 ==> acc < 100,
            i <= 1 ==> acc < 10,
            i == 0 ==> acc == 0,
        decreases 6 - i,
    {
        let c = if i < f.len() {
            f[i]
        } else {
            '0'
        };
        assert(c == p[i as int]);
        assert(crate::text::is_ascii_digit(c));
        let digit = (c as u64) - 48;
        proof {
            assert(p.take(i + 1).drop_last() =~= p.take(i as int));
        }
        acc = acc * 10 + digit;
        i = i + 1;
    }
    acc
}

/// `millionths(d)`, when the whole part is at most 1000.
fn millionths_exec(d: &Decimal) -> (r: Option<u64>)
    requires
        all_digits(d.int_digits@),
        all_digits(d.frac_digits@),
    ensures
        r matches Some(v) ==> v == millionths(d@) && v < 1_001_000_000,
        r is None ==> millionths(d@) >= 1_001_000_000,
{
    let f = six_fraction_digits(d.frac_digits.as_slice());
    match crate::word::small_value(d.int_digits.as_slice()) {
        Some(v) => Some((v as u64) * 1_000_000 + f),
        None => None,
    }
}

/// `beyond_millionths(d)`.
fn beyond_millionths_exec(d: &Decimal) -> (r: bool)
    ensures
        r == beyond_millionths(d@),
{
    let n = d.frac_digits.len();
    if n > 6 {
        let rest = &d.frac_digits.as_slice()[6..n];
        assert(rest@ =~= d@.frac_digits.skip(6));
        !crate::word::chars_all_zero(rest)
    } else {
        false
    }
}

/// `within_millionth(d, c)`.
fn within_millionth_exec(d: &Decimal, c: u64) -> (r: bool)
    requires
        all_digits(d.int_digits@),
        all_digits(d.frac_digits@),
        c <= 1_000_900_000,
    ensures
        r == within_millionth(d@, c as nat),
{
    match millionths_exec(d) {
        None => false,
        Some(m) => {
            if d.negative {
                c == 0 && m == 0
            } else if m == c {
                true
            } else if m + 1 == c {
                beyond_millionths_exec(d)
            } else {
                false
            }
        },
    }
}

fn is_work_system(d: &Decimal) -> (r: Option<ProgramWorkCoordinateSystem>)
    requires
        all_digits(d.int_digits@),
        all_digits(d.frac_digits@),
    ensures
        r is Some == dec_work_system(d@),
        r matches Some(w) ==> w == (if digits_value(d@.int_digits) == 54 {
            ProgramWorkCoordinateSystem::G54
        } else if digits_value(d@.int_digits) == 55 {
            ProgramWorkCoordinateSystem::G55
        } else if digits_value(d@.int_digits) == 56 {
            ProgramWorkCoordinateSystem::G56
        } else if digits_value(d@.int_digits) == 57 {
            ProgramWorkCoordinateSystem::G57
        } else if digits_value(d@.int_digits) == 58 {
            ProgramWorkCoordinateSystem::G58
        } else {
            ProgramWorkCoordinateSystem::G59
        }),
{
    if d.negative || !crate::word::chars_all_zero(d.frac_digits.as_slice()) {
        return None;
    }
    match crate::word::small_value(d.int_digits.as_slice()) {
        Some(v) => if v == 54 {
            Some(ProgramWorkCoordinateSystem::G54)
        } else if v == 55 {
            Some(ProgramWorkCoordinateSystem::G55)
        } else if v == 56 {
            Some(ProgramWorkCoordinateSystem::G56)
        } else if v == 57 {
            Some(ProgramWorkCoordinateSystem::G57)
        } else if v == 58 {
            Some(ProgramWorkCoordinateSystem::G58)
        } else if v == 59 {
            Some(ProgramWorkCoordinateSystem::G59)
        } else {
            None
        },
        None => None,
    }
}

fn code(d: &Decimal, k: u32) -> (r: bool)
    requires
        all_digits(d.int_digits@),
        all_digits(d.frac_digits@),
        k <= 1000,
    ensures
        r == is_code(d@, k as nat),
{
    reveal(is_code);
    within_millionth_exec(d, (k as u64) * 1_000_000)
}

fn probe_code(d: &Decimal) -> (r: bool)
    requires
        all_digits(d.int_digits@),
        all_digits(d.frac_digits@),
    ensures
        r == is_probe_code(d@),
{
    reveal(is_probe_code);
    d.in_probe_family()
}

fn tenths_code(d: &Decimal, whole: u32, tenth: u32) -> (r: bool)
    requires
        all_digits(d.int_digits@),
        all_digits(d.frac_digits@),
        whole <= 1000,
        tenth <= 9,
    ensures
        r == is_tenths_code(d@, whole as nat, tenth as nat),
{
    reveal(is_tenths_code);
    within_millionth_exec(d, (whole as u64) * 1_000_000 + (tenth as u64) * 100_000)
}

fn work_system_code(d: &Decimal) -> (r: Option<ProgramWorkCoordinateSystem>)
    requires
        all_digits(d.int_digits@),
        all_digits(d.frac_digits@),
    ensures
        r is Some == is_work_system_code(d@),
        r matches Some(w) ==> w == (if digits_value(d@.int_digits) == 54 {
            ProgramWorkCoordinateSystem::G54
        } else if digits_value(d@.int_digits) == 55 {
            ProgramWorkCoordinateSystem::G55
        } else if digits_value(d@.int_digits) == 56 {
            ProgramWorkCoordinateSystem::G56
        } else if digits_value(d@.int_digits) == 57 {
            ProgramWorkCoordinateSystem::G57
        } else if digits_value(d@.int_digits) == 58 {
            ProgramWorkCoordinateSystem::G58
        } else {
            ProgramWorkCoordinateSystem::G59
        }),
{
    reveal(is_work_system_code);
    is_work_system(d)
}

fn nonzero(d: &Decimal) -> (r: bool)
    requires
        all_digits(d.int_digits@),
        all_digits(d.frac_digits@),
    ensures
        r == is_nonzero(d@),
{
    reveal(is_nonzero);
    d.nonzero()
}

fn tool(d: &Decimal) -> (r: Option<u8>)
    requires
        all_digits(d.int_digits@),
        all_digits(d.frac_digits@),
    ensures
        r == tool_of(d@),
{
    reveal(tool_of);
    d.tool()
}

fn g_group_exec(d: &Decimal) -> (r: Option<u8>)
    requires
        all_digits(d.int_digits@),
        all_digits(d.frac_digits@),
    ensures
        r == g_group(d@),
{
    if code(d, 0) || code(d, 1) || code(d, 2) || code(d, 3) || code(d, 80) || probe_code(d) {
        Some(1)
    } else if code(d, 17) || code(d, 18) || code(d, 19) {
        Some(2)
    } else if code(d, 90) || code(d, 91) {
        Some(3)
    } else if tenths_code(d, 90, 1) || tenths_code(d, 91, 1) {
        Some(4)
    } else if code(d, 93) || code(d, 94) || code(d, 95) {
        Some(5)
    } else if code(d, 20) || code(d, 21) {
        Some(6)
    } else if code(d, 4) || code(d, 10) || code(d, 28) || code(d, 30) || code(d, 53) || code(d, 92) {
        Some(0)
    } else if code(d, 40) {
        Some(7)
    } else if code(d, 49) {
        Some(8)
    } else if work_system_code(d).is_some() {
        Some(12)
    } else if code(d, 61) {
        Some(13)
    } else {
        None
    }
}

fn m_group_exec(d: &Decimal) -> (r: Option<u8>)
    requires
        all_digits(d.int_digits@),
        all_digits(d.frac_digits@),
    ensures
        r == m_group(d@),
{
    if code(d, 0) || code(d, 1) || code(d, 2) || code(d, 30) {
        Some(4)
    } else if code(d, 3) || code(d, 4) || code(d, 5) {
        Some(7)
    } else if code(d, 7) || code(d, 8) || code(d, 9) {
        Some(8)
    } else {
        None
    }
}

fn contains_u8(v: &Vec<u8>, x: u8) -> (r: bool)
    ensures
        r == v@.contains(x),
{
    let mut i: usize = 0;
    while i < v.len()
        invariant
            i <= v.len(),
            forall|k: int| 0 <= k < i ==> v@[k] != x,
        decreases v.len() - i,
    {
        if v[i] == x {
            assert(v@[i as int] == x);
            return true;
        }
        i = i + 1;
    }
    false
}

impl Pass {
    fn warn(&mut self, line: usize, severity: ProgramWarningSeverity, code: ProgramWarningCode, msg: Vec<char>)
        ensures
            final(self)@ == note(old(self)@, line, severity, code, msg@),
    {
        let ghost before = self.warnings@;
        self.warnings.push(
            ProgramWarning { source_line: line, severity, code, message: string_from_chars(msg.as_slice()) },
        );
        assert(warnings_view(self.warnings@) =~= warnings_view(before).push(
            warn(line, severity, code, msg@),
        ));
    }

    fn error(&mut self, line: usize, code: ProgramWarningCode, msg: Vec<char>)
        ensures
            final(self)@ == err(old(self)@, line, code, msg@),
    {
        self.skip_motion = true;
        self.warn(line, ProgramWarningSeverity::Error, code, msg);
    }
}

fn text(s: &str) -> (v: Vec<char>)
    ensures
        v@ == s@,
{
    crate::text::chars_of(s)
}

fn g_class_exec(d: &Decimal) -> (c: GClass)
    requires
        all_digits(d.int_digits@),
        all_digits(d.frac_digits@),
    ensures
        c == g_class(d@),
{
    if code(d, 0) {
        GClass::Motion(ProgramMotionMode::Rapid)
    } else if code(d, 1) {
        GClass::Motion(ProgramMotionMode::Linear)
    } else if code(d, 2) {
        GClass::Motion(ProgramMotionMode::ArcClockwise)
    } else if code(d, 3) {
        GClass::Motion(ProgramMotionMode::ArcCounterclockwise)
    } else if code(d, 17) {
        GClass::Plane(ProgramPlane::Xy)
    } else if code(d, 18) {
        GClass::Plane(ProgramPlane::Xz)
    } else if code(d, 19) {
        GClass::Plane(ProgramPlane::Yz)
    } else if code(d, 20) {
        GClass::Inches
    } else if code(d, 21) {
        GClass::Millimeters
    } else if code(d, 90) {
        GClass::Absolute
    } else if code(d, 91) {
        GClass::Incremental
    } else if tenths_code(d, 90, 1) {
        GClass::ArcAbsolute
    } else if tenths_code(d, 91, 1) {
        GClass::ArcIncremental
    } else if code(d, 93) {
        GClass::InverseTime
    } else if code(d, 94) {
        GClass::UnitsPerMinute
    } else if code(d, 95) {
        GClass::PerRevolution
    } else if code(d, 40) || code(d, 49) {
        GClass::Ignored
    } else if code(d, 80) {
        GClass::Motion(ProgramMotionMode::Cancelled)
    } else if code(d, 61) {
        GClass::Ignored
    } else if code(d, 64) {
        GClass::PathBlending
    } else if let Some(w) = work_system_code(d) {
        GClass::WorkSystem(w)
    } else if code(d, 4) {
        GClass::Dwell
    } else if code(d, 10) || code(d, 28) || code(d, 30) || code(d, 53) || code(d, 92)
        || probe_code(d) {
        GClass::MachineCommand
    } else {
        GClass::Unsupported
    }
}

fn g_code_exec(p: &mut Pass, d: &Decimal, line: usize)
    requires
        all_digits(d.int_digits@),
        all_digits(d.frac_digits@),
    ensures
        final(p)@ == g_code(old(p)@, d@, line),
{
    let st = p.st;
    let f = st.features;
    match g_class_exec(d) {
        GClass::Motion(m) => {
            p.motion = m;
        },
        GClass::Plane(pl) => {
            p.st = ModalState { plane: pl, ..st };
        },
        GClass::Inches => {
            p.st = ModalState {
                units: ProgramUnitMode::Inches,
                features: ProgramFeatures { uses_imperial_units: true, ..f },
                ..st
            };
            p.feed_reset = p.feed_reset || st.units != ProgramUnitMode::Inches;
        },
        GClass::Millimeters => {
            p.st = ModalState { units: ProgramUnitMode::Millimeters, ..st };
            p.feed_reset = p.feed_reset || st.units != ProgramUnitMode::Millimeters;
        },
        GClass::Absolute => {
            p.st = ModalState { distance: ProgramDistanceMode::Absolute, ..st };
        },
        GClass::Incremental => {
            p.st = ModalState {
                distance: ProgramDistanceMode::Incremental,
                features: ProgramFeatures { uses_incremental_distance: true, ..f },
                ..st
            };
        },
        GClass::ArcAbsolute => {
            p.st = ModalState { arc_distance: ProgramDistanceMode::Absolute, ..st };
            p.error(
                line,
                ProgramWarningCode::UnsupportedGCode,
                text("G90.1 absolute arc centers can be previewed but are not supported by GRBL 1.1"),
            );
        },
        GClass::ArcIncremental => {
            p.st = ModalState { arc_distance: ProgramDistanceMode::Incremental, ..st };
        },
        _ => {
            g_code_rest_exec(p, d, line);
        },
    }
}

fn g_code_rest_exec(p: &mut Pass, d: &Decimal, line: usize)
    requires
        all_digits(d.int_digits@),
        all_digits(d.frac_digits@),
        !(g_class(d@) is Motion || g_class(d@) is Plane || g_class(d@) is Inches || g_class(d@) is Millimeters
            || g_class(d@) is Absolute || g_class(d@) is Incremental || g_class(d@) is ArcAbsolute
            || g_class(d@) is ArcIncremental),
    ensures
        final(p)@ == g_code(old(p)@, d@, line),
{
    let st = p.st;
    let f = st.features;
    match g_class_exec(d) {
        GClass::InverseTime => {
            p.st = ModalState {
                feed_mode: ProgramFeedMode::InverseTime,
                features: ProgramFeatures { uses_inverse_time_feed: true, ..f },
                ..st
            };
            p.feed_reset = p.feed_reset || st.feed_mode != ProgramFeedMode::InverseTime;
        },
        GClass::UnitsPerMinute => {
            p.st = ModalState { feed_mode: ProgramFeedMode::UnitsPerMinute, ..st };
            p.feed_reset = p.feed_reset || st.feed_mode != ProgramFeedMode::UnitsPerMinute;
        },
        GClass::PerRevolution => {
            p.error(
                line,
                ProgramWarningCode::UnsupportedGCode,
                text("G95 units-per-revolution feed is not supported by GRBL 1.1"),
            );
        },
        GClass::Ignored => {},
        GClass::PathBlending => {
            p.error(line, ProgramWarningCode::UnsupportedGCode, text("G64 is not supported by GRBL 1.1"));
        },
        GClass::WorkSystem(wcs) => {
            p.st = ModalState { work_coordinate_system: wcs, ..st };
            let mut msg: Vec<char> = Vec::new();
            push_str(&mut msg, "G");
            let r = d.rounded_text();
            push_chars(&mut msg, r.as_slice());
            push_str(&mut msg, " is recorded but work offsets are not applied to local preview");
            p.warn(line, ProgramWarningSeverity::Warning, ProgramWarningCode::CoordinateSystemIgnored, msg);
        },
        GClass::Dwell => {
            p.dwell = true;
        },
        GClass::MachineCommand => {
            let probe = probe_code(d);
            let machine = code(d, 53);
            p.st = ModalState {
                features: ProgramFeatures {
                    has_probe_cycle: f.has_probe_cycle || probe,
                    has_machine_coordinate_move: f.has_machine_coordinate_move || machine,
                    ..f
                },
                ..st
            };
            p.skip_motion = true;
            let mut msg: Vec<char> = Vec::new();
            push_str(&mut msg, "G");
            let c = d.canonical_text();
            push_chars(&mut msg, c.as_slice());
            push_str(&mut msg, " is excluded from preview and future dry run");
            p.warn(line, ProgramWarningSeverity::Safety, ProgramWarningCode::UnsafeMachineCommand, msg);
        },
        GClass::Unsupported => {
            let mut msg: Vec<char> = Vec::new();
            push_str(&mut msg, "G");
            let c = d.canonical_text();
            push_chars(&mut msg, c.as_slice());
            push_str(&mut msg, " is not supported by the preview parser");
            p.error(line, ProgramWarningCode::UnsupportedGCode, msg);
        },
        _ => {},
    }
}

fn m_class_exec(d: &Decimal) -> (c: MClass)
    requires
        all_digits(d.int_digits@),
        all_digits(d.frac_digits@),
    ensures
        c == m_class(d@),
{
    if code(d, 3) {
        MClass::Spindle(ProgramSpindleMode::Clockwise)
    } else if code(d, 4) {
        MClass::Spindle(ProgramSpindleMode::Counterclockwise)
    } else if code(d, 6) {
        MClass::ToolChange
    } else if code(d, 7) || code(d, 8) {
        MClass::Coolant
    } else if code(d, 5) {
        MClass::SpindleStop
    } else if code(d, 9) || code(d, 0) || code(d, 1) || code(d, 2) || code(d, 30) {
        MClass::Neutral
    } else {
        MClass::Unknown
    }
}

fn m_code_exec(p: &mut Pass, d: &Decimal, line: usize)
    requires
        all_digits(d.int_digits@),
        all_digits(d.frac_digits@),
    ensures
        final(p)@ == m_code(old(p)@, d@, line),
{
    let st = p.st;
    let f = st.features;
    match m_class_exec(d) {
        MClass::Spindle(mode) => {
            p.st = ModalState {
                spindle_mode: mode,
                features: ProgramFeatures { has_spindle_activation: true, ..f },
                ..st
            };
            let mut msg: Vec<char> = Vec::new();
            push_str(&mut msg, "M");
            let r = d.rounded_text();
            push_chars(&mut msg, r.as_slice());
            push_str(&mut msg, " spindle activation will be blocked by dry run");
            p.warn(line, ProgramWarningSeverity::Safety, ProgramWarningCode::SpindleActivation, msg);
        },
        MClass::ToolChange => {
            p.st = ModalState { features: ProgramFeatures { has_tool_change: true, ..f }, ..st };
            p.warn(
                line,
                ProgramWarningSeverity::Safety,
                ProgramWarningCode::ToolChange,
                text("M6 requires a host-managed operator tool-change barrier"),
            );
        },
        MClass::Coolant => {
            let mut msg: Vec<char> = Vec::new();
            push_str(&mut msg, "M");
            let r = d.rounded_text();
            push_chars(&mut msg, r.as_slice());
            push_str(&mut msg, " coolant activation will be blocked by dry run");
            p.warn(line, ProgramWarningSeverity::Safety, ProgramWarningCode::UnsafeMachineCommand, msg);
        },
        MClass::SpindleStop => {
            p.st = ModalState { spindle_mode: ProgramSpindleMode::Off, ..st };
        },
        MClass::Neutral => {},
        MClass::Unknown => {
            let mut msg: Vec<char> = Vec::new();
            push_str(&mut msg, "M");
            let r = d.rounded_text();
            push_chars(&mut msg, r.as_slice());
            push_str(&mut msg, " is unknown and will be blocked by dry run");
            p.warn(line, ProgramWarningSeverity::Safety, ProgramWarningCode::UnsupportedMCode, msg);
        },
    }
}


fn value_letter_exec(c: char) -> (r: bool)
    ensures
        r == value_letter(c),
{
    c == 'X' || c == 'Y' || c == 'Z' || c == 'A' || c == 'I' || c == 'J' || c == 'K' || c == 'R'
        || c == 'F' || c == 'S' || c == 'T' || c == 'N' || c == 'P' || c == 'L' || c == 'H'
        || c == 'D' || c == 'Q' || c == 'O'
}

fn known_letter_exec(c: char) -> (r: bool)
    ensures
        r == known_letter(c),
{
    c == 'G' || c == 'M' || c == 'S' || c == 'T' || c == 'A' || c == 'N' || c == 'O' || c == 'X'
        || c == 'Y' || c == 'Z' || c == 'I' || c == 'J' || c == 'K' || c == 'R' || c == 'F' || c
        == 'P' || c == 'L' || c == 'H' || c == 'D' || c == 'Q'
}

fn group_conflict(p: &mut Pass, line: usize, kind: &str, g: u8)
    ensures
        final(p)@ == conflict(old(p)@, line, kind@, g),
{
    let mut msg: Vec<char> = Vec::new();
    push_str(&mut msg, "more than one ");
    push_str(&mut msg, kind);
    push_str(&mut msg, "-code from modal group ");
    push_dec(&mut msg, g as u64);
    push_str(&mut msg, " in one block");
    assert(msg@ =~= "more than one "@ + kind@ + "-code from modal group "@ + dec(g as nat) + " in one block"@);
    p.error(line, ProgramWarningCode::ModalGroupConflict, msg);
    p.st.preview_complete = false;
}

fn word_step_exec(p: &mut Pass, w: &BlockWord, line: usize)
    requires
        all_digits(w.value.int_digits@),
        all_digits(w.value.frac_digits@),
    ensures
        final(p)@ == word_step(old(p)@, BlockWordV { letter: w.letter, value: w.value@ }, line),
{
    let letter = w.letter;
    let already = crate::text::contains_char(p.seen.as_slice(), letter);
    if already && value_letter_exec(letter) {
        let mut msg: Vec<char> = Vec::new();
        msg.push(letter);
        push_str(&mut msg, " appears more than once; GRBL rejects repeated value words");
        assert(msg@ =~= seq![letter] + " appears more than once; GRBL rejects repeated value words"@);
        p.error(line, ProgramWarningCode::DuplicateWord, msg);
        p.st.preview_complete = false;
    }
    if !already {
        p.seen.push(letter);
    }
    letter_step_exec(p, w, line);
}

fn g_word_exec(p: &mut Pass, d: &Decimal, line: usize)
    requires
        all_digits(d.int_digits@),
        all_digits(d.frac_digits@),
    ensures
        final(p)@ == g_word(old(p)@, d@, line),
{
    reveal(g_word);
    match g_group_exec(d) {
        Some(k) => {
            if contains_u8(&p.g_groups, k) {
                group_conflict(p, line, "G", k);
            } else {
                p.g_groups.push(k);
            }
        },
        None => {},
    }
    g_code_exec(p, d, line);
}

fn m_word_exec(p: &mut Pass, d: &Decimal, line: usize)
    requires
        all_digits(d.int_digits@),
        all_digits(d.frac_digits@),
    ensures
        final(p)@ == m_word(old(p)@, d@, line),
{
    reveal(m_word);
    match m_group_exec(d) {
        Some(k) => {
            if contains_u8(&p.m_groups, k) {
                group_conflict(p, line, "M", k);
            } else {
                p.m_groups.push(k);
            }
        },
        None => {},
    }
    m_code_exec(p, d, line);
}

fn s_word_exec(p: &mut Pass, d: &Decimal, line: usize)
    requires
        all_digits(d.int_digits@),
        all_digits(d.frac_digits@),
    ensures
        final(p)@ == s_word(old(p)@, d@, line),
{
    reveal(s_word);
    let st = p.st;
    if nonzero(d) {
        p.st = ModalState { features: ProgramFeatures { has_spindle_speed: true, ..st.features }, ..st };
        p.warn(
            line,
            ProgramWarningSeverity::Safety,
            ProgramWarningCode::SpindleSpeed,
            text("spindle speed is recorded but will be blocked by dry run"),
        );
    }
}

fn t_word_exec(p: &mut Pass, d: &Decimal, line: usize)
    requires
        all_digits(d.int_digits@),
        all_digits(d.frac_digits@),
    ensures
        final(p)@ == t_word(old(p)@, d@, line),
{
    reveal(t_word);
    let st = p.st;
    match tool(d) {
        Some(t) => {
            p.st = ModalState { selected_tool: Some(t), ..st };
        },
        None => {
            p.error(
                line,
                ProgramWarningCode::UnsupportedWord,
                text("T tool number must be an integer from 0 to 255"),
            );
            p.st.preview_complete = false;
        },
    }
}

fn other_word_exec(p: &mut Pass, letter: char, line: usize)
    ensures
        final(p)@ == other_word(old(p)@, letter, line),
{
    reveal(other_word);
    if !known_letter_exec(letter) {
        let mut msg: Vec<char> = Vec::new();
        msg.push(letter);
        push_str(&mut msg, " words are not supported by the preview parser");
        assert(msg@ =~= seq![letter] + " words are not supported by the preview parser"@);
        p.error(line, ProgramWarningCode::UnsupportedWord, msg);
        p.st.preview_complete = false;
    }
}

fn letter_step_exec(p: &mut Pass, w: &BlockWord, line: usize)
    requires
        all_digits(w.value.int_digits@),
        all_digits(w.value.frac_digits@),
    ensures
        final(p)@ == letter_step(old(p)@, BlockWordV { letter: w.letter, value: w.value@ }, line),
{
    let letter = w.letter;
    let d = &w.value;
    if letter == 'G' {
        g_word_exec(p, d, line);
    } else if letter == 'M' {
        m_word_exec(p, d, line);
    } else if letter == 'S' {
        s_word_exec(p, d, line);
    } else if letter == 'T' {
        t_word_exec(p, d, line);
    } else if letter == 'A' {
        let st = p.st;
        p.st = ModalState { features: ProgramFeatures { uses_rotary_a: true, ..st.features }, ..st };
    } else {
        other_word_exec(p, letter, line);
    }
}

/// What the words of a block asked for, beyond the modal state.
#[derive(Clone, Copy, Debug, PartialEq, Eq, Structural)]
pub struct WordPass {
    /// The motion mode the block leaves in force.
    pub motion: ProgramMotionMode,
    /// The block's motion must not be previewed.
    pub skip_motion: bool,
    /// The block is a G4 dwell.
    pub dwell: bool,
    /// A unit or feed-mode change discarded the modal feed rate.
    pub feed_reset: bool,
}

/// Reads the words of a block in order: the modal codes they select, the
/// program features they show, and the diagnostics they raise. The new
/// motion mode is returned, not yet stored.
pub fn apply_words(
    state: &mut ModalState,
    words: &[BlockWord],
    source_line: usize,
    warnings: &mut Vec<ProgramWarning>,
) -> (r: WordPass)
    requires
        words_wf(words@),
    ensures
        ({
            let p = words_pass(pass_start(*old(state)), block_words_view(words@), source_line);
            &&& *final(state) == p.st
            &&& r.motion == p.motion
            &&& r.skip_motion == p.skip_motion
            &&& r.dwell == p.dwell
            &&& r.feed_reset == p.feed_reset
            &&& warnings_view(final(warnings)@) == warnings_view(old(warnings)@) + p.warnings
        }),
{
    let mut p = Pass {
        st: *state,
        seen: Vec::new(),
        g_groups: Vec::new(),
        m_groups: Vec::new(),
        motion: state.motion,
        skip_motion: false,
        dwell: false,
        feed_reset: false,
        warnings: Vec::new(),
    };
    assert(p@.seen =~= Seq::<char>::empty());
    assert(p@.g_groups =~= Seq::<u8>::empty());
    assert(p@.m_groups =~= Seq::<u8>::empty());
    assert(p@.warnings =~= Seq::<WarningV>::empty());
    assert(p@ == pass_start(*old(state)));
    let ghost ws = block_words_view(words@);
    let mut i: usize = 0;
    assert(ws.skip(0) =~= ws);
    while i < words.len()
        invariant
            i <= words@.len(),
            words_wf(words@),
            ws == block_words_view(words@),
            words_pass(pass_start(*old(state)), ws, source_line) == words_pass(
                p@,
                ws.skip(i as int),
                source_line,
            ),
        decreases words.len() - i,
    {
        assert(ws.skip(i as int)[0] == BlockWordV { letter: words@[i as int].letter, value: words@[i as int].value@ });
        assert(ws.skip(i as int).drop_first() =~= ws.skip(i + 1));
        word_step_exec(&mut p, &words[i], source_line);
        i = i + 1;
    }
    assert(ws.skip(i as int) =~= Seq::<BlockWordV>::empty());
    *state = p.st;
    let ghost before = warnings@;
    let mut k: usize = 0;
    while k < p.warnings.len()
        invariant
            k <= p.warnings@.len(),
            warnings_view(warnings@) == warnings_view(before) + warnings_view(p.warnings@).take(k as int),
        decreases p.warnings.len() - k,
    {
        let w = &p.warnings[k];
        let ghost prev = warnings@;
        warnings.push(ProgramWarning {
            source_line: w.source_line,
            severity: w.severity,
            code: w.code,
            message: w.message.clone(),
        });
        assert(warnings_view(warnings@) =~= warnings_view(prev).push(warnings_view(p.warnings@)[k as int]));
        k = k + 1;
        assert(warnings_view(p.warnings@).take(k as int) =~= warnings_view(p.warnings@).take(k - 1).push(
            warnings_view(p.warnings@)[k - 1],
        ));
    }
    assert(warnings_view(p.warnings@).take(p.warnings@.len() as int) =~= warnings_view(p.warnings@));
    WordPass { motion: p.motion, skip_motion: p.skip_motion, dwell: p.dwell, feed_reset: p.feed_reset }
}


// ---------------------------------------------------------------------------
// The rest of the block
// ---------------------------------------------------------------------------

#[verifier::opaque]
pub open spec fn has_word(ws: Seq<BlockWordV>, letter: char) -> bool {
    exists|i: int| 0 <= i < ws.len() && (#[trigger] ws[i]).letter == letter
}

/// The value of the last word with this letter.
pub open spec fn last_word(ws: Seq<BlockWordV>, letter: char) -> Option<DecimalV>
    decreases ws.len(),
{
    if ws.len() == 0 {
        None
    } else if ws.last().letter == letter {
        Some(ws.last().value)
    } else {
        last_word(ws.drop_last(), letter)
    }
}

pub open spec fn positive(d: DecimalV) -> bool {
    !d.negative && is_nonzero(d)
}

pub open spec fn non_negative(d: DecimalV) -> bool {
    !d.negative || !is_nonzero(d)
}

pub open spec fn is_arc_motion(m: ProgramMotionMode) -> bool {
    m == ProgramMotionMode::ArcClockwise || m == ProgramMotionMode::ArcCounterclockwise
}

/// Whether a word is out of place in this block.
pub open spec fn out_of_context(letter: char, is_arc: bool, has_g10: bool) -> bool {
    if letter == 'I' || letter == 'J' || letter == 'K' || letter == 'R' {
        !is_arc
    } else if letter == 'P' || letter == 'L' {
        !has_g10
    } else {
        letter == 'H' || letter == 'D' || letter == 'Q'
    }
}

/// Letters out of context, each reported once, in order of first appearance.
pub open spec fn context_letters(ws: Seq<BlockWordV>, is_arc: bool, has_g10: bool, acc: Seq<char>) -> Seq<char>
    decreases ws.len(),
{
    if ws.len() == 0 {
        acc
    } else {
        let c = ws[0].letter;
        let next = if out_of_context(c, is_arc, has_g10) && !acc.contains(c) {
            acc.push(c)
        } else {
            acc
        };
        context_letters(ws.drop_first(), is_arc, has_g10, next)
    }
}

pub open spec fn context_warning(line: usize, c: char) -> WarningV {
    warn(
        line,
        ProgramWarningSeverity::Error,
        ProgramWarningCode::UnsupportedWord,
        seq![c] + " is not valid for the active command in this block"@,
    )
}

/// How the block continues after its words were read.
#[derive(Clone, Copy, Debug, PartialEq, Eq, Structural)]
pub enum BlockOutcome {
    /// The block moves nothing further.
    Done,
    /// The block is a dwell; its `P` seconds count when valid.
    Dwell { seconds_valid: bool },
    /// The block moves the tool; `skip_motion` keeps it out of the preview.
    Motion { skip_motion: bool },
}

/// What the rest of a block does: the feed check, then dwell, context and arc
/// checks, in that order.
#[derive(Clone, Copy, Debug, PartialEq, Eq, Structural)]
pub struct BlockChecks {
    /// `Some(valid)` when the block has an `F` word.
    pub feed_valid: Option<bool>,
    pub outcome: BlockOutcome,
}

pub struct FinishV {
    pub st: ModalState,
    pub warnings: Seq<WarningV>,
    pub checks: BlockChecks,
}

/// The `F` check: a block's last `F` value must be positive.
pub open spec fn feed_stage(st: ModalState, ws: Seq<BlockWordV>, line: usize) -> (ModalState, Seq<WarningV>, Option<bool>) {
    match last_word(ws, 'F') {
        Some(f) => if !positive(f) {
            (
                ModalState { time_estimate_complete: false, ..st },
                seq![
                    warn(
                        line,
                        ProgramWarningSeverity::Error,
                        ProgramWarningCode::FeedRate,
                        "feed rate must be greater than zero"@,
                    ),
                ],
                Some(false),
            )
        } else {
            (st, Seq::empty(), Some(true))
        },
        None => (st, Seq::empty(), None),
    }
}

/// The dwell checks: a non-negative `P`, and no motion or arc words.
pub open spec fn dwell_stage(st: ModalState, ws: Seq<BlockWordV>, line: usize) -> (ModalState, Seq<WarningV>, bool) {
    let p_ok = match last_word(ws, 'P') {
        Some(v) => non_negative(v),
        None => false,
    };
    let (st3, w2) = if p_ok {
        (st, Seq::empty())
    } else {
        (
            ModalState { time_estimate_complete: false, ..st },
            seq![
                warn(
                    line,
                    ProgramWarningSeverity::Error,
                    ProgramWarningCode::DwellDefinition,
                    "G4 dwell requires a non-negative P value in seconds"@,
                ),
            ],
        )
    };
    let moves = has_word(ws, 'X') || has_word(ws, 'Y') || has_word(ws, 'Z') || has_word(ws, 'A')
        || has_word(ws, 'I') || has_word(ws, 'J') || has_word(ws, 'K') || has_word(ws, 'R');
    if moves {
        (
            ModalState { preview_complete: false, ..st3 },
            w2 + seq![
                warn(
                    line,
                    ProgramWarningSeverity::Error,
                    ProgramWarningCode::DwellDefinition,
                    "G4 dwell cannot contain motion or arc words"@,
                ),
            ],
            p_ok,
        )
    } else {
        (st3, w2, p_ok)
    }
}

/// A `G10` word is present.
pub open spec fn has_g10(ws: Seq<BlockWordV>) -> bool {
    exists|i: int| 0 <= i < ws.len() && (#[trigger] ws[i]).letter == 'G' && is_code(ws[i].value, 10)
}

/// The context checks and whether the block moves.
/// Words out of context: each is reported, marks the preview incomplete
/// and keeps the block's motion out of the preview.
#[verifier::opaque]
pub open spec fn context_stage(st: ModalState, pass: WordPass, ws: Seq<BlockWordV>, line: usize) -> (ModalState, Seq<WarningV>, bool) {
    let arc = is_arc_motion(pass.motion);
    let st3 = ModalState {
        features: ProgramFeatures {
            uses_rotary_arc: st.features.uses_rotary_arc || (arc && has_word(ws, 'A')),
            ..st.features
        },
        ..st
    };
    let bad = context_letters(ws, arc, has_g10(ws), Seq::empty());
    let w2 = bad.map_values(|c: char| context_warning(line, c));
    let skip = pass.skip_motion || bad.len() > 0;
    let st4 = if bad.len() > 0 {
        ModalState { preview_complete: false, ..st3 }
    } else {
        st3
    };
    (st4, w2, skip)
}

/// Whether the block moves: an arc needs a linear target, and axis words
/// need an active motion mode.
#[verifier::opaque]
pub open spec fn motion_decision(st: ModalState, skip: bool, pass: WordPass, ws: Seq<BlockWordV>, line: usize) -> (ModalState, Seq<WarningV>, BlockOutcome) {
    let cart = has_word(ws, 'X') || has_word(ws, 'Y') || has_word(ws, 'Z');
    let axis = cart || has_word(ws, 'A');
    let arc_def = has_word(ws, 'I') || has_word(ws, 'J') || has_word(ws, 'K') || has_word(ws, 'R');
    let arc = is_arc_motion(pass.motion);
    if arc && arc_def && !cart {
        (
            ModalState { preview_complete: false, ..st },
            seq![
                warn(
                    line,
                    ProgramWarningSeverity::Error,
                    ProgramWarningCode::ArcDefinition,
                    "GRBL arcs require at least one explicit X, Y, or Z target word"@,
                ),
            ],
            BlockOutcome::Done,
        )
    } else if !axis {
        (st, Seq::empty(), BlockOutcome::Done)
    } else if pass.motion == ProgramMotionMode::Cancelled {
        (
            ModalState { preview_complete: false, ..st },
            seq![
                warn(
                    line,
                    ProgramWarningSeverity::Error,
                    ProgramWarningCode::UnsupportedGCode,
                    "axis words require an active G0, G1, G2, or G3 motion mode"@,
                ),
            ],
            BlockOutcome::Done,
        )
    } else {
        (st, Seq::empty(), BlockOutcome::Motion { skip_motion: skip })
    }
}

/// Words out of context, then whether the block moves.
pub open spec fn motion_stage(st: ModalState, pass: WordPass, ws: Seq<BlockWordV>, line: usize) -> (ModalState, Seq<WarningV>, BlockOutcome) {
    let (st4, w2, skip) = context_stage(st, pass, ws, line);
    let (st5, w3, outcome) = motion_decision(st4, skip, pass, ws, line);
    (st5, w2 + w3, outcome)
}

/// The checks after the words of a block, with the block's motion now in force.
pub open spec fn finish_block(st0: ModalState, pass: WordPass, ws: Seq<BlockWordV>, line: usize) -> FinishV {
    let (st2, w1, feed_valid) = feed_stage(ModalState { motion: pass.motion, ..st0 }, ws, line);
    if pass.dwell {
        let (st3, w2, p_ok) = dwell_stage(st2, ws, line);
        FinishV {
            st: st3,
            warnings: w1 + w2,
            checks: BlockChecks { feed_valid, outcome: BlockOutcome::Dwell { seconds_valid: p_ok } },
        }
    } else {
        let (st3, w2, outcome) = motion_stage(st2, pass, ws, line);
        FinishV { st: st3, warnings: w1 + w2, checks: BlockChecks { feed_valid, outcome } }
    }
}

fn has_word_exec(words: &[BlockWord], letter: char) -> (r: bool)
    ensures
        r == has_word(block_words_view(words@), letter),
{
    let ghost ws = block_words_view(words@);
    let mut i: usize = 0;
    while i < words.len()
        invariant
            i <= words@.len(),
            ws == block_words_view(words@),
            forall|k: int| 0 <= k < i ==> (#[trigger] ws[k]).letter != letter,
        decreases words.len() - i,
    {
        assert(ws[i as int].letter == words@[i as int].letter);
        if words[i].letter == letter {
            assert(has_word(ws, letter)) by {
                reveal(has_word);
            }
            return true;
        }
        i = i + 1;
    }
    assert(!has_word(ws, letter)) by {
        reveal(has_word);
    }
    false
}

fn last_word_exec(words: &[BlockWord], letter: char) -> (r: Option<usize>)
    ensures
        match r {
            Some(i) => i < words@.len() && last_word(block_words_view(words@), letter) == Some(
                words@[i as int].value@,
            ),
            None => last_word(block_words_view(words@), letter) is None,
        },
{
    let ghost ws = block_words_view(words@);
    let mut i: usize = words.len();
    assert(ws.take(ws.len() as int) =~= ws);
    while i > 0
        invariant
            i <= words@.len(),
            ws == block_words_view(words@),
            last_word(ws, letter) == last_word(ws.take(i as int), letter),
        decreases i,
    {
        let ghost t = ws.take(i as int);
        assert(t.last() == ws[i - 1]);
        assert(t.drop_last() =~= ws.take(i - 1));
        if words[i - 1].letter == letter {
            return Some(i - 1);
        }
        i = i - 1;
    }
    None
}

fn positive_exec(d: &Decimal) -> (r: bool)
    requires
        all_digits(d.int_digits@),
        all_digits(d.frac_digits@),
    ensures
        r == positive(d@),
{
    !d.negative && nonzero(d)
}

fn note_warning(warnings: &mut Vec<ProgramWarning>, line: usize, severity: ProgramWarningSeverity, code: ProgramWarningCode, msg: Vec<char>)
    ensures
        warnings_view(final(warnings)@) == warnings_view(old(warnings)@).push(warn(line, severity, code, msg@)),
{
    let ghost before = warnings@;
    warnings.push(ProgramWarning { source_line: line, severity, code, message: string_from_chars(msg.as_slice()) });
    assert(warnings_view(warnings@) =~= warnings_view(before).push(warn(line, severity, code, msg@)));
}

fn context_letters_exec(words: &[BlockWord], is_arc: bool, has_g10: bool) -> (r: Vec<char>)
    ensures
        r@ == context_letters(block_words_view(words@), is_arc, has_g10, Seq::empty()),
{
    let ghost ws = block_words_view(words@);
    let mut acc: Vec<char> = Vec::new();
    let mut i: usize = 0;
    assert(ws.skip(0) =~= ws);
    while i < words.len()
        invariant
            i <= words@.len(),
            ws == block_words_view(words@),
            context_letters(ws, is_arc, has_g10, Seq::empty()) == context_letters(ws.skip(i as int), is_arc, has_g10, acc@),
        decreases words.len() - i,
    {
        let c = words[i].letter;
        assert(ws.skip(i as int)[0].letter == c);
        assert(ws.skip(i as int).drop_first() =~= ws.skip(i + 1));
        let bad = if c == 'I' || c == 'J' || c == 'K' || c == 'R' {
            !is_arc
        } else if c == 'P' || c == 'L' {
            !has_g10
        } else {
            c == 'H' || c == 'D' || c == 'Q'
        };
        if bad && !crate::text::contains_char(acc.as_slice(), c) {
            acc.push(c);
        }
        i = i + 1;
    }
    assert(ws.skip(i as int) =~= Seq::<BlockWordV>::empty());
    acc
}

fn feed_stage_exec(state: &mut ModalState, words: &[BlockWord], line: usize, warnings: &mut Vec<ProgramWarning>) -> (r: Option<bool>)
    requires
        words_wf(words@),
    ensures
        ({
            let (st, ws, fv) = feed_stage(*old(state), block_words_view(words@), line);
            &&& *final(state) == st
            &&& r == fv
            &&& warnings_view(final(warnings)@) == warnings_view(old(warnings)@) + ws
        }),
{
    let ghost base = warnings_view(warnings@);
    match last_word_exec(words, 'F') {
        Some(i) => {
            let ok = positive_exec(&words[i].value);
            if !ok {
                state.time_estimate_complete = false;
                note_warning(
                    warnings,
                    line,
                    ProgramWarningSeverity::Error,
                    ProgramWarningCode::FeedRate,
                    text("feed rate must be greater than zero"),
                );
            } else {
                assert(warnings_view(warnings@) =~= base + Seq::<WarningV>::empty());
            }
            Some(ok)
        },
        None => {
            assert(warnings_view(warnings@) =~= base + Seq::<WarningV>::empty());
            None
        },
    }
}

fn dwell_stage_exec(state: &mut ModalState, words: &[BlockWord], line: usize, warnings: &mut Vec<ProgramWarning>) -> (r: bool)
    requires
        words_wf(words@),
    ensures
        ({
            let (st, ws, ok) = dwell_stage(*old(state), block_words_view(words@), line);
            &&& *final(state) == st
            &&& r == ok
            &&& warnings_view(final(warnings)@) == warnings_view(old(warnings)@) + ws
        }),
{
    let ghost base = warnings_view(warnings@);
    let p_ok = match last_word_exec(words, 'P') {
        Some(i) => {
            let v = &words[i].value;
            !v.negative || !nonzero(v)
        },
        None => false,
    };
    if !p_ok {
        state.time_estimate_complete = false;
        note_warning(
            warnings,
            line,
            ProgramWarningSeverity::Error,
            ProgramWarningCode::DwellDefinition,
            text("G4 dwell requires a non-negative P value in seconds"),
        );
    }
    let ghost w_mid = warnings_view(warnings@);
    let moves = has_word_exec(words, 'X') || has_word_exec(words, 'Y') || has_word_exec(words, 'Z')
        || has_word_exec(words, 'A') || has_word_exec(words, 'I') || has_word_exec(words, 'J')
        || has_word_exec(words, 'K') || has_word_exec(words, 'R');
    if moves {
        state.preview_complete = false;
        note_warning(
            warnings,
            line,
            ProgramWarningSeverity::Error,
            ProgramWarningCode::DwellDefinition,
            text("G4 dwell cannot contain motion or arc words"),
        );
    }
    let ghost d = dwell_stage(*old(state), block_words_view(words@), line);
    assert(warnings_view(warnings@) =~= base + d.1);
    p_ok
}

fn has_g10_exec(words: &[BlockWord]) -> (r: bool)
    requires
        words_wf(words@),
    ensures
        r == has_g10(block_words_view(words@)),
{
    let ghost ws = block_words_view(words@);
    let mut found = false;
    let mut i: usize = 0;
    while i < words.len()
        invariant
            i <= words@.len(),
            ws == block_words_view(words@),
            words_wf(words@),
            found == exists|k: int| 0 <= k < i && (#[trigger] ws[k]).letter == 'G' && is_code(ws[k].value, 10),
        decreases words.len() - i,
    {
        assert(ws[i as int] == BlockWordV { letter: words@[i as int].letter, value: words@[i as int].value@ });
        if words[i].letter == 'G' && code(&words[i].value, 10) {
            found = true;
        }
        i = i + 1;
    }
    found
}

fn context_stage_exec(state: &mut ModalState, pass: WordPass, words: &[BlockWord], line: usize, warnings: &mut Vec<ProgramWarning>) -> (r: bool)
    requires
        words_wf(words@),
    ensures
        ({
            let (st, ws, skip) = context_stage(*old(state), pass, block_words_view(words@), line);
            &&& *final(state) == st
            &&& r == skip
            &&& warnings_view(final(warnings)@) == warnings_view(old(warnings)@) + ws
        }),
{
    reveal(context_stage);
    let ghost base = warnings_view(warnings@);
    let arc = pass.motion == ProgramMotionMode::ArcClockwise || pass.motion == ProgramMotionMode::ArcCounterclockwise;
    let g10 = has_g10_exec(words);
    let has_a = has_word_exec(words, 'A');
    state.features = ProgramFeatures {
        uses_rotary_arc: state.features.uses_rotary_arc || (arc && has_a),
        ..state.features
    };
    let bad = context_letters_exec(words, arc, g10);
    let mut k: usize = 0;
    while k < bad.len()
        invariant
            k <= bad@.len(),
            warnings_view(warnings@) == base + bad@.take(k as int).map_values(
                |c: char| context_warning(line, c),
            ),
        decreases bad.len() - k,
    {
        let c = bad[k];
        let mut msg: Vec<char> = Vec::new();
        msg.push(c);
        push_str(&mut msg, " is not valid for the active command in this block");
        assert(msg@ =~= seq![c] + " is not valid for the active command in this block"@);
        note_warning(warnings, line, ProgramWarningSeverity::Error, ProgramWarningCode::UnsupportedWord, msg);
        assert(bad@.take(k + 1).map_values(|c: char| context_warning(line, c)) =~= bad@.take(k as int).map_values(
            |c: char| context_warning(line, c),
        ).push(context_warning(line, c)));
        k = k + 1;
    }
    assert(bad@.take(bad@.len() as int) =~= bad@);
    let skip = pass.skip_motion || bad.len() > 0;
    if bad.len() > 0 {
        state.preview_complete = false;
    }
    skip
}

fn motion_decision_exec(state: &mut ModalState, skip: bool, pass: WordPass, words: &[BlockWord], line: usize, warnings: &mut Vec<ProgramWarning>) -> (r: BlockOutcome)
    ensures
        ({
            let (st, ws, outcome) = motion_decision(*old(state), skip, pass, block_words_view(words@), line);
            &&& *final(state) == st
            &&& r == outcome
            &&& warnings_view(final(warnings)@) == warnings_view(old(warnings)@) + ws
        }),
{
    reveal(motion_decision);
    let ghost base = warnings_view(warnings@);
    let cart = has_word_exec(words, 'X') || has_word_exec(words, 'Y') || has_word_exec(words, 'Z');
    let axis = cart || has_word_exec(words, 'A');
    let arc_def = has_word_exec(words, 'I') || has_word_exec(words, 'J') || has_word_exec(words, 'K')
        || has_word_exec(words, 'R');
    let arc = pass.motion == ProgramMotionMode::ArcClockwise || pass.motion == ProgramMotionMode::ArcCounterclockwise;
    if arc && arc_def && !cart {
        state.preview_complete = false;
        note_warning(
            warnings,
            line,
            ProgramWarningSeverity::Error,
            ProgramWarningCode::ArcDefinition,
            text("GRBL arcs require at least one explicit X, Y, or Z target word"),
        );
        return BlockOutcome::Done;
    }
    if !axis {
        assert(warnings_view(warnings@) =~= base + Seq::<WarningV>::empty());
        return BlockOutcome::Done;
    }
    if pass.motion == ProgramMotionMode::Cancelled {
        state.preview_complete = false;
        note_warning(
            warnings,
            line,
            ProgramWarningSeverity::Error,
            ProgramWarningCode::UnsupportedGCode,
            text("axis words require an active G0, G1, G2, or G3 motion mode"),
        );
        return BlockOutcome::Done;
    }
    assert(warnings_view(warnings@) =~= base + Seq::<WarningV>::empty());
    BlockOutcome::Motion { skip_motion: skip }
}

fn motion_stage_exec(state: &mut ModalState, pass: WordPass, words: &[BlockWord], line: usize, warnings: &mut Vec<ProgramWarning>) -> (r: BlockOutcome)
    requires
        words_wf(words@),
    ensures
        ({
            let (st, ws, outcome) = motion_stage(*old(state), pass, block_words_view(words@), line);
            &&& *final(state) == st
            &&& r == outcome
            &&& warnings_view(final(warnings)@) == warnings_view(old(warnings)@) + ws
        }),
{
    let ghost base = warnings_view(warnings@);
    let skip = context_stage_exec(state, pass, words, line, warnings);
    let ghost mid = warnings_view(warnings@);
    let r = motion_decision_exec(state, skip, pass, words, line, warnings);
    let ghost c = context_stage(*old(state), pass, block_words_view(words@), line);
    let ghost d = motion_decision(c.0, c.2, pass, block_words_view(words@), line);
    assert(warnings_view(warnings@) =~= base + (c.1 + d.1));
    r
}

/// Applies the checks that follow a block's words: the `F` value, a dwell's
/// `P` value, words out of context, and whether the block moves.
pub fn finish_block_checks(
    state: &mut ModalState,
    pass: WordPass,
    words: &[BlockWord],
    source_line: usize,
    warnings: &mut Vec<ProgramWarning>,
) -> (r: BlockChecks)
    requires
        words_wf(words@),
    ensures
        ({
            let f = finish_block(*old(state), pass, block_words_view(words@), source_line);
            &&& *final(state) == f.st
            &&& r == f.checks
            &&& warnings_view(final(warnings)@) == warnings_view(old(warnings)@) + f.warnings
        }),
{
    let ghost base = warnings_view(warnings@);
    state.motion = pass.motion;
    let feed_valid = feed_stage_exec(state, words, source_line, warnings);
    let ghost w1 = warnings_view(warnings@);
    if pass.dwell {
        let ok = dwell_stage_exec(state, words, source_line, warnings);
        assert(warnings_view(warnings@) =~= base + finish_block(*old(state), pass, block_words_view(words@), source_line).warnings);
        BlockChecks { feed_valid, outcome: BlockOutcome::Dwell { seconds_valid: ok } }
    } else {
        let outcome = motion_stage_exec(state, pass, words, source_line, warnings);
        assert(warnings_view(warnings@) =~= base + finish_block(*old(state), pass, block_words_view(words@), source_line).warnings);
        BlockChecks { feed_valid, outcome }
    }
}

} // verus!

verus! {

// ---------------------------------------------------------------------------
// Laws
// ---------------------------------------------------------------------------

/// What no later word of a block undoes: an incomplete preview, a skipped
/// motion, and the diagnostics already raised.
pub open spec fn grows(p: PassV, q: PassV) -> bool {
    &&& !p.st.preview_complete ==> !q.st.preview_complete
    &&& p.skip_motion ==> q.skip_motion
    &&& p.warnings.len() <= q.warnings.len()
    &&& forall|k: int| 0 <= k < p.warnings.len() ==> #[trigger] q.warnings[k] == p.warnings[k]
}

/// The part of a pass that the letter of a word cannot undo.
pub open spec fn keeps(p: PassV, q: PassV) -> bool {
    &&& q.seen == p.seen
    &&& grows(p, q)
}

#[verifier::spinoff_prover]
#[verifier::rlimit(60)]
proof fn lemma_g_code_keeps(p: PassV, d: DecimalV, line: usize)
    ensures
        keeps(p, g_code(p, d, line)),
{
    let c = g_class(d);
    match c {
        GClass::Motion(_) => {},
        GClass::MachineCommand => {},
        GClass::WorkSystem(_) => {},
        _ => {},
    }
}

proof fn lemma_g_word_keeps(p: PassV, d: DecimalV, line: usize)
    ensures
        keeps(p, g_word(p, d, line)),
{
    reveal(g_word);
    let (gs, c) = group_step(p.g_groups, g_group(d));
    let q = PassV { g_groups: gs, ..p };
    let q2 = match c {
        Some(g) => conflict(q, line, "G"@, g),
        None => q,
    };
    lemma_g_code_keeps(q2, d, line);
}

proof fn lemma_m_word_keeps(p: PassV, d: DecimalV, line: usize)
    ensures
        keeps(p, m_word(p, d, line)),
{
    reveal(m_word);
}

proof fn lemma_letter_step_keeps(p: PassV, w: BlockWordV, line: usize)
    ensures
        keeps(p, letter_step(p, w, line)),
{
    if w.letter == 'G' {
        lemma_g_word_keeps(p, w.value, line);
    } else if w.letter == 'M' {
        lemma_m_word_keeps(p, w.value, line);
    } else if w.letter == 'S' {
        reveal(s_word);
    } else if w.letter == 'T' {
        reveal(t_word);
    } else if w.letter != 'A' {
        reveal(other_word);
    }
}

proof fn lemma_word_step_keeps_incomplete(p: PassV, w: BlockWordV, line: usize)
    ensures
        grows(p, word_step(p, w, line)),
        forall|c: char| p.seen.contains(c) ==> #[trigger] word_step(p, w, line).seen.contains(c),
        word_step(p, w, line).seen.contains(w.letter),
{
    let q = seen_step(duplicate_step(p, w, line), w);
    lemma_letter_step_keeps(q, w, line);
    if !duplicate_step(p, w, line).seen.contains(w.letter) {
        assert(q.seen.last() == w.letter);
    }
    assert forall|c: char| p.seen.contains(c) implies #[trigger] q.seen.contains(c) by {
        let k = choose|k: int| 0 <= k < p.seen.len() && p.seen[k] == c;
        assert(q.seen[k] == c);
    }
    let r = word_step(p, w, line);
    assert forall|k: int| 0 <= k < p.warnings.len() implies #[trigger] r.warnings[k] == p.warnings[k] by {
        assert(q.warnings[k] == p.warnings[k]);
    }
}

proof fn lemma_pass_grows(p: PassV, ws: Seq<BlockWordV>, line: usize)
    ensures
        grows(p, words_pass(p, ws, line)),
    decreases ws.len(),
{
    if ws.len() > 0 {
        let q = word_step(p, ws[0], line);
        lemma_word_step_keeps_incomplete(p, ws[0], line);
        lemma_pass_grows(q, ws.drop_first(), line);
        let r = words_pass(p, ws, line);
        assert forall|k: int| 0 <= k < p.warnings.len() implies #[trigger] r.warnings[k] == p.warnings[k] by {
            assert(q.warnings[k] == p.warnings[k]);
        }
    }
}

proof fn lemma_pass_keeps_incomplete(p: PassV, ws: Seq<BlockWordV>, line: usize)
    requires
        !p.st.preview_complete,
    ensures
        !words_pass(p, ws, line).st.preview_complete,
{
    lemma_pass_grows(p, ws, line);
}

/// The error a repeated value letter raises.
pub open spec fn duplicate_warning(line: usize, letter: char) -> WarningV {
    warn(
        line,
        ProgramWarningSeverity::Error,
        ProgramWarningCode::DuplicateWord,
        seq![letter] + " appears more than once; GRBL rejects repeated value words"@,
    )
}

/// The block's pass refused: the preview is incomplete, no motion is made,
/// and the diagnostics hold `w`.
pub open spec fn refused_with(r: PassV, w: WarningV) -> bool {
    &&& !r.st.preview_complete
    &&& r.skip_motion
    &&& exists|k: int| 0 <= k < r.warnings.len() && #[trigger] r.warnings[k] == w
}

proof fn lemma_repeat_from(p: PassV, ws: Seq<BlockWordV>, line: usize, j: int)
    requires
        0 <= j < ws.len(),
        value_letter(ws[j].letter),
        p.seen.contains(ws[j].letter) || exists|i: int| 0 <= i < j && (#[trigger] ws[i]).letter == ws[j].letter,
    ensures
        refused_with(words_pass(p, ws, line), duplicate_warning(line, ws[j].letter)),
    decreases ws.len(),
{
    let c = ws[j].letter;
    let q = word_step(p, ws[0], line);
    lemma_word_step_keeps_incomplete(p, ws[0], line);
    if j == 0 {
        let d = duplicate_step(p, ws[0], line);
        assert(!d.st.preview_complete);
        assert(d.skip_motion);
        let n = p.warnings.len() as int;
        assert(d.warnings[n] == duplicate_warning(line, c));
        let e = seen_step(d, ws[0]);
        lemma_letter_step_keeps(e, ws[0], line);
        assert(q.warnings[n] == duplicate_warning(line, c));
        lemma_pass_grows(q, ws.drop_first(), line);
        let r = words_pass(q, ws.drop_first(), line);
        assert(r.warnings[n] == duplicate_warning(line, c));
    } else {
        assert(ws.drop_first()[j - 1] == ws[j]);
        if p.seen.contains(c) {
            assert(q.seen.contains(c));
        } else {
            let i = choose|i: int| 0 <= i < j && (#[trigger] ws[i]).letter == c;
            if i > 0 {
                assert(ws.drop_first()[i - 1] == ws[i]);
            }
        }
        lemma_repeat_from(q, ws.drop_first(), line, j - 1);
    }
}

/// Ten to the power `n`.
pub open spec fn ten_pow(n: nat) -> nat
    decreases n,
{
    if n == 0 {
        1
    } else {
        10 * ten_pow((n - 1) as nat)
    }
}

proof fn lemma_digits_below(s: Seq<char>)
    requires
        all_digits(s),
    ensures
        digits_value(s) < ten_pow(s.len()),
    decreases s.len(),
{
    if s.len() > 0 {
        assert(all_digits(s.drop_last())) by {
            assert forall|i: int| 0 <= i < s.drop_last().len() implies crate::text::is_ascii_digit(
                #[trigger] s.drop_last()[i],
            ) by {
                assert(s.drop_last()[i] == s[i]);
            }
        }
        lemma_digits_below(s.drop_last());
        assert(crate::text::is_ascii_digit(s[s.len() - 1]));
    }
}

/// The fraction read to six digits is below one million.
proof fn lemma_six_fraction_digits_below(d: DecimalV)
    requires
        all_digits(d.frac_digits),
    ensures
        digits_value((d.frac_digits + six_zeros()).take(6)) < 1_000_000,
{
    let t = (d.frac_digits + six_zeros()).take(6);
    assert(all_digits(t)) by {
        assert forall|i: int| 0 <= i < t.len() implies crate::text::is_ascii_digit(#[trigger] t[i]) by {
            if i < d.frac_digits.len() {
                assert(t[i] == d.frac_digits[i]);
            } else {
                assert(t[i] == six_zeros()[i - d.frac_digits.len()]);
            }
        }
    }
    lemma_digits_below(t);
    assert(ten_pow(6) == 1_000_000) by {
        reveal_with_fuel(ten_pow, 7);
    }
}

/// A G code the preview leaves to the machine: within one millionth of
/// G10, G28, G30, G53 or G92, or in the probing family G38.x.
pub open spec fn machine_command_code(d: DecimalV) -> bool {
    is_code(d, 10) || is_code(d, 28) || is_code(d, 30) || is_code(d, 53) || is_code(d, 92)
        || is_probe_code(d)
}

/// Every machine command is kept out of the preview: the block's motion is
/// skipped, exactly one `UnsafeMachineCommand` safety warning is added for
/// the line, a probe sets the probe-cycle feature and G53 the
/// machine-coordinate feature; motion mode, dwell, units, distance, plane and
/// everything else of the pass stay as they were.
pub proof fn lemma_machine_commands_are_kept_out_of_the_preview(p: PassV, d: DecimalV, line: usize)
    requires
        machine_command_code(d),
        all_digits(d.frac_digits),
    ensures
        g_code(p, d, line) == (PassV {
            st: ModalState {
                features: ProgramFeatures {
                    has_probe_cycle: p.st.features.has_probe_cycle || is_probe_code(d),
                    has_machine_coordinate_move: p.st.features.has_machine_coordinate_move || is_code(d, 53),
                    ..p.st.features
                },
                ..p.st
            },
            skip_motion: true,
            warnings: p.warnings.push(
                warn(
                    line,
                    ProgramWarningSeverity::Safety,
                    ProgramWarningCode::UnsafeMachineCommand,
                    "G"@ + canonical(d) + " is excluded from preview and future dry run"@,
                ),
            ),
            ..p
        }),
{
    lemma_six_fraction_digits_below(d);
    assert(g_class(d) == GClass::MachineCommand) by {
        reveal(is_code);
        reveal(is_tenths_code);
        reveal(is_probe_code);
        reveal(is_work_system_code);
        if is_work_system_code(d) {
            assert(all_zero(d.frac_digits));
        }
    }
}

/// The distance mode a word selects: `G90` absolute, `G91` incremental
/// (each within one millionth), nothing for any other word.
pub open spec fn distance_word(w: BlockWordV) -> Option<ProgramDistanceMode> {
    if w.letter == 'G' && is_code(w.value, 90) {
        Some(ProgramDistanceMode::Absolute)
    } else if w.letter == 'G' && is_code(w.value, 91) {
        Some(ProgramDistanceMode::Incremental)
    } else {
        None
    }
}

proof fn lemma_g_code_distance(p: PassV, d: DecimalV, line: usize)
    ensures
        g_code(p, d, line).st.distance == (if is_code(d, 90) {
            ProgramDistanceMode::Absolute
        } else if is_code(d, 91) {
            ProgramDistanceMode::Incremental
        } else {
            p.st.distance
        }),
{
    if is_code(d, 90) || is_code(d, 91) {
        assert(g_class(d) == GClass::Absolute || g_class(d) == GClass::Incremental) by {
            reveal(is_code);
        }
        if is_code(d, 90) {
            assert(g_class(d) == GClass::Absolute) by {
                reveal(is_code);
            }
        } else {
            assert(g_class(d) == GClass::Incremental) by {
                reveal(is_code);
            }
        }
    }
}

/// One word changes the distance mode only when it is `G90` or `G91`.
proof fn lemma_word_step_distance(p: PassV, w: BlockWordV, line: usize)
    ensures
        word_step(p, w, line).st.distance == match distance_word(w) {
            Some(m) => m,
            None => p.st.distance,
        },
{
    let q = seen_step(duplicate_step(p, w, line), w);
    assert(q.st.distance == p.st.distance);
    if w.letter == 'G' {
        reveal(g_word);
        let (gs, c) = group_step(q.g_groups, g_group(w.value));
        let q1 = PassV { g_groups: gs, ..q };
        let q2 = match c {
            Some(g) => conflict(q1, line, "G"@, g),
            None => q1,
        };
        lemma_g_code_distance(q2, w.value, line);
    } else if w.letter == 'M' {
        reveal(m_word);
    } else if w.letter == 'S' {
        reveal(s_word);
    } else if w.letter == 'T' {
        reveal(t_word);
    } else if w.letter != 'A' {
        reveal(other_word);
    }
}

/// Some word of the block selects the distance mode `m`.
pub open spec fn block_selects(ws: Seq<BlockWordV>, m: ProgramDistanceMode) -> bool {
    exists|i: int| 0 <= i < ws.len() && distance_word(#[trigger] ws[i]) == Some(m)
}

proof fn lemma_pass_distance(p: PassV, ws: Seq<BlockWordV>, line: usize)
    ensures
        block_selects(ws, ProgramDistanceMode::Incremental) && !block_selects(ws, ProgramDistanceMode::Absolute)
            ==> words_pass(p, ws, line).st.distance == ProgramDistanceMode::Incremental,
        block_selects(ws, ProgramDistanceMode::Absolute) && !block_selects(ws, ProgramDistanceMode::Incremental)
            ==> words_pass(p, ws, line).st.distance == ProgramDistanceMode::Absolute,
        !block_selects(ws, ProgramDistanceMode::Absolute) && !block_selects(ws, ProgramDistanceMode::Incremental)
            ==> words_pass(p, ws, line).st.distance == p.st.distance,
    decreases ws.len(),
{
    if ws.len() > 0 {
        let q = word_step(p, ws[0], line);
        lemma_word_step_distance(p, ws[0], line);
        let rest = ws.drop_first();
        lemma_pass_distance(q, rest, line);
        assert forall|m: ProgramDistanceMode| block_selects(rest, m) implies block_selects(ws, m) by {
            let i = choose|i: int| 0 <= i < rest.len() && distance_word(#[trigger] rest[i]) == Some(m);
            assert(ws[i + 1] == rest[i]);
        }
        assert forall|m: ProgramDistanceMode| block_selects(ws, m) && !block_selects(rest, m) implies distance_word(
            ws[0],
        ) == Some(m) by {
            let i = choose|i: int| 0 <= i < ws.len() && distance_word(#[trigger] ws[i]) == Some(m);
            if i > 0 {
                assert(rest[i - 1] == ws[i]);
            }
        }
        if distance_word(ws[0]) is Some {
            assert(block_selects(ws, distance_word(ws[0])->Some_0));
        }
    }
}

/// A block that selects `G91` and not `G90` leaves the program in
/// incremental distance mode; one that selects `G90` and not `G91` leaves it
/// absolute; one that selects neither keeps the mode it found.
pub proof fn lemma_block_distance_mode(st: ModalState, ws: Seq<BlockWordV>, line: usize)
    ensures
        block_selects(ws, ProgramDistanceMode::Incremental) && !block_selects(ws, ProgramDistanceMode::Absolute)
            ==> words_pass(pass_start(st), ws, line).st.distance == ProgramDistanceMode::Incremental,
        block_selects(ws, ProgramDistanceMode::Absolute) && !block_selects(ws, ProgramDistanceMode::Incremental)
            ==> words_pass(pass_start(st), ws, line).st.distance == ProgramDistanceMode::Absolute,
        !block_selects(ws, ProgramDistanceMode::Absolute) && !block_selects(ws, ProgramDistanceMode::Incremental)
            ==> words_pass(pass_start(st), ws, line).st.distance == st.distance,
{
    lemma_pass_distance(pass_start(st), ws, line);
}

/// The M codes the preview knows: M0 to M9 and M30.
pub open spec fn known_m_code(d: DecimalV) -> bool {
    is_code(d, 0) || is_code(d, 1) || is_code(d, 2) || is_code(d, 3) || is_code(d, 4) || is_code(d, 5)
        || is_code(d, 6) || is_code(d, 7) || is_code(d, 8) || is_code(d, 9) || is_code(d, 30)
}

/// Every unknown M code adds exactly one `UnsupportedMCode` safety warning
/// for the line, and changes nothing else of the block's pass: not the modal
/// state (spindle, features), not the modal groups, not the motion.
pub proof fn lemma_unknown_m_code_is_flagged_and_changes_nothing(p: PassV, d: DecimalV, line: usize)
    requires
        !known_m_code(d),
    ensures
        m_word(p, d, line) == (PassV {
            warnings: p.warnings.push(
                warn(
                    line,
                    ProgramWarningSeverity::Safety,
                    ProgramWarningCode::UnsupportedMCode,
                    "M"@ + rounded(d) + " is unknown and will be blocked by dry run"@,
                ),
            ),
            ..p
        }),
{
    reveal(m_word);
    assert(m_group(d) is None);
    assert(m_class(d) == MClass::Unknown);
    let (ms, c) = group_step(p.m_groups, m_group(d));
    assert(ms == p.m_groups);
}

/// A value letter repeated in one block (GRBL refuses the block) always
/// raises a `DuplicateWord` error for the line, skips the block's motion and
/// leaves the preview incomplete, whatever else the block holds.
pub proof fn lemma_repeated_value_word_refuses_the_block(
    st: ModalState,
    ws: Seq<BlockWordV>,
    line: usize,
    i: int,
    j: int,
)
    requires
        0 <= i < j < ws.len(),
        ws[i].letter == ws[j].letter,
        value_letter(ws[j].letter),
    ensures
        refused_with(words_pass(pass_start(st), ws, line), duplicate_warning(line, ws[j].letter)),
{
    lemma_repeat_from(pass_start(st), ws, line, j);
}

/// Once a block has left the preview incomplete, no later word of it
/// completes the preview again.
pub proof fn lemma_incomplete_preview_stays_incomplete(st: ModalState, ws: Seq<BlockWordV>, line: usize)
    requires
        !st.preview_complete,
    ensures
        !words_pass(pass_start(st), ws, line).st.preview_complete,
{
    lemma_pass_keeps_incomplete(pass_start(st), ws, line);
}

} // verus!
