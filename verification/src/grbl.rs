//! GRBL controller protocol: realtime status reports, incoming-line
//! classification, device inspection and the few commands the host encodes.
//!
//! Numbers in status reports are kept as exact decimals; a value that is not
//! a plain decimal literal (such as `NaN` or `inf`) is refused.
use vstd::prelude::*;

use crate::text::{
    all_digits, chars_eq_str, chars_of, contains_char, digits_value, find_char,
    find_char_from, has_prefix_at, is_ascii_digit, lemma_find_char, slice_chars, split_chars,
    split_on, split_once, starts_with, string_from_chars, trim, trim_chars, views, words,
};
use crate::text_map::TextMap;
use crate::word::{Decimal, DecimalV, parse_decimal, parse_decimal_at};

verus! {

/// Operating mode named by the first field of a status report.
#[derive(Clone, Copy, Debug, PartialEq, Eq, Structural)]
pub enum MachineMode {
    Idle,
    Run,
    Hold,
    Jog,
    Alarm,
    Door,
    Check,
    Home,
    Sleep,
    Unknown,
}

/// A reported position: three linear axes and an optional fourth.
#[derive(Debug)]
pub struct Position {
    pub x: Decimal,
    pub y: Decimal,
    pub z: Decimal,
    pub a: Option<Decimal>,
}

pub struct PositionV {
    pub x: DecimalV,
    pub y: DecimalV,
    pub z: DecimalV,
    pub a: Option<DecimalV>,
}

pub open spec fn opt_dec_view(o: Option<Decimal>) -> Option<DecimalV> {
    match o {
        Some(d) => Some(d@),
        None => None,
    }
}

impl View for Position {
    type V = PositionV;

    open spec fn view(&self) -> PositionV {
        PositionV { x: self.x@, y: self.y@, z: self.z@, a: opt_dec_view(self.a) }
    }
}

pub open spec fn opt_pos_view(o: Option<Position>) -> Option<PositionV> {
    match o {
        Some(p) => Some(p@),
        None => None,
    }
}

/// `Bf:` planner blocks and serial bytes available.
#[derive(Clone, Copy, Debug, PartialEq, Eq, Structural)]
pub struct ControllerBufferState {
    pub planner_available: u16,
    pub rx_available: u16,
}

/// `Ov:` override percentages.
#[derive(Clone, Copy, Debug, PartialEq, Eq, Structural)]
pub struct ControllerOverrides {
    pub feed_percent: u16,
    pub rapid_percent: u16,
    pub spindle_percent: u16,
}

/// `Pn:` input pins that are active.
#[derive(Debug)]
pub struct ControllerPins {
    pub raw: String,
    pub x_limit: bool,
    pub y_limit: bool,
    pub z_limit: bool,
    pub a_limit: bool,
    pub b_limit: bool,
    pub c_limit: bool,
    pub probe: bool,
    pub door: bool,
    pub hold: bool,
    pub soft_reset: bool,
    pub cycle_start: bool,
}

/// `A:` accessory outputs that are on.
#[derive(Debug)]
pub struct ControllerAccessories {
    pub raw: String,
    pub spindle_clockwise: bool,
    pub spindle_counterclockwise: bool,
    pub flood_coolant: bool,
    pub mist_coolant: bool,
}

/// One parsed realtime status report.
#[derive(Debug)]
pub struct MachineState {
    pub mode: MachineMode,
    pub reported_mode: String,
    pub substate: Option<u8>,
    pub machine_position: Option<Position>,
    pub work_position: Option<Position>,
    pub work_coordinate_offset: Option<Position>,
    pub feed_rate: Decimal,
    pub spindle_speed: Decimal,
    pub buffer_state: Option<ControllerBufferState>,
    pub overrides: Option<ControllerOverrides>,
    pub pins: Option<ControllerPins>,
    pub accessories: Option<ControllerAccessories>,
    pub line_number: Option<u64>,
}

pub struct MachineStateV {
    pub mode: MachineMode,
    pub reported_mode: Seq<char>,
    pub substate: Option<u8>,
    pub machine_position: Option<PositionV>,
    pub work_position: Option<PositionV>,
    pub work_coordinate_offset: Option<PositionV>,
    pub feed_rate: DecimalV,
    pub spindle_speed: DecimalV,
    pub buffer_state: Option<ControllerBufferState>,
    pub overrides: Option<ControllerOverrides>,
    pub pins: Option<Seq<char>>,
    pub accessories: Option<Seq<char>>,
    pub line_number: Option<u64>,
}

/// A `Pn:` value is well formed when each flag reports whether its letter occurs.
pub open spec fn pins_wf(p: ControllerPins) -> bool {
    let r = p.raw@;
    &&& p.x_limit == r.contains('X')
    &&& p.y_limit == r.contains('Y')
    &&& p.z_limit == r.contains('Z')
    &&& p.a_limit == r.contains('A')
    &&& p.b_limit == r.contains('B')
    &&& p.c_limit == r.contains('C')
    &&& p.probe == r.contains('P')
    &&& p.door == r.contains('D')
    &&& p.hold == r.contains('H')
    &&& p.soft_reset == r.contains('R')
    &&& p.cycle_start == r.contains('S')
}

/// An `A:` value is well formed when each flag reports whether its letter occurs.
pub open spec fn accessories_wf(a: ControllerAccessories) -> bool {
    let r = a.raw@;
    &&& a.spindle_clockwise == r.contains('S')
    &&& a.spindle_counterclockwise == r.contains('C')
    &&& a.flood_coolant == r.contains('F')
    &&& a.mist_coolant == r.contains('M')
}

impl View for MachineState {
    type V = MachineStateV;

    open spec fn view(&self) -> MachineStateV {
        MachineStateV {
            mode: self.mode,
            reported_mode: self.reported_mode@,
            substate: self.substate,
            machine_position: opt_pos_view(self.machine_position),
            work_position: opt_pos_view(self.work_position),
            work_coordinate_offset: opt_pos_view(self.work_coordinate_offset),
            feed_rate: self.feed_rate@,
            spindle_speed: self.spindle_speed@,
            buffer_state: self.buffer_state,
            overrides: self.overrides,
            pins: match self.pins {
                Some(p) => Some(p.raw@),
                None => None,
            },
            accessories: match self.accessories {
                Some(a) => Some(a.raw@),
                None => None,
            },
            line_number: self.line_number,
        }
    }
}

impl MachineState {
    /// Every pin and accessory flag agrees with its raw letters.
    pub open spec fn wf(&self) -> bool {
        &&& (self.pins matches Some(p) ==> pins_wf(p))
        &&& (self.accessories matches Some(a) ==> accessories_wf(a))
    }
}

/// Why a status report was refused.
#[derive(Debug, PartialEq, Eq)]
pub enum StatusParseError {
    InvalidFrame,
    MissingState,
    InvalidNumber { field: String, value: String },
    InvalidPosition { field: String },
    InvalidValueCount { field: String, expected: usize },
}

pub enum StatusErrorV {
    InvalidFrame,
    MissingState,
    InvalidNumber { field: Seq<char>, value: Seq<char> },
    InvalidPosition { field: Seq<char> },
    InvalidValueCount { field: Seq<char>, expected: nat },
}

impl View for StatusParseError {
    type V = StatusErrorV;

    open spec fn view(&self) -> StatusErrorV {
        match self {
            StatusParseError::InvalidFrame => StatusErrorV::InvalidFrame,
            StatusParseError::MissingState => StatusErrorV::MissingState,
            StatusParseError::InvalidNumber { field, value } => StatusErrorV::InvalidNumber {
                field: field@,
                value: value@,
            },
            StatusParseError::InvalidPosition { field } => StatusErrorV::InvalidPosition {
                field: field@,
            },
            StatusParseError::InvalidValueCount { field, expected } =>
                StatusErrorV::InvalidValueCount { field: field@, expected: *expected as nat },
        }
    }
}

// ---------------------------------------------------------------------------
// Numbers
// ---------------------------------------------------------------------------

/// `str::parse` for an unsigned integer type whose largest value is `max`:
/// an optional `+`, then at least one ASCII digit, with a value of at most `max`.
pub open spec fn parse_unsigned(s: Seq<char>, max: nat) -> Option<nat> {
    let b = if s.len() > 0 && s[0] == '+' {
        s.drop_first()
    } else {
        s
    };
    if b.len() >= 1 && all_digits(b) && digits_value(b) <= max {
        Some(digits_value(b))
    } else {
        None
    }
}

/// Index of the first piece that `ok` refuses, or the number of pieces.
pub open spec fn first_fail(parts: Seq<Seq<char>>, ok: spec_fn(Seq<char>) -> bool) -> nat
    decreases parts.len(),
{
    if parts.len() == 0 {
        0
    } else if !ok(parts[0]) {
        0
    } else {
        1 + first_fail(parts.drop_first(), ok)
    }
}

pub proof fn lemma_first_fail(parts: Seq<Seq<char>>, ok: spec_fn(Seq<char>) -> bool)
    ensures
        first_fail(parts, ok) <= parts.len(),
        first_fail(parts, ok) < parts.len() ==> !ok(parts[first_fail(parts, ok) as int]),
        forall|k: int| 0 <= k < first_fail(parts, ok) ==> ok(#[trigger] parts[k]),
    decreases parts.len(),
{
    if parts.len() > 0 && ok(parts[0]) {
        lemma_first_fail(parts.drop_first(), ok);
        assert forall|k: int| 0 <= k < first_fail(parts, ok) implies ok(#[trigger] parts[k]) by {
            if k > 0 {
                assert(parts[k] == parts.drop_first()[k - 1]);
            }
        }
    }
}

pub open spec fn decimal_ok() -> spec_fn(Seq<char>) -> bool {
    |p: Seq<char>| parse_decimal(p) is Some
}

pub open spec fn unsigned_ok(max: nat) -> spec_fn(Seq<char>) -> bool {
    |p: Seq<char>| parse_unsigned(p, max) is Some
}

/// A comma-separated list of decimals, or the first piece that is not one.
pub open spec fn decimal_list(s: Seq<char>) -> Result<Seq<DecimalV>, Seq<char>> {
    let parts = split_on(s, ',');
    let f = first_fail(parts, decimal_ok());
    if f < parts.len() {
        Err(parts[f as int])
    } else {
        Ok(parts.map_values(|p: Seq<char>| parse_decimal(p).unwrap()))
    }
}

/// A comma-separated list of unsigned values up to `max`, or the first piece that is not one.
pub open spec fn unsigned_list(s: Seq<char>, max: nat) -> Result<Seq<nat>, Seq<char>> {
    let parts = split_on(s, ',');
    let f = first_fail(parts, unsigned_ok(max));
    if f < parts.len() {
        Err(parts[f as int])
    } else {
        Ok(parts.map_values(|p: Seq<char>| parse_unsigned(p, max).unwrap()))
    }
}

pub open spec fn dec_views(v: Seq<Decimal>) -> Seq<DecimalV> {
    v.map_values(|d: Decimal| d@)
}

/// `str::parse` into an unsigned integer of at most `max`.
pub fn parse_unsigned_chars(s: &[char], max: u64) -> (r: Option<u64>)
    ensures
        match r {
            Some(v) => parse_unsigned(s@, max as nat) == Some(v as nat),
            None => parse_unsigned(s@, max as nat) is None,
        },
{
    let start: usize = if s.len() > 0 && s[0] == '+' {
        1
    } else {
        0
    };
    let ghost b = if s@.len() > 0 && s@[0] == '+' {
        s@.drop_first()
    } else {
        s@
    };
    assert(b =~= s@.skip(start as int));
    if start >= s.len() {
        return None;
    }
    let mut acc: u64 = 0;
    let mut i: usize = start;
    while i < s.len()
        invariant
            start <= i <= s.len(),
            b == s@.skip(start as int),
            b == (if s@.len() > 0 && s@[0] == '+' {
                s@.drop_first()
            } else {
                s@
            }),
            b.len() >= 1,
            all_digits(b.take(i - start)),
            acc == digits_value(b.take(i - start)),
            acc <= max,
        decreases s.len() - i,
    {
        let c = s[i];
        proof {
            assert(b.take(i - start + 1).drop_last() =~= b.take(i - start));
            assert(b[i - start] == s@[i as int]);
        }
        if !('0' <= c && c <= '9') {
            assert(!is_ascii_digit(b[i - start]));
            assert(!all_digits(b));
            return None;
        }
        let d: u64 = (c as u64) - 48;
        if d > max || acc > (max - d) / 10 {
            proof {
                assert(acc * 10 + d > max) by (nonlinear_arith)
                    requires
                        d > max || acc > (max - d) / 10,
                        d <= 9,
                ;
                let t = b.take(i - start + 1);
                assert(t.last() == c);
                assert(digits_value(t) == acc * 10 + d);
                crate::word::lemma_digits_value_prefix(b, i - start + 1);
                assert(parse_unsigned(s@, max as nat) is None);
            }
            return None;
        }
        proof {
            assert(acc * 10 + d <= max) by (nonlinear_arith)
                requires
                    acc <= (max - d) / 10,
                    d <= max,
            ;
        }
        acc = acc * 10 + d;
        i = i + 1;
        proof {
            assert forall|k: int| 0 <= k < i - start implies is_ascii_digit(
                #[trigger] b.take(i - start)[k],
            ) by {
                if k < i - start - 1 {
                    assert(b.take(i - start)[k] == b.take(i - start - 1)[k]);
                }
            }
        }
    }
    assert(b.take(i - start) =~= b);
    Some(acc)
}


/// Comma-separated decimals, as `value.split(',').map(str::parse)` reads them.
pub fn parse_decimal_list(s: &[char]) -> (r: Result<Vec<Decimal>, Vec<char>>)
    ensures
        match r {
            Ok(v) => decimal_list(s@) == Ok::<Seq<DecimalV>, Seq<char>>(dec_views(v@)),
            Err(e) => decimal_list(s@) == Err::<Seq<DecimalV>, Seq<char>>(e@),
        },
{
    let parts = split_chars(s, ',');
    let ghost ps = views(parts@);
    let mut out: Vec<Decimal> = Vec::new();
    let mut i: usize = 0;
    while i < parts.len()
        invariant
            i <= parts.len(),
            ps == views(parts@),
            ps == split_on(s@, ','),
            out@.len() == i,
            forall|k: int| 0 <= k < i ==> (#[trigger] decimal_ok()(ps[k])),
            forall|k: int| 0 <= k < i ==> parse_decimal(ps[k]) == Some(#[trigger] out@[k]@),
        decreases parts.len() - i,
    {
        let piece: &Vec<char> = &parts[i];
        assert(piece@ == ps[i as int]);
        assert(piece@.skip(0) =~= piece@);
        match parse_decimal_at(piece.as_slice(), 0) {
            Some(d) => {
                out.push(d);
            },
            None => {
                proof {
                    lemma_first_fail(ps, decimal_ok());
                    let f = first_fail(ps, decimal_ok());
                    if f < i {
                        assert(decimal_ok()(ps[f as int]));
                    }
                    if f > i {
                        assert(decimal_ok()(ps[i as int]));
                    }
                }
                let bad = slice_chars(piece.as_slice(), 0, piece.len());
                assert(bad@ =~= ps[i as int]);
                return Err(bad);
            },
        }
        i = i + 1;
    }
    proof {
        lemma_first_fail(ps, decimal_ok());
        let f = first_fail(ps, decimal_ok());
        if f < ps.len() {
            assert(decimal_ok()(ps[f as int]));
        }
        assert(dec_views(out@) =~= ps.map_values(|p: Seq<char>| parse_decimal(p).unwrap()));
    }
    Ok(out)
}

/// Comma-separated unsigned values of at most `max`.
pub fn parse_unsigned_list(s: &[char], max: u64) -> (r: Result<Vec<u64>, Vec<char>>)
    ensures
        match r {
            Ok(v) => unsigned_list(s@, max as nat) == Ok::<Seq<nat>, Seq<char>>(
                v@.map_values(|x: u64| x as nat),
            ),
            Err(e) => unsigned_list(s@, max as nat) == Err::<Seq<nat>, Seq<char>>(e@),
        },
{
    let parts = split_chars(s, ',');
    let ghost ps = views(parts@);
    let mut out: Vec<u64> = Vec::new();
    let mut i: usize = 0;
    while i < parts.len()
        invariant
            i <= parts.len(),
            ps == views(parts@),
            ps == split_on(s@, ','),
            out@.len() == i,
            forall|k: int| 0 <= k < i ==> (#[trigger] unsigned_ok(max as nat)(ps[k])),
            forall|k: int|
                0 <= k < i ==> parse_unsigned(ps[k], max as nat) == Some(#[trigger] out@[k] as nat),
        decreases parts.len() - i,
    {
        let piece: &Vec<char> = &parts[i];
        assert(piece@ == ps[i as int]);
        match parse_unsigned_chars(piece.as_slice(), max) {
            Some(d) => {
                out.push(d);
            },
            None => {
                proof {
                    lemma_first_fail(ps, unsigned_ok(max as nat));
                    let f = first_fail(ps, unsigned_ok(max as nat));
                    if f < i {
                        assert(unsigned_ok(max as nat)(ps[f as int]));
                    }
                    if f > i {
                        assert(unsigned_ok(max as nat)(ps[i as int]));
                    }
                }
                let bad = slice_chars(piece.as_slice(), 0, piece.len());
                assert(bad@ =~= ps[i as int]);
                return Err(bad);
            },
        }
        i = i + 1;
    }
    proof {
        lemma_first_fail(ps, unsigned_ok(max as nat));
        let f = first_fail(ps, unsigned_ok(max as nat));
        if f < ps.len() {
            assert(unsigned_ok(max as nat)(ps[f as int]));
        }
        assert(out@.map_values(|x: u64| x as nat) =~= ps.map_values(
            |p: Seq<char>| parse_unsigned(p, max as nat).unwrap(),
        ));
    }
    Ok(out)
}


// ---------------------------------------------------------------------------
// Status reports
// ---------------------------------------------------------------------------

/// The mode that a state name stands for.
pub open spec fn mode_of(name: Seq<char>) -> MachineMode {
    if name == "Idle"@ {
        MachineMode::Idle
    } else if name == "Run"@ {
        MachineMode::Run
    } else if name == "Hold"@ {
        MachineMode::Hold
    } else if name == "Jog"@ {
        MachineMode::Jog
    } else if name == "Alarm"@ {
        MachineMode::Alarm
    } else if name == "Door"@ {
        MachineMode::Door
    } else if name == "Check"@ {
        MachineMode::Check
    } else if name == "Home"@ {
        MachineMode::Home
    } else if name == "Sleep"@ {
        MachineMode::Sleep
    } else {
        MachineMode::Unknown
    }
}

/// The number zero.
pub open spec fn zero_decimal() -> DecimalV {
    DecimalV { negative: false, int_digits: seq!['0'], frac_digits: Seq::empty() }
}

/// The first field: a state name, optionally followed by `:` and a substate code.
pub open spec fn mode_field(f: Seq<char>) -> Result<(Seq<char>, Option<u8>), StatusErrorV> {
    match split_once(f, ':') {
        None => Ok((f, None)),
        Some((name, sub)) => match parse_unsigned(sub, 255) {
            Some(v) => Ok((name, Some(v as u8))),
            None => Err(StatusErrorV::InvalidNumber { field: "state"@, value: sub }),
        },
    }
}

/// A position field: three or four decimals.
pub open spec fn position_of(name: Seq<char>, value: Seq<char>) -> Result<PositionV, StatusErrorV> {
    match decimal_list(value) {
        Err(p) => Err(StatusErrorV::InvalidNumber { field: name, value: p }),
        Ok(v) => if 3 <= v.len() <= 4 {
            Ok(
                PositionV {
                    x: v[0],
                    y: v[1],
                    z: v[2],
                    a: if v.len() == 4 {
                        Some(v[3])
                    } else {
                        None
                    },
                },
            )
        } else {
            Err(StatusErrorV::InvalidPosition { field: name })
        },
    }
}

pub open spec fn with_position(st: MachineStateV, name: Seq<char>, p: PositionV) -> MachineStateV {
    if name == "MPos"@ {
        MachineStateV { machine_position: Some(p), ..st }
    } else if name == "WPos"@ {
        MachineStateV { work_position: Some(p), ..st }
    } else {
        MachineStateV { work_coordinate_offset: Some(p), ..st }
    }
}

/// The effect of one `name:value` field on the state being read. Fields without
/// a `:` and unknown names leave it unchanged.
pub open spec fn apply_field(st: MachineStateV, f: Seq<char>) -> Result<MachineStateV, StatusErrorV> {
    match split_once(f, ':') {
        None => Ok(st),
        Some((name, value)) => if name == "MPos"@ || name == "WPos"@ || name == "WCO"@ {
            match position_of(name, value) {
                Ok(p) => Ok(with_position(st, name, p)),
                Err(e) => Err(e),
            }
        } else if name == "FS"@ {
            match decimal_list(value) {
                Err(p) => Err(StatusErrorV::InvalidNumber { field: name, value: p }),
                Ok(v) => Ok(
                    MachineStateV {
                        feed_rate: if v.len() > 0 {
                            v[0]
                        } else {
                            st.feed_rate
                        },
                        spindle_speed: if v.len() > 1 {
                            v[1]
                        } else {
                            st.spindle_speed
                        },
                        ..st
                    },
                ),
            }
        } else if name == "F"@ {
            match decimal_list(value) {
                Err(p) => Err(StatusErrorV::InvalidNumber { field: name, value: p }),
                Ok(v) => Ok(
                    MachineStateV {
                        feed_rate: if v.len() > 0 {
                            v[0]
                        } else {
                            zero_decimal()
                        },
                        ..st
                    },
                ),
            }
        } else if name == "Bf"@ {
            match unsigned_list(value, 65535) {
                Err(p) => Err(StatusErrorV::InvalidNumber { field: name, value: p }),
                Ok(v) => if v.len() == 2 {
                    Ok(
                        MachineStateV {
                            buffer_state: Some(
                                ControllerBufferState {
                                    planner_available: v[0] as u16,
                                    rx_available: v[1] as u16,
                                },
                            ),
                            ..st
                        },
                    )
                } else {
                    Err(StatusErrorV::InvalidValueCount { field: name, expected: 2 })
                },
            }
        } else if name == "Ov"@ {
            match unsigned_list(value, 65535) {
                Err(p) => Err(StatusErrorV::InvalidNumber { field: name, value: p }),
                Ok(v) => if v.len() == 3 {
                    Ok(
                        MachineStateV {
                            overrides: Some(
                                ControllerOverrides {
                                    feed_percent: v[0] as u16,
                                    rapid_percent: v[1] as u16,
                                    spindle_percent: v[2] as u16,
                                },
                            ),
                            ..st
                        },
                    )
                } else {
                    Err(StatusErrorV::InvalidValueCount { field: name, expected: 3 })
                },
            }
        } else if name == "Pn"@ {
            Ok(MachineStateV { pins: Some(value), ..st })
        } else if name == "A"@ {
            Ok(MachineStateV { accessories: Some(value), ..st })
        } else if name == "Ln"@ {
            match parse_unsigned(value, u64::MAX as nat) {
                Some(n) => Ok(MachineStateV { line_number: Some(n as u64), ..st }),
                None => Err(StatusErrorV::InvalidNumber { field: name, value: value }),
            }
        } else {
            Ok(st)
        },
    }
}

/// The fields applied left to right; the first refusal wins.
pub open spec fn apply_fields(st: MachineStateV, fields: Seq<Seq<char>>) -> Result<
    MachineStateV,
    StatusErrorV,
>
    decreases fields.len(),
{
    if fields.len() == 0 {
        Ok(st)
    } else {
        match apply_field(st, fields[0]) {
            Ok(next) => apply_fields(next, fields.drop_first()),
            Err(e) => Err(e),
        }
    }
}

/// The text between `<` and `>` of a trimmed line.
pub open spec fn status_frame(line: Seq<char>) -> Option<Seq<char>> {
    let t = trim(line);
    if t.len() >= 2 && t[0] == '<' && t[t.len() - 1] == '>' {
        Some(t.subrange(1, t.len() - 1))
    } else {
        None
    }
}

/// The state before any field after the first is read.
pub open spec fn initial_state(name: Seq<char>, sub: Option<u8>) -> MachineStateV {
    MachineStateV {
        mode: mode_of(name),
        reported_mode: name,
        substate: sub,
        machine_position: None,
        work_position: None,
        work_coordinate_offset: None,
        feed_rate: zero_decimal(),
        spindle_speed: zero_decimal(),
        buffer_state: None,
        overrides: None,
        pins: None,
        accessories: None,
        line_number: None,
    }
}

/// What a status report line means.
pub open spec fn parse_status(line: Seq<char>) -> Result<MachineStateV, StatusErrorV> {
    match status_frame(line) {
        None => Err(StatusErrorV::InvalidFrame),
        Some(payload) => {
            let fields = split_on(payload, '|');
            if fields[0].len() == 0 {
                Err(StatusErrorV::MissingState)
            } else {
                match mode_field(fields[0]) {
                    Err(e) => Err(e),
                    Ok((name, sub)) => apply_fields(initial_state(name, sub), fields.drop_first()),
                }
            }
        },
    }
}

fn zero() -> (d: Decimal)
    ensures
        d@ == zero_decimal(),
{
    let d = Decimal { negative: false, int_digits: vec!['0'], frac_digits: Vec::new() };
    assert(d@.int_digits =~= seq!['0']);
    d
}

fn owned(s: &[char]) -> (r: String)
    ensures
        r@ == s@,
{
    string_from_chars(s)
}

fn mode_exec(name: &[char]) -> (m: MachineMode)
    ensures
        m == mode_of(name@),
{
    if chars_eq_str(name, "Idle") {
        MachineMode::Idle
    } else if chars_eq_str(name, "Run") {
        MachineMode::Run
    } else if chars_eq_str(name, "Hold") {
        MachineMode::Hold
    } else if chars_eq_str(name, "Jog") {
        MachineMode::Jog
    } else if chars_eq_str(name, "Alarm") {
        MachineMode::Alarm
    } else if chars_eq_str(name, "Door") {
        MachineMode::Door
    } else if chars_eq_str(name, "Check") {
        MachineMode::Check
    } else if chars_eq_str(name, "Home") {
        MachineMode::Home
    } else if chars_eq_str(name, "Sleep") {
        MachineMode::Sleep
    } else {
        MachineMode::Unknown
    }
}

/// `s.split_once(c)` as two copies.
fn split_once_chars(s: &[char], c: char) -> (r: Option<(Vec<char>, Vec<char>)>)
    ensures
        match r {
            Some((a, b)) => split_once(s@, c) == Some((a@, b@)),
            None => split_once(s@, c) is None,
        },
{
    assert(s@.skip(0) =~= s@);
    let k = find_char_from(s, 0, c);
    if k < s.len() {
        let a = slice_chars(s, 0, k);
        let b = slice_chars(s, k + 1, s.len());
        assert(a@ =~= s@.take(k as int));
        assert(b@ =~= s@.skip(k as int + 1));
        Some((a, b))
    } else {
        None
    }
}

fn parse_pins(value: &[char]) -> (p: ControllerPins)
    ensures
        p.raw@ == value@,
        pins_wf(p),
{
    ControllerPins {
        raw: owned(value),
        x_limit: contains_char(value, 'X'),
        y_limit: contains_char(value, 'Y'),
        z_limit: contains_char(value, 'Z'),
        a_limit: contains_char(value, 'A'),
        b_limit: contains_char(value, 'B'),
        c_limit: contains_char(value, 'C'),
        probe: contains_char(value, 'P'),
        door: contains_char(value, 'D'),
        hold: contains_char(value, 'H'),
        soft_reset: contains_char(value, 'R'),
        cycle_start: contains_char(value, 'S'),
    }
}

fn parse_accessories(value: &[char]) -> (a: ControllerAccessories)
    ensures
        a.raw@ == value@,
        accessories_wf(a),
{
    ControllerAccessories {
        raw: owned(value),
        spindle_clockwise: contains_char(value, 'S'),
        spindle_counterclockwise: contains_char(value, 'C'),
        flood_coolant: contains_char(value, 'F'),
        mist_coolant: contains_char(value, 'M'),
    }
}

fn parse_position(name: &[char], value: &[char]) -> (r: Result<Position, StatusParseError>)
    ensures
        match r {
            Ok(p) => position_of(name@, value@) == Ok::<PositionV, StatusErrorV>(p@),
            Err(e) => position_of(name@, value@) == Err::<PositionV, StatusErrorV>(e@),
        },
{
    match parse_decimal_list(value) {
        Err(p) => Err(StatusParseError::InvalidNumber { field: owned(name), value: owned(&p) }),
        Ok(v) => {
            let mut v = v;
            let ghost dv = dec_views(v@);
            let n = v.len();
            if n < 3 || n > 4 {
                Err(StatusParseError::InvalidPosition { field: owned(name) })
            } else {
                let a = if n == 4 {
                    v.pop()
                } else {
                    None
                };
                assert(v@.len() == 3);
                let z = v.pop().unwrap();
                let y = v.pop().unwrap();
                let x = v.pop().unwrap();
                let p = Position { x, y, z, a };
                assert(p@.x == dv[0]);
                assert(p@.y == dv[1]);
                assert(p@.z == dv[2]);
                Ok(p)
            }
        },
    }
}


fn apply_field_exec(st: &mut MachineState, f: &[char]) -> (r: Result<(), StatusParseError>)
    requires
        old(st).wf(),
    ensures
        final(st).wf(),
        match r {
            Ok(()) => apply_field(old(st)@, f@) == Ok::<MachineStateV, StatusErrorV>(final(st)@),
            Err(e) => apply_field(old(st)@, f@) == Err::<MachineStateV, StatusErrorV>(e@),
        },
{
    let (name, value) = match split_once_chars(f, ':') {
        Some(pair) => pair,
        None => {
            return Ok(());
        },
    };
    let n = name.as_slice();
    let v = value.as_slice();
    if chars_eq_str(n, "MPos") || chars_eq_str(n, "WPos") || chars_eq_str(n, "WCO") {
        let p = match parse_position(n, v) {
            Ok(p) => p,
            Err(e) => {
                return Err(e);
            },
        };
        if chars_eq_str(n, "MPos") {
            st.machine_position = Some(p);
        } else if chars_eq_str(n, "WPos") {
            st.work_position = Some(p);
        } else {
            st.work_coordinate_offset = Some(p);
        }
        Ok(())
    } else if chars_eq_str(n, "FS") || chars_eq_str(n, "F") {
        let mut values = match parse_decimal_list(v) {
            Ok(values) => values,
            Err(bad) => {
                return Err(StatusParseError::InvalidNumber { field: owned(n), value: owned(&bad) });
            },
        };
        let ghost dv = dec_views(values@);
        if chars_eq_str(n, "FS") {
            if values.len() > 1 {
                st.spindle_speed = values.remove(1);
            }
            if values.len() > 0 {
                st.feed_rate = values.remove(0);
            }
        } else {
            if values.len() > 0 {
                st.feed_rate = values.remove(0);
            } else {
                st.feed_rate = zero();
            }
        }
        Ok(())
    } else if chars_eq_str(n, "Bf") || chars_eq_str(n, "Ov") {
        let values = match parse_unsigned_list(v, 65535) {
            Ok(values) => values,
            Err(bad) => {
                return Err(StatusParseError::InvalidNumber { field: owned(n), value: owned(&bad) });
            },
        };
        let ghost nv = values@.map_values(|x: u64| x as nat);
        assert(forall|k: int| 0 <= k < values@.len() ==> nv[k] == values@[k] as nat);
        if chars_eq_str(n, "Bf") {
            if values.len() != 2 {
                return Err(StatusParseError::InvalidValueCount { field: owned(n), expected: 2 });
            }
            st.buffer_state = Some(
                ControllerBufferState {
                    planner_available: values[0] as u16,
                    rx_available: values[1] as u16,
                },
            );
        } else {
            if values.len() != 3 {
                return Err(StatusParseError::InvalidValueCount { field: owned(n), expected: 3 });
            }
            st.overrides = Some(
                ControllerOverrides {
                    feed_percent: values[0] as u16,
                    rapid_percent: values[1] as u16,
                    spindle_percent: values[2] as u16,
                },
            );
        }
        Ok(())
    } else if chars_eq_str(n, "Pn") {
        st.pins = Some(parse_pins(v));
        Ok(())
    } else if chars_eq_str(n, "A") {
        st.accessories = Some(parse_accessories(v));
        Ok(())
    } else if chars_eq_str(n, "Ln") {
        match parse_unsigned_chars(v, u64::MAX) {
            Some(number) => {
                st.line_number = Some(number);
                Ok(())
            },
            None => Err(StatusParseError::InvalidNumber { field: owned(n), value: owned(v) }),
        }
    } else {
        Ok(())
    }
}

/// Reads a realtime status report such as `<Idle|MPos:0.000,0.000,0.000|FS:0,0>`.
pub fn parse_status_line(line: &str) -> (r: Result<MachineState, StatusParseError>)
    ensures
        match r {
            Ok(st) => parse_status(line@) == Ok::<MachineStateV, StatusErrorV>(st@) && st.wf(),
            Err(e) => parse_status(line@) == Err::<MachineStateV, StatusErrorV>(e@),
        },
{
    let all = chars_of(line);
    parse_status_chars(all.as_slice())
}

fn parse_status_chars(line: &[char]) -> (r: Result<MachineState, StatusParseError>)
    ensures
        match r {
            Ok(st) => parse_status(line@) == Ok::<MachineStateV, StatusErrorV>(st@) && st.wf(),
            Err(e) => parse_status(line@) == Err::<MachineStateV, StatusErrorV>(e@),
        },
{
    let t = trim_chars(line);
    let len = t.len();
    if len < 2 || t[0] != '<' || t[len - 1] != '>' {
        return Err(StatusParseError::InvalidFrame);
    }
    let payload = slice_chars(t.as_slice(), 1, len - 1);
    let fields = split_chars(payload.as_slice(), '|');
    let ghost fs = views(fields@);
    assert(fs[0] == fields@[0]@);
    if fields[0].len() == 0 {
        return Err(StatusParseError::MissingState);
    }
    let (name, sub): (Vec<char>, Option<u8>) = match split_once_chars(fields[0].as_slice(), ':') {
        None => (slice_chars(fields[0].as_slice(), 0, fields[0].len()), None),
        Some((name, code)) => match parse_unsigned_chars(code.as_slice(), 255) {
            Some(v) => (name, Some(v as u8)),
            None => {
                return Err(
                    StatusParseError::InvalidNumber { field: "state".to_owned(), value: owned(&code) },
                );
            },
        },
    };
    assert(fields@[0]@.subrange(0, fields@[0]@.len() as int) =~= fields@[0]@);
    let mut st = MachineState {
        mode: mode_exec(name.as_slice()),
        reported_mode: owned(name.as_slice()),
        substate: sub,
        machine_position: None,
        work_position: None,
        work_coordinate_offset: None,
        feed_rate: zero(),
        spindle_speed: zero(),
        buffer_state: None,
        overrides: None,
        pins: None,
        accessories: None,
        line_number: None,
    };
    let ghost rest = fs.drop_first();
    assert(st@ == initial_state(name@, sub));
    assert(trim(line@) == t@);
    assert(status_frame(line@) == Some(payload@));
    assert(parse_status(line@) == apply_fields(initial_state(name@, sub), rest));
    assert(fs.skip(1) =~= rest);
    let mut i: usize = 1;
    while i < fields.len()
        invariant
            1 <= i <= fields.len(),
            fs == views(fields@),
            rest == fs.drop_first(),
            parse_status(line@) == apply_fields(initial_state(name@, sub), rest),
            st.wf(),
            apply_fields(initial_state(name@, sub), rest) == apply_fields(st@, fs.skip(i as int)),
        decreases fields.len() - i,
    {
        let ghost before = st@;
        assert(fs.skip(i as int)[0] == fields@[i as int]@);
        assert(fs.skip(i as int).drop_first() =~= fs.skip(i + 1));
        match apply_field_exec(&mut st, fields[i].as_slice()) {
            Ok(()) => {},
            Err(e) => {
                return Err(e);
            },
        }
        i = i + 1;
    }
    assert(fs.skip(i as int) =~= Seq::<Seq<char>>::empty());
    Ok(st)
}


// ---------------------------------------------------------------------------
// Incoming lines
// ---------------------------------------------------------------------------

/// One line received from the controller, classified.
#[derive(Debug)]
pub enum IncomingLine {
    Status(Box<MachineState>),
    ResetBanner { raw: String, version: Option<String> },
    Alarm { code: Option<u16>, raw: String },
    /// The controller's `ok` acknowledgement.
    Acknowledged,
    Error { code: Option<u16>, raw: String },
    Message(String),
}

pub enum IncomingV {
    Status(MachineStateV),
    ResetBanner { raw: Seq<char>, version: Option<Seq<char>> },
    Alarm { code: Option<u16>, raw: Seq<char> },
    Acknowledged,
    Error { code: Option<u16>, raw: Seq<char> },
    Message(Seq<char>),
}

pub open spec fn opt_string_view(o: Option<String>) -> Option<Seq<char>> {
    match o {
        Some(s) => Some(s@),
        None => None,
    }
}

impl View for IncomingLine {
    type V = IncomingV;

    open spec fn view(&self) -> IncomingV {
        match self {
            IncomingLine::Status(st) => IncomingV::Status(st@),
            IncomingLine::ResetBanner { raw, version } => IncomingV::ResetBanner {
                raw: raw@,
                version: opt_string_view(*version),
            },
            IncomingLine::Alarm { code, raw } => IncomingV::Alarm { code: *code, raw: raw@ },
            IncomingLine::Acknowledged => IncomingV::Acknowledged,
            IncomingLine::Error { code, raw } => IncomingV::Error { code: *code, raw: raw@ },
            IncomingLine::Message(m) => IncomingV::Message(m@),
        }
    }
}

/// The first whitespace-separated word, if any.
pub open spec fn first_word(s: Seq<char>) -> Option<Seq<char>> {
    if words(s).len() > 0 {
        Some(words(s)[0])
    } else {
        None
    }
}

/// A `u16` code after a prefix such as `ALARM:`; anything else gives no code.
pub open spec fn code_of(s: Seq<char>) -> Option<u16> {
    match parse_unsigned(trim(s), 65535) {
        Some(v) => Some(v as u16),
        None => None,
    }
}

/// How a received line is classified. A line that opens with `<` is a status
/// report; the startup banner of Grbl and of grblHAL marks a reset.
pub open spec fn incoming(line: Seq<char>) -> Result<IncomingV, StatusErrorV> {
    let t = trim(line);
    if t.len() > 0 && t[0] == '<' {
        match parse_status(line) {
            Ok(st) => Ok(IncomingV::Status(st)),
            Err(e) => Err(e),
        }
    } else if starts_with(t, "Grbl "@) {
        Ok(IncomingV::ResetBanner { raw: t, version: first_word(t.skip("Grbl "@.len() as int)) })
    } else if starts_with(t, "GrblHAL "@) {
        Ok(
            IncomingV::ResetBanner {
                raw: t,
                version: first_word(t.skip("GrblHAL "@.len() as int)),
            },
        )
    } else if starts_with(t, "ALARM:"@) {
        Ok(IncomingV::Alarm { code: code_of(t.skip("ALARM:"@.len() as int)), raw: t })
    } else if t == "ok"@ {
        Ok(IncomingV::Acknowledged)
    } else if starts_with(t, "error:"@) {
        Ok(IncomingV::Error { code: code_of(t.skip("error:"@.len() as int)), raw: t })
    } else {
        Ok(IncomingV::Message(t))
    }
}

fn prefix_len(p: &str) -> (n: usize)
    ensures
        n == p@.len(),
{
    chars_of(p).len()
}

fn banner_version(t: &[char], p: &str) -> (v: Option<String>)
    requires
        starts_with(t@, p@),
    ensures
        opt_string_view(v) == first_word(t@.skip(p@.len() as int)),
{
    let k = prefix_len(p);
    let rest = slice_chars(t, k, t.len());
    assert(rest@ =~= t@.skip(p@.len() as int));
    let ws = crate::text::split_ws(rest.as_slice());
    if ws.len() > 0 {
        assert(views(ws@)[0] == ws@[0]@);
        Some(owned(ws[0].as_slice()))
    } else {
        None
    }
}

fn code_after(t: &[char], p: &str) -> (c: Option<u16>)
    requires
        starts_with(t@, p@),
    ensures
        c == code_of(t@.skip(p@.len() as int)),
{
    let k = prefix_len(p);
    let rest = slice_chars(t, k, t.len());
    assert(rest@ =~= t@.skip(p@.len() as int));
    let trimmed = trim_chars(rest.as_slice());
    match parse_unsigned_chars(trimmed.as_slice(), 65535) {
        Some(v) => Some(v as u16),
        None => None,
    }
}

/// Classifies one line received from the controller.
pub fn parse_incoming_line(line: &str) -> (r: Result<IncomingLine, StatusParseError>)
    ensures
        match r {
            Ok(v) => incoming(line@) == Ok::<IncomingV, StatusErrorV>(v@) && (v matches IncomingLine::Status(st) ==> st.wf()),
            Err(e) => incoming(line@) == Err::<IncomingV, StatusErrorV>(e@),
        },
{
    let all = chars_of(line);
    let t = trim_chars(all.as_slice());
    let ts = t.as_slice();
    assert(ts@.skip(0) =~= ts@);
    if t.len() > 0 && t[0] == '<' {
        return match parse_status_chars(all.as_slice()) {
            Ok(st) => Ok(IncomingLine::Status(Box::new(st))),
            Err(e) => Err(e),
        };
    }
    if has_prefix_at(ts, 0, "Grbl ") {
        return Ok(IncomingLine::ResetBanner { raw: owned(ts), version: banner_version(ts, "Grbl ") });
    }
    if has_prefix_at(ts, 0, "GrblHAL ") {
        return Ok(
            IncomingLine::ResetBanner { raw: owned(ts), version: banner_version(ts, "GrblHAL ") },
        );
    }
    if has_prefix_at(ts, 0, "ALARM:") {
        return Ok(IncomingLine::Alarm { code: code_after(ts, "ALARM:"), raw: owned(ts) });
    }
    if chars_eq_str(ts, "ok") {
        return Ok(IncomingLine::Acknowledged);
    }
    if has_prefix_at(ts, 0, "error:") {
        return Ok(IncomingLine::Error { code: code_after(ts, "error:"), raw: owned(ts) });
    }
    Ok(IncomingLine::Message(owned(ts)))
}


// ---------------------------------------------------------------------------
// Device inspection
// ---------------------------------------------------------------------------

/// How a query command finished.
#[derive(Clone, Copy, Debug, PartialEq, Eq, Structural)]
pub enum CommandCompletion {
    /// The controller answered `ok`.
    Acknowledged,
    Error,
}

/// The lines a query command produced before it finished.
#[derive(Debug)]
pub struct CommandResponse {
    pub command: String,
    pub completion: CommandCompletion,
    pub lines: Vec<String>,
    pub code: Option<u16>,
}

/// `[OPT:...]`: option letters and the buffer sizes that follow them.
#[derive(Debug)]
pub struct ControllerCapabilities {
    pub option_flags: String,
    pub planner_buffer_blocks: Option<u32>,
    pub rx_buffer_bytes: Option<u32>,
}

pub struct CapabilitiesV {
    pub option_flags: Seq<char>,
    pub planner_buffer_blocks: Option<u32>,
    pub rx_buffer_bytes: Option<u32>,
}

/// What the `$I`, `$$`, `$G` and `$#` queries reported.
#[derive(Debug)]
pub struct DeviceInspection {
    pub firmware_version: Option<String>,
    pub firmware_build_info: Option<String>,
    pub firmware_options: Option<String>,
    pub controller_capabilities: Option<ControllerCapabilities>,
    pub settings: TextMap,
    pub modal_state: Vec<String>,
    pub parameters: TextMap,
    pub responses: Vec<CommandResponse>,
}

pub struct InspectionV {
    pub firmware_version: Option<Seq<char>>,
    pub firmware_build_info: Option<Seq<char>>,
    pub firmware_options: Option<Seq<char>>,
    pub controller_capabilities: Option<CapabilitiesV>,
    pub settings: Map<Seq<char>, Seq<char>>,
    pub modal_state: Seq<Seq<char>>,
    pub parameters: Map<Seq<char>, Seq<char>>,
}

pub open spec fn string_views(v: Seq<String>) -> Seq<Seq<char>> {
    v.map_values(|s: String| s@)
}

impl View for DeviceInspection {
    type V = InspectionV;

    open spec fn view(&self) -> InspectionV {
        InspectionV {
            firmware_version: opt_string_view(self.firmware_version),
            firmware_build_info: opt_string_view(self.firmware_build_info),
            firmware_options: opt_string_view(self.firmware_options),
            controller_capabilities: match self.controller_capabilities {
                Some(c) => Some(
                    CapabilitiesV {
                        option_flags: c.option_flags@,
                        planner_buffer_blocks: c.planner_buffer_blocks,
                        rx_buffer_bytes: c.rx_buffer_bytes,
                    },
                ),
                None => None,
            },
            settings: self.settings@,
            modal_state: string_views(self.modal_state@),
            parameters: self.parameters@,
        }
    }
}

impl DeviceInspection {
    pub open spec fn wf(&self) -> bool {
        self.settings.wf() && self.parameters.wf()
    }
}

/// Nothing reported yet.
pub open spec fn empty_inspection() -> InspectionV {
    InspectionV {
        firmware_version: None,
        firmware_build_info: None,
        firmware_options: None,
        controller_capabilities: None,
        settings: Map::empty(),
        modal_state: Seq::empty(),
        parameters: Map::empty(),
    }
}

/// `[KEY:value]`: the value between the key and the closing bracket.
pub open spec fn bracket_value(line: Seq<char>, key: Seq<char>) -> Option<Seq<char>> {
    let p = seq!['['] + key + seq![':'];
    if starts_with(line, p) && line.len() >= p.len() + 1 && line[line.len() - 1] == ']' {
        Some(line.subrange(p.len() as int, line.len() - 1))
    } else {
        None
    }
}

pub open spec fn non_empty(s: Seq<char>) -> Option<Seq<char>> {
    if s.len() > 0 {
        Some(s)
    } else {
        None
    }
}

/// `[OPT:flags,planner,rx]`.
pub open spec fn capabilities_of(value: Seq<char>) -> CapabilitiesV {
    let parts = split_on(value, ',');
    CapabilitiesV {
        option_flags: parts[0],
        planner_buffer_blocks: if parts.len() > 1 {
            match parse_unsigned(parts[1], u32::MAX as nat) {
                Some(v) => Some(v as u32),
                None => None,
            }
        } else {
            None
        },
        rx_buffer_bytes: if parts.len() > 2 {
            match parse_unsigned(parts[2], u32::MAX as nat) {
                Some(v) => Some(v as u32),
                None => None,
            }
        } else {
            None
        },
    }
}

/// A line of the `$I` answer.
pub open spec fn identity_line(st: InspectionV, line: Seq<char>) -> InspectionV {
    match bracket_value(line, "VER"@) {
        Some(v) => {
            let (version, build) = match split_once(v, ':') {
                Some(pair) => pair,
                None => (v, Seq::empty()),
            };
            InspectionV {
                firmware_version: non_empty(version),
                firmware_build_info: non_empty(build),
                ..st
            }
        },
        None => match bracket_value(line, "OPT"@) {
            Some(v) => InspectionV {
                firmware_options: non_empty(v),
                controller_capabilities: Some(capabilities_of(v)),
                ..st
            },
            None => st,
        },
    }
}

/// A line of the `$$` answer: `$<digits>=<value>`.
pub open spec fn setting_line(st: InspectionV, line: Seq<char>) -> InspectionV {
    if line.len() > 0 && line[0] == '$' {
        match split_once(line.drop_first(), '=') {
            Some((key, value)) => if key.len() > 0 && value.len() > 0 && all_digits(key) {
                InspectionV { settings: st.settings.insert(seq!['$'] + key, value), ..st }
            } else {
                st
            },
            None => st,
        }
    } else {
        st
    }
}

/// A line of the `$G` answer: `[GC:...]`.
pub open spec fn modal_line(st: InspectionV, line: Seq<char>) -> InspectionV {
    match bracket_value(line, "GC"@) {
        Some(v) => InspectionV { modal_state: words(v), ..st },
        None => st,
    }
}

/// A line of the `$#` answer: `[KEY:value]` for any key but `GC`, `VER` and `OPT`.
pub open spec fn parameter_line(st: InspectionV, line: Seq<char>) -> InspectionV {
    if line.len() >= 2 && line[0] == '[' && line[line.len() - 1] == ']' {
        match split_once(line.subrange(1, line.len() - 1), ':') {
            Some((key, value)) => if key.len() > 0 && key != "GC"@ && key != "VER"@ && key
                != "OPT"@ {
                InspectionV { parameters: st.parameters.insert(key, value), ..st }
            } else {
                st
            },
            None => st,
        }
    } else {
        st
    }
}

/// One answer line, read according to the query that produced it.
pub open spec fn inspect_line(st: InspectionV, command: Seq<char>, line: Seq<char>) -> InspectionV {
    if command == "$I"@ {
        identity_line(st, line)
    } else if command == "$$"@ {
        setting_line(st, line)
    } else if command == "$G"@ {
        modal_line(st, line)
    } else if command == "$#"@ {
        parameter_line(st, line)
    } else {
        st
    }
}

pub open spec fn inspect_lines(st: InspectionV, command: Seq<char>, lines: Seq<Seq<char>>) -> InspectionV
    decreases lines.len(),
{
    if lines.len() == 0 {
        st
    } else {
        inspect_lines(inspect_line(st, command, lines[0]), command, lines.drop_first())
    }
}

pub open spec fn inspect_responses(st: InspectionV, rs: Seq<CommandResponse>) -> InspectionV
    decreases rs.len(),
{
    if rs.len() == 0 {
        st
    } else {
        inspect_responses(
            inspect_lines(st, rs[0].command@, string_views(rs[0].lines@)),
            rs.drop_first(),
        )
    }
}

fn bracket_value_exec(line: &[char], key: &str) -> (r: Option<Vec<char>>)
    ensures
        opt_chars_view(r) == bracket_value(line@, key@),
{
    let kc = chars_of(key);
    let mut p: Vec<char> = vec!['['];
    let mut i: usize = 0;
    while i < kc.len()
        invariant
            i <= kc.len(),
            kc@ == key@,
            p@ == seq!['['] + kc@.take(i as int),
        decreases kc.len() - i,
    {
        p.push(kc[i]);
        i = i + 1;
        assert(p@ =~= seq!['['] + kc@.take(i as int));
    }
    p.push(':');
    assert(kc@.take(kc@.len() as int) =~= kc@);
    assert(p@ =~= seq!['['] + key@ + seq![':']);
    let n = line.len();
    if p.len() < n && line[n - 1] == ']' {
        let mut k: usize = 0;
        while k < p.len()
            invariant
                p@ == seq!['['] + key@ + seq![':'],
                line[n - 1] == ']',
                k <= p.len(),
                p.len() + 1 <= n,
                n == line@.len(),
                forall|m: int| 0 <= m < k ==> line@[m] == p@[m],
            decreases p.len() - k,
        {
            if line[k] != p[k] {
                assert(line@.take(p@.len() as int)[k as int] != p@[k as int]);
                return None;
            }
            k = k + 1;
        }
        assert(line@.take(p@.len() as int) =~= p@);
        Some(slice_chars(line, p.len(), n - 1))
    } else {
        None
    }
}

pub open spec fn opt_chars_view(o: Option<Vec<char>>) -> Option<Seq<char>> {
    match o {
        Some(v) => Some(v@),
        None => None,
    }
}

fn non_empty_exec(s: &[char]) -> (r: Option<String>)
    ensures
        opt_string_view(r) == non_empty(s@),
{
    if s.len() > 0 {
        Some(owned(s))
    } else {
        None
    }
}

fn capabilities_exec(value: &[char]) -> (c: ControllerCapabilities)
    ensures
        c.option_flags@ == capabilities_of(value@).option_flags,
        c.planner_buffer_blocks == capabilities_of(value@).planner_buffer_blocks,
        c.rx_buffer_bytes == capabilities_of(value@).rx_buffer_bytes,
{
    let parts = split_chars(value, ',');
    let ghost ps = views(parts@);
    assert(ps[0] == parts@[0]@);
    let planner = if parts.len() > 1 {
        assert(ps[1] == parts@[1]@);
        match parse_unsigned_chars(parts[1].as_slice(), 4294967295) {
            Some(v) => Some(v as u32),
            None => None,
        }
    } else {
        None
    };
    let rx = if parts.len() > 2 {
        assert(ps[2] == parts@[2]@);
        match parse_unsigned_chars(parts[2].as_slice(), 4294967295) {
            Some(v) => Some(v as u32),
            None => None,
        }
    } else {
        None
    };
    ControllerCapabilities {
        option_flags: owned(parts[0].as_slice()),
        planner_buffer_blocks: planner,
        rx_buffer_bytes: rx,
    }
}

fn all_digit_chars(s: &[char]) -> (r: bool)
    ensures
        r == all_digits(s@),
{
    let mut k: usize = 0;
    while k < s.len()
        invariant
            k <= s.len(),
            forall|m: int| 0 <= m < k ==> is_ascii_digit(#[trigger] s@[m]),
        decreases s.len() - k,
    {
        if !('0' <= s[k] && s[k] <= '9') {
            assert(!is_ascii_digit(s@[k as int]));
            return false;
        }
        k = k + 1;
    }
    true
}

fn identity_line_exec(st: &mut DeviceInspection, line: &[char])
    requires
        old(st).wf(),
    ensures
        final(st).wf(),
        final(st)@ == identity_line(old(st)@, line@),
        final(st).settings == old(st).settings,
        final(st).parameters == old(st).parameters,
        final(st).responses == old(st).responses,
{
    match bracket_value_exec(line, "VER") {
        Some(v) => {
            match split_once_chars(v.as_slice(), ':') {
                Some((version, build)) => {
                    st.firmware_version = non_empty_exec(version.as_slice());
                    st.firmware_build_info = non_empty_exec(build.as_slice());
                },
                None => {
                    st.firmware_version = non_empty_exec(v.as_slice());
                    st.firmware_build_info = None;
                },
            }
        },
        None => match bracket_value_exec(line, "OPT") {
            Some(v) => {
                st.firmware_options = non_empty_exec(v.as_slice());
                st.controller_capabilities = Some(capabilities_exec(v.as_slice()));
            },
            None => {},
        },
    }
}

fn setting_line_exec(st: &mut DeviceInspection, line: &[char])
    requires
        old(st).wf(),
    ensures
        final(st).wf(),
        final(st)@ == setting_line(old(st)@, line@),
        final(st).responses == old(st).responses,
{
    if line.len() == 0 || line[0] != '$' {
        return;
    }
    let rest = slice_chars(line, 1, line.len());
    assert(rest@ =~= line@.drop_first());
    match split_once_chars(rest.as_slice(), '=') {
        Some((key, value)) => {
            if key.len() > 0 && value.len() > 0 && all_digit_chars(key.as_slice()) {
                let mut full: Vec<char> = vec!['$'];
                let mut i: usize = 0;
                while i < key.len()
                    invariant
                        i <= key.len(),
                        full@ == seq!['$'] + key@.take(i as int),
                    decreases key.len() - i,
                {
                    full.push(key[i]);
                    i = i + 1;
                    assert(full@ =~= seq!['$'] + key@.take(i as int));
                }
                assert(key@.take(key@.len() as int) =~= key@);
                st.settings.insert(owned(full.as_slice()), owned(value.as_slice()));
            }
        },
        None => {},
    }
}

fn modal_line_exec(st: &mut DeviceInspection, line: &[char])
    requires
        old(st).wf(),
    ensures
        final(st).wf(),
        final(st)@ == modal_line(old(st)@, line@),
        final(st).responses == old(st).responses,
{
    match bracket_value_exec(line, "GC") {
        Some(v) => {
            let ws = crate::text::split_ws(v.as_slice());
            let mut out: Vec<String> = Vec::new();
            let mut i: usize = 0;
            while i < ws.len()
                invariant
                    i <= ws.len(),
                    string_views(out@) == views(ws@).take(i as int),
                decreases ws.len() - i,
            {
                assert(views(ws@)[i as int] == ws@[i as int]@);
                let ghost prev = out@;
                out.push(owned(ws[i].as_slice()));
                assert(out@ == prev.push(out@.last()));
                assert(string_views(out@) =~= string_views(prev).push(ws@[i as int]@));
                i = i + 1;
                assert(string_views(out@) =~= views(ws@).take(i as int));
            }
            assert(views(ws@).take(ws@.len() as int) =~= views(ws@));
            st.modal_state = out;
        },
        None => {},
    }
}

fn parameter_line_exec(st: &mut DeviceInspection, line: &[char])
    requires
        old(st).wf(),
    ensures
        final(st).wf(),
        final(st)@ == parameter_line(old(st)@, line@),
        final(st).responses == old(st).responses,
{
    let n = line.len();
    if n < 2 || line[0] != '[' || line[n - 1] != ']' {
        return;
    }
    let payload = slice_chars(line, 1, n - 1);
    match split_once_chars(payload.as_slice(), ':') {
        Some((key, value)) => {
            let k = key.as_slice();
            if key.len() > 0 && !chars_eq_str(k, "GC") && !chars_eq_str(k, "VER")
                && !chars_eq_str(k, "OPT") {
                st.parameters.insert(owned(k), owned(value.as_slice()));
            }
        },
        None => {},
    }
}

/// Collects the answers to the inspection queries into one report.
pub fn build_device_inspection(responses: Vec<CommandResponse>) -> (r: DeviceInspection)
    ensures
        r.wf(),
        r@ == inspect_responses(empty_inspection(), responses@),
        r.responses@ == responses@,
{
    let mut insp = DeviceInspection {
        firmware_version: None,
        firmware_build_info: None,
        firmware_options: None,
        controller_capabilities: None,
        settings: TextMap::new(),
        modal_state: Vec::new(),
        parameters: TextMap::new(),
        responses: Vec::new(),
    };
    assert(string_views(insp.modal_state@) =~= Seq::<Seq<char>>::empty());
    assert(insp@ == empty_inspection());
    let mut i: usize = 0;
    assert(responses@.skip(0) =~= responses@);
    while i < responses.len()
        invariant
            i <= responses.len(),
            insp.wf(),
            inspect_responses(empty_inspection(), responses@) == inspect_responses(
                insp@,
                responses@.skip(i as int),
            ),
        decreases responses.len() - i,
    {
        let response = &responses[i];
        let cmd = chars_of(response.command.as_str());
        let is_identity = chars_eq_str(cmd.as_slice(), "$I");
        let is_setting = chars_eq_str(cmd.as_slice(), "$$");
        let is_modal = chars_eq_str(cmd.as_slice(), "$G");
        let is_parameter = chars_eq_str(cmd.as_slice(), "$#");
        let ghost lines = string_views(response.lines@);
        let ghost start = insp@;
        let mut j: usize = 0;
        assert(lines.skip(0) =~= lines);
        while j < response.lines.len()
            invariant
                j <= response.lines@.len(),
                insp.wf(),
                lines == string_views(response.lines@),
                cmd@ == response.command@,
                is_identity == (cmd@ == "$I"@),
                is_setting == (cmd@ == "$$"@),
                is_modal == (cmd@ == "$G"@),
                is_parameter == (cmd@ == "$#"@),
                inspect_lines(start, cmd@, lines) == inspect_lines(insp@, cmd@, lines.skip(j as int)),
            decreases response.lines.len() - j,
        {
            let text = chars_of(response.lines[j].as_str());
            let t = text.as_slice();
            assert(lines.skip(j as int)[0] == t@);
            assert(lines.skip(j as int).drop_first() =~= lines.skip(j + 1));
            if is_identity {
                identity_line_exec(&mut insp, t);
            } else if is_setting {
                setting_line_exec(&mut insp, t);
            } else if is_modal {
                modal_line_exec(&mut insp, t);
            } else if is_parameter {
                parameter_line_exec(&mut insp, t);
            }
            j = j + 1;
        }
        assert(lines.skip(j as int) =~= Seq::<Seq<char>>::empty());
        assert(responses@.skip(i as int)[0] == responses@[i as int]);
        assert(responses@.skip(i as int).drop_first() =~= responses@.skip(i + 1));
        i = i + 1;
    }
    assert(responses@.skip(i as int) =~= Seq::<CommandResponse>::empty());
    insp.responses = responses;
    insp
}


// ---------------------------------------------------------------------------
// Work coordinates
// ---------------------------------------------------------------------------

/// A linear axis whose work zero can be set.
#[derive(Clone, Copy, Debug, PartialEq, Eq, Structural)]
pub enum WorkAxis {
    X,
    Y,
    Z,
}

/// The six work coordinate systems G54 to G59.
#[derive(Clone, Copy, Debug, PartialEq, Eq, Structural)]
pub enum WorkCoordinateSystem {
    G54,
    G55,
    G56,
    G57,
    G58,
    G59,
}

pub open spec fn wcs_name(c: WorkCoordinateSystem) -> Seq<char> {
    match c {
        WorkCoordinateSystem::G54 => "G54"@,
        WorkCoordinateSystem::G55 => "G55"@,
        WorkCoordinateSystem::G56 => "G56"@,
        WorkCoordinateSystem::G57 => "G57"@,
        WorkCoordinateSystem::G58 => "G58"@,
        WorkCoordinateSystem::G59 => "G59"@,
    }
}

/// The system that a modal word selects, if it is one of G54 to G59.
pub open spec fn wcs_from(w: Seq<char>) -> Option<WorkCoordinateSystem> {
    if w == "G54"@ {
        Some(WorkCoordinateSystem::G54)
    } else if w == "G55"@ {
        Some(WorkCoordinateSystem::G55)
    } else if w == "G56"@ {
        Some(WorkCoordinateSystem::G56)
    } else if w == "G57"@ {
        Some(WorkCoordinateSystem::G57)
    } else if w == "G58"@ {
        Some(WorkCoordinateSystem::G58)
    } else if w == "G59"@ {
        Some(WorkCoordinateSystem::G59)
    } else {
        None
    }
}

pub open spec fn not_wcs() -> spec_fn(Seq<char>) -> bool {
    |w: Seq<char>| wcs_from(w) is None
}

/// The first modal word that names a work coordinate system.
pub open spec fn first_wcs(ws: Seq<Seq<char>>) -> Option<WorkCoordinateSystem> {
    let f = first_fail(ws, not_wcs());
    if f < ws.len() {
        wcs_from(ws[f as int])
    } else {
        None
    }
}

/// The `P` number of `G10 L20` for a coordinate system.
pub open spec fn wcs_index(c: WorkCoordinateSystem) -> nat {
    match c {
        WorkCoordinateSystem::G54 => 1,
        WorkCoordinateSystem::G55 => 2,
        WorkCoordinateSystem::G56 => 3,
        WorkCoordinateSystem::G57 => 4,
        WorkCoordinateSystem::G58 => 5,
        WorkCoordinateSystem::G59 => 6,
    }
}

pub open spec fn axis_letter(a: WorkAxis) -> char {
    match a {
        WorkAxis::X => 'X',
        WorkAxis::Y => 'Y',
        WorkAxis::Z => 'Z',
    }
}

/// `G10 L20 P<n> <axis>0`: the current position becomes zero on `axis`.
pub open spec fn set_work_zero_command(axis: WorkAxis, c: WorkCoordinateSystem) -> Seq<char> {
    "G10 L20 P"@ + crate::text::dec(wcs_index(c)) + seq![' ', axis_letter(axis), '0']
}

/// The modal word of a coordinate system.
pub fn work_coordinate_parameter(coordinate_system: WorkCoordinateSystem) -> (r: &'static str)
    ensures
        r@ == wcs_name(coordinate_system),
{
    match coordinate_system {
        WorkCoordinateSystem::G54 => "G54",
        WorkCoordinateSystem::G55 => "G55",
        WorkCoordinateSystem::G56 => "G56",
        WorkCoordinateSystem::G57 => "G57",
        WorkCoordinateSystem::G58 => "G58",
        WorkCoordinateSystem::G59 => "G59",
    }
}

fn wcs_from_exec(w: &[char]) -> (r: Option<WorkCoordinateSystem>)
    ensures
        r == wcs_from(w@),
{
    if chars_eq_str(w, "G54") {
        Some(WorkCoordinateSystem::G54)
    } else if chars_eq_str(w, "G55") {
        Some(WorkCoordinateSystem::G55)
    } else if chars_eq_str(w, "G56") {
        Some(WorkCoordinateSystem::G56)
    } else if chars_eq_str(w, "G57") {
        Some(WorkCoordinateSystem::G57)
    } else if chars_eq_str(w, "G58") {
        Some(WorkCoordinateSystem::G58)
    } else if chars_eq_str(w, "G59") {
        Some(WorkCoordinateSystem::G59)
    } else {
        None
    }
}

/// The first of G54 to G59 among the reported modal words.
pub fn active_work_coordinate_system(modal_state: &[String]) -> (r: Option<WorkCoordinateSystem>)
    ensures
        r == first_wcs(string_views(modal_state@)),
{
    let ghost ws = string_views(modal_state@);
    let mut i: usize = 0;
    while i < modal_state.len()
        invariant
            i <= modal_state@.len(),
            ws == string_views(modal_state@),
            forall|k: int| 0 <= k < i ==> #[trigger] not_wcs()(ws[k]),
        decreases modal_state.len() - i,
    {
        let w = chars_of(modal_state[i].as_str());
        assert(ws[i as int] == w@);
        match wcs_from_exec(w.as_slice()) {
            Some(c) => {
                proof {
                    lemma_first_fail(ws, not_wcs());
                    let f = first_fail(ws, not_wcs());
                    if f < i {
                        assert(not_wcs()(ws[f as int]));
                    }
                    if f > i {
                        assert(not_wcs()(ws[i as int]));
                    }
                }
                return Some(c);
            },
            None => {},
        }
        i = i + 1;
    }
    proof {
        lemma_first_fail(ws, not_wcs());
        let f = first_fail(ws, not_wcs());
        if f < ws.len() {
            assert(not_wcs()(ws[f as int]));
        }
    }
    None
}

/// `G10 L20 P<n> <axis>0` for the given axis and coordinate system.
pub fn encode_set_work_zero(axis: WorkAxis, coordinate_system: WorkCoordinateSystem) -> (r: String)
    ensures
        r@ == set_work_zero_command(axis, coordinate_system),
{
    let letter = match axis {
        WorkAxis::X => 'X',
        WorkAxis::Y => 'Y',
        WorkAxis::Z => 'Z',
    };
    let p: u64 = match coordinate_system {
        WorkCoordinateSystem::G54 => 1,
        WorkCoordinateSystem::G55 => 2,
        WorkCoordinateSystem::G56 => 3,
        WorkCoordinateSystem::G57 => 4,
        WorkCoordinateSystem::G58 => 5,
        WorkCoordinateSystem::G59 => 6,
    };
    let mut v = chars_of("G10 L20 P");
    let digits = crate::text::dec_chars(p);
    let mut i: usize = 0;
    let ghost head = v@;
    while i < digits.len()
        invariant
            i <= digits.len(),
            v@ == head + digits@.take(i as int),
        decreases digits.len() - i,
    {
        v.push(digits[i]);
        i = i + 1;
        assert(v@ =~= head + digits@.take(i as int));
    }
    assert(digits@.take(digits@.len() as int) =~= digits@);
    v.push(' ');
    v.push(letter);
    v.push('0');
    let r = owned(v.as_slice());
    assert(r@ =~= set_work_zero_command(axis, coordinate_system));
    r
}

// ---------------------------------------------------------------------------
// Laws of status reports
// ---------------------------------------------------------------------------

/// The name of a status field: the text before its first `:`.
pub open spec fn field_name(f: Seq<char>) -> Option<Seq<char>> {
    match split_once(f, ':') {
        Some((n, _)) => Some(n),
        None => None,
    }
}

/// Some field of `fields` carries the name `name`.
pub open spec fn names_field(fields: Seq<Seq<char>>, name: Seq<char>) -> bool {
    exists|i: int| 0 <= i < fields.len() && field_name(#[trigger] fields[i]) == Some(name)
}

/// The position a list of three or four numbers gives.
pub open spec fn position_from(xs: Seq<DecimalV>) -> PositionV {
    PositionV {
        x: xs[0],
        y: xs[1],
        z: xs[2],
        a: if xs.len() == 4 {
            Some(xs[3])
        } else {
            None
        },
    }
}

proof fn lemma_position_names_differ()
    ensures
        "MPos"@ != "WPos"@,
        "MPos"@ != "WCO"@,
        "WPos"@ != "WCO"@,
{
    reveal_strlit("MPos");
    reveal_strlit("WPos");
    reveal_strlit("WCO");
    assert("MPos"@[0] != "WPos"@[0]);
    assert("MPos"@.len() != "WCO"@.len());
    assert("WPos"@.len() != "WCO"@.len());
}

/// A `WPos` field sets the work position to its numbers and changes nothing
/// else, and an `MPos` field sets the machine position and changes nothing
/// else: neither ever touches the other's position.
pub proof fn lemma_position_fields_set_only_their_own_position(st: MachineStateV, f: Seq<char>)
    requires
        apply_field(st, f) is Ok,
        field_name(f) == Some("WPos"@) || field_name(f) == Some("MPos"@),
    ensures
        ({
            let v = split_once(f, ':')->Some_0.1;
            let next = apply_field(st, f)->Ok_0;
            &&& decimal_list(v) is Ok
            &&& 3 <= decimal_list(v)->Ok_0.len() <= 4
            &&& field_name(f) == Some("WPos"@) ==> next == (MachineStateV {
                work_position: Some(position_from(decimal_list(v)->Ok_0)),
                ..st
            })
            &&& field_name(f) == Some("MPos"@) ==> next == (MachineStateV {
                machine_position: Some(position_from(decimal_list(v)->Ok_0)),
                ..st
            })
        }),
{
    lemma_position_names_differ();
}

/// A field not named `MPos` leaves the machine position as it was, and one
/// not named `WPos` leaves the work position as it was.
proof fn lemma_other_fields_keep_positions(st: MachineStateV, f: Seq<char>)
    requires
        apply_field(st, f) is Ok,
    ensures
        field_name(f) != Some("MPos"@) ==> apply_field(st, f)->Ok_0.machine_position == st.machine_position,
        field_name(f) != Some("WPos"@) ==> apply_field(st, f)->Ok_0.work_position == st.work_position,
{
    lemma_position_names_differ();
}

/// Applying fields in turn changes the machine position only through an
/// `MPos` field and the work position only through a `WPos` field.
pub proof fn lemma_positions_come_only_from_their_fields(st: MachineStateV, fields: Seq<Seq<char>>)
    requires
        apply_fields(st, fields) is Ok,
    ensures
        !names_field(fields, "MPos"@) ==> apply_fields(st, fields)->Ok_0.machine_position == st.machine_position,
        !names_field(fields, "WPos"@) ==> apply_fields(st, fields)->Ok_0.work_position == st.work_position,
    decreases fields.len(),
{
    if fields.len() > 0 {
        let next = apply_field(st, fields[0])->Ok_0;
        lemma_other_fields_keep_positions(st, fields[0]);
        let rest = fields.drop_first();
        assert forall|name: Seq<char>| names_field(rest, name) implies names_field(fields, name) by {
            let i = choose|i: int| 0 <= i < rest.len() && field_name(#[trigger] rest[i]) == Some(name);
            assert(fields[i + 1] == rest[i]);
        }
        if !names_field(fields, "MPos"@) {
            assert(field_name(fields[0]) != Some("MPos"@)) by {
                if field_name(fields[0]) == Some("MPos"@) {
                    assert(names_field(fields, "MPos"@));
                }
            }
        }
        if !names_field(fields, "WPos"@) {
            assert(field_name(fields[0]) != Some("WPos"@)) by {
                if field_name(fields[0]) == Some("WPos"@) {
                    assert(names_field(fields, "WPos"@));
                }
            }
        }
        lemma_positions_come_only_from_their_fields(next, rest);
    }
}

/// A status report has a machine position only if one of its fields is
/// `MPos`, and a work position only if one is `WPos`: a report whose only
/// position field is `WPos:x,y,z` gives the work position (x, y, z) and no
/// machine position.
pub proof fn lemma_status_positions_come_from_their_fields(line: Seq<char>)
    requires
        parse_status(line) is Ok,
    ensures
        ({
            let fields = split_on(status_frame(line)->Some_0, '|').drop_first();
            let r = parse_status(line)->Ok_0;
            &&& !names_field(fields, "MPos"@) ==> r.machine_position is None
            &&& !names_field(fields, "WPos"@) ==> r.work_position is None
        }),
{
    let payload = status_frame(line)->Some_0;
    let all = split_on(payload, '|');
    let (name, sub) = mode_field(all[0])->Ok_0;
    lemma_positions_come_only_from_their_fields(initial_state(name, sub), all.drop_first());
}

} // verus!
