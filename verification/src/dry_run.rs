//! Run planning: the policy that decides whether a parsed program may be sent,
//! and the ordered list of wire commands when it may.
use vstd::prelude::*;
use vstd::string::*;
use vstd::utf8::encode_utf8;

use crate::program::{
    LineTiming, ProgramLine, ProgramListing, ProgramWarning, ProgramWarningCode,
    ProgramWarningSeverity,
};
use crate::text::{
    chars_of, dec, dec_chars, is_ws, join, join_space, split_ws, string_from_chars, views, words,
};
use crate::word::{
    dec_code, dec_in_probe_family, dec_nonzero, dec_tool, split_word, split_word_exec, word_is,
    word_is_exec,
};

verus! {

pub const MAX_DRY_RUN_COMMAND_BYTES: usize = 255;

pub const MAX_COMPENSATED_PROGRAM_LINES: usize = 200000;

pub const MAX_CUTTING_DEPTH_ADJUSTMENT_UM: i32 = 10000;

/// Whether the spindle may run.
#[derive(Clone, Copy, Debug, PartialEq, Eq, Structural)]
pub enum ProgramRunPolicy {
    /// Motion only; spindle, coolant and tool changes are refused.
    AirRun,
    /// A real cut: spindle words and isolated tool changes are allowed.
    Cutting,
}

/// Host-side options chosen for one run.
#[derive(Clone, Copy, Debug, PartialEq, Eq, Structural)]
pub struct ProgramExecutionOptions {
    pub optional_stop: bool,
    pub block_delete: bool,
    pub surface_map_id: Option<u64>,
    pub cutting_depth_adjustment_um: Option<i32>,
}

impl ProgramExecutionOptions {
    /// No optional stop, no block delete, no surface map, no depth adjustment.
    pub fn defaults() -> (r: Self)
        ensures
            !r.optional_stop,
            !r.block_delete,
            r.surface_map_id is None,
            r.cutting_depth_adjustment_um is None,
    {
        ProgramExecutionOptions {
            optional_stop: false,
            block_delete: false,
            surface_map_id: None,
            cutting_depth_adjustment_um: None,
        }
    }
}

#[derive(Clone, Copy, Debug, PartialEq, Eq, PartialOrd, Ord, Structural)]
pub enum DryRunBlockerKind {
    SpindleActivation,
    SpindleSpeed,
    CoolantActivation,
    ProbeCycle,
    ToolChange,
    MachineCoordinateMotion,
    CoordinateMutation,
    UnsupportedProgram,
    IncompletePreview,
    CommandTooLong,
    HeightmapCompensation,
    CuttingDepthAdjustment,
}

/// One reason why a program may not run.
pub struct DryRunBlocker {
    pub source_line: Option<usize>,
    pub kind: DryRunBlockerKind,
    pub message: String,
}

/// View of a [`DryRunBlocker`].
pub struct BlockerV {
    pub source_line: Option<usize>,
    pub kind: DryRunBlockerKind,
    pub message: Seq<char>,
}

impl View for DryRunBlocker {
    type V = BlockerV;

    open spec fn view(&self) -> BlockerV {
        BlockerV { source_line: self.source_line, kind: self.kind, message: self.message@ }
    }
}

pub open spec fn blockers_view(v: Seq<DryRunBlocker>) -> Seq<BlockerV> {
    v.map_values(|b: DryRunBlocker| b@)
}

#[derive(Clone, Copy, Debug, PartialEq, Eq, Structural)]
pub enum DryRunLineKind {
    SafetyPreamble,
    SafetyEpilogue,
    Program,
    ProgramPause,
    OptionalPause,
    ToolChange,
    ProgramEnd,
}

/// One command of a run plan.
pub struct DryRunLine {
    source_line: Option<usize>,
    command: String,
    kind: DryRunLineKind,
    tool_number: Option<u8>,
    estimated_duration_ms: Option<u64>,
}

/// View of a [`DryRunLine`].
pub struct LineV {
    pub source_line: Option<usize>,
    pub command: Seq<char>,
    pub kind: DryRunLineKind,
    pub tool_number: Option<u8>,
    pub estimated_duration_ms: Option<u64>,
}

impl View for DryRunLine {
    type V = LineV;

    closed spec fn view(&self) -> LineV {
        LineV {
            source_line: self.source_line,
            command: self.command@,
            kind: self.kind,
            tool_number: self.tool_number,
            estimated_duration_ms: self.estimated_duration_ms,
        }
    }
}

pub open spec fn lines_view(v: Seq<DryRunLine>) -> Seq<LineV> {
    v.map_values(|l: DryRunLine| l@)
}

/// Words of a normalized command other than `N` line numbers.
pub open spec fn without_line_numbers(ws: Seq<Seq<char>>) -> Seq<Seq<char>>
    decreases ws.len(),
{
    if ws.len() == 0 {
        Seq::empty()
    } else {
        let rest = without_line_numbers(ws.drop_last());
        if is_line_number_word(ws.last()) {
            rest
        } else {
            rest.push(ws.last())
        }
    }
}

pub open spec fn is_line_number_word(w: Seq<char>) -> bool {
    match split_word(w) {
        Some((l, _)) => l == 'N',
        None => false,
    }
}

/// The command as sent: `N<source line> ` followed by its words without `N` words.
pub open spec fn numbered(source_line: nat, normalized: Seq<char>) -> Seq<char> {
    seq!['N'] + dec(source_line) + seq![' '] + join(
        without_line_numbers(words(normalized)),
        seq![' '],
    )
}

impl DryRunLine {
    pub fn source_line(&self) -> (r: Option<usize>)
        ensures
            r == self@.source_line,
    {
        self.source_line
    }

    pub fn command(&self) -> (r: &str)
        ensures
            r@ == self@.command,
    {
        self.command.as_str()
    }

    pub fn kind(&self) -> (r: DryRunLineKind)
        ensures
            r == self@.kind,
    {
        self.kind
    }

    pub fn tool_number(&self) -> (r: Option<u8>)
        ensures
            r == self@.tool_number,
    {
        self.tool_number
    }

    pub fn estimated_duration_ms(&self) -> (r: Option<u64>)
        ensures
            r == self@.estimated_duration_ms,
    {
        self.estimated_duration_ms
    }

    /// The command with the source line number in place of any file line number.
    pub fn wire_command(&self) -> (r: String)
        ensures
            r@ == match self@.source_line {
                Some(n) => numbered(n as nat, self@.command),
                None => self@.command,
            },
    {
        match self.source_line {
            Some(n) => numbered_command(n, self.command.as_str()),
            None => self.command.clone(),
        }
    }

    /// Byte length of [`Self::wire_command`].
    pub fn wire_command_len(&self) -> (r: usize)
        ensures
            r == encode_utf8(
                match self@.source_line {
                    Some(n) => numbered(n as nat, self@.command),
                    None => self@.command,
                },
            ).len() as usize,
    {
        match self.source_line {
            Some(n) => numbered_command_len(n, self.command.as_str()),
            None => self.command.as_str().len(),
        }
    }
}

/// `N<source_line> <words without N>`.
pub fn numbered_command(source_line: usize, normalized: &str) -> (r: String)
    ensures
        r@ == numbered(source_line as nat, normalized@),
{
    let ws = split_ws(&chars_of(normalized));
    let mut kept: Vec<Vec<char>> = Vec::new();
    let mut i: usize = 0;
    while i < ws.len()
        invariant
            i <= ws.len(),
            views(kept@) == without_line_numbers(views(ws@).take(i as int)),
        decreases ws.len() - i,
    {
        let is_n = match split_word_exec(&ws[i]) {
            Some(w) => w.letter == 'N',
            None => false,
        };
        proof {
            assert(views(ws@).take(i + 1).drop_last() =~= views(ws@).take(i as int));
        }
        if !is_n {
            let w = ws[i].clone();
            proof {
                assert(views(kept@.push(w)) =~= views(kept@).push(w@));
            }
            kept.push(w);
        }
        i = i + 1;
    }
    assert(views(ws@).take(ws.len() as int) =~= views(ws@));
    let body = join_space(&kept);
    let mut out: Vec<char> = Vec::new();
    out.push('N');
    let digits = dec_chars(source_line as u64);
    let mut k: usize = 0;
    while k < digits.len()
        invariant
            k <= digits.len(),
            out@ == seq!['N'] + digits@.take(k as int),
        decreases digits.len() - k,
    {
        out.push(digits[k]);
        k = k + 1;
        assert(out@ =~= seq!['N'] + digits@.take(k as int));
    }
    assert(digits@.take(digits.len() as int) =~= digits@);
    out.push(' ');
    let ghost head = out@;
    let mut k: usize = 0;
    while k < body.len()
        invariant
            k <= body.len(),
            out@ == head + body@.take(k as int),
        decreases body.len() - k,
    {
        out.push(body[k]);
        k = k + 1;
        assert(out@ =~= head + body@.take(k as int));
    }
    assert(body@.take(body.len() as int) =~= body@);
    assert(out@ =~= numbered(source_line as nat, normalized@));
    string_from_chars(&out)
}

/// Byte length of [`numbered_command`].
pub fn numbered_command_len(source_line: usize, normalized: &str) -> (r: usize)
    ensures
        r == encode_utf8(numbered(source_line as nat, normalized@)).len() as usize,
{
    let s = numbered_command(source_line, normalized);
    let r = s.as_str().len();
    r
}


pub open spec fn msg_block_delete() -> Seq<char> {
    "program parse and sender disagree about Block Delete"@
}

pub open spec fn msg_incomplete_preview() -> Seq<char> {
    "preview is incomplete; execution is fail-closed"@
}

pub open spec fn msg_command_too_long() -> Seq<char> {
    "normalized command exceeds the 255 byte sender limit"@
}

pub open spec fn msg_spindle() -> Seq<char> {
    "M3/M4 spindle activation is forbidden by dry-run policy"@
}

pub open spec fn msg_coolant() -> Seq<char> {
    "M7/M8 coolant activation is forbidden by dry-run policy"@
}

pub open spec fn msg_tool_change() -> Seq<char> {
    "M6 tool change is forbidden by dry-run policy"@
}

pub open spec fn msg_spindle_speed() -> Seq<char> {
    "non-zero spindle speed is forbidden by dry-run policy"@
}

pub open spec fn msg_probe() -> Seq<char> {
    "G38.x probing is forbidden by dry-run policy"@
}

pub open spec fn msg_machine_motion() -> Seq<char> {
    "machine/reference-coordinate movement is forbidden by dry-run policy"@
}

pub open spec fn msg_coordinate_mutation() -> Seq<char> {
    "coordinate mutation is forbidden by dry-run policy"@
}

pub open spec fn msg_isolated_tool_change() -> Seq<char> {
    "M6 must be isolated from motion, spindle, coolant, and coordinate words"@
}

pub open spec fn msg_isolated_pause(code: nat) -> Seq<char> {
    if code == 0 {
        "M0 must be isolated so its host pause is unambiguous"@
    } else {
        "M1 must be isolated so its host pause is unambiguous"@
    }
}

/// What the run policy forbids in one word, if anything.
pub open spec fn word_violation(w: Seq<char>, policy: ProgramRunPolicy) -> Option<
    (DryRunBlockerKind, Seq<char>),
> {
    match split_word(w) {
        Some((l, v)) => {
            let air = policy == ProgramRunPolicy::AirRun;
            if l == 'M' && (dec_code(v, 3) || dec_code(v, 4)) && air {
                Some((DryRunBlockerKind::SpindleActivation, msg_spindle()))
            } else if l == 'M' && (dec_code(v, 7) || dec_code(v, 8)) {
                Some((DryRunBlockerKind::CoolantActivation, msg_coolant()))
            } else if l == 'M' && dec_code(v, 6) && air {
                Some((DryRunBlockerKind::ToolChange, msg_tool_change()))
            } else if l == 'S' && dec_nonzero(v) && air {
                Some((DryRunBlockerKind::SpindleSpeed, msg_spindle_speed()))
            } else if l == 'G' && dec_in_probe_family(v) {
                Some((DryRunBlockerKind::ProbeCycle, msg_probe()))
            } else if l == 'G' && (dec_code(v, 28) || dec_code(v, 30) || dec_code(v, 53)) {
                Some((DryRunBlockerKind::MachineCoordinateMotion, msg_machine_motion()))
            } else if l == 'G' && (dec_code(v, 10) || dec_code(v, 92)) {
                Some((DryRunBlockerKind::CoordinateMutation, msg_coordinate_mutation()))
            } else {
                None
            }
        },
        None => None,
    }
}

pub open spec fn opt_seq<T>(o: Option<T>) -> Seq<T> {
    match o {
        Some(x) => seq![x],
        None => Seq::empty(),
    }
}

/// Word-by-word violations, in order.
pub open spec fn words_violations(ws: Seq<Seq<char>>, policy: ProgramRunPolicy) -> Seq<
    (DryRunBlockerKind, Seq<char>),
>
    decreases ws.len(),
{
    if ws.len() == 0 {
        Seq::empty()
    } else {
        words_violations(ws.drop_last(), policy) + opt_seq(word_violation(ws.last(), policy))
    }
}

/// Some word is the code `letter k`.
pub open spec fn has_code(ws: Seq<Seq<char>>, letter: char, k: nat) -> bool {
    exists|i: int| 0 <= i < ws.len() && word_is(#[trigger] ws[i], letter, k)
}

/// Words that may share a block with M6 under the cutting policy.
pub open spec fn tool_change_companion(w: Seq<char>) -> bool {
    match split_word(w) {
        Some((l, v)) => l == 'N' || l == 'T' || (l == 'M' && dec_code(v, 6)),
        None => true,
    }
}

/// Words that may share a block with the pause code `code`.
pub open spec fn pause_companion(w: Seq<char>, code: nat) -> bool {
    match split_word(w) {
        Some((l, v)) => l == 'N' || (l == 'M' && dec_code(v, code)),
        None => true,
    }
}

pub open spec fn pause_violation(ws: Seq<Seq<char>>, code: nat) -> Seq<
    (DryRunBlockerKind, Seq<char>),
> {
    if has_code(ws, 'M', code) && exists|i: int|
        0 <= i < ws.len() && !pause_companion(#[trigger] ws[i], code) {
        seq![(DryRunBlockerKind::UnsupportedProgram, msg_isolated_pause(code))]
    } else {
        Seq::empty()
    }
}

/// Everything the policy forbids in one normalized block, in the order found.
pub open spec fn line_violations(ws: Seq<Seq<char>>, policy: ProgramRunPolicy) -> Seq<
    (DryRunBlockerKind, Seq<char>),
> {
    words_violations(ws, policy) + (if policy == ProgramRunPolicy::Cutting && has_code(
        ws,
        'M',
        6,
    ) && exists|i: int| 0 <= i < ws.len() && !tool_change_companion(#[trigger] ws[i]) {
        seq![(DryRunBlockerKind::ToolChange, msg_isolated_tool_change())]
    } else {
        Seq::empty()
    }) + pause_violation(ws, 0) + pause_violation(ws, 1)
}

/// Adds a blocker unless one with the same line and kind is already listed.
pub open spec fn add_blocker_spec(
    bs: Seq<BlockerV>,
    line: Option<usize>,
    kind: DryRunBlockerKind,
    msg: Seq<char>,
) -> Seq<BlockerV> {
    if exists|i: int| 0 <= i < bs.len() && (#[trigger] bs[i]).source_line == line && bs[i].kind == kind {
        bs
    } else {
        bs.push(BlockerV { source_line: line, kind, message: msg })
    }
}

pub open spec fn add_all(
    bs: Seq<BlockerV>,
    line: Option<usize>,
    vs: Seq<(DryRunBlockerKind, Seq<char>)>,
) -> Seq<BlockerV>
    decreases vs.len(),
{
    if vs.len() == 0 {
        bs
    } else {
        add_blocker_spec(add_all(bs, line, vs.drop_last()), line, vs.last().0, vs.last().1)
    }
}

pub proof fn lemma_add_all_concat(
    bs: Seq<BlockerV>,
    line: Option<usize>,
    a: Seq<(DryRunBlockerKind, Seq<char>)>,
    b: Seq<(DryRunBlockerKind, Seq<char>)>,
)
    ensures
        add_all(bs, line, a + b) == add_all(add_all(bs, line, a), line, b),
    decreases b.len(),
{
    if b.len() == 0 {
        assert(a + b =~= a);
    } else {
        lemma_add_all_concat(bs, line, a, b.drop_last());
        assert((a + b).drop_last() =~= a + b.drop_last());
    }
}

pub proof fn lemma_add_one(
    bs: Seq<BlockerV>,
    line: Option<usize>,
    kind: DryRunBlockerKind,
    msg: Seq<char>,
)
    ensures
        add_all(bs, line, seq![(kind, msg)]) == add_blocker_spec(bs, line, kind, msg),
{
    let s = seq![(kind, msg)];
    assert(s.drop_last() =~= Seq::<(DryRunBlockerKind, Seq<char>)>::empty());
    assert(s.last() == (kind, msg));
    assert(add_all(bs, line, s.drop_last()) == bs);
}

/// Adds a blocker unless the same line and kind is already blocked.
fn add_blocker(
    blockers: &mut Vec<DryRunBlocker>,
    source_line: Option<usize>,
    kind: DryRunBlockerKind,
    message: String,
)
    ensures
        blockers_view(final(blockers)@) == add_blocker_spec(
            blockers_view(old(blockers)@),
            source_line,
            kind,
            message@,
        ),
{
    let ghost bv = blockers_view(blockers@);
    let mut i: usize = 0;
    while i < blockers.len()
        invariant
            i <= blockers.len(),
            bv == blockers_view(blockers@),
            forall|k: int|
                0 <= k < i ==> !((#[trigger] bv[k]).source_line == source_line && bv[k].kind
                    == kind),
        decreases blockers.len() - i,
    {
        if blockers[i].source_line == source_line && blockers[i].kind == kind {
            assert(bv[i as int].source_line == source_line && bv[i as int].kind == kind);
            return;
        }
        i = i + 1;
    }
    let b = DryRunBlocker { source_line, kind, message };
    proof {
        assert(blockers_view(blockers@.push(b)) =~= bv.push(b@));
    }
    blockers.push(b);
}

fn word_violation_exec(w: &Vec<char>, policy: ProgramRunPolicy) -> (r: Option<
    (DryRunBlockerKind, String),
>)
    ensures
        match r {
            Some((k, m)) => word_violation(w@, policy) == Some((k, m@)),
            None => word_violation(w@, policy) is None,
        },
{
    let x = match split_word_exec(w) {
        Some(x) => x,
        None => return None,
    };
    let l = x.letter;
    let v = &x.value;
    let air = policy == ProgramRunPolicy::AirRun;
    if l == 'M' && (v.is_code(3) || v.is_code(4)) && air {
        Some(
            (
                DryRunBlockerKind::SpindleActivation,
                String::from_str("M3/M4 spindle activation is forbidden by dry-run policy"),
            ),
        )
    } else if l == 'M' && (v.is_code(7) || v.is_code(8)) {
        Some(
            (
                DryRunBlockerKind::CoolantActivation,
                String::from_str("M7/M8 coolant activation is forbidden by dry-run policy"),
            ),
        )
    } else if l == 'M' && v.is_code(6) && air {
        Some(
            (
                DryRunBlockerKind::ToolChange,
                String::from_str("M6 tool change is forbidden by dry-run policy"),
            ),
        )
    } else if l == 'S' && v.nonzero() && air {
        Some(
            (
                DryRunBlockerKind::SpindleSpeed,
                String::from_str("non-zero spindle speed is forbidden by dry-run policy"),
            ),
        )
    } else if l == 'G' && v.in_probe_family() {
        Some(
            (
                DryRunBlockerKind::ProbeCycle,
                String::from_str("G38.x probing is forbidden by dry-run policy"),
            ),
        )
    } else if l == 'G' && (v.is_code(28) || v.is_code(30) || v.is_code(53)) {
        Some(
            (
                DryRunBlockerKind::MachineCoordinateMotion,
                String::from_str(
                    "machine/reference-coordinate movement is forbidden by dry-run policy",
                ),
            ),
        )
    } else if l == 'G' && (v.is_code(10) || v.is_code(92)) {
        Some(
            (
                DryRunBlockerKind::CoordinateMutation,
                String::from_str("coordinate mutation is forbidden by dry-run policy"),
            ),
        )
    } else {
        None
    }
}

fn has_code_exec(ws: &Vec<Vec<char>>, letter: char, k: u32) -> (r: bool)
    requires
        k <= 1000,
    ensures
        r == has_code(views(ws@), letter, k as nat),
{
    let mut i: usize = 0;
    while i < ws.len()
        invariant
            i <= ws.len(),
            k <= 1000,
            forall|m: int| 0 <= m < i ==> !word_is(#[trigger] views(ws@)[m], letter, k as nat),
        decreases ws.len() - i,
    {
        if word_is_exec(&ws[i], letter, k) {
            assert(word_is(views(ws@)[i as int], letter, k as nat));
            return true;
        }
        i = i + 1;
    }
    false
}

fn tool_change_companion_exec(w: &Vec<char>) -> (r: bool)
    ensures
        r == tool_change_companion(w@),
{
    match split_word_exec(w) {
        Some(x) => x.letter == 'N' || x.letter == 'T' || (x.letter == 'M' && x.value.is_code(6)),
        None => true,
    }
}

fn pause_companion_exec(w: &Vec<char>, code: u32) -> (r: bool)
    requires
        code <= 1,
    ensures
        r == pause_companion(w@, code as nat),
{
    match split_word_exec(w) {
        Some(x) => x.letter == 'N' || (x.letter == 'M' && x.value.is_code(code)),
        None => true,
    }
}

fn any_not_tool_change_companion(ws: &Vec<Vec<char>>) -> (r: bool)
    ensures
        r == exists|k: int| 0 <= k < ws@.len() && !tool_change_companion(#[trigger] views(ws@)[k]),
{
    let mut k: usize = 0;
    while k < ws.len()
        invariant
            k <= ws.len(),
            forall|m: int| 0 <= m < k ==> tool_change_companion(#[trigger] views(ws@)[m]),
        decreases ws.len() - k,
    {
        if !tool_change_companion_exec(&ws[k]) {
            assert(!tool_change_companion(views(ws@)[k as int]));
            return true;
        }
        k = k + 1;
    }
    false
}

fn any_not_pause_companion(ws: &Vec<Vec<char>>, code: u32) -> (r: bool)
    requires
        code <= 1,
    ensures
        r == exists|k: int|
            0 <= k < ws@.len() && !pause_companion(#[trigger] views(ws@)[k], code as nat),
{
    let mut k: usize = 0;
    while k < ws.len()
        invariant
            k <= ws.len(),
            code <= 1,
            forall|m: int| 0 <= m < k ==> pause_companion(#[trigger] views(ws@)[m], code as nat),
        decreases ws.len() - k,
    {
        if !pause_companion_exec(&ws[k], code) {
            assert(!pause_companion(views(ws@)[k as int], code as nat));
            return true;
        }
        k = k + 1;
    }
    false
}

fn add_word_violations(
    ws: &Vec<Vec<char>>,
    source_line: usize,
    policy: ProgramRunPolicy,
    blockers: &mut Vec<DryRunBlocker>,
)
    ensures
        blockers_view(final(blockers)@) == add_all(
            blockers_view(old(blockers)@),
            Some(source_line),
            words_violations(views(ws@), policy),
        ),
{
    let ghost wv = views(ws@);
    let ghost start = blockers_view(blockers@);
    let line = Some(source_line);
    let mut i: usize = 0;
    while i < ws.len()
        invariant
            i <= ws.len(),
            wv == views(ws@),
            blockers_view(blockers@) == add_all(
                start,
                line,
                words_violations(wv.take(i as int), policy),
            ),
        decreases ws.len() - i,
    {
        let ghost before = blockers_view(blockers@);
        proof {
            assert(wv.take(i + 1).drop_last() =~= wv.take(i as int));
            assert(wv.take(i + 1).last() == wv[i as int]);
            lemma_add_all_concat(
                start,
                line,
                words_violations(wv.take(i as int), policy),
                opt_seq(word_violation(wv[i as int], policy)),
            );
        }
        match word_violation_exec(&ws[i], policy) {
            Some((kind, message)) => {
                let ghost m = message@;
                add_blocker(blockers, line, kind, message);
                proof {
                    lemma_add_one(before, line, kind, m);
                }
            },
            None => {
                assert(blockers_view(blockers@) == add_all(
                    before,
                    line,
                    Seq::<(DryRunBlockerKind, Seq<char>)>::empty(),
                ));
            },
        }
        i = i + 1;
    }
    assert(wv.take(ws.len() as int) =~= wv);
}

fn add_pause_violation(
    ws: &Vec<Vec<char>>,
    source_line: usize,
    code: u32,
    blockers: &mut Vec<DryRunBlocker>,
)
    requires
        code <= 1,
    ensures
        blockers_view(final(blockers)@) == add_all(
            blockers_view(old(blockers)@),
            Some(source_line),
            pause_violation(views(ws@), code as nat),
        ),
{
    let ghost before = blockers_view(blockers@);
    if has_code_exec(ws, 'M', code) && any_not_pause_companion(ws, code) {
        let msg = if code == 0 {
            String::from_str("M0 must be isolated so its host pause is unambiguous")
        } else {
            String::from_str("M1 must be isolated so its host pause is unambiguous")
        };
        let ghost m = msg@;
        assert(m == msg_isolated_pause(code as nat));
        add_blocker(blockers, Some(source_line), DryRunBlockerKind::UnsupportedProgram, msg);
        proof {
            lemma_add_one(before, Some(source_line), DryRunBlockerKind::UnsupportedProgram, m);
        }
    }
}

/// Adds the blockers that the run policy raises for one normalized block.
fn inspect_normalized_line(
    source_line: usize,
    normalized: &str,
    policy: ProgramRunPolicy,
    blockers: &mut Vec<DryRunBlocker>,
)
    ensures
        blockers_view(final(blockers)@) == add_all(
            blockers_view(old(blockers)@),
            Some(source_line),
            line_violations(words(normalized@), policy),
        ),
{
    let ws = split_ws(&chars_of(normalized));
    let ghost wv = views(ws@);
    let ghost start = blockers_view(blockers@);
    let line = Some(source_line);
    add_word_violations(&ws, source_line, policy, blockers);
    let ghost after_words = blockers_view(blockers@);
    let ghost iso = if policy == ProgramRunPolicy::Cutting && has_code(wv, 'M', 6) && exists|k: int|
        0 <= k < wv.len() && !tool_change_companion(#[trigger] wv[k]) {
        seq![(DryRunBlockerKind::ToolChange, msg_isolated_tool_change())]
    } else {
        Seq::empty()
    };
    if policy == ProgramRunPolicy::Cutting && has_code_exec(&ws, 'M', 6)
        && any_not_tool_change_companion(&ws) {
        let msg = String::from_str(
            "M6 must be isolated from motion, spindle, coolant, and coordinate words",
        );
        add_blocker(blockers, line, DryRunBlockerKind::ToolChange, msg);
        proof {
            lemma_add_one(after_words, line, DryRunBlockerKind::ToolChange, msg_isolated_tool_change());
        }
    }
    assert(blockers_view(blockers@) == add_all(after_words, line, iso));
    add_pause_violation(&ws, source_line, 0, blockers);
    add_pause_violation(&ws, source_line, 1, blockers);
    proof {
        let w = words_violations(wv, policy);
        lemma_add_all_concat(start, line, w, iso);
        lemma_add_all_concat(start, line, w + iso, pause_violation(wv, 0));
        lemma_add_all_concat(start, line, w + iso + pause_violation(wv, 0), pause_violation(wv, 1));
    }
}


/// The run plan: the commands to send, in order.
pub struct DryRunPlan {
    source_name: String,
    source_line_count: usize,
    lines: Vec<DryRunLine>,
    estimated_total_ms: u64,
    time_estimate_complete: bool,
    execution_options: ProgramExecutionOptions,
}

/// View of a [`DryRunPlan`].
pub struct PlanV {
    pub source_name: Seq<char>,
    pub source_line_count: usize,
    pub lines: Seq<LineV>,
    pub estimated_total_ms: u64,
    pub time_estimate_complete: bool,
    pub execution_options: ProgramExecutionOptions,
}

impl View for DryRunPlan {
    type V = PlanV;

    closed spec fn view(&self) -> PlanV {
        PlanV {
            source_name: self.source_name@,
            source_line_count: self.source_line_count,
            lines: lines_view(self.lines@),
            estimated_total_ms: self.estimated_total_ms,
            time_estimate_complete: self.time_estimate_complete,
            execution_options: self.execution_options,
        }
    }
}

impl DryRunPlan {
    pub fn source_name(&self) -> (r: &str)
        ensures
            r@ == self@.source_name,
    {
        self.source_name.as_str()
    }

    pub fn source_line_count(&self) -> (r: usize)
        ensures
            r == self@.source_line_count,
    {
        self.source_line_count
    }

    pub fn lines(&self) -> (r: &[DryRunLine])
        ensures
            lines_view(r@) == self@.lines,
    {
        self.lines.as_slice()
    }

    pub fn estimated_total_ms(&self) -> (r: u64)
        ensures
            r == self@.estimated_total_ms,
    {
        self.estimated_total_ms
    }

    pub fn time_estimate_complete(&self) -> (r: bool)
        ensures
            r == self@.time_estimate_complete,
    {
        self.time_estimate_complete
    }

    pub fn execution_options(&self) -> (r: ProgramExecutionOptions)
        ensures
            r == self@.execution_options,
    {
        self.execution_options
    }
}

/// Why no plan was produced.
pub enum DryRunPolicyError {
    /// The policy refused the program; the count and the reasons.
    Rejected(usize, Vec<DryRunBlocker>),
    /// Nothing executable remained.
    EmptyProgram,
}

impl DryRunPolicyError {
    pub fn blockers(&self) -> (r: &[DryRunBlocker])
        ensures
            match self {
                DryRunPolicyError::Rejected(_, v) => r@ == v@,
                DryRunPolicyError::EmptyProgram => r@.len() == 0,
            },
    {
        match self {
            DryRunPolicyError::Rejected(_, blockers) => blockers.as_slice(),
            DryRunPolicyError::EmptyProgram => &[],
        }
    }
}

/// How a normalized block is scheduled, scanning its `M` words in order:
/// the first M2/M30 ends the program, the first M6 changes tools, and
/// otherwise the last M0/M1 makes it a pause.
pub open spec fn classify_from(ws: Seq<Seq<char>>, i: int, pause: Option<DryRunLineKind>) -> DryRunLineKind
    decreases ws.len() - i,
{
    if i < 0 || i >= ws.len() {
        match pause {
            Some(k) => k,
            None => DryRunLineKind::Program,
        }
    } else {
        match split_word(ws[i]) {
            Some((l, v)) => {
                if l != 'M' {
                    classify_from(ws, i + 1, pause)
                } else if dec_code(v, 2) || dec_code(v, 30) {
                    DryRunLineKind::ProgramEnd
                } else if dec_code(v, 6) {
                    DryRunLineKind::ToolChange
                } else if dec_code(v, 0) {
                    classify_from(ws, i + 1, Some(DryRunLineKind::ProgramPause))
                } else if dec_code(v, 1) {
                    classify_from(ws, i + 1, Some(DryRunLineKind::OptionalPause))
                } else {
                    classify_from(ws, i + 1, pause)
                }
            },
            None => classify_from(ws, i + 1, pause),
        }
    }
}

pub open spec fn classify(ws: Seq<Seq<char>>) -> DryRunLineKind {
    classify_from(ws, 0, None)
}

/// The last valid `T` word of a block (a whole number 0..=255).
pub open spec fn tool_of(ws: Seq<Seq<char>>) -> Option<u8>
    decreases ws.len(),
{
    if ws.len() == 0 {
        None
    } else {
        match split_word(ws.last()) {
            Some((l, v)) => if l == 'T' && dec_tool(v) is Some {
                dec_tool(v)
            } else {
                tool_of(ws.drop_last())
            },
            None => tool_of(ws.drop_last()),
        }
    }
}

fn classify_line(normalized: &str) -> (r: DryRunLineKind)
    ensures
        r == classify(words(normalized@)),
{
    let ws = split_ws(&chars_of(normalized));
    let ghost wv = views(ws@);
    let mut pause: Option<DryRunLineKind> = None;
    let mut i: usize = 0;
    while i < ws.len()
        invariant
            i <= ws.len(),
            wv == views(ws@),
            wv == words(normalized@),
            classify(wv) == classify_from(wv, i as int, pause),
        decreases ws.len() - i,
    {
        assert(wv[i as int] == ws@[i as int]@);
        match split_word_exec(&ws[i]) {
            Some(x) => {
                if x.letter == 'M' {
                    if x.value.is_code(2) || x.value.is_code(30) {
                        return DryRunLineKind::ProgramEnd;
                    } else if x.value.is_code(6) {
                        return DryRunLineKind::ToolChange;
                    } else if x.value.is_code(0) {
                        pause = Some(DryRunLineKind::ProgramPause);
                    } else if x.value.is_code(1) {
                        pause = Some(DryRunLineKind::OptionalPause);
                    }
                }
            },
            None => {},
        }
        i = i + 1;
    }
    match pause {
        Some(k) => k,
        None => DryRunLineKind::Program,
    }
}

fn tool_number(normalized: &str) -> (r: Option<u8>)
    ensures
        r == tool_of(words(normalized@)),
{
    let ws = split_ws(&chars_of(normalized));
    let ghost wv = views(ws@);
    let mut i: usize = ws.len();
    assert(wv.take(i as int) =~= wv);
    while i > 0
        invariant
            i <= ws.len(),
            wv == views(ws@),
            wv == words(normalized@),
            tool_of(wv) == tool_of(wv.take(i as int)),
        decreases i,
    {
        proof {
            assert(wv.take(i as int).drop_last() =~= wv.take(i - 1));
            assert(wv.take(i as int).last() == wv[i - 1]);
            assert(wv[i - 1] == ws@[i - 1]@);
        }
        match split_word_exec(&ws[i - 1]) {
            Some(x) => {
                if x.letter == 'T' {
                    match x.value.tool() {
                        Some(t) => return Some(t),
                        None => {},
                    }
                }
            },
            None => {},
        }
        i = i - 1;
    }
    None
}


/// The first recorded duration of `line`, if any.
pub open spec fn timing_of(ts: Seq<LineTiming>, line: usize) -> Option<u64>
    decreases ts.len(),
{
    if ts.len() == 0 {
        None
    } else if ts[0].source_line == line {
        ts[0].duration_ms
    } else {
        timing_of(ts.drop_first(), line)
    }
}

/// A line that the plan may send: executable, not deleted, not blank.
pub open spec fn sendable(l: ProgramLine) -> bool {
    l.executable && !l.block_deleted && l.normalized@.len() > 0
}

pub open spec fn t_command(tool: u8) -> Seq<char> {
    seq!['T'] + dec(tool as nat)
}

/// The program part of a plan, from line index `i` on, with `tool` the last selected tool.
pub open spec fn program_lines(
    ls: Seq<ProgramLine>,
    i: int,
    tool: Option<u8>,
    optional_stop: bool,
    ts: Seq<LineTiming>,
) -> Seq<LineV>
    decreases ls.len() - i,
{
    if i < 0 || i >= ls.len() {
        Seq::empty()
    } else {
        let l = ls[i];
        if !sendable(l) {
            program_lines(ls, i + 1, tool, optional_stop, ts)
        } else {
            let ws = words(l.normalized@);
            let kind = classify(ws);
            if kind == DryRunLineKind::OptionalPause && !optional_stop {
                program_lines(ls, i + 1, tool, optional_stop, ts)
            } else {
                let tn = tool_of(ws);
                let tool2 = if tn is Some {
                    tn
                } else {
                    tool
                };
                let pre = if tn is Some && kind == DryRunLineKind::ToolChange {
                    seq![
                        LineV {
                            source_line: Some(l.source_line),
                            command: t_command(tn.unwrap()),
                            kind: DryRunLineKind::Program,
                            tool_number: None,
                            estimated_duration_ms: Some(0),
                        },
                    ]
                } else {
                    Seq::empty()
                };
                let me = LineV {
                    source_line: Some(l.source_line),
                    command: l.normalized@,
                    kind,
                    tool_number: if kind == DryRunLineKind::ToolChange {
                        tool2
                    } else {
                        None
                    },
                    estimated_duration_ms: timing_of(ts, l.source_line),
                };
                pre + seq![me] + if kind == DryRunLineKind::ProgramEnd {
                    Seq::empty()
                } else {
                    program_lines(ls, i + 1, tool2, optional_stop, ts)
                }
            }
        }
    }
}

pub open spec fn safety_line(command: Seq<char>, kind: DryRunLineKind) -> LineV {
    LineV {
        source_line: None,
        command,
        kind,
        tool_number: None,
        estimated_duration_ms: Some(0),
    }
}

/// Spindle and coolant off before the program.
pub open spec fn preamble() -> Seq<LineV> {
    seq![
        safety_line("M5"@, DryRunLineKind::SafetyPreamble),
        safety_line("M9"@, DryRunLineKind::SafetyPreamble),
    ]
}

/// Spindle and coolant off after the program, before a final program end.
pub open spec fn epilogue() -> Seq<LineV> {
    seq![
        safety_line("M5"@, DryRunLineKind::SafetyEpilogue),
        safety_line("M9"@, DryRunLineKind::SafetyEpilogue),
    ]
}

/// The whole plan: preamble, program, epilogue, and a trailing program end if there was one.
pub open spec fn assemble(pl: Seq<LineV>) -> Seq<LineV> {
    if pl.len() > 0 && pl.last().kind == DryRunLineKind::ProgramEnd {
        preamble() + pl.drop_last() + epilogue() + seq![pl.last()]
    } else {
        preamble() + pl + epilogue()
    }
}

pub open spec fn sat_add(a: u64, b: u64) -> u64 {
    if a + b > u64::MAX {
        u64::MAX
    } else {
        (a + b) as u64
    }
}

/// Saturating sum of the known durations.
pub open spec fn total_ms(ls: Seq<LineV>) -> u64
    decreases ls.len(),
{
    if ls.len() == 0 {
        0
    } else {
        sat_add(
            total_ms(ls.drop_last()),
            match ls.last().estimated_duration_ms {
                Some(d) => d,
                None => 0,
            },
        )
    }
}

pub open spec fn all_timed(ls: Seq<LineV>) -> bool {
    forall|i: int| 0 <= i < ls.len() ==> (#[trigger] ls[i]).estimated_duration_ms is Some
}

/// The normalized command is longer than the sender accepts.
pub open spec fn too_long(source_line: usize, normalized: Seq<char>) -> bool {
    encode_utf8(numbered(source_line as nat, normalized)).len() as usize > MAX_DRY_RUN_COMMAND_BYTES
}

pub open spec fn initial_blockers(listing: ProgramListing, options: ProgramExecutionOptions) -> Seq<BlockerV> {
    let b0 = if listing.block_delete_enabled != options.block_delete {
        seq![
            BlockerV {
                source_line: None,
                kind: DryRunBlockerKind::UnsupportedProgram,
                message: msg_block_delete(),
            },
        ]
    } else {
        Seq::empty()
    };
    if !listing.preview_complete {
        add_blocker_spec(b0, None, DryRunBlockerKind::IncompletePreview, msg_incomplete_preview())
    } else {
        b0
    }
}

/// Blockers raised by the executable, non-deleted lines.
pub open spec fn lines_blockers(bs: Seq<BlockerV>, ls: Seq<ProgramLine>, policy: ProgramRunPolicy) -> Seq<BlockerV>
    decreases ls.len(),
{
    if ls.len() == 0 {
        bs
    } else {
        let prev = lines_blockers(bs, ls.drop_last(), policy);
        let l = ls.last();
        if l.executable && !l.block_deleted {
            let b1 = add_all(prev, Some(l.source_line), line_violations(words(l.normalized@), policy));
            if too_long(l.source_line, l.normalized@) {
                add_blocker_spec(b1, Some(l.source_line), DryRunBlockerKind::CommandTooLong, msg_command_too_long())
            } else {
                b1
            }
        } else {
            prev
        }
    }
}

/// Parser diagnostics that the cutting policy accepts.
pub open spec fn warning_allowed(code: ProgramWarningCode, policy: ProgramRunPolicy) -> bool {
    policy == ProgramRunPolicy::Cutting && (code == ProgramWarningCode::SpindleActivation || code
        == ProgramWarningCode::SpindleSpeed || code == ProgramWarningCode::ToolChange)
}

pub open spec fn warning_kind(code: ProgramWarningCode) -> DryRunBlockerKind {
    if code == ProgramWarningCode::SpindleActivation {
        DryRunBlockerKind::SpindleActivation
    } else if code == ProgramWarningCode::SpindleSpeed {
        DryRunBlockerKind::SpindleSpeed
    } else if code == ProgramWarningCode::ToolChange {
        DryRunBlockerKind::ToolChange
    } else {
        DryRunBlockerKind::UnsupportedProgram
    }
}

pub open spec fn line_blocked(bs: Seq<BlockerV>, line: usize) -> bool {
    exists|i: int| 0 <= i < bs.len() && (#[trigger] bs[i]).source_line == Some(line)
}

/// Blockers raised by the parser's safety and error diagnostics.
pub open spec fn warnings_blockers(
    bs: Seq<BlockerV>,
    ws: Seq<ProgramWarning>,
    policy: ProgramRunPolicy,
) -> Seq<BlockerV>
    decreases ws.len(),
{
    if ws.len() == 0 {
        bs
    } else {
        let prev = warnings_blockers(bs, ws.drop_last(), policy);
        let w = ws.last();
        if w.severity == ProgramWarningSeverity::Warning || warning_allowed(w.code, policy) {
            prev
        } else if w.code == ProgramWarningCode::UnsafeMachineCommand && line_blocked(
            prev,
            w.source_line,
        ) {
            prev
        } else {
            add_blocker_spec(prev, Some(w.source_line), warning_kind(w.code), w.message@)
        }
    }
}

/// Every reason the policy refuses the program, in the order found.
pub open spec fn policy_blockers(
    listing: ProgramListing,
    policy: ProgramRunPolicy,
    options: ProgramExecutionOptions,
) -> Seq<BlockerV> {
    warnings_blockers(
        lines_blockers(initial_blockers(listing, options), listing.lines@, policy),
        listing.warnings@,
        policy,
    )
}

/// The plan lines for a listing that the policy accepts.
pub open spec fn plan_lines(listing: ProgramListing, options: ProgramExecutionOptions) -> Seq<
    LineV,
> {
    assemble(
        program_lines(listing.lines@, 0, None, options.optional_stop, listing.line_timings@),
    )
}


fn lookup_timing(ts: &Vec<LineTiming>, line: usize) -> (r: Option<u64>)
    ensures
        r == timing_of(ts@, line),
{
    let mut i: usize = 0;
    assert(ts@.skip(0) =~= ts@);
    while i < ts.len()
        invariant
            i <= ts.len(),
            timing_of(ts@, line) == timing_of(ts@.skip(i as int), line),
        decreases ts.len() - i,
    {
        assert(ts@.skip(i as int).drop_first() =~= ts@.skip(i + 1));
        if ts[i].source_line == line {
            return ts[i].duration_ms;
        }
        i = i + 1;
    }
    None
}

fn safety_dry_run_line(command: &str, kind: DryRunLineKind) -> (r: DryRunLine)
    ensures
        r@ == safety_line(command@, kind),
{
    DryRunLine {
        source_line: None,
        command: String::from_str(command),
        kind,
        tool_number: None,
        estimated_duration_ms: Some(0),
    }
}

fn line_is_blocked(bs: &Vec<DryRunBlocker>, line: usize) -> (r: bool)
    ensures
        r == line_blocked(blockers_view(bs@), line),
{
    let ghost bv = blockers_view(bs@);
    let mut i: usize = 0;
    while i < bs.len()
        invariant
            i <= bs.len(),
            bv == blockers_view(bs@),
            forall|k: int| 0 <= k < i ==> (#[trigger] bv[k]).source_line != Some(line),
        decreases bs.len() - i,
    {
        if bs[i].source_line == Some(line) {
            assert(bv[i as int].source_line == Some(line));
            return true;
        }
        i = i + 1;
    }
    false
}

fn collect_blockers(
    listing: &ProgramListing,
    policy: ProgramRunPolicy,
    options: ProgramExecutionOptions,
) -> (r: Vec<DryRunBlocker>)
    ensures
        blockers_view(r@) == policy_blockers(*listing, policy, options),
{
    let mut bs: Vec<DryRunBlocker> = Vec::new();
    if listing.block_delete_enabled != options.block_delete {
        let b = DryRunBlocker {
            source_line: None,
            kind: DryRunBlockerKind::UnsupportedProgram,
            message: String::from_str("program parse and sender disagree about Block Delete"),
        };
        bs.push(b);
    }
    assert(blockers_view(bs@) =~= if listing.block_delete_enabled != options.block_delete {
        seq![
            BlockerV {
                source_line: None,
                kind: DryRunBlockerKind::UnsupportedProgram,
                message: msg_block_delete(),
            },
        ]
    } else {
        Seq::empty()
    });
    if !listing.preview_complete {
        add_blocker(
            &mut bs,
            None,
            DryRunBlockerKind::IncompletePreview,
            String::from_str("preview is incomplete; execution is fail-closed"),
        );
    }
    let ghost init = blockers_view(bs@);
    assert(init == initial_blockers(*listing, options));
    let ghost ls = listing.lines@;
    let mut i: usize = 0;
    while i < listing.lines.len()
        invariant
            i <= listing.lines.len(),
            ls == listing.lines@,
            blockers_view(bs@) == lines_blockers(init, ls.take(i as int), policy),
        decreases listing.lines.len() - i,
    {
        proof {
            assert(ls.take(i + 1).drop_last() =~= ls.take(i as int));
            assert(ls.take(i + 1).last() == ls[i as int]);
        }
        let l = &listing.lines[i];
        if l.executable && !l.block_deleted {
            inspect_normalized_line(l.source_line, l.normalized.as_str(), policy, &mut bs);
            if numbered_command_len(l.source_line, l.normalized.as_str())
                > MAX_DRY_RUN_COMMAND_BYTES {
                add_blocker(
                    &mut bs,
                    Some(l.source_line),
                    DryRunBlockerKind::CommandTooLong,
                    String::from_str("normalized command exceeds the 255 byte sender limit"),
                );
            }
        }
        i = i + 1;
    }
    assert(ls.take(ls.len() as int) =~= ls);
    let ghost after_lines = blockers_view(bs@);
    let ghost wsq = listing.warnings@;
    let mut j: usize = 0;
    while j < listing.warnings.len()
        invariant
            j <= listing.warnings.len(),
            wsq == listing.warnings@,
            blockers_view(bs@) == warnings_blockers(after_lines, wsq.take(j as int), policy),
        decreases listing.warnings.len() - j,
    {
        proof {
            assert(wsq.take(j + 1).drop_last() =~= wsq.take(j as int));
            assert(wsq.take(j + 1).last() == wsq[j as int]);
        }
        let w = &listing.warnings[j];
        let allowed = policy == ProgramRunPolicy::Cutting && (w.code
            == ProgramWarningCode::SpindleActivation || w.code == ProgramWarningCode::SpindleSpeed
            || w.code == ProgramWarningCode::ToolChange);
        if w.severity != ProgramWarningSeverity::Warning && !allowed {
            let skip = w.code == ProgramWarningCode::UnsafeMachineCommand && line_is_blocked(
                &bs,
                w.source_line,
            );
            if !skip {
                let kind = if w.code == ProgramWarningCode::SpindleActivation {
                    DryRunBlockerKind::SpindleActivation
                } else if w.code == ProgramWarningCode::SpindleSpeed {
                    DryRunBlockerKind::SpindleSpeed
                } else if w.code == ProgramWarningCode::ToolChange {
                    DryRunBlockerKind::ToolChange
                } else {
                    DryRunBlockerKind::UnsupportedProgram
                };
                add_blocker(&mut bs, Some(w.source_line), kind, w.message.clone());
            }
        }
        j = j + 1;
    }
    assert(wsq.take(wsq.len() as int) =~= wsq);
    bs
}

fn t_command_string(tool: u8) -> (r: String)
    ensures
        r@ == t_command(tool),
{
    let digits = dec_chars(tool as u64);
    let mut out: Vec<char> = Vec::new();
    out.push('T');
    let mut k: usize = 0;
    while k < digits.len()
        invariant
            k <= digits.len(),
            out@ == seq!['T'] + digits@.take(k as int),
        decreases digits.len() - k,
    {
        out.push(digits[k]);
        k = k + 1;
        assert(out@ =~= seq!['T'] + digits@.take(k as int));
    }
    assert(digits@.take(digits.len() as int) =~= digits@);
    string_from_chars(&out)
}

/// Preamble followed by the program part of the plan.
fn collect_program_lines(listing: &ProgramListing, optional_stop: bool) -> (r: Vec<DryRunLine>)
    ensures
        lines_view(r@) == preamble() + program_lines(
            listing.lines@,
            0,
            None,
            optional_stop,
            listing.line_timings@,
        ),
{
    let ghost ls = listing.lines@;
    let ghost ts = listing.line_timings@;
    let ghost whole = preamble() + program_lines(ls, 0, None, optional_stop, ts);
    let mut out: Vec<DryRunLine> = Vec::new();
    out.push(safety_dry_run_line("M5", DryRunLineKind::SafetyPreamble));
    out.push(safety_dry_run_line("M9", DryRunLineKind::SafetyPreamble));
    assert(lines_view(out@) =~= preamble());
    let mut tool: Option<u8> = None;
    let mut done = false;
    let mut i: usize = 0;
    while i < listing.lines.len() && !done
        invariant
            i <= listing.lines.len(),
            ls == listing.lines@,
            ts == listing.line_timings@,
            whole == preamble() + program_lines(ls, 0, None, optional_stop, ts),
            !done ==> lines_view(out@) + program_lines(ls, i as int, tool, optional_stop, ts)
                == whole,
            done ==> lines_view(out@) == whole,
        decreases listing.lines.len() - i,
    {
        let l = &listing.lines[i];
        let ghost rest = program_lines(ls, i as int, tool, optional_stop, ts);
        let ghost before = lines_view(out@);
        if l.executable && !l.block_deleted && !l.normalized.as_str().is_empty() {
            let kind = classify_line(l.normalized.as_str());
            if kind == DryRunLineKind::OptionalPause && !optional_stop {
                i = i + 1;
            } else {
                let tn = tool_number(l.normalized.as_str());
                let ghost pre_seq: Seq<LineV>;
                match tn {
                    Some(t) => {
                        tool = Some(t);
                        if kind == DryRunLineKind::ToolChange {
                            let tl = DryRunLine {
                                source_line: Some(l.source_line),
                                command: t_command_string(t),
                                kind: DryRunLineKind::Program,
                                tool_number: None,
                                estimated_duration_ms: Some(0),
                            };
                            proof {
                                pre_seq = seq![tl@];
                                assert(lines_view(out@.push(tl)) =~= lines_view(out@).push(tl@));
                            }
                            out.push(tl);
                        } else {
                            proof {
                                pre_seq = Seq::empty();
                            }
                        }
                    },
                    None => {
                        proof {
                            pre_seq = Seq::empty();
                        }
                    },
                }
                let me = DryRunLine {
                    source_line: Some(l.source_line),
                    command: l.normalized.clone(),
                    kind,
                    tool_number: if kind == DryRunLineKind::ToolChange {
                        tool
                    } else {
                        None
                    },
                    estimated_duration_ms: lookup_timing(&listing.line_timings, l.source_line),
                };
                proof {
                    assert(lines_view(out@.push(me)) =~= lines_view(out@).push(me@));
                }
                out.push(me);
                if kind == DryRunLineKind::ProgramEnd {
                    done = true;
                    assert(lines_view(out@) =~= before + pre_seq + seq![me@]);
                    assert(rest =~= pre_seq + seq![me@]);
                } else {
                    assert(lines_view(out@) =~= before + pre_seq + seq![me@]);
                }
                i = i + 1;
            }
        } else {
            i = i + 1;
        }
    }
    out
}


/// What [`build_program_run_plan_with_options`] and its siblings return for a listing.
pub open spec fn run_plan_result(
    listing: ProgramListing,
    policy: ProgramRunPolicy,
    options: ProgramExecutionOptions,
    r: Result<DryRunPlan, DryRunPolicyError>,
) -> bool {
    let bs = policy_blockers(listing, policy, options);
    let pl = program_lines(listing.lines@, 0, None, options.optional_stop, listing.line_timings@);
    if bs.len() > 0 {
        r matches Err(DryRunPolicyError::Rejected(n, v)) && n == bs.len() && blockers_view(v@)
            == bs
    } else if pl.len() == 0 {
        r matches Err(DryRunPolicyError::EmptyProgram)
    } else {
        r matches Ok(plan) && plan@ == PlanV {
            source_name: listing.source_name@,
            source_line_count: listing.line_count,
            lines: assemble(pl),
            estimated_total_ms: total_ms(assemble(pl)),
            time_estimate_complete: listing.time_estimate_complete && all_timed(assemble(pl)),
            execution_options: options,
        }
    }
}

/// The plan for a listing as it stands, before any heightmap or depth
/// change: rejected with every blocker the policy finds, empty, or the
/// framed program lines (see [`run_plan_result`]).
pub fn build_untransformed_program_run_plan(
    listing: &ProgramListing,
    policy: ProgramRunPolicy,
    execution_options: ProgramExecutionOptions,
) -> (r: Result<DryRunPlan, DryRunPolicyError>)
    ensures
        run_plan_result(*listing, policy, execution_options, r),
{
    let blockers = collect_blockers(listing, policy, execution_options);
    if blockers.len() > 0 {
        return Err(DryRunPolicyError::Rejected(blockers.len(), blockers));
    }
    let ghost pl = program_lines(
        listing.lines@,
        0,
        None,
        execution_options.optional_stop,
        listing.line_timings@,
    );
    let mut lines = collect_program_lines(listing, execution_options.optional_stop);
    if lines.len() == 2 {
        assert(pl =~= lines_view(lines@).skip(2));
        return Err(DryRunPolicyError::EmptyProgram);
    }
    assert(pl =~= lines_view(lines@).skip(2));
    assert(pl.last() == lines_view(lines@).last());
    let last_is_end = lines[lines.len() - 1].kind == DryRunLineKind::ProgramEnd;
    let ghost with_program = lines_view(lines@);
    if last_is_end {
        let end = lines.pop().unwrap();
        assert(lines_view(lines@) =~= with_program.drop_last());
        assert(end@ == with_program.last());
        assert(with_program.drop_last() =~= preamble() + pl.drop_last());
        lines.push(safety_dry_run_line("M5", DryRunLineKind::SafetyEpilogue));
        lines.push(safety_dry_run_line("M9", DryRunLineKind::SafetyEpilogue));
        lines.push(end);
        assert(lines_view(lines@) =~= preamble() + pl.drop_last() + epilogue() + seq![pl.last()]);
    } else {
        lines.push(safety_dry_run_line("M5", DryRunLineKind::SafetyEpilogue));
        lines.push(safety_dry_run_line("M9", DryRunLineKind::SafetyEpilogue));
        assert(lines_view(lines@) =~= preamble() + pl + epilogue());
    }
    let ghost lv = lines_view(lines@);
    assert(lv == assemble(pl));
    let mut total: u64 = 0;
    let mut timed = true;
    let mut k: usize = 0;
    while k < lines.len()
        invariant
            k <= lines.len(),
            lv == lines_view(lines@),
            total == total_ms(lv.take(k as int)),
            timed == all_timed(lv.take(k as int)),
        decreases lines.len() - k,
    {
        proof {
            assert(lv.take(k + 1).drop_last() =~= lv.take(k as int));
            assert(lv.take(k + 1).last() == lv[k as int]);
        }
        match lines[k].estimated_duration_ms {
            Some(d) => {
                total = total.saturating_add(d);
            },
            None => {
                timed = false;
            },
        }
        proof {
            if timed {
                assert forall|m: int| 0 <= m < k + 1 implies (#[trigger] lv.take(k + 1)[m]).estimated_duration_ms is Some by {
                    if m < k {
                        assert(lv.take(k + 1)[m] == lv.take(k as int)[m]);
                    }
                }
            } else {
                if lv[k as int].estimated_duration_ms is None {
                    assert(lv.take(k + 1)[k as int] == lv[k as int]);
                } else {
                    assert(!all_timed(lv.take(k as int)));
                    let m = choose|m: int| 0 <= m < k && !((#[trigger] lv.take(k as int)[m]).estimated_duration_ms is Some);
                    assert(lv.take(k + 1)[m] == lv.take(k as int)[m]);
                }
            }
        }
        k = k + 1;
    }
    assert(lv.take(lines.len() as int) =~= lv);
    Ok(
        DryRunPlan {
            source_name: listing.source_name.clone(),
            source_line_count: listing.line_count,
            lines,
            estimated_total_ms: total,
            time_estimate_complete: listing.time_estimate_complete && timed,
            execution_options,
        },
    )
}

/// Plans an air run: spindle, coolant and tool changes are refused.
pub fn build_dry_run_plan(program: &ProgramListing) -> (r: Result<DryRunPlan, DryRunPolicyError>)
    ensures
        run_plan_result(
            *program,
            ProgramRunPolicy::AirRun,
            ProgramExecutionOptions {
                optional_stop: false,
                block_delete: false,
                surface_map_id: None,
                cutting_depth_adjustment_um: None,
            },
            r,
        ),
{
    build_program_run_plan(program, ProgramRunPolicy::AirRun)
}

/// Plans a run under `policy` with the default host options.
pub fn build_program_run_plan(program: &ProgramListing, policy: ProgramRunPolicy) -> (r: Result<
    DryRunPlan,
    DryRunPolicyError,
>)
    ensures
        run_plan_result(
            *program,
            policy,
            ProgramExecutionOptions {
                optional_stop: false,
                block_delete: false,
                surface_map_id: None,
                cutting_depth_adjustment_um: None,
            },
            r,
        ),
{
    build_untransformed_program_run_plan(program, policy, ProgramExecutionOptions::defaults())
}


/// A plan, and whether its trajectory still has to be transformed.
pub enum PlanStage {
    /// Ready to send as is.
    Ready(DryRunPlan),
    /// The trajectory must be rewritten for a depth adjustment and/or a surface map.
    Transform { plan: DryRunPlan, depth_adjustment_um: Option<i32>, heightmap: bool },
}

pub open spec fn msg_depth_limit() -> Seq<char> {
    "cutting depth adjustment exceeds the 10 mm safety limit"@
}

pub open spec fn msg_depth_needs_cut() -> Seq<char> {
    "cutting depth adjustment requires a cutting move below work Z0"@
}

pub open spec fn msg_heightmap_unavailable() -> Seq<char> {
    "selected heightmap is unavailable"@
}

pub open spec fn msg_heightmap_unselected() -> Seq<char> {
    "heightmap data was supplied without an explicit map selection"@
}

/// `r` is a rejection with exactly one blocker.
pub open spec fn single_rejection(
    r: Result<PlanStage, DryRunPolicyError>,
    line: Option<usize>,
    kind: DryRunBlockerKind,
    msg: Seq<char>,
) -> bool {
    r matches Err(DryRunPolicyError::Rejected(n, v)) && n == 1 && blockers_view(v@) == seq![
        BlockerV { source_line: line, kind, message: msg },
    ]
}

/// The untransformed plan of a listing that the policy accepts.
pub open spec fn base_plan(
    listing: ProgramListing,
    options: ProgramExecutionOptions,
) -> PlanV {
    let pl = program_lines(listing.lines@, 0, None, options.optional_stop, listing.line_timings@);
    PlanV {
        source_name: listing.source_name@,
        source_line_count: listing.line_count,
        lines: assemble(pl),
        estimated_total_ms: total_ms(assemble(pl)),
        time_estimate_complete: listing.time_estimate_complete && all_timed(assemble(pl)),
        execution_options: options,
    }
}

/// The policy accepts the listing and leaves a non-empty program.
pub open spec fn plan_accepted(
    listing: ProgramListing,
    policy: ProgramRunPolicy,
    options: ProgramExecutionOptions,
) -> bool {
    policy_blockers(listing, policy, options).len() == 0 && program_lines(
        listing.lines@,
        0,
        None,
        options.optional_stop,
        listing.line_timings@,
    ).len() > 0
}

/// Same error as the untransformed planning step.
pub open spec fn same_policy_error(
    listing: ProgramListing,
    policy: ProgramRunPolicy,
    options: ProgramExecutionOptions,
    r: Result<PlanStage, DryRunPolicyError>,
) -> bool {
    let bs = policy_blockers(listing, policy, options);
    if bs.len() > 0 {
        r matches Err(DryRunPolicyError::Rejected(n, v)) && n == bs.len() && blockers_view(v@)
            == bs
    } else {
        r matches Err(DryRunPolicyError::EmptyProgram)
    }
}

pub open spec fn depth_out_of_range(um: i32) -> bool {
    um > MAX_CUTTING_DEPTH_ADJUSTMENT_UM || um < -MAX_CUTTING_DEPTH_ADJUSTMENT_UM
}

fn transformation_rejection(
    source_line: Option<usize>,
    kind: DryRunBlockerKind,
    message: String,
) -> (r: DryRunPolicyError)
    ensures
        r matches DryRunPolicyError::Rejected(n, v) && n == 1 && blockers_view(v@) == seq![
            BlockerV { source_line, kind, message: message@ },
        ],
{
    let b = DryRunBlocker { source_line, kind, message };
    let mut v: Vec<DryRunBlocker> = Vec::new();
    v.push(b);
    assert(blockers_view(v@) =~= seq![b@]);
    DryRunPolicyError::Rejected(1, v)
}

/// Checks the requested depth adjustment; `Ok(um)` is the adjustment to apply.
fn validate_cutting_depth_adjustment(
    listing: &ProgramListing,
    options: ProgramExecutionOptions,
) -> (r: Result<Option<i32>, DryRunPolicyError>)
    ensures
        match options.cutting_depth_adjustment_um {
            None => r == Ok::<Option<i32>, DryRunPolicyError>(None),
            Some(um) => if depth_out_of_range(um) {
                r matches Err(DryRunPolicyError::Rejected(n, v)) && n == 1 && blockers_view(v@)
                    == seq![
                    BlockerV {
                        source_line: None,
                        kind: DryRunBlockerKind::CuttingDepthAdjustment,
                        message: msg_depth_limit(),
                    },
                ]
            } else if !listing.has_cutting_below_zero {
                r matches Err(DryRunPolicyError::Rejected(n, v)) && n == 1 && blockers_view(v@)
                    == seq![
                    BlockerV {
                        source_line: None,
                        kind: DryRunBlockerKind::CuttingDepthAdjustment,
                        message: msg_depth_needs_cut(),
                    },
                ]
            } else {
                r == Ok::<Option<i32>, DryRunPolicyError>(Some(um))
            },
        },
{
    match options.cutting_depth_adjustment_um {
        None => Ok(None),
        Some(um) => {
            if um > MAX_CUTTING_DEPTH_ADJUSTMENT_UM || um < -MAX_CUTTING_DEPTH_ADJUSTMENT_UM {
                Err(
                    transformation_rejection(
                        None,
                        DryRunBlockerKind::CuttingDepthAdjustment,
                        String::from_str("cutting depth adjustment exceeds the 10 mm safety limit"),
                    ),
                )
            } else if !listing.has_cutting_below_zero {
                Err(
                    transformation_rejection(
                        None,
                        DryRunBlockerKind::CuttingDepthAdjustment,
                        String::from_str(
                            "cutting depth adjustment requires a cutting move below work Z0",
                        ),
                    ),
                )
            } else {
                Ok(Some(um))
            }
        },
    }
}

/// Plans a run with host options: the policy first, then the depth adjustment.
/// A non-zero adjustment leaves the trajectory to be transformed.
pub fn prepare_program_run_plan(
    program: &ProgramListing,
    policy: ProgramRunPolicy,
    execution_options: ProgramExecutionOptions,
) -> (r: Result<PlanStage, DryRunPolicyError>)
    ensures
        !plan_accepted(*program, policy, execution_options) ==> same_policy_error(
            *program,
            policy,
            execution_options,
            r,
        ),
        plan_accepted(*program, policy, execution_options) ==> match execution_options.cutting_depth_adjustment_um {
            None => r matches Ok(PlanStage::Ready(plan)) && plan@ == base_plan(
                *program,
                execution_options,
            ),
            Some(um) => if depth_out_of_range(um) {
                single_rejection(r, None, DryRunBlockerKind::CuttingDepthAdjustment, msg_depth_limit())
            } else if !program.has_cutting_below_zero {
                single_rejection(r, None, DryRunBlockerKind::CuttingDepthAdjustment, msg_depth_needs_cut())
            } else if um == 0 {
                r matches Ok(PlanStage::Ready(plan)) && plan@ == base_plan(*program, execution_options)
            } else {
                r matches Ok(PlanStage::Transform { plan, depth_adjustment_um, heightmap })
                    && plan@ == base_plan(*program, execution_options) && depth_adjustment_um
                    == Some(um) && !heightmap
            },
        },
{
    let plan = match build_untransformed_program_run_plan(program, policy, execution_options) {
        Ok(plan) => plan,
        Err(e) => return Err(e),
    };
    let adjustment = match validate_cutting_depth_adjustment(program, execution_options) {
        Ok(a) => a,
        Err(e) => return Err(e),
    };
    match adjustment {
        Some(um) => {
            if um == 0 {
                Ok(PlanStage::Ready(plan))
            } else {
                Ok(PlanStage::Transform { plan, depth_adjustment_um: Some(um), heightmap: false })
            }
        },
        None => Ok(PlanStage::Ready(plan)),
    }
}

/// Plans a run that may apply a surface map: the policy, the depth adjustment,
/// then the map selection (`surface_map_id`) against the map actually supplied.
pub fn prepare_program_run_plan_with_heightmap(
    program: &ProgramListing,
    policy: ProgramRunPolicy,
    execution_options: ProgramExecutionOptions,
    heightmap_supplied: bool,
) -> (r: Result<PlanStage, DryRunPolicyError>)
    ensures
        !plan_accepted(*program, policy, execution_options) ==> same_policy_error(
            *program,
            policy,
            execution_options,
            r,
        ),
        plan_accepted(*program, policy, execution_options) ==> {
            let adj = execution_options.cutting_depth_adjustment_um;
            if adj matches Some(um) && depth_out_of_range(um) {
                single_rejection(r, None, DryRunBlockerKind::CuttingDepthAdjustment, msg_depth_limit())
            } else if adj is Some && !program.has_cutting_below_zero {
                single_rejection(r, None, DryRunBlockerKind::CuttingDepthAdjustment, msg_depth_needs_cut())
            } else if execution_options.surface_map_id is Some && !heightmap_supplied {
                single_rejection(r, None, DryRunBlockerKind::HeightmapCompensation, msg_heightmap_unavailable())
            } else if execution_options.surface_map_id is None && heightmap_supplied {
                single_rejection(r, None, DryRunBlockerKind::HeightmapCompensation, msg_heightmap_unselected())
            } else if !heightmap_supplied && (adj is None || adj == Some(0i32)) {
                r matches Ok(PlanStage::Ready(plan)) && plan@ == base_plan(*program, execution_options)
            } else {
                r matches Ok(PlanStage::Transform { plan, depth_adjustment_um, heightmap })
                    && plan@ == base_plan(*program, execution_options) && depth_adjustment_um
                    == adj && heightmap == heightmap_supplied
            }
        },
{
    let plan = match build_untransformed_program_run_plan(program, policy, execution_options) {
        Ok(plan) => plan,
        Err(e) => return Err(e),
    };
    let adjustment = match validate_cutting_depth_adjustment(program, execution_options) {
        Ok(a) => a,
        Err(e) => return Err(e),
    };
    match (execution_options.surface_map_id, heightmap_supplied) {
        (Some(_), false) => {
            return Err(
                transformation_rejection(
                    None,
                    DryRunBlockerKind::HeightmapCompensation,
                    String::from_str("selected heightmap is unavailable"),
                ),
            );
        },
        (None, true) => {
            return Err(
                transformation_rejection(
                    None,
                    DryRunBlockerKind::HeightmapCompensation,
                    String::from_str(
                        "heightmap data was supplied without an explicit map selection",
                    ),
                ),
            );
        },
        _ => {},
    }
    let no_adjustment = match adjustment {
        None => true,
        Some(um) => um == 0,
    };
    if !heightmap_supplied && no_adjustment {
        Ok(PlanStage::Ready(plan))
    } else {
        Ok(PlanStage::Transform { plan, depth_adjustment_um: adjustment, heightmap: heightmap_supplied })
    }
}


/// `x` is a plan line produced from listing line `l`.
pub open spec fn produced_by(l: ProgramLine, x: LineV, optional_stop: bool) -> bool {
    &&& sendable(l)
    &&& x.source_line == Some(l.source_line)
    &&& {
        ||| (x.command == l.normalized@ && x.kind == classify(words(l.normalized@)) && (x.kind
            == DryRunLineKind::OptionalPause ==> optional_stop))
        ||| (x.kind == DryRunLineKind::Program && classify(words(l.normalized@))
            == DryRunLineKind::ToolChange && exists|t: u8| x.command == t_command(t))
    }
}

proof fn lemma_program_lines_origin(
    ls: Seq<ProgramLine>,
    i: int,
    tool: Option<u8>,
    os: bool,
    ts: Seq<LineTiming>,
)
    requires
        0 <= i,
    ensures
        ({
            let pl = program_lines(ls, i, tool, os, ts);
            &&& forall|j: int|
                0 <= j < pl.len() ==> exists|k: int|
                    i <= k < ls.len() && produced_by(ls[k], #[trigger] pl[j], os)
            &&& forall|j: int|
                0 <= j < pl.len() - 1 ==> (#[trigger] pl[j]).kind != DryRunLineKind::ProgramEnd
        }),
    decreases ls.len() - i,
{
    let pl = program_lines(ls, i, tool, os, ts);
    if i >= ls.len() {
    } else {
        let l = ls[i];
        if !sendable(l) {
            lemma_program_lines_origin(ls, i + 1, tool, os, ts);
        } else {
            let ws = words(l.normalized@);
            let kind = classify(ws);
            if kind == DryRunLineKind::OptionalPause && !os {
                lemma_program_lines_origin(ls, i + 1, tool, os, ts);
            } else {
                let tn = tool_of(ws);
                let tool2 = if tn is Some {
                    tn
                } else {
                    tool
                };
                lemma_program_lines_origin(ls, i + 1, tool2, os, ts);
                let rest = if kind == DryRunLineKind::ProgramEnd {
                    Seq::<LineV>::empty()
                } else {
                    program_lines(ls, i + 1, tool2, os, ts)
                };
                let pre = if tn is Some && kind == DryRunLineKind::ToolChange {
                    seq![
                        LineV {
                            source_line: Some(l.source_line),
                            command: t_command(tn.unwrap()),
                            kind: DryRunLineKind::Program,
                            tool_number: None,
                            estimated_duration_ms: Some(0),
                        },
                    ]
                } else {
                    Seq::empty()
                };
                let me = LineV {
                    source_line: Some(l.source_line),
                    command: l.normalized@,
                    kind,
                    tool_number: if kind == DryRunLineKind::ToolChange {
                        tool2
                    } else {
                        None
                    },
                    estimated_duration_ms: timing_of(ts, l.source_line),
                };
                assert(pl == pre + seq![me] + rest);
                assert forall|j: int| 0 <= j < pl.len() implies exists|k: int|
                    i <= k < ls.len() && produced_by(ls[k], #[trigger] pl[j], os) by {
                    if j < pre.len() {
                        assert(pl[j] == pre[j]);
                        assert(pl[j].command == t_command(tn.unwrap()));
                        assert(produced_by(ls[i], pl[j], os));
                    } else if j == pre.len() {
                        assert(pl[j] == me);
                        assert(produced_by(ls[i], pl[j], os));
                    } else {
                        assert(pl[j] == rest[j - pre.len() - 1]);
                        let x = rest[j - pre.len() - 1];
                        let k = choose|k: int| i + 1 <= k < ls.len() && produced_by(ls[k], x, os);
                        assert(produced_by(ls[k], pl[j], os));
                    }
                }
                assert forall|j: int| 0 <= j < pl.len() - 1 implies (#[trigger] pl[j]).kind
                    != DryRunLineKind::ProgramEnd by {
                    if j < pre.len() {
                        assert(pl[j] == pre[j]);
                    } else if j == pre.len() {
                        assert(pl[j] == me);
                        assert(rest.len() > 0);
                    } else {
                        assert(pl[j] == rest[j - pre.len() - 1]);
                    }
                }
            }
        }
    }
}

/// The preamble opens every plan, no line but the last ends the program,
/// and the epilogue stands right before a final program end or at the very end.
pub proof fn lemma_plan_frames_program(listing: ProgramListing, options: ProgramExecutionOptions)
    requires
        program_lines(listing.lines@, 0, None, options.optional_stop, listing.line_timings@).len()
            > 0,
    ensures
        ({
            let p = plan_lines(listing, options);
            &&& p.len() >= 5
            &&& p[0] == safety_line("M5"@, DryRunLineKind::SafetyPreamble)
            &&& p[1] == safety_line("M9"@, DryRunLineKind::SafetyPreamble)
            &&& forall|j: int| 0 <= j < p.len() - 1 ==> (#[trigger] p[j]).kind
                != DryRunLineKind::ProgramEnd
            &&& if p.last().kind == DryRunLineKind::ProgramEnd {
                p[p.len() - 3] == safety_line("M5"@, DryRunLineKind::SafetyEpilogue) && p[p.len()
                    - 2] == safety_line("M9"@, DryRunLineKind::SafetyEpilogue)
            } else {
                p[p.len() - 2] == safety_line("M5"@, DryRunLineKind::SafetyEpilogue) && p[p.len()
                    - 1] == safety_line("M9"@, DryRunLineKind::SafetyEpilogue)
            }
        }),
{
    let pl = program_lines(listing.lines@, 0, None, options.optional_stop, listing.line_timings@);
    lemma_program_lines_origin(listing.lines@, 0, None, options.optional_stop, listing.line_timings@);
    let p = plan_lines(listing, options);
    if pl.last().kind == DryRunLineKind::ProgramEnd {
        let body = pl.drop_last();
        assert(p == preamble() + body + epilogue() + seq![pl.last()]);
        assert forall|j: int| 0 <= j < p.len() - 1 implies (#[trigger] p[j]).kind
            != DryRunLineKind::ProgramEnd by {
            if j >= 2 && j < 2 + body.len() {
                assert(p[j] == pl[j - 2]);
            }
        }
    } else {
        assert(p == preamble() + pl + epilogue());
        assert forall|j: int| 0 <= j < p.len() - 1 implies (#[trigger] p[j]).kind
            != DryRunLineKind::ProgramEnd by {
            if j >= 2 && j < 2 + pl.len() {
                assert(p[j] == pl[j - 2]);
                if j - 2 == pl.len() - 1 {
                    assert(pl[j - 2] == pl.last());
                }
            }
        }
    }
}


proof fn lemma_add_all_grows(bs: Seq<BlockerV>, line: Option<usize>, vs: Seq<(DryRunBlockerKind, Seq<char>)>)
    ensures
        add_all(bs, line, vs).len() >= bs.len(),
        vs.len() > 0 ==> add_all(bs, line, vs).len() > 0,
    decreases vs.len(),
{
    if vs.len() > 0 {
        lemma_add_all_grows(bs, line, vs.drop_last());
    }
}

proof fn lemma_lines_blockers_grow(bs: Seq<BlockerV>, ls: Seq<ProgramLine>, policy: ProgramRunPolicy)
    ensures
        lines_blockers(bs, ls, policy).len() >= bs.len(),
        lines_blockers(bs, ls, policy).len() == 0 ==> forall|k: int|
            0 <= k < ls.len() && (#[trigger] ls[k]).executable && !ls[k].block_deleted
                ==> line_violations(words(ls[k].normalized@), policy).len() == 0,
    decreases ls.len(),
{
    if ls.len() > 0 {
        let prev = lines_blockers(bs, ls.drop_last(), policy);
        lemma_lines_blockers_grow(bs, ls.drop_last(), policy);
        let l = ls.last();
        if l.executable && !l.block_deleted {
            lemma_add_all_grows(prev, Some(l.source_line), line_violations(words(l.normalized@), policy));
        }
        if lines_blockers(bs, ls, policy).len() == 0 {
            assert forall|k: int|
                0 <= k < ls.len() && (#[trigger] ls[k]).executable && !ls[k].block_deleted
                    implies line_violations(words(ls[k].normalized@), policy).len() == 0 by {
                if k < ls.len() - 1 {
                    assert(ls[k] == ls.drop_last()[k]);
                }
            }
        }
    }
}

proof fn lemma_warnings_blockers_grow(bs: Seq<BlockerV>, ws: Seq<ProgramWarning>, policy: ProgramRunPolicy)
    ensures
        warnings_blockers(bs, ws, policy).len() >= bs.len(),
    decreases ws.len(),
{
    if ws.len() > 0 {
        lemma_warnings_blockers_grow(bs, ws.drop_last(), policy);
    }
}

proof fn lemma_words_violations_none(ws: Seq<Seq<char>>, policy: ProgramRunPolicy)
    requires
        words_violations(ws, policy).len() == 0,
    ensures
        forall|k: int| 0 <= k < ws.len() ==> word_violation(#[trigger] ws[k], policy) is None,
    decreases ws.len(),
{
    if ws.len() > 0 {
        lemma_words_violations_none(ws.drop_last(), policy);
        assert forall|k: int| 0 <= k < ws.len() implies word_violation(#[trigger] ws[k], policy) is None by {
            if k < ws.len() - 1 {
                assert(ws[k] == ws.drop_last()[k]);
            }
        }
    }
}

proof fn lemma_classify_tool_change(ws: Seq<Seq<char>>, i: int, pause: Option<DryRunLineKind>)
    requires
        pause != Some(DryRunLineKind::ToolChange),
        classify_from(ws, i, pause) == DryRunLineKind::ToolChange,
    ensures
        has_code(ws, 'M', 6),
    decreases ws.len() - i,
{
    if i < 0 || i >= ws.len() {
    } else {
        match split_word(ws[i]) {
            Some((l, v)) => {
                if l != 'M' {
                    lemma_classify_tool_change(ws, i + 1, pause);
                } else if dec_code(v, 2) || dec_code(v, 30) {
                } else if dec_code(v, 6) {
                    assert(word_is(ws[i], 'M', 6));
                } else if dec_code(v, 0) {
                    lemma_classify_tool_change(ws, i + 1, Some(DryRunLineKind::ProgramPause));
                } else if dec_code(v, 1) {
                    lemma_classify_tool_change(ws, i + 1, Some(DryRunLineKind::OptionalPause));
                } else {
                    lemma_classify_tool_change(ws, i + 1, pause);
                }
            },
            None => lemma_classify_tool_change(ws, i + 1, pause),
        }
    }
}

proof fn lemma_violation_counts(ws: Seq<Seq<char>>, policy: ProgramRunPolicy, k: int)
    requires
        0 <= k < ws.len(),
        word_violation(ws[k], policy) is Some,
    ensures
        words_violations(ws, policy).len() > 0,
    decreases ws.len(),
{
    if k < ws.len() - 1 {
        assert(ws[k] == ws.drop_last()[k]);
        lemma_violation_counts(ws.drop_last(), policy, k);
    }
}

/// Under the air-run policy, an accepted program's lines come from executable,
/// undeleted source lines, and none of their words turns on the spindle or
/// coolant, changes tools, probes, moves in machine coordinates or changes offsets.
pub proof fn lemma_air_run_plan_is_inert(listing: ProgramListing, options: ProgramExecutionOptions)
    requires
        policy_blockers(listing, ProgramRunPolicy::AirRun, options).len() == 0,
    ensures
        ({
            let pl = program_lines(
                listing.lines@,
                0,
                None,
                options.optional_stop,
                listing.line_timings@,
            );
            forall|j: int|
                #![trigger pl[j]]
                0 <= j < pl.len() ==> {
                    &&& exists|k: int|
                        0 <= k < listing.lines@.len() && (#[trigger] listing.lines@[k]).executable
                            && !listing.lines@[k].block_deleted && pl[j].source_line == Some(
                            listing.lines@[k].source_line,
                        ) && pl[j].command == listing.lines@[k].normalized@
                    &&& forall|m: int|
                        0 <= m < words(pl[j].command).len() ==> word_violation(
                            #[trigger] words(pl[j].command)[m],
                            ProgramRunPolicy::AirRun,
                        ) is None
                }
        }),
{
    let ls = listing.lines@;
    let policy = ProgramRunPolicy::AirRun;
    let pl = program_lines(ls, 0, None, options.optional_stop, listing.line_timings@);
    let after_lines = lines_blockers(initial_blockers(listing, options), ls, policy);
    lemma_warnings_blockers_grow(after_lines, listing.warnings@, policy);
    lemma_lines_blockers_grow(initial_blockers(listing, options), ls, policy);
    lemma_program_lines_origin(ls, 0, None, options.optional_stop, listing.line_timings@);
    assert forall|j: int| #![trigger pl[j]] 0 <= j < pl.len() implies {
        &&& exists|k: int|
            0 <= k < listing.lines@.len() && (#[trigger] listing.lines@[k]).executable
                && !listing.lines@[k].block_deleted && pl[j].source_line == Some(
                listing.lines@[k].source_line,
            ) && pl[j].command == listing.lines@[k].normalized@
        &&& forall|m: int|
            0 <= m < words(pl[j].command).len() ==> word_violation(
                #[trigger] words(pl[j].command)[m],
                ProgramRunPolicy::AirRun,
            ) is None
    } by {
        let k = choose|k: int| 0 <= k < ls.len() && produced_by(ls[k], pl[j], options.optional_stop);
        let l = ls[k];
        let ws = words(l.normalized@);
        assert(line_violations(ws, policy).len() == 0);
        assert(words_violations(ws, policy).len() == 0);
        if pl[j].command != l.normalized@ {
            lemma_classify_tool_change(ws, 0, None);
            let m = choose|m: int| 0 <= m < ws.len() && word_is(#[trigger] ws[m], 'M', 6);
            assert(word_violation(ws[m], policy) is Some);
            lemma_violation_counts(ws, policy, m);
        }
        lemma_words_violations_none(ws, policy);
    }
}

pub open spec fn distinct_blockers(bs: Seq<BlockerV>) -> bool {
    forall|a: int, b: int|
        0 <= a < b < bs.len() ==> !((#[trigger] bs[a]).source_line == (#[trigger] bs[b]).source_line
            && bs[a].kind == bs[b].kind)
}

proof fn lemma_add_all_distinct(bs: Seq<BlockerV>, line: Option<usize>, vs: Seq<(DryRunBlockerKind, Seq<char>)>)
    requires
        distinct_blockers(bs),
    ensures
        distinct_blockers(add_all(bs, line, vs)),
    decreases vs.len(),
{
    if vs.len() > 0 {
        lemma_add_all_distinct(bs, line, vs.drop_last());
    }
}

proof fn lemma_lines_blockers_distinct(bs: Seq<BlockerV>, ls: Seq<ProgramLine>, policy: ProgramRunPolicy)
    requires
        distinct_blockers(bs),
    ensures
        distinct_blockers(lines_blockers(bs, ls, policy)),
    decreases ls.len(),
{
    if ls.len() > 0 {
        lemma_lines_blockers_distinct(bs, ls.drop_last(), policy);
        let prev = lines_blockers(bs, ls.drop_last(), policy);
        let l = ls.last();
        if l.executable && !l.block_deleted {
            lemma_add_all_distinct(prev, Some(l.source_line), line_violations(words(l.normalized@), policy));
        }
    }
}

proof fn lemma_warnings_blockers_distinct(bs: Seq<BlockerV>, ws: Seq<ProgramWarning>, policy: ProgramRunPolicy)
    requires
        distinct_blockers(bs),
    ensures
        distinct_blockers(warnings_blockers(bs, ws, policy)),
    decreases ws.len(),
{
    if ws.len() > 0 {
        lemma_warnings_blockers_distinct(bs, ws.drop_last(), policy);
    }
}

/// A rejection names each (source line, blocker kind) pair at most once.
pub proof fn lemma_blockers_are_distinct(
    listing: ProgramListing,
    policy: ProgramRunPolicy,
    options: ProgramExecutionOptions,
)
    ensures
        distinct_blockers(policy_blockers(listing, policy, options)),
{
    let init = initial_blockers(listing, options);
    lemma_lines_blockers_distinct(init, listing.lines@, policy);
    lemma_warnings_blockers_distinct(lines_blockers(init, listing.lines@, policy), listing.warnings@, policy);
}

proof fn lemma_add_blocker_grows(bs: Seq<BlockerV>, line: Option<usize>, kind: DryRunBlockerKind, msg: Seq<char>)
    ensures
        add_blocker_spec(bs, line, kind, msg).len() >= bs.len(),
        add_blocker_spec(bs, line, kind, msg).len() >= 1,
{
}

proof fn lemma_long_line_is_blocked(bs: Seq<BlockerV>, ls: Seq<ProgramLine>, policy: ProgramRunPolicy)
    ensures
        lines_blockers(bs, ls, policy).len() >= bs.len(),
        forall|k: int|
            0 <= k < ls.len() && (#[trigger] ls[k]).executable && !ls[k].block_deleted && too_long(
                ls[k].source_line,
                ls[k].normalized@,
            ) ==> lines_blockers(bs, ls, policy).len() >= 1,
    decreases ls.len(),
{
    if ls.len() > 0 {
        let prev = lines_blockers(bs, ls.drop_last(), policy);
        lemma_long_line_is_blocked(bs, ls.drop_last(), policy);
        let l = ls.last();
        if l.executable && !l.block_deleted {
            let vs = line_violations(words(l.normalized@), policy);
            lemma_add_all_grows(prev, Some(l.source_line), vs);
            let b1 = add_all(prev, Some(l.source_line), vs);
            lemma_add_blocker_grows(b1, Some(l.source_line), DryRunBlockerKind::CommandTooLong, msg_command_too_long());
        }
        assert forall|k: int|
            0 <= k < ls.len() && (#[trigger] ls[k]).executable && !ls[k].block_deleted && too_long(
                ls[k].source_line,
                ls[k].normalized@,
            ) implies lines_blockers(bs, ls, policy).len() >= 1 by {
            if k < ls.len() - 1 {
                assert(ls.drop_last()[k] == ls[k]);
            }
        }
    }
}

/// A plan is made only for a listing read with the run's Block Delete
/// setting, whose preview is complete, and none of whose sent lines is longer
/// than the sender accepts.
pub proof fn lemma_accepted_plan_conditions(
    listing: ProgramListing,
    policy: ProgramRunPolicy,
    options: ProgramExecutionOptions,
    r: Result<DryRunPlan, DryRunPolicyError>,
)
    requires
        run_plan_result(listing, policy, options, r),
        r is Ok,
    ensures
        listing.block_delete_enabled == options.block_delete,
        listing.preview_complete,
        forall|k: int|
            0 <= k < listing.lines@.len() && (#[trigger] listing.lines@[k]).executable
                && !listing.lines@[k].block_deleted ==> !too_long(
                listing.lines@[k].source_line,
                listing.lines@[k].normalized@,
            ),
{
    let init = initial_blockers(listing, options);
    lemma_lines_blockers_grow(init, listing.lines@, policy);
    lemma_long_line_is_blocked(init, listing.lines@, policy);
    lemma_warnings_blockers_grow(lines_blockers(init, listing.lines@, policy), listing.warnings@, policy);
    if !listing.preview_complete {
        let b0 = if listing.block_delete_enabled != options.block_delete {
            seq![
                BlockerV {
                    source_line: None,
                    kind: DryRunBlockerKind::UnsupportedProgram,
                    message: msg_block_delete(),
                },
            ]
        } else {
            Seq::empty()
        };
        lemma_add_blocker_grows(b0, None, DryRunBlockerKind::IncompletePreview, msg_incomplete_preview());
    }
}

/// Each listing line has a larger source line number than the one before.
pub open spec fn lines_in_order(ls: Seq<ProgramLine>) -> bool {
    forall|a: int, b: int| 0 <= a < b < ls.len() ==> (#[trigger] ls[a]).source_line < (#[trigger] ls[b]).source_line
}

proof fn lemma_program_lines_ordered(ls: Seq<ProgramLine>, i: int, tool: Option<u8>, os: bool, ts: Seq<LineTiming>)
    requires
        0 <= i,
        lines_in_order(ls),
    ensures
        ({
            let pl = program_lines(ls, i, tool, os, ts);
            &&& forall|j: int| 0 <= j < pl.len() ==> (#[trigger] pl[j]).source_line is Some
            &&& forall|j: int|
                0 <= j < pl.len() && i < ls.len() ==> ls[i].source_line <= (#[trigger] pl[j]).source_line->0
            &&& forall|a: int, b: int|
                0 <= a < b < pl.len() ==> (#[trigger] pl[a]).source_line->0 <= (#[trigger] pl[b]).source_line->0
        }),
    decreases ls.len() - i,
{
    let pl = program_lines(ls, i, tool, os, ts);
    lemma_program_lines_origin(ls, i, tool, os, ts);
    assert forall|j: int| 0 <= j < pl.len() implies (#[trigger] pl[j]).source_line is Some && (i < ls.len()
        ==> ls[i].source_line <= pl[j].source_line->0) by {
        let k = choose|k: int| i <= k < ls.len() && produced_by(ls[k], pl[j], os);
        if k > i {
            assert(ls[i].source_line < ls[k].source_line);
        }
    }
    if i < ls.len() {
        let l = ls[i];
        if !sendable(l) {
            lemma_program_lines_ordered(ls, i + 1, tool, os, ts);
        } else {
            let ws = words(l.normalized@);
            let kind = classify(ws);
            if kind == DryRunLineKind::OptionalPause && !os {
                lemma_program_lines_ordered(ls, i + 1, tool, os, ts);
            } else {
                let tn = tool_of(ws);
                let tool2 = if tn is Some {
                    tn
                } else {
                    tool
                };
                lemma_program_lines_ordered(ls, i + 1, tool2, os, ts);
                let rest = if kind == DryRunLineKind::ProgramEnd {
                    Seq::<LineV>::empty()
                } else {
                    program_lines(ls, i + 1, tool2, os, ts)
                };
                let pre = if tn is Some && kind == DryRunLineKind::ToolChange {
                    seq![
                        LineV {
                            source_line: Some(l.source_line),
                            command: t_command(tn.unwrap()),
                            kind: DryRunLineKind::Program,
                            tool_number: None,
                            estimated_duration_ms: Some(0),
                        },
                    ]
                } else {
                    Seq::empty()
                };
                let me = LineV {
                    source_line: Some(l.source_line),
                    command: l.normalized@,
                    kind,
                    tool_number: if kind == DryRunLineKind::ToolChange {
                        tool2
                    } else {
                        None
                    },
                    estimated_duration_ms: timing_of(ts, l.source_line),
                };
                assert(pl == pre + seq![me] + rest);
                let h = pre.len() + 1;
                assert forall|a: int, b: int| 0 <= a < b < pl.len() implies (#[trigger] pl[a]).source_line->0
                    <= (#[trigger] pl[b]).source_line->0 by {
                    if a < h {
                        assert(pl[a].source_line->0 == l.source_line);
                        if b >= h {
                            assert(pl[b] == rest[b - h]);
                            if i + 1 < ls.len() {
                                assert(ls[i].source_line < ls[i + 1].source_line);
                            }
                        } else {
                            assert(pl[b].source_line->0 == l.source_line);
                        }
                    } else {
                        assert(pl[a] == rest[a - h]);
                        assert(pl[b] == rest[b - h]);
                    }
                }
            }
        }
    }
}

/// When the listing's lines are in source order, so are the program lines of
/// a plan: between preamble and epilogue, source line numbers never
/// decrease.
pub proof fn lemma_plan_keeps_source_order(
    listing: ProgramListing,
    policy: ProgramRunPolicy,
    options: ProgramExecutionOptions,
    r: Result<DryRunPlan, DryRunPolicyError>,
)
    requires
        run_plan_result(listing, policy, options, r),
        r is Ok,
        lines_in_order(listing.lines@),
    ensures
        ({
            let ls = r->Ok_0@.lines;
            forall|a: int, b: int|
                2 <= a < b < ls.len() && (#[trigger] ls[a]).source_line is Some && (#[trigger] ls[b]).source_line is Some
                    ==> ls[a].source_line->0 <= ls[b].source_line->0
        }),
{
    let pl = program_lines(listing.lines@, 0, None, options.optional_stop, listing.line_timings@);
    lemma_program_lines_ordered(listing.lines@, 0, None, options.optional_stop, listing.line_timings@);
    let ls = r->Ok_0@.lines;
    assert(ls == assemble(pl));
    let k = pl.len() as int;
    if k > 0 && pl.last().kind == DryRunLineKind::ProgramEnd {
        assert(ls =~= preamble() + pl.drop_last() + epilogue() + seq![pl.last()]);
        assert forall|a: int, b: int|
            2 <= a < b < ls.len() && (#[trigger] ls[a]).source_line is Some && (#[trigger] ls[b]).source_line is Some
                implies ls[a].source_line->0 <= ls[b].source_line->0 by {
            if a < k + 1 {
                assert(ls[a] == pl[a - 2]);
                if b < k + 1 {
                    assert(ls[b] == pl[b - 2]);
                } else if b == k + 3 {
                    assert(ls[b] == pl[k - 1]);
                } else {
                    assert(ls[b].source_line is None);
                }
            } else if a < k + 3 {
                assert(ls[a].source_line is None);
            }
        }
    } else {
        assert(ls =~= preamble() + pl + epilogue());
        assert forall|a: int, b: int|
            2 <= a < b < ls.len() && (#[trigger] ls[a]).source_line is Some && (#[trigger] ls[b]).source_line is Some
                implies ls[a].source_line->0 <= ls[b].source_line->0 by {
            if a < k + 2 {
                assert(ls[a] == pl[a - 2]);
                if b < k + 2 {
                    assert(ls[b] == pl[b - 2]);
                } else {
                    assert(ls[b].source_line is None);
                }
            } else {
                assert(ls[a].source_line is None);
            }
        }
    }
}

/// Every rejection counts exactly the blockers it lists, lists at least one,
/// and names each (source line, blocker kind) pair once.
pub proof fn lemma_rejection_counts_its_distinct_blockers(
    listing: ProgramListing,
    policy: ProgramRunPolicy,
    options: ProgramExecutionOptions,
    r: Result<DryRunPlan, DryRunPolicyError>,
)
    requires
        run_plan_result(listing, policy, options, r),
    ensures
        r matches Err(DryRunPolicyError::Rejected(n, v)) ==> n == v.len() && n >= 1 && distinct_blockers(
            blockers_view(v@),
        ),
{
    lemma_blockers_are_distinct(listing, policy, options);
    if let Err(DryRunPolicyError::Rejected(n, v)) = r {
        assert(blockers_view(v@).len() == v@.len());
    }
}

/// Every plan starts with the safety preamble (M5, M9), ends with the safety
/// epilogue (M5, M9) followed at most by the program's own end, and every
/// line between them comes from a source line; no program end stands before
/// the epilogue.
pub proof fn lemma_run_plan_layout(
    listing: ProgramListing,
    policy: ProgramRunPolicy,
    options: ProgramExecutionOptions,
    r: Result<DryRunPlan, DryRunPolicyError>,
)
    requires
        run_plan_result(listing, policy, options, r),
        r is Ok,
    ensures
        ({
            let ls = r->Ok_0@.lines;
            let n = ls.len() as int;
            let end = if ls[n - 1].kind == DryRunLineKind::ProgramEnd {
                n - 1
            } else {
                n
            };
            &&& n >= 5
            &&& ls.take(2) == preamble()
            &&& ls.subrange(end - 2, end) == epilogue()
            &&& (end == n - 1 ==> ls[n - 1].source_line is Some)
            &&& forall|j: int|
                2 <= j < end - 2 ==> (#[trigger] ls[j]).source_line is Some && ls[j].kind
                    != DryRunLineKind::ProgramEnd
        }),
{
    let pl = program_lines(listing.lines@, 0, None, options.optional_stop, listing.line_timings@);
    lemma_program_lines_origin(listing.lines@, 0, None, options.optional_stop, listing.line_timings@);
    let ls = r->Ok_0@.lines;
    assert(ls == assemble(pl));
    assert(pl.len() > 0);
    let n = ls.len() as int;
    let k = pl.len() as int;
    assert forall|j: int| 0 <= j < k implies (#[trigger] pl[j]).source_line is Some by {
        let m = choose|m: int| 0 <= m < listing.lines@.len() && produced_by(listing.lines@[m], pl[j], options.optional_stop);
    }
    if pl.last().kind == DryRunLineKind::ProgramEnd {
        assert(ls =~= preamble() + pl.drop_last() + epilogue() + seq![pl.last()]);
        assert(n == k + 4);
        assert(ls[n - 1] == pl[k - 1]);
        assert(ls.take(2) =~= preamble());
        assert(ls.subrange(n - 3, n - 1) =~= epilogue());
        assert forall|j: int| 2 <= j < n - 3 implies (#[trigger] ls[j]).source_line is Some && ls[j].kind
            != DryRunLineKind::ProgramEnd by {
            assert(ls[j] == pl[j - 2]);
        }
    } else {
        assert(ls =~= preamble() + pl + epilogue());
        assert(n == k + 4);
        assert(ls[n - 1] == epilogue()[1]);
        assert(ls.take(2) =~= preamble());
        assert(ls.subrange(n - 2, n) =~= epilogue());
        assert forall|j: int| 2 <= j < n - 2 implies (#[trigger] ls[j]).source_line is Some && ls[j].kind
            != DryRunLineKind::ProgramEnd by {
            assert(ls[j] == pl[j - 2]);
            if j - 2 == k - 1 {
                assert(pl[k - 1] == pl.last());
            }
        }
    }
}

/// Optional pauses (M1) are planned only when the optional stop is switched on,
/// and block-deleted lines are never planned.
pub proof fn lemma_plan_respects_host_options(listing: ProgramListing, options: ProgramExecutionOptions)
    ensures
        ({
            let pl = program_lines(
                listing.lines@,
                0,
                None,
                options.optional_stop,
                listing.line_timings@,
            );
            forall|j: int|
                0 <= j < pl.len() ==> {
                    &&& ((#[trigger] pl[j]).kind == DryRunLineKind::OptionalPause ==> options.optional_stop)
                    &&& exists|k: int|
                        0 <= k < listing.lines@.len() && !(#[trigger] listing.lines@[k]).block_deleted
                            && pl[j].source_line == Some(listing.lines@[k].source_line)
                }
        }),
{
    let ls = listing.lines@;
    let pl = program_lines(ls, 0, None, options.optional_stop, listing.line_timings@);
    lemma_program_lines_origin(ls, 0, None, options.optional_stop, listing.line_timings@);
    assert forall|j: int| 0 <= j < pl.len() implies {
        &&& ((#[trigger] pl[j]).kind == DryRunLineKind::OptionalPause ==> options.optional_stop)
        &&& exists|k: int|
            0 <= k < listing.lines@.len() && !(#[trigger] listing.lines@[k]).block_deleted
                && pl[j].source_line == Some(listing.lines@[k].source_line)
    } by {
        let k = choose|k: int| 0 <= k < ls.len() && produced_by(ls[k], pl[j], options.optional_stop);
        assert(!ls[k].block_deleted);
    }
}


// ---------------------------------------------------------------------------
// Building blocks of a transformed trajectory
// ---------------------------------------------------------------------------

pub open spec fn msg_compensated_too_long() -> Seq<char> {
    "heightmap command exceeds the sender line-length limit"@
}

impl DryRunLine {
    /// An equal line.
    pub fn duplicate(&self) -> (r: DryRunLine)
        ensures
            r@ == self@,
    {
        DryRunLine {
            source_line: self.source_line,
            command: self.command.clone(),
            kind: self.kind,
            tool_number: self.tool_number,
            estimated_duration_ms: self.estimated_duration_ms,
        }
    }

    /// A program command written by a trajectory transformation, for a
    /// source line; refused when, numbered, it would pass the sender's line
    /// length.
    pub fn compensated(source_line: usize, command: String, estimated_duration_ms: Option<u64>) -> (r: Result<
        DryRunLine,
        DryRunPolicyError,
    >)
        ensures
            if too_long(source_line, command@) {
                r matches Err(DryRunPolicyError::Rejected(n, v)) && n == 1 && blockers_view(v@) == seq![
                    BlockerV {
                        source_line: Some(source_line),
                        kind: DryRunBlockerKind::HeightmapCompensation,
                        message: msg_compensated_too_long(),
                    },
                ]
            } else {
                r matches Ok(l) && l@ == (LineV {
                    source_line: Some(source_line),
                    command: command@,
                    kind: DryRunLineKind::Program,
                    tool_number: None,
                    estimated_duration_ms,
                })
            },
    {
        if numbered_command_len(source_line, command.as_str()) > MAX_DRY_RUN_COMMAND_BYTES {
            return Err(
                transformation_rejection(
                    Some(source_line),
                    DryRunBlockerKind::HeightmapCompensation,
                    String::from_str("heightmap command exceeds the sender line-length limit"),
                ),
            );
        }
        Ok(DryRunLine {
            source_line: Some(source_line),
            command,
            kind: DryRunLineKind::Program,
            tool_number: None,
            estimated_duration_ms,
        })
    }
}

impl DryRunPlan {
    /// The plan with its lines replaced by a transformed trajectory: the
    /// total time is the saturating sum of the known durations, and complete
    /// when every line has one.
    pub fn with_lines(plan: &DryRunPlan, lines: Vec<DryRunLine>) -> (r: DryRunPlan)
        ensures
            r@ == (PlanV {
                lines: lines_view(lines@),
                estimated_total_ms: total_ms(lines_view(lines@)),
                time_estimate_complete: all_timed(lines_view(lines@)),
                ..plan@
            }),
    {
        let mut total: u64 = 0;
        let mut timed = true;
        let mut i: usize = 0;
        while i < lines.len()
            invariant
                i <= lines@.len(),
                total == total_ms(lines_view(lines@).take(i as int)),
                timed == all_timed(lines_view(lines@).take(i as int)),
            decreases lines.len() - i,
        {
            proof {
                let ls = lines_view(lines@);
                assert(ls.take(i + 1).drop_last() =~= ls.take(i as int));
                assert(ls.take(i + 1).last() == lines@[i as int]@);
                if timed && lines@[i as int]@.estimated_duration_ms is Some {
                    assert forall|k: int| 0 <= k < ls.take(i + 1).len() implies (#[trigger] ls.take(i + 1)[k]).estimated_duration_ms is Some by {
                        if k < i {
                            assert(ls.take(i + 1)[k] == ls.take(i as int)[k]);
                        }
                    }
                }
                if !timed {
                    let w = choose|k: int| 0 <= k < ls.take(i as int).len() && !((#[trigger] ls.take(i as int)[k]).estimated_duration_ms is Some);
                    assert(ls.take(i + 1)[w] == ls.take(i as int)[w]);
                }
                if lines@[i as int]@.estimated_duration_ms is None {
                    assert(ls.take(i + 1)[i as int] == lines@[i as int]@);
                }
            }
            match lines[i].estimated_duration_ms {
                Some(d) => {
                    total = total.saturating_add(d);
                },
                None => {
                    timed = false;
                },
            }
            i = i + 1;
        }
        proof {
            assert(lines_view(lines@).take(lines@.len() as int) =~= lines_view(lines@));
        }
        DryRunPlan {
            source_name: plan.source_name.clone(),
            source_line_count: plan.source_line_count,
            lines,
            estimated_total_ms: total,
            time_estimate_complete: timed,
            execution_options: plan.execution_options,
        }
    }
}

/// `w` is a word of letter `axis`.
pub open spec fn is_axis_word(w: Seq<char>, axis: char) -> bool {
    split_word(w) matches Some(p) && p.0 == axis
}

/// Some word of `ws` is an `axis` word.
pub open spec fn names_axis(ws: Seq<Seq<char>>, axis: char) -> bool {
    exists|i: int| 0 <= i < ws.len() && #[trigger] is_axis_word(ws[i], axis)
}

/// Whether a normalized command gives an X and a Y coordinate.
pub fn explicit_axes(normalized: &str) -> (r: (bool, bool))
    ensures
        r.0 == names_axis(words(normalized@), 'X'),
        r.1 == names_axis(words(normalized@), 'Y'),
{
    let ws = split_ws(&chars_of(normalized));
    let ghost wv = views(ws@);
    let mut x = false;
    let mut y = false;
    let mut i: usize = 0;
    while i < ws.len()
        invariant
            i <= ws.len(),
            wv == views(ws@),
            x == (exists|k: int| 0 <= k < i && #[trigger] is_axis_word(wv[k], 'X')),
            y == (exists|k: int| 0 <= k < i && #[trigger] is_axis_word(wv[k], 'Y')),
        decreases ws.len() - i,
    {
        assert(wv[i as int] == ws@[i as int]@);
        match split_word_exec(&ws[i]) {
            Some(w) => {
                if w.letter == 'X' {
                    x = true;
                }
                if w.letter == 'Y' {
                    y = true;
                }
            },
            None => {},
        }
        proof {
            assert forall|k: int| 0 <= k < i + 1 && #[trigger] is_axis_word(wv[k], 'X') implies (k < i
                || is_axis_word(wv[i as int], 'X')) by {}
            assert forall|k: int| 0 <= k < i + 1 && #[trigger] is_axis_word(wv[k], 'Y') implies (k < i
                || is_axis_word(wv[i as int], 'Y')) by {}
            if is_axis_word(wv[i as int], 'X') {
                assert(0 <= i < i + 1 && is_axis_word(wv[i as int], 'X'));
            }
            if is_axis_word(wv[i as int], 'Y') {
                assert(0 <= i < i + 1 && is_axis_word(wv[i as int], 'Y'));
            }
        }
        i = i + 1;
    }
    (x, y)
}

/// A word that belongs to the motion a transformation rewrites: a line
/// number, a coordinate, an arc parameter, a feed, or G0 to G3.
pub open spec fn motion_word(w: Seq<char>) -> bool {
    match split_word(w) {
        Some((l, v)) => l == 'N' || l == 'X' || l == 'Y' || l == 'Z' || l == 'I' || l == 'J' || l == 'K'
            || l == 'R' || l == 'F' || (l == 'G' && (dec_code(v, 0) || dec_code(v, 1) || dec_code(v, 2) || dec_code(v, 3))),
        None => false,
    }
}

/// The words of `ws` that are not motion words, in order.
pub open spec fn non_motion_words(ws: Seq<Seq<char>>) -> Seq<Seq<char>>
    decreases ws.len(),
{
    if ws.len() == 0 {
        Seq::empty()
    } else {
        let rest = non_motion_words(ws.drop_last());
        if motion_word(ws.last()) {
            rest
        } else {
            rest.push(ws.last())
        }
    }
}

fn is_motion_word(w: &[char]) -> (r: bool)
    ensures
        r == motion_word(w@),
{
    match split_word_exec(w) {
        Some(x) => {
            let l = x.letter;
            l == 'N' || l == 'X' || l == 'Y' || l == 'Z' || l == 'I' || l == 'J' || l == 'K' || l == 'R' || l
                == 'F' || (l == 'G' && (x.value.is_code(0) || x.value.is_code(1) || x.value.is_code(2) || x.value.is_code(3)))
        },
        None => false,
    }
}

/// What a command does besides its motion, to be sent before the rewritten
/// motion: its other words, space-separated; none when there are none.
pub fn non_motion_prefix(normalized: &str) -> (r: Option<String>)
    ensures
        ({
            let kept = non_motion_words(words(normalized@));
            if kept.len() == 0 {
                r is None
            } else {
                r matches Some(s) && s@ == join(kept, seq![' '])
            }
        }),
{
    let ws = split_ws(&chars_of(normalized));
    let mut kept: Vec<Vec<char>> = Vec::new();
    let mut i: usize = 0;
    while i < ws.len()
        invariant
            i <= ws.len(),
            views(kept@) == non_motion_words(views(ws@).take(i as int)),
        decreases ws.len() - i,
    {
        proof {
            assert(views(ws@).take(i + 1).drop_last() =~= views(ws@).take(i as int));
        }
        if !is_motion_word(&ws[i]) {
            let w = ws[i].clone();
            proof {
                assert(views(kept@.push(w)) =~= views(kept@).push(w@));
            }
            kept.push(w);
        }
        i = i + 1;
    }
    assert(views(ws@).take(ws.len() as int) =~= views(ws@));
    if kept.len() == 0 {
        return None;
    }
    let body = join_space(&kept);
    Some(string_from_chars(&body))
}

} // verus!
