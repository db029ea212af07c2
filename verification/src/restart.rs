//! Choosing where a program may be restarted from a selected line.
use vstd::prelude::*;

use crate::program::{ProgramLine, ProgramListing, ProgramWorkCoordinateSystem};
use crate::text::{chars_of, dec, push_dec, push_str, split_ws, string_from_chars, views, words};
use crate::word::{dec_is, parse_decimal, parse_decimal_at};
use vstd::utf8::encode_utf8;

verus! {

/// Longest source name a program may carry, in bytes.
pub const MAX_SOURCE_NAME_BYTES: usize = 255;

/// Whether a restarted program only moves or also cuts.
#[derive(Clone, Copy, Debug, PartialEq, Eq, Structural)]
pub enum SafeStartIntent {
    AirRun,
    Cutting,
}

pub open spec fn wcs_text(wcs: ProgramWorkCoordinateSystem) -> Seq<char> {
    match wcs {
        ProgramWorkCoordinateSystem::G54 => "G54"@,
        ProgramWorkCoordinateSystem::G55 => "G55"@,
        ProgramWorkCoordinateSystem::G56 => "G56"@,
        ProgramWorkCoordinateSystem::G57 => "G57"@,
        ProgramWorkCoordinateSystem::G58 => "G58"@,
        ProgramWorkCoordinateSystem::G59 => "G59"@,
    }
}

/// The modal word that selects a work coordinate system.
pub fn wcs_word(wcs: ProgramWorkCoordinateSystem) -> (r: &'static str)
    ensures
        r@ == wcs_text(wcs),
{
    match wcs {
        ProgramWorkCoordinateSystem::G54 => "G54",
        ProgramWorkCoordinateSystem::G55 => "G55",
        ProgramWorkCoordinateSystem::G56 => "G56",
        ProgramWorkCoordinateSystem::G57 => "G57",
        ProgramWorkCoordinateSystem::G58 => "G58",
        ProgramWorkCoordinateSystem::G59 => "G59",
    }
}

/// A word `M2` or `M30` (in any decimal spelling of those values).
pub open spec fn ends_program(w: Seq<char>) -> bool {
    w.len() > 0 && w[0] == 'M' && match parse_decimal(w.drop_first()) {
        Some(d) => dec_is(d, 2) || dec_is(d, 30),
        None => false,
    }
}

/// The normalized block ends the program.
pub open spec fn program_end(normalized: Seq<char>) -> bool {
    exists|i: int| 0 <= i < words(normalized).len() && ends_program(#[trigger] words(normalized)[i])
}

/// Whether a normalized block holds `M2` or `M30`.
pub fn has_program_end(normalized: &str) -> (r: bool)
    ensures
        r == program_end(normalized@),
{
    let cs = chars_of(normalized);
    let ws = split_ws(cs.as_slice());
    let ghost wv = views(ws@);
    let mut i: usize = 0;
    while i < ws.len()
        invariant
            i <= ws.len(),
            wv == views(ws@),
            wv == words(normalized@),
            forall|k: int| 0 <= k < i ==> !ends_program(#[trigger] wv[k]),
        decreases ws.len() - i,
    {
        let w = ws[i].as_slice();
        assert(wv[i as int] == w@);
        if w.len() > 0 && w[0] == 'M' {
            assert(w@.skip(1) =~= w@.drop_first());
            match parse_decimal_at(w, 1) {
                Some(d) => {
                    if d.is(2) || d.is(30) {
                        assert(ends_program(wv[i as int]));
                        return true;
                    }
                },
                None => {},
            }
        }
        i = i + 1;
    }
    false
}

/// `safe-start-L<line>-<original>`, or `safe-start-L<line>.nc` when that is too long.
pub open spec fn safe_start_name(selected_source_line: usize, original: Seq<char>) -> Seq<char> {
    let long = "safe-start-L"@ + dec(selected_source_line as nat) + "-"@ + original;
    if encode_utf8(long).len() as usize <= MAX_SOURCE_NAME_BYTES {
        long
    } else {
        "safe-start-L"@ + dec(selected_source_line as nat) + ".nc"@
    }
}

/// The source name of a safe-start program.
pub fn safe_start_source_name(selected_source_line: usize, original: &str) -> (r: String)
    ensures
        r@ == safe_start_name(selected_source_line, original@),
{
    let mut long: Vec<char> = Vec::new();
    push_str(&mut long, "safe-start-L");
    push_dec(&mut long, selected_source_line as u64);
    push_str(&mut long, "-");
    push_str(&mut long, original);
    assert(long@ =~= "safe-start-L"@ + dec(selected_source_line as nat) + "-"@ + original@);
    let name = string_from_chars(long.as_slice());
    if name.as_str().len() <= MAX_SOURCE_NAME_BYTES {
        name
    } else {
        let mut short: Vec<char> = Vec::new();
        push_str(&mut short, "safe-start-L");
        push_dec(&mut short, selected_source_line as u64);
        push_str(&mut short, ".nc");
        assert(short@ =~= "safe-start-L"@ + dec(selected_source_line as nat) + ".nc"@);
        string_from_chars(short.as_slice())
    }
}

/// Why a selected line cannot be a restart target.
#[derive(Clone, Copy, Debug, PartialEq, Eq, Structural)]
pub enum RestartLineError {
    LineNotExecutable(usize),
    LineHasNoMotion(usize),
    LineAfterProgramEnd(usize),
}

/// A line that is executed when the program runs.
pub open spec fn runs(l: ProgramLine) -> bool {
    l.executable && !l.block_deleted
}

/// Index of the first line with this source line number.
pub open spec fn line_index(ls: Seq<ProgramLine>, source_line: usize) -> Option<nat>
    decreases ls.len(),
{
    if ls.len() == 0 {
        None
    } else if ls[0].source_line == source_line {
        Some(0)
    } else {
        match line_index(ls.drop_first(), source_line) {
            Some(i) => Some(i + 1),
            None => None,
        }
    }
}

/// Whether the selected line may start a restart: it runs, it moves, and no
/// earlier running line ends the program.
pub open spec fn restart_line_check(p: ProgramListing, selected: usize) -> Result<(), RestartLineError> {
    let ls = p.lines@;
    match line_index(ls, selected) {
        None => Err(RestartLineError::LineNotExecutable(selected)),
        Some(i) => if !runs(ls[i as int]) {
            Err(RestartLineError::LineNotExecutable(selected))
        } else if !(exists|k: int|
            0 <= k < p.motions@.len() && (#[trigger] p.motions@[k]).source_line == selected) {
            Err(RestartLineError::LineHasNoMotion(selected))
        } else if exists|k: int|
            0 <= k < ls.len() && (#[trigger] ls[k]).source_line < selected && runs(ls[k])
                && program_end(ls[k].normalized@) {
            Err(RestartLineError::LineAfterProgramEnd(selected))
        } else {
            Ok(())
        },
    }
}

proof fn lemma_line_index(ls: Seq<ProgramLine>, source_line: usize)
    ensures
        match line_index(ls, source_line) {
            Some(i) => i < ls.len() && ls[i as int].source_line == source_line,
            None => forall|k: int| 0 <= k < ls.len() ==> (#[trigger] ls[k]).source_line != source_line,
        },
    decreases ls.len(),
{
    if ls.len() > 0 && ls[0].source_line != source_line {
        lemma_line_index(ls.drop_first(), source_line);
        let t = ls.drop_first();
        assert forall|k: int| 0 < k < ls.len() implies ls[k] == t[k - 1] by {}
    }
}

/// Checks that the selected line may start a restart.
pub fn check_restart_line(program: &ProgramListing, selected_source_line: usize) -> (r: Result<
    (),
    RestartLineError,
>)
    ensures
        r == restart_line_check(*program, selected_source_line),
{
    let ghost ls = program.lines@;
    proof {
        lemma_line_index(ls, selected_source_line);
    }
    let mut i: usize = 0;
    assert(ls.skip(0) =~= ls);
    while i < program.lines.len()
        invariant
            i <= ls.len(),
            ls == program.lines@,
            line_index(ls, selected_source_line) == match line_index(ls.skip(i as int), selected_source_line) {
                Some(k) => Some((k + i) as nat),
                None => None,
            },
        ensures
            line_index(ls, selected_source_line) == (if i < ls.len() {
                Some(i as nat)
            } else {
                None::<nat>
            }),
        decreases program.lines.len() - i,
    {
        assert(ls.skip(i as int)[0] == ls[i as int]);
        if program.lines[i].source_line == selected_source_line {
            break;
        }
        assert(ls.skip(i as int).drop_first() =~= ls.skip(i + 1));
        i = i + 1;
    }
    if i >= program.lines.len() {
        return Err(RestartLineError::LineNotExecutable(selected_source_line));
    }
    if !(program.lines[i].executable && !program.lines[i].block_deleted) {
        return Err(RestartLineError::LineNotExecutable(selected_source_line));
    }
    let mut k: usize = 0;
    let mut moves = false;
    while k < program.motions.len()
        invariant
            k <= program.motions@.len(),
            moves == exists|m: int| 0 <= m < k && (#[trigger] program.motions@[m]).source_line == selected_source_line,
        decreases program.motions.len() - k,
    {
        if program.motions[k].source_line == selected_source_line {
            moves = true;
        }
        k = k + 1;
    }
    if !moves {
        return Err(RestartLineError::LineHasNoMotion(selected_source_line));
    }
    let mut j: usize = 0;
    let ghost found = i;
    while j < program.lines.len()
        invariant
            j <= ls.len(),
            ls == program.lines@,
            found < ls.len(),
            line_index(ls, selected_source_line) == Some(found as nat),
            runs(ls[found as int]),
            exists|m: int| 0 <= m < program.motions@.len() && (#[trigger] program.motions@[m]).source_line == selected_source_line,
            forall|m: int| 0 <= m < j ==> !((#[trigger] ls[m]).source_line < selected_source_line && runs(ls[m]) && program_end(ls[m].normalized@)),
        decreases program.lines.len() - j,
    {
        let l = &program.lines[j];
        if l.source_line < selected_source_line && l.executable && !l.block_deleted
            && has_program_end(l.normalized.as_str()) {
            return Err(RestartLineError::LineAfterProgramEnd(selected_source_line));
        }
        j = j + 1;
    }
    Ok(())
}

/// Lines that run from the anchor on (`remaining`), and those of them before the
/// selected line (`replayed`).
pub open spec fn remaining_lines(ls: Seq<ProgramLine>, anchor: usize) -> nat
    decreases ls.len(),
{
    if ls.len() == 0 {
        0
    } else {
        remaining_lines(ls.drop_last(), anchor) + if ls.last().source_line >= anchor && runs(ls.last()) {
            1nat
        } else {
            0nat
        }
    }
}

pub open spec fn replayed_lines(ls: Seq<ProgramLine>, anchor: usize, selected: usize) -> nat
    decreases ls.len(),
{
    if ls.len() == 0 {
        0
    } else {
        replayed_lines(ls.drop_last(), anchor, selected) + if ls.last().source_line >= anchor
            && ls.last().source_line < selected && runs(ls.last()) {
            1nat
        } else {
            0nat
        }
    }
}

/// A restart from `anchor` runs the lines it replays and then exactly the
/// lines a restart from the selected line would run: the replayed lines are
/// the running lines from the anchor up to but not including the selected
/// line, so a running line at the selected line is never replayed.
pub proof fn lemma_replayed_lines_come_before_the_selected_line(ls: Seq<ProgramLine>, anchor: usize, selected: usize)
    requires
        anchor <= selected,
    ensures
        replayed_lines(ls, anchor, selected) + remaining_lines(ls, selected) == remaining_lines(ls, anchor),
        replayed_lines(ls, anchor, anchor) == 0,
    decreases ls.len(),
{
    if ls.len() > 0 {
        lemma_replayed_lines_come_before_the_selected_line(ls.drop_last(), anchor, selected);
    }
}

/// How many running lines a restart from `anchor` replays before the selected
/// line, and how many it runs in all.
pub fn restart_line_counts(program: &ProgramListing, anchor: usize, selected: usize) -> (r: (usize, usize))
    ensures
        r.0 == replayed_lines(program.lines@, anchor, selected),
        r.1 == remaining_lines(program.lines@, anchor),
        anchor <= selected ==> r.0 + remaining_lines(program.lines@, selected) == r.1,
{
    proof {
        if anchor <= selected {
            lemma_replayed_lines_come_before_the_selected_line(program.lines@, anchor, selected);
        }
    }
    let ghost ls = program.lines@;
    let mut replayed: usize = 0;
    let mut remaining: usize = 0;
    let mut i: usize = 0;
    while i < program.lines.len()
        invariant
            i <= ls.len(),
            ls == program.lines@,
            replayed == replayed_lines(ls.take(i as int), anchor, selected),
            remaining == remaining_lines(ls.take(i as int), anchor),
            replayed <= i,
            remaining <= i,
        decreases program.lines.len() - i,
    {
        assert(ls.take(i + 1).drop_last() =~= ls.take(i as int));
        assert(ls.take(i + 1).last() == ls[i as int]);
        let l = &program.lines[i];
        if l.source_line >= anchor && l.executable && !l.block_deleted {
            remaining = remaining + 1;
            if l.source_line < selected {
                replayed = replayed + 1;
            }
        }
        i = i + 1;
    }
    assert(ls.take(ls.len() as int) =~= ls);
    (replayed, remaining)
}

} // verus!
