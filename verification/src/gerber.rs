//! Legacy Gerber unit and coordinate-mode commands, rewritten to their
//! extended form before a layer is read.
//!
//! A Gerber file is a run of commands, each closed by `*`; between `%` signs
//! stand extended commands, which are left alone. A legacy `G90` (absolute
//! coordinates) is dropped in favour of a comment; `G70` and `G71` (inches,
//! millimetres) become `%MOIN*%` and `%MOMM*%` unless the file already
//! declares its unit that way. A legacy command may carry a `D` code, which is
//! kept. `G91` (incremental coordinates) is not supported, nor a legacy unit
//! that contradicts the extended one.
use vstd::prelude::*;

use crate::pcb::PcbError;
use vstd::utf8::encode_utf8;

verus! {

/// ASCII whitespace, as `u8::is_ascii_whitespace` reads it.
pub open spec fn ascii_ws(c: u8) -> bool {
    c == 32 || c == 9 || c == 10 || c == 12 || c == 13
}

/// The closing `*` of a command.
pub open spec fn star() -> Seq<u8> {
    seq![42u8]
}

/// The legacy code `G` followed by two digits, as bytes (`G90` is `g_code(57, 48)`).
pub open spec fn g_code(d1: u8, d2: u8) -> Seq<u8> {
    seq![71u8, d1, d2]
}

pub open spec fn absolute_comment() -> Seq<u8> {
    encode_utf8("G04 Millo accepted legacy G90 absolute mode*"@)
}

pub open spec fn metric_comment() -> Seq<u8> {
    encode_utf8("G04 Millo accepted legacy G71 metric mode*"@)
}

pub open spec fn inch_comment() -> Seq<u8> {
    encode_utf8("G04 Millo accepted legacy G70 inch mode*"@)
}

pub open spec fn metric_code() -> Seq<u8> {
    encode_utf8("%MOMM*%"@)
}

pub open spec fn inch_code() -> Seq<u8> {
    encode_utf8("%MOIN*%"@)
}

pub open spec fn metric_declaration() -> Seq<u8> {
    encode_utf8("%MOMM"@)
}

pub open spec fn inch_declaration() -> Seq<u8> {
    encode_utf8("%MOIN"@)
}

/// `p` occurs in `b`.
pub open spec fn has_window(b: Seq<u8>, p: Seq<u8>) -> bool {
    exists|i: int| 0 <= i && i + p.len() <= b.len() && #[trigger] b.subrange(i, i + p.len()) == p
}

/// The commands outside extended blocks, scanning from `i` inside an
/// extended block or not, with the current command begun at `start`: each is
/// the range from its start to its closing `*`. An extended block closes with
/// its second `%`, and the next command begins after it.
pub open spec fn commands_from(b: Seq<u8>, i: int, in_extended: bool, start: int) -> Seq<(int, int)>
    decreases b.len() - i,
{
    if i < 0 || i >= b.len() {
        Seq::empty()
    } else if b[i] == 37u8 {
        if in_extended {
            commands_from(b, i + 1, false, i + 1)
        } else {
            commands_from(b, i + 1, true, start)
        }
    } else if in_extended || b[i] != 42u8 {
        commands_from(b, i + 1, in_extended, start)
    } else {
        seq![(start, i)] + commands_from(b, i + 1, false, i + 1)
    }
}

/// The commands of a file.
pub open spec fn commands(b: Seq<u8>) -> Seq<(int, int)> {
    commands_from(b, 0, false, 0)
}

/// How many whitespace bytes lead the command text from `j` to `e`.
pub open spec fn lead_from(b: Seq<u8>, j: int, e: int) -> int
    decreases e + 1 - j,
{
    if j > e || j < 0 || j >= b.len() || !ascii_ws(b[j]) {
        0
    } else {
        1 + lead_from(b, j + 1, e)
    }
}

/// What follows a legacy code at the start of a command's text, when that is
/// the closing `*` or a `D` code.
pub open spec fn legacy_suffix(t: Seq<u8>, code: Seq<u8>) -> Option<Seq<u8>> {
    if t.len() >= code.len() && t.subrange(0, code.len() as int) == code {
        let s = t.subrange(code.len() as int, t.len() as int);
        if s == star() || (s.len() > 0 && s[0] == 68u8) {
            Some(s)
        } else {
            None
        }
    } else {
        None
    }
}

/// A legacy command with nothing after its code becomes `comment`; one with
/// a `D` code keeps that code alone.
pub open spec fn plain_replacement(suffix: Seq<u8>, comment: Seq<u8>) -> Seq<u8> {
    if suffix == star() {
        comment
    } else {
        suffix
    }
}

/// A legacy unit command: as `plain_replacement` when the file declares the
/// unit in extended form already; else the extended code, followed on its own
/// line by the `D` code it carried.
pub open spec fn unit_replacement(suffix: Seq<u8>, code: Seq<u8>, declared: bool, comment: Seq<u8>) -> Seq<u8> {
    if declared {
        plain_replacement(suffix, comment)
    } else if suffix == star() {
        code
    } else {
        code + seq![10u8] + suffix
    }
}

/// What a command's text becomes, if it is a legacy command.
pub open spec fn replacement(t: Seq<u8>, metric: bool, inch: bool) -> Option<Seq<u8>> {
    match legacy_suffix(t, g_code(57, 48)) {
        Some(s) => Some(plain_replacement(s, absolute_comment())),
        None => match legacy_suffix(t, g_code(55, 48)) {
            Some(s) => Some(unit_replacement(s, inch_code(), inch, inch_comment())),
            None => match legacy_suffix(t, g_code(55, 49)) {
                Some(s) => Some(unit_replacement(s, metric_code(), metric, metric_comment())),
                None => None,
            },
        },
    }
}

/// The verdict on one command's text: the unsupported feature it uses, or
/// its replacement if it has one.
pub open spec fn command_verdict(t: Seq<u8>, metric: bool, inch: bool) -> Result<Option<Seq<u8>>, Seq<char>> {
    if legacy_suffix(t, g_code(57, 49)) is Some {
        Err("incremental coordinates"@)
    } else if (legacy_suffix(t, g_code(55, 48)) is Some && metric) || (legacy_suffix(t, g_code(55, 49)) is Some
        && inch) {
        Err("conflicting legacy and extended units"@)
    } else {
        Ok(replacement(t, metric, inch))
    }
}

/// The text of command `c`: from its first non-whitespace byte to its `*`.
pub open spec fn command_text(b: Seq<u8>, c: (int, int)) -> Seq<u8> {
    b.subrange(c.0 + lead_from(b, c.0, c.1), c.1 + 1)
}

/// The file from `copied` on, with the commands from the `k`th on rewritten;
/// or the first unsupported feature among them.
pub open spec fn rewritten_from(
    b: Seq<u8>,
    cs: Seq<(int, int)>,
    k: int,
    copied: int,
    metric: bool,
    inch: bool,
) -> Result<Seq<u8>, Seq<char>>
    decreases cs.len() - k,
{
    if k < 0 || k >= cs.len() {
        Ok(b.subrange(copied, b.len() as int))
    } else {
        let c = cs[k];
        match command_verdict(command_text(b, c), metric, inch) {
            Err(f) => Err(f),
            Ok(None) => rewritten_from(b, cs, k + 1, copied, metric, inch),
            Ok(Some(rep)) => match rewritten_from(b, cs, k + 1, c.1 + 1, metric, inch) {
                Ok(rest) => Ok(b.subrange(copied, c.0 + lead_from(b, c.0, c.1)) + rep + rest),
                Err(f) => Err(f),
            },
        }
    }
}

/// The file with every legacy command rewritten, or the first unsupported
/// feature it uses.
pub open spec fn legacy_rewrite(b: Seq<u8>) -> Result<Seq<u8>, Seq<char>> {
    rewritten_from(b, commands(b), 0, 0, has_window(b, metric_declaration()), has_window(b, inch_declaration()))
}

/// `p` followed by what `r` gives, or `r`'s failure.
pub open spec fn after(p: Seq<u8>, r: Result<Seq<u8>, Seq<char>>) -> Result<Seq<u8>, Seq<char>> {
    match r {
        Ok(x) => Ok(p + x),
        Err(f) => Err(f),
    }
}

proof fn lemma_after_after(p: Seq<u8>, q: Seq<u8>, r: Result<Seq<u8>, Seq<char>>)
    ensures
        after(p, after(q, r)) == after(p + q, r),
{
    match r {
        Ok(x) => {
            assert(p + (q + x) =~= (p + q) + x);
        },
        Err(_) => {},
    }
}

fn bytes_at(b: &[u8], i: usize, p: &[u8]) -> (r: bool)
    ensures
        r == (i + p@.len() <= b@.len() && b@.subrange(i as int, i + p@.len()) == p@),
{
    if i > b.len() || p.len() > b.len() - i {
        return false;
    }
    let mut k: usize = 0;
    while k < p.len()
        invariant
            k <= p@.len(),
            i + p@.len() <= b@.len(),
            i + p.len() <= b.len(),
            forall|m: int| 0 <= m < k ==> b@[i + m] == p@[m],
        decreases p.len() - k,
    {
        assert(i + k < b@.len());
        if b[i + k] != p[k] {
            assert(b@.subrange(i as int, i + p@.len())[k as int] != p@[k as int]);
            return false;
        }
        k = k + 1;
    }
    assert(b@.subrange(i as int, i + p@.len()) =~= p@);
    true
}

fn contains_window(b: &[u8], p: &[u8]) -> (r: bool)
    ensures
        r == has_window(b@, p@),
{
    let mut i: usize = 0;
    while i < b.len()
        invariant
            i <= b@.len(),
            forall|j: int| 0 <= j < i ==> !(j + p@.len() <= b@.len() && #[trigger] b@.subrange(j, j + p@.len()) == p@),
        decreases b.len() - i,
    {
        if bytes_at(b, i, p) {
            return true;
        }
        i = i + 1;
    }
    if bytes_at(b, b.len(), p) {
        return true;
    }
    assert forall|j: int| 0 <= j && j + p@.len() <= b@.len() implies #[trigger] b@.subrange(j, j + p@.len()) != p@ by {
        assert(j <= i);
    }
    false
}

fn is_ascii_ws(c: u8) -> (r: bool)
    ensures
        r == ascii_ws(c),
{
    c == 32 || c == 9 || c == 10 || c == 12 || c == 13
}

/// Where the suffix after the legacy code `G<d1><d2>` starts in the command
/// text `b[from..to]`, when that code stands there with an allowed suffix.
fn suffix_after(b: &[u8], from: usize, to: usize, d1: u8, d2: u8) -> (r: bool)
    requires
        from <= to <= b@.len(),
    ensures
        r == (legacy_suffix(b@.subrange(from as int, to as int), g_code(d1, d2)) is Some),
        r ==> legacy_suffix(b@.subrange(from as int, to as int), g_code(d1, d2)) == Some(
            b@.subrange(from + 3, to as int),
        ),
{
    let ghost t = b@.subrange(from as int, to as int);
    if to - from < 3 || b[from] != 71 || b[from + 1] != d1 || b[from + 2] != d2 {
        proof {
            if t.len() >= 3 && t.subrange(0, 3) == g_code(d1, d2) {
                assert(t.subrange(0, 3)[0] == 71u8);
                assert(t.subrange(0, 3)[1] == d1);
                assert(t.subrange(0, 3)[2] == d2);
            }
        }
        return false;
    }
    assert(t.subrange(0, 3) =~= g_code(d1, d2));
    let ghost s = t.subrange(3, t.len() as int);
    assert(s =~= b@.subrange(from + 3, to as int));
    let is_star = to - from == 4 && b[from + 3] == 42;
    let is_d = to - from > 3 && b[from + 3] == 68;
    proof {
        if is_star {
            assert(s =~= star());
        }
        if s == star() {
            assert(s[0] == 42u8);
        }
    }
    is_star || is_d
}

fn push_range(out: &mut Vec<u8>, b: &[u8], from: usize, to: usize)
    requires
        from <= to <= b@.len(),
    ensures
        final(out)@ == old(out)@ + b@.subrange(from as int, to as int),
{
    let ghost start = out@;
    let mut k: usize = from;
    while k < to
        invariant
            from <= k <= to,
            to <= b@.len(),
            out@ == start + b@.subrange(from as int, k as int),
        decreases to - k,
    {
        out.push(b[k]);
        assert(b@.subrange(from as int, k + 1) =~= b@.subrange(from as int, k as int).push(b@[k as int]));
        k = k + 1;
    }
}

fn push_all(out: &mut Vec<u8>, p: &[u8])
    ensures
        final(out)@ == old(out)@ + p@,
{
    push_range(out, p, 0, p.len());
    assert(p@.subrange(0, p@.len() as int) =~= p@);
}

/// Appends what the command text `b[from..to]` becomes, given that it is
/// the legacy command `G<d1><d2>` with an allowed suffix.
fn push_plain(out: &mut Vec<u8>, b: &[u8], from: usize, to: usize, comment: &[u8])
    requires
        from + 3 <= to <= b@.len(),
    ensures
        final(out)@ == old(out)@ + plain_replacement(b@.subrange(from + 3, to as int), comment@),
{
    let ghost s = b@.subrange(from + 3, to as int);
    if to - from == 4 && b[from + 3] == 42 {
        assert(s =~= star());
        push_all(out, comment);
    } else {
        proof {
            if s == star() {
                assert(s[0] == 42u8);
            }
        }
        push_range(out, b, from + 3, to);
    }
}

fn push_unit(out: &mut Vec<u8>, b: &[u8], from: usize, to: usize, code: &[u8], declared: bool, comment: &[u8])
    requires
        from + 3 <= to <= b@.len(),
    ensures
        final(out)@ == old(out)@ + unit_replacement(b@.subrange(from + 3, to as int), code@, declared, comment@),
{
    let ghost s = b@.subrange(from + 3, to as int);
    if declared {
        push_plain(out, b, from, to, comment);
        return;
    }
    push_all(out, code);
    if to - from == 4 && b[from + 3] == 42 {
        assert(s =~= star());
    } else {
        proof {
            if s == star() {
                assert(s[0] == 42u8);
            }
        }
        let ghost mid = out@;
        out.push(10u8);
        push_range(out, b, from + 3, to);
        assert(out@ =~= mid + seq![10u8] + s);
    }
}

/// Rewrites the legacy unit and coordinate-mode commands of a Gerber file,
/// as the module's documentation says; refuses incremental coordinates and a
/// legacy unit that contradicts the file's extended one.
pub fn normalize_legacy_coordinate_commands(source_name: &str, bytes: &[u8]) -> (r: Result<Vec<u8>, PcbError>)
    ensures
        match legacy_rewrite(bytes@) {
            Ok(o) => r matches Ok(v) && v@ == o,
            Err(f) => r matches Err(PcbError::UnsupportedGerberFeature(n, m)) && n@ == source_name@ && m@ == f,
        },
{
    let ghost b = bytes@;
    let metric = contains_window(bytes, "%MOMM".as_bytes());
    let inch = contains_window(bytes, "%MOIN".as_bytes());
    let ghost all = commands(b);
    let mut out: Vec<u8> = Vec::new();
    let mut copied: usize = 0;
    let mut start: usize = 0;
    let mut in_extended = false;
    let mut i: usize = 0;
    let ghost mut k: int = 0;
    while i < bytes.len()
        invariant
            b == bytes@,
            i <= b.len(),
            copied <= start <= i,
            metric == has_window(b, metric_declaration()),
            inch == has_window(b, inch_declaration()),
            all == commands(b),
            0 <= k <= all.len(),
            commands_from(b, i as int, in_extended, start as int) == all.skip(k),
            legacy_rewrite(b) == after(out@, rewritten_from(b, all, k, copied as int, metric, inch)),
        decreases bytes.len() - i,
    {
        let byte = bytes[i];
        if byte == 37 {
            if in_extended {
                in_extended = false;
                start = i + 1;
            } else {
                in_extended = true;
            }
            i = i + 1;
            continue;
        }
        if in_extended || byte != 42 {
            i = i + 1;
            continue;
        }
        proof {
            assert(all.skip(k) == seq![(start as int, i as int)] + commands_from(b, i + 1, false, i + 1));
            assert(all.skip(k).len() > 0);
            assert(all.skip(k)[0] == all[k]);
            assert(all[k] == (start as int, i as int));
            assert(all.skip(k + 1) =~= all.skip(k).drop_first());
        }
        let mut lead_end: usize = start;
        while lead_end < i && is_ascii_ws(bytes[lead_end])
            invariant
                b == bytes@,
                start <= lead_end <= i,
                i < b.len(),
                b[i as int] == 42u8,
                lead_from(b, start as int, i as int) == (lead_end - start) + lead_from(b, lead_end as int, i as int),
            decreases i - lead_end,
        {
            lead_end = lead_end + 1;
        }
        let ghost t = b.subrange(lead_end as int, i + 1);
        assert(lead_from(b, lead_end as int, i as int) == 0);
        assert(command_text(b, (start as int, i as int)) == t);
        let to = i + 1;
        if suffix_after(bytes, lead_end, to, 57, 49) {
            return Err(PcbError::UnsupportedGerberFeature(source_name.to_owned(), "incremental coordinates".to_owned()));
        }
        let g70 = suffix_after(bytes, lead_end, to, 55, 48);
        let g71 = suffix_after(bytes, lead_end, to, 55, 49);
        if (g70 && metric) || (g71 && inch) {
            return Err(
                PcbError::UnsupportedGerberFeature(
                    source_name.to_owned(),
                    "conflicting legacy and extended units".to_owned(),
                ),
            );
        }
        let g90 = suffix_after(bytes, lead_end, to, 57, 48);
        if g90 || g70 || g71 {
            let ghost before = out@;
            push_range(&mut out, bytes, copied, lead_end);
            let ghost kept = out@;
            if g90 {
                push_plain(&mut out, bytes, lead_end, to, "G04 Millo accepted legacy G90 absolute mode*".as_bytes());
            } else if g70 {
                push_unit(
                    &mut out,
                    bytes,
                    lead_end,
                    to,
                    "%MOIN*%".as_bytes(),
                    inch,
                    "G04 Millo accepted legacy G70 inch mode*".as_bytes(),
                );
            } else {
                push_unit(
                    &mut out,
                    bytes,
                    lead_end,
                    to,
                    "%MOMM*%".as_bytes(),
                    metric,
                    "G04 Millo accepted legacy G71 metric mode*".as_bytes(),
                );
            }
            proof {
                let rep = replacement(t, metric, inch);
                assert(rep is Some);
                assert(out@ == kept + rep.unwrap());
                assert(kept == before + b.subrange(copied as int, lead_end as int));
                assert(command_verdict(t, metric, inch) == Ok::<Option<Seq<u8>>, Seq<char>>(rep));
                assert(rewritten_from(b, all, k, copied as int, metric, inch) == after(
                    b.subrange(copied as int, lead_end as int) + rep.unwrap(),
                    rewritten_from(b, all, k + 1, to as int, metric, inch),
                ));
                lemma_after_after(before, b.subrange(copied as int, lead_end as int) + rep.unwrap(), rewritten_from(b, all, k + 1, to as int, metric, inch));
                assert(before + (b.subrange(copied as int, lead_end as int) + rep.unwrap()) =~= out@);
            }
            copied = to;
        } else {
            proof {
                assert(replacement(t, metric, inch) is None);
                assert(command_verdict(t, metric, inch) == Ok::<Option<Seq<u8>>, Seq<char>>(None));
                assert(rewritten_from(b, all, k, copied as int, metric, inch) == rewritten_from(b, all, k + 1, copied as int, metric, inch));
            }
        }
        start = to;
        i = to;
        proof {
            k = k + 1;
        }
    }
    proof {
        assert(commands_from(b, i as int, in_extended, start as int) =~= Seq::<(int, int)>::empty());
        assert(all.skip(k).len() == 0);
    }
    push_range(&mut out, bytes, copied, bytes.len());
    Ok(out)
}


proof fn lemma_unchanged_from(b: Seq<u8>, cs: Seq<(int, int)>, k: int, copied: int, metric: bool, inch: bool)
    requires
        0 <= k,
        0 <= copied <= b.len(),
        forall|j: int|
            k <= j < cs.len() ==> command_verdict(#[trigger] command_text(b, cs[j]), metric, inch) == Ok::<
                Option<Seq<u8>>,
                Seq<char>,
            >(None),
    ensures
        rewritten_from(b, cs, k, copied, metric, inch) == Ok::<Seq<u8>, Seq<char>>(b.subrange(copied, b.len() as int)),
    decreases cs.len() - k,
{
    if k < cs.len() {
        assert(command_verdict(command_text(b, cs[k]), metric, inch) == Ok::<Option<Seq<u8>>, Seq<char>>(None));
        lemma_unchanged_from(b, cs, k + 1, copied, metric, inch);
    }
}

/// A file whose commands are neither legacy nor unsupported comes through
/// byte for byte.
pub proof fn lemma_files_without_legacy_commands_are_unchanged(b: Seq<u8>)
    requires
        forall|j: int|
            0 <= j < commands(b).len() ==> command_verdict(
                #[trigger] command_text(b, commands(b)[j]),
                has_window(b, metric_declaration()),
                has_window(b, inch_declaration()),
            ) == Ok::<Option<Seq<u8>>, Seq<char>>(None),
    ensures
        legacy_rewrite(b) == Ok::<Seq<u8>, Seq<char>>(b),
{
    lemma_unchanged_from(
        b,
        commands(b),
        0,
        0,
        has_window(b, metric_declaration()),
        has_window(b, inch_declaration()),
    );
    assert(b.subrange(0, b.len() as int) =~= b);
}

} // verus!
