//! The character-level stages of reading one G-code line: checksum,
//! comments, the optional-block mark and the split into words.
//!
//! Each stage returns what it kept together with the diagnostics it raised,
//! in the order the stages raise them.
use vstd::prelude::*;

use crate::program::{ProgramWarning, ProgramWarningCode, ProgramWarningSeverity};
use crate::text::{
    char_is_ws, chars_of, is_ascii_alpha, is_ascii_digit, is_ws, push_chars,
    push_str, slice_chars, string_from_chars, to_upper, trim, trim_chars, upper,
};

verus! {

/// A diagnostic as the specification sees it.
pub struct WarningV {
    pub source_line: usize,
    pub severity: ProgramWarningSeverity,
    pub code: ProgramWarningCode,
    pub message: Seq<char>,
}

pub open spec fn warning_view(w: ProgramWarning) -> WarningV {
    WarningV { source_line: w.source_line, severity: w.severity, code: w.code, message: w.message@ }
}

pub open spec fn warnings_view(v: Seq<ProgramWarning>) -> Seq<WarningV> {
    v.map_values(|w: ProgramWarning| warning_view(w))
}

pub open spec fn warn(
    source_line: usize,
    severity: ProgramWarningSeverity,
    code: ProgramWarningCode,
    message: Seq<char>,
) -> WarningV {
    WarningV { source_line, severity, code, message }
}

fn make_warning(
    source_line: usize,
    severity: ProgramWarningSeverity,
    code: ProgramWarningCode,
    message: Vec<char>,
) -> (w: ProgramWarning)
    ensures
        warning_view(w) == warn(source_line, severity, code, message@),
{
    ProgramWarning { source_line, severity, code, message: string_from_chars(message.as_slice()) }
}

fn push_warning(
    out: &mut Vec<ProgramWarning>,
    source_line: usize,
    severity: ProgramWarningSeverity,
    code: ProgramWarningCode,
    message: Vec<char>,
)
    ensures
        warnings_view(final(out)@) == warnings_view(old(out)@).push(
            warn(source_line, severity, code, message@),
        ),
{
    let ghost before = out@;
    out.push(make_warning(source_line, severity, code, message));
    assert(warnings_view(out@) =~= warnings_view(before).push(
        warn(source_line, severity, code, message@),
    ));
}

// ---------------------------------------------------------------------------
// Checksum
// ---------------------------------------------------------------------------

/// Where the scan for a `*` separator ended.
pub enum SeparatorScan {
    /// The scan reached the end or a `;` comment; the separator, if one was seen.
    Done(Option<nat>),
    /// A second separator followed the first, which stands at the index.
    Twice(nat),
}

/// Scans for `*` outside parenthesized comments, stopping at a `;` comment.
pub open spec fn separator_scan(s: Seq<char>, i: nat, in_comment: bool, sep: Option<nat>) -> SeparatorScan
    decreases s.len() - i,
{
    if i >= s.len() {
        SeparatorScan::Done(sep)
    } else {
        let c = s[i as int];
        if c == ';' && !in_comment {
            SeparatorScan::Done(sep)
        } else if c == '(' && !in_comment {
            separator_scan(s, i + 1, true, sep)
        } else if c == ')' && in_comment {
            separator_scan(s, i + 1, false, sep)
        } else if c == '*' && !in_comment {
            match sep {
                Some(p) => SeparatorScan::Twice(p),
                None => separator_scan(s, i + 1, false, Some(i)),
            }
        } else {
            separator_scan(s, i + 1, in_comment, sep)
        }
    }
}

pub open spec fn msg_checksum_unsupported() -> Seq<char> {
    "'*' block checksums are not supported; the block is refused"@
}

/// The code before a `*` checksum separator, the checksum (never kept), and
/// the diagnostics: a block that carries a `*` outside comments fails closed
/// with a `ChecksumUnsupported` error, and only the code before the first
/// separator is read on.
pub open spec fn checksum_of(s: Seq<char>, source_line: usize) -> (Seq<char>, Option<u8>, Seq<WarningV>) {
    match separator_scan(s, 0, false, None) {
        SeparatorScan::Done(None) => (s, None, Seq::empty()),
        SeparatorScan::Twice(p) => (s.take(p as int), None, seq![checksum_refusal(source_line)]),
        SeparatorScan::Done(Some(p)) => (s.take(p as int), None, seq![checksum_refusal(source_line)]),
    }
}

pub open spec fn checksum_refusal(source_line: usize) -> WarningV {
    warn(
        source_line,
        ProgramWarningSeverity::Error,
        ProgramWarningCode::ChecksumUnsupported,
        msg_checksum_unsupported(),
    )
}

/// Refuses a `*` checksum: the code before the first separator, no
/// checksum, and a `ChecksumUnsupported` error.
pub fn validate_checksum(
    source: &[char],
    source_line: usize,
    warnings: &mut Vec<ProgramWarning>,
) -> (r: (Vec<char>, Option<u8>))
    ensures
        ({
            let (payload, checksum, ws) = checksum_of(source@, source_line);
            &&& r.0@ == payload
            &&& r.1 == checksum
            &&& warnings_view(final(warnings)@) == warnings_view(old(warnings)@) + ws
        }),
{
    let mut in_comment = false;
    let mut sep: Option<usize> = None;
    let mut i: usize = 0;
    let mut stopped = false;
    while i < source.len()
        invariant
            i <= source.len(),
            sep matches Some(p) ==> p < i,
            separator_scan(source@, 0, false, None) == separator_scan(
                source@,
                i as nat,
                in_comment,
                match sep {
                    Some(p) => Some(p as nat),
                    None => None,
                },
            ),
            warnings@ == old(warnings)@,
        ensures
            sep matches Some(p) ==> p < source.len(),
            separator_scan(source@, 0, false, None) == SeparatorScan::Done(
                match sep {
                    Some(p) => Some(p as nat),
                    None => None,
                },
            ),
            warnings@ == old(warnings)@,
        decreases source.len() - i,
    {
        let c = source[i];
        if c == ';' && !in_comment {
            break;
        } else if c == '(' && !in_comment {
            in_comment = true;
        } else if c == ')' && in_comment {
            in_comment = false;
        } else if c == '*' && !in_comment {
            match sep {
                Some(p) => {
                    push_checksum_refusal(warnings, source_line);
                    let payload = slice_chars(source, 0, p);
                    assert(payload@ =~= source@.take(p as int));
                    return (payload, None);
                },
                None => {
                    sep = Some(i);
                },
            }
        }
        i = i + 1;
    }
    let p = match sep {
        None => {
            let whole = slice_chars(source, 0, source.len());
            assert(whole@ =~= source@);
            assert(warnings_view(warnings@) =~= warnings_view(old(warnings)@) + Seq::<WarningV>::empty());
            return (whole, None);
        },
        Some(p) => p,
    };
    let payload = slice_chars(source, 0, p);
    assert(payload@ =~= source@.take(p as int));
    push_checksum_refusal(warnings, source_line);
    (payload, None)
}

fn push_checksum_refusal(warnings: &mut Vec<ProgramWarning>, source_line: usize)
    ensures
        warnings_view(final(warnings)@) == warnings_view(old(warnings)@).push(checksum_refusal(source_line)),
{
    let mut msg: Vec<char> = Vec::new();
    push_str(&mut msg, "'*' block checksums are not supported; the block is refused");
    push_warning(
        warnings,
        source_line,
        ProgramWarningSeverity::Error,
        ProgramWarningCode::ChecksumUnsupported,
        msg,
    );
}


// ---------------------------------------------------------------------------
// Comments
// ---------------------------------------------------------------------------

pub open spec fn msg_unexpected_close() -> Seq<char> {
    "unexpected ')' outside a comment"@
}

pub open spec fn msg_unclosed() -> Seq<char> {
    "parenthesized comment is not closed"@
}

/// Removes `( ... )` comments and everything after a `;`, from index `i` on.
pub open spec fn comments_from(
    s: Seq<char>,
    i: nat,
    in_comment: bool,
    out: Seq<char>,
    ws: Seq<WarningV>,
    source_line: usize,
) -> (Seq<char>, Seq<WarningV>)
    decreases s.len() - i,
{
    if i >= s.len() {
        (
            out,
            if in_comment {
                ws.push(
                    warn(
                        source_line,
                        ProgramWarningSeverity::Error,
                        ProgramWarningCode::UnclosedComment,
                        msg_unclosed(),
                    ),
                )
            } else {
                ws
            },
        )
    } else {
        let c = s[i as int];
        if c == ';' && !in_comment {
            (out, ws)
        } else if c == '(' && !in_comment {
            comments_from(s, i + 1, true, out, ws, source_line)
        } else if c == ')' && in_comment {
            comments_from(s, i + 1, false, out, ws, source_line)
        } else if c == ')' {
            comments_from(
                s,
                i + 1,
                in_comment,
                out,
                ws.push(
                    warn(
                        source_line,
                        ProgramWarningSeverity::Warning,
                        ProgramWarningCode::UnexpectedCommentClose,
                        msg_unexpected_close(),
                    ),
                ),
                source_line,
            )
        } else if !in_comment {
            comments_from(s, i + 1, in_comment, out.push(c), ws, source_line)
        } else {
            comments_from(s, i + 1, in_comment, out, ws, source_line)
        }
    }
}

/// The code without comments, and the diagnostics that stripping raised.
pub open spec fn comments_of(s: Seq<char>, source_line: usize) -> (Seq<char>, Seq<WarningV>) {
    comments_from(s, 0, false, Seq::empty(), Seq::empty(), source_line)
}

/// Removes comments: `( ... )` pairs and everything after a `;` outside them.
pub fn strip_comments(
    source: &[char],
    source_line: usize,
    warnings: &mut Vec<ProgramWarning>,
) -> (r: Vec<char>)
    ensures
        r@ == comments_of(source@, source_line).0,
        warnings_view(final(warnings)@) == warnings_view(old(warnings)@) + comments_of(
            source@,
            source_line,
        ).1,
{
    let mut out: Vec<char> = Vec::new();
    let mut in_comment = false;
    let mut i: usize = 0;
    let ghost base = warnings_view(warnings@);
    assert(base + Seq::<WarningV>::empty() =~= base);
    assert(warnings_view(warnings@).skip(base.len() as int) =~= Seq::<WarningV>::empty());
    assert(out@ =~= Seq::<char>::empty());
    assert(warnings_view(warnings@).take(base.len() as int) =~= base);
    while i < source.len()
        invariant
            i <= source.len(),
            base == warnings_view(old(warnings)@),
            warnings_view(warnings@).len() >= base.len(),
            warnings_view(warnings@).take(base.len() as int) == base,
            comments_of(source@, source_line) == comments_from(
                source@,
                i as nat,
                in_comment,
                out@,
                warnings_view(warnings@).skip(base.len() as int),
                source_line,
            ),
        decreases source.len() - i,
    {
        let c = source[i];
        let ghost ws_before = warnings_view(warnings@);
        if c == ';' && !in_comment {
            assert(ws_before =~= base + ws_before.skip(base.len() as int));
            return out;
        } else if c == '(' && !in_comment {
            in_comment = true;
        } else if c == ')' && in_comment {
            in_comment = false;
        } else if c == ')' {
            let mut msg: Vec<char> = Vec::new();
            push_str(&mut msg, "unexpected ')' outside a comment");
            push_warning(
                warnings,
                source_line,
                ProgramWarningSeverity::Warning,
                ProgramWarningCode::UnexpectedCommentClose,
                msg,
            );
            assert(warnings_view(warnings@).skip(base.len() as int) =~= ws_before.skip(
                base.len() as int,
            ).push(
                warn(
                    source_line,
                    ProgramWarningSeverity::Warning,
                    ProgramWarningCode::UnexpectedCommentClose,
                    msg_unexpected_close(),
                ),
            ));
            assert(warnings_view(warnings@).take(base.len() as int) =~= base);
        } else if !in_comment {
            out.push(c);
        }
        i = i + 1;
    }
    let ghost ws_end = warnings_view(warnings@);
    if in_comment {
        let mut msg: Vec<char> = Vec::new();
        push_str(&mut msg, "parenthesized comment is not closed");
        push_warning(
            warnings,
            source_line,
            ProgramWarningSeverity::Error,
            ProgramWarningCode::UnclosedComment,
            msg,
        );
        assert(warnings_view(warnings@) =~= base + ws_end.skip(base.len() as int).push(
            warn(
                source_line,
                ProgramWarningSeverity::Error,
                ProgramWarningCode::UnclosedComment,
                msg_unclosed(),
            ),
        ));
    } else {
        assert(ws_end =~= base + ws_end.skip(base.len() as int));
    }
    out
}

// ---------------------------------------------------------------------------
// Optional block
// ---------------------------------------------------------------------------

/// Index of the first character that is not whitespace, or the length.
pub open spec fn first_non_ws(s: Seq<char>) -> nat
    decreases s.len(),
{
    if s.len() == 0 {
        0
    } else if !is_ws(s[0]) {
        0
    } else {
        1 + first_non_ws(s.drop_first())
    }
}

pub open spec fn msg_optional_block() -> Seq<char> {
    "optional block is preserved for the Block Delete run option"@
}

/// A leading `/` marks an optional block; it is removed and reported.
pub open spec fn optional_block_of(code: Seq<char>, source_line: usize) -> (Seq<char>, bool, Seq<WarningV>) {
    let k = first_non_ws(code);
    if k < code.len() && code[k as int] == '/' {
        (
            code.take(k as int) + code.skip(k as int + 1),
            true,
            seq![
                warn(
                    source_line,
                    ProgramWarningSeverity::Warning,
                    ProgramWarningCode::OptionalBlock,
                    msg_optional_block(),
                ),
            ],
        )
    } else {
        (code, false, Seq::empty())
    }
}

/// Removes a leading `/` block-delete mark.
pub fn strip_optional_block(
    code: &[char],
    source_line: usize,
    warnings: &mut Vec<ProgramWarning>,
) -> (r: (Vec<char>, bool))
    ensures
        ({
            let (kept, optional, ws) = optional_block_of(code@, source_line);
            &&& r.0@ == kept
            &&& r.1 == optional
            &&& warnings_view(final(warnings)@) == warnings_view(old(warnings)@) + ws
        }),
{
    let mut k: usize = 0;
    assert(code@.skip(0) =~= code@);
    while k < code.len() && char_is_ws(code[k])
        invariant
            k <= code.len(),
            first_non_ws(code@) == k + first_non_ws(code@.skip(k as int)),
        decreases code.len() - k,
    {
        assert(code@.skip(k as int).drop_first() =~= code@.skip(k + 1));
        k = k + 1;
    }
    assert(first_non_ws(code@) == k);
    if k < code.len() && code[k] == '/' {
        let mut msg: Vec<char> = Vec::new();
        push_str(&mut msg, "optional block is preserved for the Block Delete run option");
        push_warning(
            warnings,
            source_line,
            ProgramWarningSeverity::Warning,
            ProgramWarningCode::OptionalBlock,
            msg,
        );
        let mut kept = slice_chars(code, 0, k);
        let tail = slice_chars(code, k + 1, code.len());
        push_chars(&mut kept, tail.as_slice());
        assert(kept@ =~= code@.take(k as int) + code@.skip(k as int + 1));
        (kept, true)
    } else {
        assert(warnings_view(warnings@) =~= warnings_view(old(warnings)@) + Seq::<WarningV>::empty());
        (slice_chars(code, 0, code.len()), false)
    }
}


// ---------------------------------------------------------------------------
// Words
// ---------------------------------------------------------------------------

/// A word as read (`letter` upper-cased, `number` exactly as written), or a diagnostic.
#[derive(Debug)]
pub enum Token {
    Word { letter: char, number: String },
    Diagnostic(ProgramWarning),
}

pub enum TokenV {
    Word { letter: char, number: Seq<char> },
    Diagnostic(WarningV),
}

pub open spec fn token_view(t: Token) -> TokenV {
    match t {
        Token::Word { letter, number } => TokenV::Word { letter, number: number@ },
        Token::Diagnostic(w) => TokenV::Diagnostic(warning_view(w)),
    }
}

pub open spec fn tokens_view(v: Seq<Token>) -> Seq<TokenV> {
    v.map_values(|t: Token| token_view(t))
}

/// End of a number's digits from `j`, at most one `.` among them, and whether a digit was seen.
pub open spec fn number_scan(s: Seq<char>, j: nat, dot_seen: bool) -> (nat, bool)
    decreases s.len() - j,
{
    if j >= s.len() {
        (j, false)
    } else if is_ascii_digit(s[j as int]) {
        (number_scan(s, j + 1, dot_seen).0, true)
    } else if s[j as int] == '.' && !dot_seen {
        number_scan(s, j + 1, true)
    } else {
        (j, false)
    }
}

pub proof fn lemma_number_scan_ge(s: Seq<char>, j: nat, dot_seen: bool)
    ensures
        number_scan(s, j, dot_seen).0 >= j,
        j <= s.len() ==> number_scan(s, j, dot_seen).0 <= s.len(),
    decreases s.len() - j,
{
    if j < s.len() {
        if is_ascii_digit(s[j as int]) {
            lemma_number_scan_ge(s, j + 1, dot_seen);
        } else if s[j as int] == '.' && !dot_seen {
            lemma_number_scan_ge(s, j + 1, true);
        }
    }
}

/// The first index at or after `j` that is not whitespace, or the length.
pub open spec fn skip_ws_from(s: Seq<char>, j: nat) -> nat
    decreases s.len() - j,
{
    if j >= s.len() || !is_ws(s[j as int]) {
        j
    } else {
        skip_ws_from(s, j + 1)
    }
}

pub proof fn lemma_skip_ws_ge(s: Seq<char>, j: nat)
    ensures
        skip_ws_from(s, j) >= j,
        j <= s.len() ==> skip_ws_from(s, j) <= s.len(),
    decreases s.len() - j,
{
    if j < s.len() && is_ws(s[j as int]) {
        lemma_skip_ws_ge(s, j + 1);
    }
}

pub open spec fn msg_slash() -> Seq<char> {
    "'/' is valid only as the first non-whitespace block character"@
}

pub open spec fn msg_star() -> Seq<char> {
    "'*' is valid only as one final checksum separator"@
}

pub open spec fn sign_end(s: Seq<char>, start: nat) -> nat {
    if start < s.len() && (s[start as int] == '+' || s[start as int] == '-') {
        start + 1
    } else {
        start
    }
}

/// Splits code into words from index `i` on: a letter, optional whitespace,
/// an optional sign, then digits with at most one point.
pub open spec fn lex_from(s: Seq<char>, i: nat, acc: Seq<TokenV>, source_line: usize) -> Seq<TokenV>
    decreases s.len() - i,
{
    if i >= s.len() {
        acc
    } else {
        let c = s[i as int];
        if is_ws(c) || c == '%' {
            lex_from(s, i + 1, acc, source_line)
        } else if c == '/' {
            lex_from(
                s,
                i + 1,
                acc.push(
                    TokenV::Diagnostic(
                        warn(
                            source_line,
                            ProgramWarningSeverity::Error,
                            ProgramWarningCode::OptionalBlockUnsupported,
                            msg_slash(),
                        ),
                    ),
                ),
                source_line,
            )
        } else if c == '*' {
            acc.push(
                TokenV::Diagnostic(
                    warn(
                        source_line,
                        ProgramWarningSeverity::Error,
                        ProgramWarningCode::ChecksumUnsupported,
                        msg_star(),
                    ),
                ),
            )
        } else if !is_ascii_alpha(c) {
            lex_from(
                s,
                i + 1,
                acc.push(
                    TokenV::Diagnostic(
                        warn(
                            source_line,
                            ProgramWarningSeverity::Error,
                            ProgramWarningCode::InvalidToken,
                            "unexpected token '"@ + seq![c] + "'"@,
                        ),
                    ),
                ),
                source_line,
            )
        } else {
            let letter = upper(c);
            let start = skip_ws_from(s, i + 1);
            let scanned = number_scan(s, sign_end(s, start), false);
            proof {
                lemma_skip_ws_ge(s, i + 1);
                lemma_number_scan_ge(s, sign_end(s, start), false);
            }
            if !scanned.1 {
                lex_from(
                    s,
                    scanned.0,
                    acc.push(
                        TokenV::Diagnostic(
                            warn(
                                source_line,
                                ProgramWarningSeverity::Error,
                                ProgramWarningCode::InvalidToken,
                                seq![letter] + " word has no numeric value"@,
                            ),
                        ),
                    ),
                    source_line,
                )
            } else {
                lex_from(
                    s,
                    scanned.0,
                    acc.push(
                        TokenV::Word { letter, number: s.subrange(start as int, scanned.0 as int) },
                    ),
                    source_line,
                )
            }
        }
    }
}

pub open spec fn lex(s: Seq<char>, source_line: usize) -> Seq<TokenV> {
    lex_from(s, 0, Seq::empty(), source_line)
}

fn scan_number(s: &[char], j: usize) -> (r: (usize, bool))
    requires
        j <= s.len(),
    ensures
        r.0 == number_scan(s@, j as nat, false).0,
        r.1 == number_scan(s@, j as nat, false).1,
        j <= r.0 <= s.len(),
{
    let mut k: usize = j;
    let mut dot = false;
    let mut digit = false;
    proof {
        lemma_number_scan_ge(s@, j as nat, false);
    }
    while k < s.len()
        invariant
            j <= k <= s.len(),
            number_scan(s@, j as nat, false).0 == number_scan(s@, k as nat, dot).0,
            number_scan(s@, j as nat, false).1 == (digit || number_scan(s@, k as nat, dot).1),
        ensures
            j <= k <= s.len(),
            number_scan(s@, j as nat, false).0 == k,
            number_scan(s@, j as nat, false).1 == digit,
        decreases s.len() - k,
    {
        let c = s[k];
        if '0' <= c && c <= '9' {
            digit = true;
        } else if c == '.' && !dot {
            dot = true;
        } else {
            break;
        }
        k = k + 1;
    }
    (k, digit)
}

fn diagnostic(source_line: usize, severity: ProgramWarningSeverity, code: ProgramWarningCode, message: Vec<char>) -> (t: Token)
    ensures
        token_view(t) == TokenV::Diagnostic(warn(source_line, severity, code, message@)),
{
    Token::Diagnostic(make_warning(source_line, severity, code, message))
}

/// Splits code into words and diagnostics, in reading order.
pub fn tokenize(code: &[char], source_line: usize) -> (r: Vec<Token>)
    ensures
        tokens_view(r@) == lex(code@, source_line),
{
    let mut out: Vec<Token> = Vec::new();
    let mut i: usize = 0;
    assert(tokens_view(out@) =~= Seq::<TokenV>::empty());
    while i < code.len()
        invariant
            i <= code.len(),
            lex(code@, source_line) == lex_from(code@, i as nat, tokens_view(out@), source_line),
        decreases code.len() - i,
    {
        let c = code[i];
        let ghost before = tokens_view(out@);
        if char_is_ws(c) || c == '%' {
            i = i + 1;
        } else if c == '/' {
            let mut msg: Vec<char> = Vec::new();
            push_str(&mut msg, "'/' is valid only as the first non-whitespace block character");
            out.push(
                diagnostic(
                    source_line,
                    ProgramWarningSeverity::Error,
                    ProgramWarningCode::OptionalBlockUnsupported,
                    msg,
                ),
            );
            assert(tokens_view(out@) =~= before.push(
                TokenV::Diagnostic(
                    warn(
                        source_line,
                        ProgramWarningSeverity::Error,
                        ProgramWarningCode::OptionalBlockUnsupported,
                        msg_slash(),
                    ),
                ),
            ));
            i = i + 1;
        } else if c == '*' {
            let mut msg: Vec<char> = Vec::new();
            push_str(&mut msg, "'*' is valid only as one final checksum separator");
            out.push(
                diagnostic(
                    source_line,
                    ProgramWarningSeverity::Error,
                    ProgramWarningCode::ChecksumUnsupported,
                    msg,
                ),
            );
            assert(tokens_view(out@) =~= before.push(
                TokenV::Diagnostic(
                    warn(
                        source_line,
                        ProgramWarningSeverity::Error,
                        ProgramWarningCode::ChecksumUnsupported,
                        msg_star(),
                    ),
                ),
            ));
            return out;
        } else if !(('a' <= c && c <= 'z') || ('A' <= c && c <= 'Z')) {
            let mut msg: Vec<char> = Vec::new();
            push_str(&mut msg, "unexpected token '");
            msg.push(c);
            push_str(&mut msg, "'");
            let ghost m = msg@;
            assert(m =~= "unexpected token '"@ + seq![c] + "'"@);
            out.push(
                diagnostic(source_line, ProgramWarningSeverity::Error, ProgramWarningCode::InvalidToken, msg),
            );
            assert(tokens_view(out@) =~= before.push(
                TokenV::Diagnostic(
                    warn(source_line, ProgramWarningSeverity::Error, ProgramWarningCode::InvalidToken, m),
                ),
            ));
            i = i + 1;
        } else {
            let letter = to_upper(c);
            let mut start: usize = i + 1;
            proof {
                lemma_skip_ws_ge(code@, (i + 1) as nat);
            }
            while start < code.len() && char_is_ws(code[start])
                invariant
                    i + 1 <= start <= code.len(),
                    skip_ws_from(code@, (i + 1) as nat) == skip_ws_from(code@, start as nat),
                decreases code.len() - start,
            {
                start = start + 1;
            }
            let j = if start < code.len() && (code[start] == '+' || code[start] == '-') {
                start + 1
            } else {
                start
            };
            assert(j == sign_end(code@, start as nat));
            let (end, any) = scan_number(code, j);
            if !any {
                let mut msg: Vec<char> = Vec::new();
                msg.push(letter);
                push_str(&mut msg, " word has no numeric value");
                let ghost m = msg@;
                assert(m =~= seq![letter] + " word has no numeric value"@);
                out.push(
                    diagnostic(source_line, ProgramWarningSeverity::Error, ProgramWarningCode::InvalidToken, msg),
                );
                assert(tokens_view(out@) =~= before.push(
                    TokenV::Diagnostic(
                        warn(source_line, ProgramWarningSeverity::Error, ProgramWarningCode::InvalidToken, m),
                    ),
                ));
            } else {
                let number = slice_chars(code, start, end);
                out.push(Token::Word { letter, number: string_from_chars(number.as_slice()) });
                assert(tokens_view(out@) =~= before.push(
                    TokenV::Word { letter, number: code@.subrange(start as int, end as int) },
                ));
            }
            i = end;
        }
    }
    out
}


// ---------------------------------------------------------------------------
// Lines
// ---------------------------------------------------------------------------

/// A line after the checksum, comment and optional-block stages, split into tokens.
#[derive(Debug)]
pub struct LexedLine {
    pub tokens: Vec<Token>,
    pub checksum: Option<u8>,
    pub optional_block: bool,
}

/// The code that reaches the tokenizer, the checksum, the optional-block mark,
/// and the diagnostics of the three stages in order.
pub open spec fn stages_of(source: Seq<char>, source_line: usize) -> (Seq<char>, Option<u8>, bool, Seq<WarningV>) {
    let (c1, checksum, w1) = checksum_of(source, source_line);
    let (c2, w2) = comments_of(c1, source_line);
    let (c3, optional, w3) = optional_block_of(c2, source_line);
    (c3, checksum, optional, w1 + w2 + w3)
}

/// The tokens of a line; a line that is only `%` has none.
pub open spec fn line_tokens(code: Seq<char>, source_line: usize) -> Seq<TokenV> {
    if trim(code) == "%"@ {
        Seq::empty()
    } else {
        lex(code, source_line)
    }
}

/// Runs the character stages on one source line.
pub fn lex_line(source: &str, source_line: usize, warnings: &mut Vec<ProgramWarning>) -> (r: LexedLine)
    ensures
        ({
            let (code, checksum, optional, ws) = stages_of(source@, source_line);
            &&& r.checksum == checksum
            &&& r.optional_block == optional
            &&& warnings_view(final(warnings)@) == warnings_view(old(warnings)@) + ws
            &&& tokens_view(r.tokens@) == line_tokens(code, source_line)
        }),
{
    let chars = chars_of(source);
    let ghost w0 = warnings_view(warnings@);
    let (c1, checksum) = validate_checksum(chars.as_slice(), source_line, warnings);
    let ghost w1 = warnings_view(warnings@);
    let c2 = strip_comments(c1.as_slice(), source_line, warnings);
    let ghost w2 = warnings_view(warnings@);
    let (c3, optional_block) = strip_optional_block(c2.as_slice(), source_line, warnings);
    proof {
        let (a, b, x) = checksum_of(source@, source_line);
        let (d, y) = comments_of(a, source_line);
        let (e, f, z) = optional_block_of(d, source_line);
        assert(warnings_view(warnings@) =~= w0 + (x + y + z));
    }
    let trimmed = trim_chars(c3.as_slice());
    let tokens = if crate::text::chars_eq_str(trimmed.as_slice(), "%") {
        let v: Vec<Token> = Vec::new();
        assert(tokens_view(v@) =~= Seq::<TokenV>::empty());
        v
    } else {
        tokenize(c3.as_slice(), source_line)
    };
    LexedLine { tokens, checksum, optional_block }
}

/// A word that passed the numeric range check.
#[derive(Debug)]
pub struct LexWord {
    pub letter: char,
    pub number: String,
}

pub open spec fn lexemes(ws: Seq<LexWord>) -> Seq<Seq<char>> {
    ws.map_values(|w: LexWord| seq![w.letter] + w.number@)
}

/// What the words of a line make of it.
#[derive(Debug)]
pub struct LineShape {
    /// The words, each as letter and number, joined by single spaces.
    pub normalized: String,
    /// A word other than `N` or `O` is present.
    pub executable: bool,
    /// The line is executable, optional, and Block Delete is on.
    pub block_deleted: bool,
    /// No rule of this stage made the preview incomplete.
    pub complete: bool,
}

pub open spec fn has_letter(ws: Seq<LexWord>, letter: char) -> bool {
    exists|i: int| 0 <= i < ws.len() && (#[trigger] ws[i]).letter == letter
}

pub open spec fn has_executable_word(ws: Seq<LexWord>) -> bool {
    exists|i: int| 0 <= i < ws.len() && (#[trigger] ws[i]).letter != 'N' && ws[i].letter != 'O'
}

pub open spec fn msg_checksum_needs_n() -> Seq<char> {
    "a checksummed block must begin with an N line number"@
}

pub open spec fn msg_program_number() -> Seq<char> {
    "O program numbers must be on a metadata-only line"@
}

/// A checksummed block must start with `N`; `O` must stand alone.
pub open spec fn shape_warnings(ws: Seq<LexWord>, checksum: Option<u8>, source_line: usize) -> Seq<WarningV> {
    (if checksum is Some && (ws.len() == 0 || ws[0].letter != 'N') {
        seq![
            warn(
                source_line,
                ProgramWarningSeverity::Error,
                ProgramWarningCode::ChecksumInvalid,
                msg_checksum_needs_n(),
            ),
        ]
    } else {
        Seq::empty()
    }) + (if has_letter(ws, 'O') && has_executable_word(ws) {
        seq![
            warn(
                source_line,
                ProgramWarningSeverity::Error,
                ProgramWarningCode::UnsupportedWord,
                msg_program_number(),
            ),
        ]
    } else {
        Seq::empty()
    })
}

/// Normalizes the words of a line and applies the line-level rules.
pub fn finish_line(
    words: &Vec<LexWord>,
    checksum: Option<u8>,
    optional_block: bool,
    block_delete: bool,
    source_line: usize,
    warnings: &mut Vec<ProgramWarning>,
) -> (r: LineShape)
    ensures
        r.normalized@ == crate::text::join(lexemes(words@), seq![' ']),
        r.executable == has_executable_word(words@),
        r.block_deleted == (r.executable && optional_block && block_delete),
        warnings_view(final(warnings)@) == warnings_view(old(warnings)@) + shape_warnings(
            words@,
            checksum,
            source_line,
        ),
        r.complete == (shape_warnings(words@, checksum, source_line).len() == 0),
{
    let ghost w0 = warnings_view(warnings@);
    let mut parts: Vec<Vec<char>> = Vec::new();
    let mut has_o = false;
    let mut executable = false;
    let mut i: usize = 0;
    while i < words.len()
        invariant
            i <= words.len(),
            crate::text::views(parts@) == lexemes(words@).take(i as int),
            has_o == has_letter(words@.take(i as int), 'O'),
            executable == has_executable_word(words@.take(i as int)),
        decreases words.len() - i,
    {
        let w = &words[i];
        let mut lexeme: Vec<char> = Vec::new();
        lexeme.push(w.letter);
        push_str(&mut lexeme, w.number.as_str());
        assert(lexeme@ =~= seq![w.letter] + w.number@);
        let ghost before = parts@;
        parts.push(lexeme);
        proof {
            assert(crate::text::views(parts@) =~= crate::text::views(before).push(
                seq![w.letter] + w.number@,
            ));
            assert(lexemes(words@).take(i + 1) =~= lexemes(words@).take(i as int).push(
                seq![w.letter] + w.number@,
            ));
            let t = words@.take(i as int);
            let t1 = words@.take(i + 1);
            assert(t1 =~= t.push(*w));
            if has_letter(t, 'O') {
                let k = choose|k: int| 0 <= k < t.len() && (#[trigger] t[k]).letter == 'O';
                assert(t1[k] == t[k]);
            }
            if has_executable_word(t) {
                let k = choose|k: int| 0 <= k < t.len() && (#[trigger] t[k]).letter != 'N' && t[k].letter != 'O';
                assert(t1[k] == t[k]);
            }
            if w.letter == 'O' {
                assert(t1[i as int].letter == 'O');
            }
            if w.letter != 'N' && w.letter != 'O' {
                assert(t1[i as int].letter != 'N');
            }
            if has_letter(t1, 'O') && w.letter != 'O' {
                let k = choose|k: int| 0 <= k < t1.len() && (#[trigger] t1[k]).letter == 'O';
                assert(k < i);
                assert(t[k] == t1[k]);
            }
            if has_executable_word(t1) && !(w.letter != 'N' && w.letter != 'O') {
                let k = choose|k: int| 0 <= k < t1.len() && (#[trigger] t1[k]).letter != 'N' && t1[k].letter != 'O';
                assert(k < i);
                assert(t[k] == t1[k]);
            }
        }
        if w.letter == 'O' {
            has_o = true;
        }
        if w.letter != 'N' && w.letter != 'O' {
            executable = true;
        }
        i = i + 1;
    }
    assert(words@.take(words.len() as int) =~= words@);
    assert(lexemes(words@).take(words.len() as int) =~= lexemes(words@));
    let normalized = crate::text::join_space(&parts);
    let mut complete = true;
    if checksum.is_some() && (words.len() == 0 || words[0].letter != 'N') {
        let mut msg: Vec<char> = Vec::new();
        push_str(&mut msg, "a checksummed block must begin with an N line number");
        push_warning(
            warnings,
            source_line,
            ProgramWarningSeverity::Error,
            ProgramWarningCode::ChecksumInvalid,
            msg,
        );
        complete = false;
    }
    let ghost w1 = warnings_view(warnings@);
    if has_o && executable {
        let mut msg: Vec<char> = Vec::new();
        push_str(&mut msg, "O program numbers must be on a metadata-only line");
        push_warning(
            warnings,
            source_line,
            ProgramWarningSeverity::Error,
            ProgramWarningCode::UnsupportedWord,
            msg,
        );
        complete = false;
    }
    assert(warnings_view(warnings@) =~= w0 + shape_warnings(words@, checksum, source_line));
    LineShape {
        normalized: string_from_chars(normalized.as_slice()),
        executable,
        block_deleted: executable && optional_block && block_delete,
        complete,
    }
}

} // verus!
