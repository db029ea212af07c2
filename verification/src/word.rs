//! G-code words: a letter followed by a decimal number.
//!
//! Word values are kept as exact decimals (sign, integer digits, fraction
//! digits) so that code tests such as "is this M3" are decided on the digits
//! themselves.
use vstd::prelude::*;

use crate::text::{all_digits, digits_value, is_ascii_digit, to_upper, upper};

verus! {

/// A decimal number `[+-]? digits [. digits]` kept digit by digit.
#[derive(Debug, PartialEq, Eq)]
pub struct Decimal {
    pub negative: bool,
    pub int_digits: Vec<char>,
    pub frac_digits: Vec<char>,
}

/// Mathematical view of a [`Decimal`].
pub struct DecimalV {
    pub negative: bool,
    pub int_digits: Seq<char>,
    pub frac_digits: Seq<char>,
}

impl View for Decimal {
    type V = DecimalV;

    open spec fn view(&self) -> DecimalV {
        DecimalV {
            negative: self.negative,
            int_digits: self.int_digits@,
            frac_digits: self.frac_digits@,
        }
    }
}

/// Index of the first `'.'` in `s`, or `s.len()`.
pub open spec fn dot_index(s: Seq<char>) -> nat
    decreases s.len(),
{
    if s.len() == 0 {
        0
    } else if s[0] == '.' {
        0
    } else {
        1 + dot_index(s.drop_first())
    }
}

/// Digits before the point.
pub open spec fn int_part(b: Seq<char>) -> Seq<char> {
    b.take(dot_index(b) as int)
}

/// Digits after the point (empty when there is no point).
pub open spec fn frac_part(b: Seq<char>) -> Seq<char> {
    if dot_index(b) < b.len() {
        b.skip(dot_index(b) as int + 1)
    } else {
        Seq::empty()
    }
}

/// Whether `s` starts with a sign character.
pub open spec fn has_sign(s: Seq<char>) -> bool {
    s.len() > 0 && (s[0] == '+' || s[0] == '-')
}

/// The unsigned body of a number.
pub open spec fn unsigned_body(s: Seq<char>) -> Seq<char> {
    if has_sign(s) {
        s.drop_first()
    } else {
        s
    }
}

/// The decimal that `s` spells, if it is `[+-]? digits [. digits]` with at least one digit.
pub open spec fn parse_decimal(s: Seq<char>) -> Option<DecimalV> {
    let b = unsigned_body(s);
    let ip = int_part(b);
    let fp = frac_part(b);
    if all_digits(ip) && all_digits(fp) && ip.len() + fp.len() >= 1 {
        Some(DecimalV { negative: has_sign(s) && s[0] == '-', int_digits: ip, frac_digits: fp })
    } else {
        None
    }
}

/// Splits a word into its upper-cased letter and numeric value.
pub open spec fn split_word(w: Seq<char>) -> Option<(char, DecimalV)> {
    if w.len() == 0 {
        None
    } else {
        match parse_decimal(w.drop_first()) {
            Some(d) => Some((upper(w[0]), d)),
            None => None,
        }
    }
}

pub open spec fn all_zero(s: Seq<char>) -> bool {
    forall|i: int| 0 <= i < s.len() ==> #[trigger] s[i] == '0'
}

/// The value equals the whole number `k`.
pub open spec fn dec_is(d: DecimalV, k: nat) -> bool {
    all_zero(d.frac_digits) && digits_value(d.int_digits) == k && (k == 0 || !d.negative)
}

/// The value lies in `[38, 39)`, the G38.x probing family.
pub open spec fn dec_in_probe_family(d: DecimalV) -> bool {
    !d.negative && digits_value(d.int_digits) == 38
}

/// The value is not zero.
pub open spec fn dec_nonzero(d: DecimalV) -> bool {
    !(digits_value(d.int_digits) == 0 && all_zero(d.frac_digits))
}

/// The value as a tool number: a whole number from 0 to 255.
pub open spec fn dec_tool(d: DecimalV) -> Option<u8> {
    let v = digits_value(d.int_digits);
    if all_zero(d.frac_digits) && v <= 255 && (!d.negative || v == 0) {
        Some(v as u8)
    } else {
        None
    }
}

/// Nine `'0'` characters.
pub open spec fn nine_zeros() -> Seq<char> {
    seq!['0', '0', '0', '0', '0', '0', '0', '0', '0']
}

/// The magnitude in billionths, cut after the ninth fraction digit.
pub open spec fn billionths(d: DecimalV) -> nat {
    digits_value(d.int_digits) * 1_000_000_000 + digits_value((d.frac_digits + nine_zeros()).take(9))
}

/// Some fraction digit after the ninth is not zero, so the magnitude lies
/// strictly above `billionths(d)` billionths.
pub open spec fn beyond_billionths(d: DecimalV) -> bool {
    d.frac_digits.len() > 9 && !all_zero(d.frac_digits.skip(9))
}

/// `|value - c / 10^9| < 1 / 10^9`. The magnitude is
/// `(billionths(d) + t) / 10^9` with `0 <= t < 1`, and `t > 0` exactly when
/// `beyond_billionths(d)`; a negative value is that close to `c >= 0` only
/// when `c` is zero and the magnitude is under one billionth.
pub open spec fn within_billionth(d: DecimalV, c: nat) -> bool {
    if d.negative {
        c == 0 && billionths(d) == 0
    } else {
        billionths(d) == c || (billionths(d) + 1 == c && beyond_billionths(d))
    }
}

/// The value is the code `k`: it lies within one billionth of `k`.
#[verifier::opaque]
pub open spec fn dec_code(d: DecimalV, k: nat) -> bool {
    within_billionth(d, k * 1_000_000_000)
}

/// The word is the code `letter` `k`, e.g. `M3`: its value lies within one
/// billionth of `k`.
pub open spec fn word_is(w: Seq<char>, letter: char, k: nat) -> bool {
    match split_word(w) {
        Some((l, d)) => l == letter && dec_code(d, k),
        None => false,
    }
}

pub proof fn lemma_digits_value_prefix(s: Seq<char>, i: int)
    requires
        0 <= i <= s.len(),
    ensures
        digits_value(s.take(i)) <= digits_value(s),
    decreases s.len() - i,
{
    if i < s.len() {
        lemma_digits_value_prefix(s, i + 1);
        assert(s.take(i + 1).drop_last() =~= s.take(i));
    } else {
        assert(s.take(i) =~= s);
    }
}

/// Value of a digit sequence when it is at most 1000.
pub fn small_value(s: &[char]) -> (r: Option<u32>)
    requires
        all_digits(s@),
    ensures
        r matches Some(v) ==> v == digits_value(s@) && v <= 1000,
        r is None ==> digits_value(s@) > 1000,
{
    let mut acc: u32 = 0;
    let mut i: usize = 0;
    while i < s.len()
        invariant
            i <= s.len(),
            all_digits(s@),
            acc == digits_value(s@.take(i as int)),
            acc <= 1000,
        decreases s.len() - i,
    {
        let c = s[i];
        assert(is_ascii_digit(s@[i as int]));
        let d = (c as u32) - 48;
        proof {
            assert(s@.take(i + 1).drop_last() =~= s@.take(i as int));
        }
        let next = acc * 10 + d;
        i = i + 1;
        if next > 1000 {
            proof {
                lemma_digits_value_prefix(s@, i as int);
            }
            return None;
        }
        acc = next;
    }
    assert(s@.take(s.len() as int) =~= s@);
    Some(acc)
}

pub fn chars_all_zero(s: &[char]) -> (r: bool)
    ensures
        r == all_zero(s@),
{
    let mut i: usize = 0;
    while i < s.len()
        invariant
            i <= s.len(),
            forall|k: int| 0 <= k < i ==> s@[k] == '0',
        decreases s.len() - i,
    {
        if s[i] != '0' {
            return false;
        }
        i = i + 1;
    }
    true
}

/// The first nine fraction digits, missing ones read as zero, as a number.
fn nine_fraction_digits(f: &[char]) -> (r: u64)
    requires
        all_digits(f@),
    ensures
        r == digits_value((f@ + nine_zeros()).take(9)),
        r < 1_000_000_000,
{
    let ghost p = f@ + nine_zeros();
    let mut acc: u64 = 0;
    let mut i: usize = 0;
    while i < 9
        invariant
            i <= 9,
            p == f@ + nine_zeros(),
            all_digits(f@),
            acc == digits_value(p.take(i as int)),
            acc < 1_000_000_000,
            i <= 8 ==> acc < 100_000_000,
            i <= 7 ==> acc < 10_000_000,
            i <= 6 ==> acc < 1_000_000,
            i <= 5 ==> acc < 100_000,
            i <= 4 ==> acc < 10_000,
            i <= 3 ==> acc < 1_000,
            i <= 2 ==> acc < 100,
            i <= 1 ==> acc < 10,
            i == 0 ==> acc == 0,
        decreases 9 - i,
    {
        let c = if i < f.len() {
            f[i]
        } else {
            '0'
        };
        assert(c == p[i as int]);
        assert(is_ascii_digit(c));
        let digit = (c as u64) - 48;
        proof {
            assert(p.take(i + 1).drop_last() =~= p.take(i as int));
        }
        acc = acc * 10 + digit;
        i = i + 1;
    }
    acc
}

impl Decimal {
    /// `value == k` for a whole number `k`.
    pub fn is(&self, k: u32) -> (r: bool)
        requires
            k <= 1000,
            all_digits(self.int_digits@),
        ensures
            r == dec_is(self@, k as nat),
    {
        if !chars_all_zero(&self.frac_digits) {
            return false;
        }
        match small_value(&self.int_digits) {
            Some(v) => v == k && (k == 0 || !self.negative),
            None => false,
        }
    }

    /// `dec_code(self, k)`: the value lies within one billionth of `k`.
    pub fn is_code(&self, k: u32) -> (r: bool)
        requires
            k <= 1000,
            all_digits(self.int_digits@),
            all_digits(self.frac_digits@),
        ensures
            r == dec_code(self@, k as nat),
    {
        reveal(dec_code);
        let c: u64 = (k as u64) * 1_000_000_000;
        let f = nine_fraction_digits(self.frac_digits.as_slice());
        match small_value(self.int_digits.as_slice()) {
            None => false,
            Some(v) => {
                let m = (v as u64) * 1_000_000_000 + f;
                if self.negative {
                    c == 0 && m == 0
                } else if m == c {
                    true
                } else if m + 1 == c {
                    let n = self.frac_digits.len();
                    if n > 9 {
                        let rest = &self.frac_digits.as_slice()[9..n];
                        assert(rest@ =~= self@.frac_digits.skip(9));
                        !chars_all_zero(rest)
                    } else {
                        false
                    }
                } else {
                    false
                }
            },
        }
    }

    /// `38 <= value < 39`.
    pub fn in_probe_family(&self) -> (r: bool)
        requires
            all_digits(self.int_digits@),
        ensures
            r == dec_in_probe_family(self@),
    {
        match small_value(&self.int_digits) {
            Some(v) => !self.negative && v == 38,
            None => false,
        }
    }

    /// `value != 0`.
    pub fn nonzero(&self) -> (r: bool)
        requires
            all_digits(self.int_digits@),
        ensures
            r == dec_nonzero(self@),
    {
        match small_value(&self.int_digits) {
            Some(v) => !(v == 0 && chars_all_zero(&self.frac_digits)),
            None => true,
        }
    }

    /// Whole number from 0 to 255.
    pub fn tool(&self) -> (r: Option<u8>)
        requires
            all_digits(self.int_digits@),
        ensures
            r == dec_tool(self@),
    {
        if !chars_all_zero(&self.frac_digits) {
            return None;
        }
        match small_value(&self.int_digits) {
            Some(v) => {
                if v <= 255 && (!self.negative || v == 0) {
                    Some(v as u8)
                } else {
                    None
                }
            },
            None => None,
        }
    }
}

proof fn lemma_dot_index_step(s: Seq<char>, i: int)
    requires
        0 <= i < s.len(),
        s[i] != '.',
        dot_index(s.skip(i)) == dot_index(s.skip(i)),
    ensures
        dot_index(s.skip(i)) == 1 + dot_index(s.skip(i + 1)),
{
    assert(s.skip(i).drop_first() =~= s.skip(i + 1));
}

proof fn lemma_dot_index_bound(s: Seq<char>)
    ensures
        dot_index(s) <= s.len(),
        dot_index(s) < s.len() ==> s[dot_index(s) as int] == '.',
        forall|k: int| 0 <= k < dot_index(s) ==> s[k] != '.',
    decreases s.len(),
{
    if s.len() > 0 && s[0] != '.' {
        lemma_dot_index_bound(s.drop_first());
        assert forall|k: int| 0 <= k < dot_index(s) implies s[k] != '.' by {
            if k > 0 {
                assert(s[k] == s.drop_first()[k - 1]);
            }
        }
    }
}

/// Parses `s[start..]` as a decimal number.
pub fn parse_decimal_at(s: &[char], start: usize) -> (r: Option<Decimal>)
    requires
        start <= s.len(),
    ensures
        match r {
            Some(d) => parse_decimal(s@.skip(start as int)) == Some(d@) && all_digits(
                d.int_digits@,
            ) && all_digits(d.frac_digits@),
            None => parse_decimal(s@.skip(start as int)) is None,
        },
{
    let ghost t = s@.skip(start as int);
    let mut i = start;
    let mut negative = false;
    if i < s.len() && (s[i] == '+' || s[i] == '-') {
        negative = s[i] == '-';
        i = i + 1;
    }
    let ghost b = unsigned_body(t);
    assert(b =~= s@.skip(i as int));
    let mut ip: Vec<char> = Vec::new();
    while i < s.len() && s[i] != '.'
        invariant
            start <= i <= s.len(),
            ip@.len() <= i,
            i - ip@.len() == s.len() - b.len(),
            b == s@.skip((i - ip@.len()) as int),
            ip@ == b.take(ip@.len() as int),
            dot_index(b) == ip@.len() + dot_index(s@.skip(i as int)),
        decreases s.len() - i,
    {
        proof {
            lemma_dot_index_step(s@, i as int);
        }
        let ghost n = ip@.len();
        assert(b[n as int] == s@[i as int]);
        ip.push(s[i]);
        i = i + 1;
        assert(ip@ =~= b.take(ip@.len() as int));
    }
    proof {
        lemma_dot_index_bound(b);
    }
    assert(dot_index(b) == ip@.len());
    assert(int_part(b) =~= ip@);
    let mut fp: Vec<char> = Vec::new();
    assert(b.len() == s.len() - start - (if has_sign(t) { 1int } else { 0 }));
    assert(i - ip@.len() == s.len() - b.len());
    if i < s.len() {
        assert(s@.skip(i as int)[0] == '.');
        assert(dot_index(s@.skip(i as int)) == 0);
        assert(dot_index(b) < b.len());
        i = i + 1;
        let ghost f0 = i;
        while i < s.len()
            invariant
                f0 <= i <= s.len(),
                fp@ == s@.subrange(f0 as int, i as int),
            decreases s.len() - i,
        {
            fp.push(s[i]);
            i = i + 1;
            assert(fp@ =~= s@.subrange(f0 as int, i as int));
        }
        assert(b.skip(dot_index(b) as int + 1) =~= s@.subrange(f0 as int, s.len() as int));
        assert(frac_part(b) =~= fp@);
    } else {
        assert(dot_index(b) == b.len());
        assert(frac_part(b) =~= fp@);
    }
    let mut ok = ip.len() + fp.len() >= 1;
    let mut k: usize = 0;
    while k < ip.len()
        invariant
            k <= ip.len(),
            ok ==> forall|m: int| 0 <= m < k ==> is_ascii_digit(#[trigger] ip@[m]),
            ok ==> ip@.len() + fp@.len() >= 1,
            !ok ==> !(all_digits(ip@) && all_digits(fp@) && ip@.len() + fp@.len() >= 1),
        decreases ip.len() - k,
    {
        if !('0' <= ip[k] && ip[k] <= '9') {
            ok = false;
        }
        k = k + 1;
    }
    let mut k: usize = 0;
    while k < fp.len()
        invariant
            k <= fp.len(),
            ok ==> all_digits(ip@),
            ok ==> ip@.len() + fp@.len() >= 1,
            ok ==> forall|m: int| 0 <= m < k ==> is_ascii_digit(#[trigger] fp@[m]),
            !ok ==> !(all_digits(ip@) && all_digits(fp@) && ip@.len() + fp@.len() >= 1),
        decreases fp.len() - k,
    {
        if !('0' <= fp[k] && fp[k] <= '9') {
            ok = false;
        }
        k = k + 1;
    }
    if ok {
        Some(Decimal { negative, int_digits: ip, frac_digits: fp })
    } else {
        None
    }
}

/// A parsed word: upper-cased letter and value.
pub struct Word {
    pub letter: char,
    pub value: Decimal,
}

/// `split_word`: the first character upper-cased and the rest read as a decimal.
pub fn split_word_exec(w: &[char]) -> (r: Option<Word>)
    ensures
        match r {
            Some(x) => split_word(w@) == Some((x.letter, x.value@)) && all_digits(
                x.value.int_digits@,
            ) && all_digits(x.value.frac_digits@),
            None => split_word(w@) is None,
        },
{
    if w.len() == 0 {
        return None;
    }
    assert(w@.skip(1) =~= w@.drop_first());
    match parse_decimal_at(w, 1) {
        Some(d) => Some(Word { letter: to_upper(w[0]), value: d }),
        None => None,
    }
}

/// Whether `w` is the code `letter k`.
pub fn word_is_exec(w: &[char], letter: char, k: u32) -> (r: bool)
    requires
        k <= 1000,
    ensures
        r == word_is(w@, letter, k as nat),
{
    match split_word_exec(w) {
        Some(x) => x.letter == letter && x.value.is_code(k),
        None => false,
    }
}


// ---------------------------------------------------------------------------
// Rendering
// ---------------------------------------------------------------------------

/// Digits without leading zeros, keeping one digit.
pub open spec fn lead_zero_trim(s: Seq<char>) -> Seq<char>
    decreases s.len(),
{
    if s.len() > 1 && s[0] == '0' {
        lead_zero_trim(s.drop_first())
    } else {
        s
    }
}

/// The integer digits as printed: no leading zeros, `0` when there are none.
pub open spec fn int_text(s: Seq<char>) -> Seq<char> {
    if s.len() == 0 {
        seq!['0']
    } else {
        lead_zero_trim(s)
    }
}

/// Fraction digits without trailing zeros.
pub open spec fn trail_zero_trim(s: Seq<char>) -> Seq<char>
    decreases s.len(),
{
    if s.len() > 0 && s.last() == '0' {
        trail_zero_trim(s.drop_last())
    } else {
        s
    }
}

pub open spec fn sign_text(d: DecimalV) -> Seq<char> {
    if d.negative {
        seq!['-']
    } else {
        Seq::empty()
    }
}

/// The shortest text of the value, as `{}` prints a number.
pub open spec fn canonical(d: DecimalV) -> Seq<char> {
    let f = trail_zero_trim(d.frac_digits);
    sign_text(d) + int_text(d.int_digits) + if f.len() > 0 {
        seq!['.'] + f
    } else {
        Seq::empty()
    }
}

/// Adds one to a digit string.
pub open spec fn increment(s: Seq<char>) -> Seq<char>
    decreases s.len(),
{
    if s.len() == 0 {
        seq!['1']
    } else if s.last() == '9' {
        increment(s.drop_last()).push('0')
    } else {
        s.drop_last().push(((s.last() as u32) + 1) as char)
    }
}

/// Whether rounding to a whole number goes up: above one half, or exactly one
/// half with an odd integer part.
pub open spec fn rounds_up(d: DecimalV) -> bool {
    let f = d.frac_digits;
    let i = int_text(d.int_digits);
    f.len() > 0 && (f[0] > '5' || (f[0] == '5' && (!all_zero(f.drop_first()) || (
    i.last() == '1' || i.last() == '3' || i.last() == '5' || i.last() == '7' || i.last()
        == '9'))))
}

/// The value rounded half to even to a whole number, as `{:.0}` prints it.
pub open spec fn rounded(d: DecimalV) -> Seq<char> {
    sign_text(d) + if rounds_up(d) {
        increment(int_text(d.int_digits))
    } else {
        int_text(d.int_digits)
    }
}

fn lead_zero_trim_exec(s: &[char]) -> (r: Vec<char>)
    ensures
        r@ == lead_zero_trim(s@),
        all_digits(s@) ==> all_digits(r@),
        s@.len() > 0 ==> r@.len() > 0,
{
    let mut k: usize = 0;
    assert(s@.skip(0) =~= s@);
    while k < s.len() && s.len() - k > 1 && s[k] == '0'
        invariant
            k <= s.len(),
            s@.len() > 0 ==> k < s@.len(),
            lead_zero_trim(s@) == lead_zero_trim(s@.skip(k as int)),
        decreases s.len() - k,
    {
        assert(s@.skip(k as int).drop_first() =~= s@.skip(k + 1));
        k = k + 1;
    }
    let r = crate::text::slice_chars(s, k, s.len());
    assert(r@ =~= s@.skip(k as int));
    proof {
        if all_digits(s@) {
            assert forall|i: int| 0 <= i < r@.len() implies is_ascii_digit(#[trigger] r@[i]) by {
                assert(r@[i] == s@[i + k]);
            }
        }
    }
    r
}

fn int_text_exec(s: &[char]) -> (r: Vec<char>)
    ensures
        r@ == int_text(s@),
        all_digits(s@) ==> all_digits(r@),
        r@.len() > 0,
{
    if s.len() == 0 {
        let v = vec!['0'];
        assert(v@ =~= seq!['0']);
        v
    } else {
        lead_zero_trim_exec(s)
    }
}

fn trail_zero_trim_exec(s: &[char]) -> (r: Vec<char>)
    ensures
        r@ == trail_zero_trim(s@),
{
    let mut k: usize = s.len();
    assert(s@.take(s.len() as int) =~= s@);
    while k > 0 && s[k - 1] == '0'
        invariant
            k <= s.len(),
            trail_zero_trim(s@) == trail_zero_trim(s@.take(k as int)),
        decreases k,
    {
        assert(s@.take(k as int).drop_last() =~= s@.take(k - 1));
        k = k - 1;
    }
    let r = crate::text::slice_chars(s, 0, k);
    assert(r@ =~= s@.take(k as int));
    r
}

fn increment_exec(s: &[char]) -> (r: Vec<char>)
    requires
        crate::text::all_digits(s@),
    ensures
        r@ == increment(s@),
    decreases s.len(),
{
    if s.len() == 0 {
        let v = vec!['1'];
        assert(v@ =~= seq!['1']);
        v
    } else {
        let last = s[s.len() - 1];
        let head = &s[0..s.len() - 1];
        assert(head@ =~= s@.drop_last());
        assert(is_ascii_digit(s@[s.len() - 1]));
        if last == '9' {
            let mut r = increment_exec(head);
            r.push('0');
            r
        } else {
            let mut r = crate::text::slice_chars(s, 0, s.len() - 1);
            assert(r@ =~= s@.drop_last());
            let next = ((last as u8) + 1) as char;
            assert(next == ((last as u32) + 1) as char);
            r.push(next);
            r
        }
    }
}

impl Decimal {
    /// The shortest text of the value.
    pub fn canonical_text(&self) -> (r: Vec<char>)
        ensures
            r@ == canonical(self@),
    {
        let mut r: Vec<char> = Vec::new();
        if self.negative {
            r.push('-');
        }
        let it = int_text_exec(self.int_digits.as_slice());
        crate::text::push_chars(&mut r, it.as_slice());
        let f = trail_zero_trim_exec(self.frac_digits.as_slice());
        if f.len() > 0 {
            r.push('.');
            crate::text::push_chars(&mut r, f.as_slice());
        }
        assert(r@ =~= canonical(self@));
        r
    }

    /// The value rounded half to even to a whole number.
    pub fn rounded_text(&self) -> (r: Vec<char>)
        requires
            all_digits(self.int_digits@),
        ensures
            r@ == rounded(self@),
    {
        let it = int_text_exec(self.int_digits.as_slice());
        let f = &self.frac_digits;
        let last = it[it.len() - 1];
        let odd = last == '1' || last == '3' || last == '5' || last == '7' || last == '9';
        let up = if f.len() == 0 {
            false
        } else if f[0] > '5' {
            true
        } else if f[0] == '5' {
            let rest = &f.as_slice()[1..f.len()];
            assert(rest@ =~= f@.drop_first());
            !chars_all_zero(rest) || odd
        } else {
            false
        };
        assert(up == rounds_up(self@));
        let body = if up {
            increment_exec(it.as_slice())
        } else {
            it
        };
        let mut r: Vec<char> = Vec::new();
        if self.negative {
            r.push('-');
        }
        crate::text::push_chars(&mut r, body.as_slice());
        assert(r@ =~= rounded(self@));
        r
    }
}

} // verus!
