//! The digest that identifies a plugin package: the SHA-256 of its serialised
//! form, written as lowercase hexadecimal.
use vstd::prelude::*;

use crate::text::string_from_chars;
use sha2::Digest;

verus! {

/// The SHA-256 digest of a byte string.
pub uninterp spec fn sha256_of(bytes: Seq<u8>) -> Seq<u8>;

/// Calls `sha2::Sha256::digest` (through `sha2::Digest`) on `bytes`. The
/// contract claims that the result is the digest named by `sha256_of` and
/// that it has 32 bytes, the output size of SHA-256.
#[verifier::external_body]
fn sha256(bytes: &[u8]) -> (r: Vec<u8>)
    ensures
        r@ == sha256_of(bytes@),
        r@.len() == 32,
{
    sha2::Sha256::digest(bytes).to_vec()
}

/// The lowercase hexadecimal digit of `n`, below 16.
pub open spec fn hex_digit(n: int) -> char {
    if n < 10 {
        (48 + n) as char
    } else {
        (87 + n) as char
    }
}

/// Each byte as two lowercase hexadecimal digits, high digit first.
pub open spec fn lower_hex(bytes: Seq<u8>) -> Seq<char> {
    Seq::new(
        2 * bytes.len(),
        |i: int|
            if i % 2 == 0 {
                hex_digit(bytes[i / 2] as int / 16)
            } else {
                hex_digit(bytes[i / 2] as int % 16)
            },
    )
}

fn hex_char(n: u8) -> (c: char)
    requires
        n < 16,
    ensures
        c == hex_digit(n as int),
{
    if n < 10 {
        (48 + n) as char
    } else {
        (87 + n) as char
    }
}

/// Writes `bytes` as lowercase hexadecimal, two digits per byte.
pub fn hex_lower(bytes: &[u8]) -> (r: String)
    ensures
        r@ == lower_hex(bytes@),
{
    let mut out: Vec<char> = Vec::new();
    let mut i: usize = 0;
    while i < bytes.len()
        invariant
            i <= bytes.len(),
            out@.len() == 2 * i,
            forall|k: int| 0 <= k < 2 * i ==> out@[k] == #[trigger] lower_hex(bytes@)[k],
        decreases bytes.len() - i,
    {
        let b = bytes[i];
        out.push(hex_char(b / 16));
        out.push(hex_char(b % 16));
        proof {
            let h = lower_hex(bytes@);
            assert((2 * i) % 2 == 0 && (2 * i) / 2 == i as int);
            assert((2 * i + 1) % 2 == 1 && (2 * i + 1) / 2 == i as int);
            assert(h[2 * i as int] == hex_digit(b as int / 16));
            assert(h[2 * i + 1] == hex_digit(b as int % 16));
        }
        i = i + 1;
    }
    assert(out@ =~= lower_hex(bytes@));
    string_from_chars(out.as_slice())
}

/// The digest of a package, given the bytes of its serialised form: the
/// SHA-256 of those bytes as 64 lowercase hexadecimal digits.
pub fn package_digest(package_bytes: &[u8]) -> (r: String)
    ensures
        r@ == lower_hex(sha256_of(package_bytes@)),
        r@.len() == 64,
{
    let digest = sha256(package_bytes);
    hex_lower(digest.as_slice())
}

} // verus!
