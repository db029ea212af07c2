//! The checks a PCB job's source files pass before their geometry is read:
//! the request's limits and names, decoding each file from base64 within a
//! total size, and the name of the generated program.
use vstd::prelude::*;

use crate::text::{chars_of, contains_char, push_chars, push_str, string_from_chars, trim, trim_chars};
use base64::Engine;
use vstd::utf8::encode_utf8;

verus! {

/// Most source files one job may have.
pub const MAX_PCB_FILES: usize = 16;

/// Largest base64 text of one source file, in bytes.
pub const MAX_ENCODED_FILE_BYTES: usize = 25165824;

/// Largest total of the decoded source files, in bytes.
pub const MAX_DECODED_TOTAL_BYTES: usize = 12582912;

/// Longest source name, in bytes.
pub const MAX_PCB_SOURCE_NAME_BYTES: usize = 255;

/// What a source file of a board holds.
#[derive(Clone, Copy, Debug, PartialEq, Eq, Structural)]
pub enum PcbLayerRole {
    Copper,
    Drill,
    Outline,
    Marking,
    Ignore,
}

/// A source file of a board, as base64 text.
#[derive(Debug)]
pub struct PcbSourceFile {
    pub source_name: String,
    pub source_base64: String,
    pub role: PcbLayerRole,
}

/// Why a PCB request, or the job made from it, was refused.
#[derive(Debug, PartialEq, Eq)]
pub enum PcbError {
    MissingFiles,
    TooManyFiles(usize),
    InvalidSourceName(String),
    SourceTooLarge(String),
    InvalidBase64(String),
    InvalidGerber(String, String),
    InvalidExcellon(String, String),
    UnsupportedExcellonFeature(String, String),
    UnsupportedGerberFeature(String, String),
    MissingAperture(String),
    Geometry(String),
    EmptyLayer(String),
    DrillWithoutTool(String),
    UnknownDrillTool(String, u32),
    PreviewTooComplex(usize),
    InvalidTransform,
    MissingLayer(&'static str),
    UnknownDrillGroup(String),
    MissingDrillMappings,
    UnknownTool(String),
    IncompatibleTool { operation: &'static str, tool: String },
    NoOperations,
    InvalidSetting(&'static str),
    GcodeTooLarge(usize),
    InvalidGeneratedGcode(String),
}

// ---------------------------------------------------------------------------
// The request
// ---------------------------------------------------------------------------

/// A usable source name: trimmed, it is not empty, has at most 255 bytes and
/// holds no path separator.
pub open spec fn source_name_ok(name: Seq<char>) -> bool {
    let t = trim(name);
    &&& t.len() > 0
    &&& encode_utf8(t).len() as usize <= MAX_PCB_SOURCE_NAME_BYTES
    &&& !t.contains('/')
    &&& !t.contains('\\')
}

/// The index of the first file, from `i` on, with an unusable name.
pub open spec fn first_bad_name_from(files: Seq<PcbSourceFile>, i: int) -> Option<int>
    decreases files.len() - i,
{
    if i < 0 || i >= files.len() {
        None
    } else if !source_name_ok(files[i].source_name@) {
        Some(i)
    } else {
        first_bad_name_from(files, i + 1)
    }
}

/// The index of the first file with an unusable name.
pub open spec fn first_bad_name(files: Seq<PcbSourceFile>) -> Option<int> {
    first_bad_name_from(files, 0)
}

fn name_ok(name: &str) -> (r: bool)
    ensures
        r == source_name_ok(name@),
{
    let cs = chars_of(name);
    let t = trim_chars(cs.as_slice());
    let text = string_from_chars(t.as_slice());
    t.len() > 0 && text.as_str().len() <= MAX_PCB_SOURCE_NAME_BYTES && !contains_char(t.as_slice(), '/')
        && !contains_char(t.as_slice(), '\\')
}

/// Checks a request before any file is read: it has between one and 16
/// files; its transform is valid (`transform_valid`: finite offsets within
/// 100 m and at most three quarter turns); every file has a usable name.
pub fn validate_request(files: &Vec<PcbSourceFile>, transform_valid: bool) -> (r: Result<(), PcbError>)
    ensures
        if files@.len() == 0 {
            r == Err::<(), PcbError>(PcbError::MissingFiles)
        } else if files@.len() > MAX_PCB_FILES {
            r == Err::<(), PcbError>(PcbError::TooManyFiles(MAX_PCB_FILES))
        } else if !transform_valid {
            r == Err::<(), PcbError>(PcbError::InvalidTransform)
        } else {
            match first_bad_name(files@) {
                Some(i) => r matches Err(PcbError::InvalidSourceName(n)) && n@ == files@[i].source_name@,
                None => r is Ok,
            }
        },
{
    if files.len() == 0 {
        return Err(PcbError::MissingFiles);
    }
    if files.len() > MAX_PCB_FILES {
        return Err(PcbError::TooManyFiles(MAX_PCB_FILES));
    }
    if !transform_valid {
        return Err(PcbError::InvalidTransform);
    }
    let mut i: usize = 0;
    while i < files.len()
        invariant
            i <= files@.len(),
            0 < files@.len() <= MAX_PCB_FILES,
            transform_valid,
            first_bad_name(files@) == first_bad_name_from(files@, i as int),
        decreases files.len() - i,
    {
        if !name_ok(files[i].source_name.as_str()) {
            assert(first_bad_name_from(files@, i as int) == Some(i as int));
            return Err(PcbError::InvalidSourceName(files[i].source_name.clone()));
        }
        i = i + 1;
    }
    Ok(())
}

// ---------------------------------------------------------------------------
// Decoding the files
// ---------------------------------------------------------------------------

/// The bytes that the standard base64 alphabet, with canonical padding,
/// decodes `input` to; `None` where `input` is not such base64.
pub uninterp spec fn base64_standard_decode(input: Seq<u8>) -> Option<Seq<u8>>;

/// Calls `decode` of `base64::engine::general_purpose::STANDARD` on `input`.
/// The contract claims that the outcome is the one `base64_standard_decode`
/// names, any decoding error becoming `None`.
#[verifier::external_body]
fn decode_base64(input: &[u8]) -> (r: Option<Vec<u8>>)
    ensures
        match r {
            Some(v) => base64_standard_decode(input@) == Some(v@),
            None => base64_standard_decode(input@) is None,
        },
{
    match base64::engine::general_purpose::STANDARD.decode(input) {
        Ok(bytes) => Some(bytes),
        Err(_) => None,
    }
}

/// `total` plus `more`, held at the largest `usize`.
pub open spec fn saturating_total(total: usize, more: nat) -> int {
    if total + more > usize::MAX { usize::MAX as int } else { total + more }
}

/// What a decoded file gives: `InvalidBase64` when it did not decode;
/// `SourceTooLarge` when the decoded files so far, this one included, pass
/// the total limit; else its bytes and the new total.
pub open spec fn admitted(
    name: Seq<char>,
    decoded: Option<Seq<u8>>,
    total_before: usize,
    r: Result<(Vec<u8>, usize), PcbError>,
) -> bool {
    match decoded {
        None => r matches Err(PcbError::InvalidBase64(n)) && n@ == name,
        Some(b) => if saturating_total(total_before, b.len()) > MAX_DECODED_TOTAL_BYTES {
            r matches Err(PcbError::SourceTooLarge(n)) && n@ == name
        } else {
            r matches Ok((v, t)) && v@ == b && t == saturating_total(total_before, b.len())
        },
    }
}

/// Admits a decoded file against the running total of decoded bytes.
pub fn admit_decoded(source_name: &str, decoded: Option<Vec<u8>>, total_before: usize) -> (r: Result<(Vec<u8>, usize), PcbError>)
    ensures
        admitted(
            source_name@,
            match decoded {
                Some(v) => Some(v@),
                None => None,
            },
            total_before,
            r,
        ),
{
    match decoded {
        None => Err(PcbError::InvalidBase64(source_name.to_owned())),
        Some(bytes) => {
            let total: usize = if bytes.len() > usize::MAX - total_before {
                usize::MAX
            } else {
                total_before + bytes.len()
            };
            if total > MAX_DECODED_TOTAL_BYTES {
                Err(PcbError::SourceTooLarge(source_name.to_owned()))
            } else {
                Ok((bytes, total))
            }
        },
    }
}

/// Decodes one source file, given the decoded bytes of the files before it:
/// its base64 text may have at most 24 MiB; it must decode; the decoded
/// files may total at most 12 MiB.
pub fn decode_source(file: &PcbSourceFile, total_before: usize) -> (r: Result<(Vec<u8>, usize), PcbError>)
    ensures
        if encode_utf8(file.source_base64@).len() as usize > MAX_ENCODED_FILE_BYTES {
            r matches Err(PcbError::SourceTooLarge(n)) && n@ == file.source_name@
        } else {
            admitted(
                file.source_name@,
                base64_standard_decode(encode_utf8(file.source_base64@)),
                total_before,
                r,
            )
        },
{
    if file.source_base64.as_str().len() > MAX_ENCODED_FILE_BYTES {
        return Err(PcbError::SourceTooLarge(file.source_name.clone()));
    }
    let decoded = decode_base64(file.source_base64.as_str().as_bytes());
    admit_decoded(file.source_name.as_str(), decoded, total_before)
}

// ---------------------------------------------------------------------------
// The generated program's name
// ---------------------------------------------------------------------------

/// ASCII lower case of `c`; other characters stay.
pub open spec fn ascii_lower(c: char) -> char {
    if 'A' <= c && c <= 'Z' {
        ((c as int) + 32) as char
    } else {
        c
    }
}

/// `t` ends in `.nc`, in any ASCII case.
pub open spec fn has_nc_suffix(t: Seq<char>) -> bool {
    &&& t.len() >= 3
    &&& t[t.len() - 3] == '.'
    &&& ascii_lower(t[t.len() - 2]) == 'n'
    &&& ascii_lower(t[t.len() - 1]) == 'c'
}

/// The trimmed name, with `.nc` added unless it already ends so.
pub open spec fn gcode_file_name(name: Seq<char>) -> Seq<char> {
    let t = trim(name);
    if has_nc_suffix(t) {
        t
    } else {
        t + ".nc"@
    }
}

/// The name of the program generated for a board.
pub fn gcode_name(name: &str) -> (r: String)
    ensures
        r@ == gcode_file_name(name@),
{
    let cs = chars_of(name);
    let t = trim_chars(cs.as_slice());
    let n = t.len();
    let suffix = n >= 3 && t[n - 3] == '.' && (t[n - 2] == 'n' || t[n - 2] == 'N') && (t[n - 1] == 'c'
        || t[n - 1] == 'C');
    let mut out: Vec<char> = Vec::new();
    push_chars(&mut out, t.as_slice());
    if !suffix {
        push_str(&mut out, ".nc");
    }
    proof {
        reveal_strlit(".nc");
        assert(out@ =~= gcode_file_name(name@));
    }
    string_from_chars(out.as_slice())
}

} // verus!
