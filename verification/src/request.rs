//! The limits a G-code parse request must meet before any line is read.
use vstd::prelude::*;

use crate::program::{ProgramParseError, ProgramParseRequest};
use crate::restart::MAX_SOURCE_NAME_BYTES;
use crate::text::{chars_of, string_from_chars, trim, trim_chars};
use vstd::utf8::encode_utf8;

verus! {

/// Largest accepted source, in bytes.
pub const MAX_SOURCE_BYTES: usize = 67108864;

/// Largest accepted number of lines.
pub const MAX_SOURCE_LINES: usize = 2000000;

/// Largest accepted line, in bytes.
pub const MAX_SOURCE_LINE_BYTES: usize = 16384;

/// Largest accepted number of diagnostics for one program.
pub const MAX_PROGRAM_DIAGNOSTICS: usize = 10000;

/// How many lines `str::lines` yields: one per line feed, and one more for
/// text after the last line feed.
pub open spec fn line_count(s: Seq<char>) -> nat
    decreases s.len(),
{
    if s.len() == 0 {
        0
    } else if s.len() == 1 {
        1
    } else {
        line_count(s.drop_last()) + if s[s.len() - 2] == '\n' {
            1nat
        } else {
            0nat
        }
    }
}

/// Why a request is refused before parsing, if it is.
pub open spec fn request_error(name: Seq<char>, source: Seq<char>) -> Option<ProgramParseError> {
    let n = trim(name);
    if n.len() == 0 {
        Some(ProgramParseError::MissingSourceName)
    } else if encode_utf8(n).len() as usize > MAX_SOURCE_NAME_BYTES {
        Some(ProgramParseError::SourceNameTooLong { max_bytes: MAX_SOURCE_NAME_BYTES })
    } else if encode_utf8(source).len() as usize > MAX_SOURCE_BYTES {
        Some(ProgramParseError::SourceTooLarge { max_bytes: MAX_SOURCE_BYTES })
    } else if trim(source).len() == 0 {
        Some(ProgramParseError::EmptySource)
    } else if line_count(source) > MAX_SOURCE_LINES {
        Some(ProgramParseError::TooManyLines { max_lines: MAX_SOURCE_LINES })
    } else {
        None
    }
}

fn count_lines(s: &[char]) -> (n: usize)
    ensures
        n == line_count(s@),
{
    if s.len() == 0 {
        return 0;
    }
    let mut n: usize = 1;
    let mut i: usize = 1;
    while i < s.len()
        invariant
            1 <= i <= s.len(),
            n == line_count(s@.take(i as int)),
            n <= i,
        decreases s.len() - i,
    {
        assert(s@.take(i + 1).drop_last() =~= s@.take(i as int));
        if s[i - 1] == '\n' {
            n = n + 1;
        }
        i = i + 1;
    }
    assert(s@.take(i as int) =~= s@);
    n
}

/// Checks the source name and the size of the source. On success returns the
/// number of lines and the trimmed source name.
pub fn check_parse_request(request: &ProgramParseRequest) -> (r: Result<(usize, String), ProgramParseError>)
    ensures
        match request_error(request.source_name@, request.source@) {
            Some(e) => r == Err::<(usize, String), ProgramParseError>(e),
            None => r matches Ok((n, name)) && n == line_count(request.source@) && name@ == trim(
                request.source_name@,
            ),
        },
{
    let name_chars = chars_of(request.source_name.as_str());
    let trimmed = trim_chars(name_chars.as_slice());
    if trimmed.len() == 0 {
        return Err(ProgramParseError::MissingSourceName);
    }
    let name = string_from_chars(trimmed.as_slice());
    if name.as_str().len() > MAX_SOURCE_NAME_BYTES {
        return Err(ProgramParseError::SourceNameTooLong { max_bytes: MAX_SOURCE_NAME_BYTES });
    }
    if request.source.as_str().len() > MAX_SOURCE_BYTES {
        return Err(ProgramParseError::SourceTooLarge { max_bytes: MAX_SOURCE_BYTES });
    }
    let source = chars_of(request.source.as_str());
    let body = trim_chars(source.as_slice());
    if body.len() == 0 {
        return Err(ProgramParseError::EmptySource);
    }
    let n = count_lines(source.as_slice());
    if n > MAX_SOURCE_LINES {
        return Err(ProgramParseError::TooManyLines { max_lines: MAX_SOURCE_LINES });
    }
    Ok((n, name))
}

/// A line longer than the line limit refuses the whole program.
pub fn check_source_line(source_line: usize, raw: &str) -> (r: Result<(), ProgramParseError>)
    ensures
        r == (if encode_utf8(raw@).len() as usize > MAX_SOURCE_LINE_BYTES {
            Err::<(), ProgramParseError>(
                ProgramParseError::SourceLineTooLong { source_line, max_bytes: MAX_SOURCE_LINE_BYTES },
            )
        } else {
            Ok(())
        }),
{
    if raw.len() > MAX_SOURCE_LINE_BYTES {
        Err(ProgramParseError::SourceLineTooLong { source_line, max_bytes: MAX_SOURCE_LINE_BYTES })
    } else {
        Ok(())
    }
}

/// More diagnostics than the limit refuse the whole program.
pub fn check_diagnostic_count(count: usize) -> (r: Result<(), ProgramParseError>)
    ensures
        r == (if count > MAX_PROGRAM_DIAGNOSTICS {
            Err::<(), ProgramParseError>(
                ProgramParseError::TooManyDiagnostics { max_warnings: MAX_PROGRAM_DIAGNOSTICS },
            )
        } else {
            Ok(())
        }),
{
    if count > MAX_PROGRAM_DIAGNOSTICS {
        Err(ProgramParseError::TooManyDiagnostics { max_warnings: MAX_PROGRAM_DIAGNOSTICS })
    } else {
        Ok(())
    }
}

} // verus!
