//! The byte ranges of partial reads: how the server reads a `Range` header,
//! and how it describes the range that it sends back.

use vstd::prelude::*;
use crate::text::{
    chars_between, chars_of, decimal, find_char, find_char_from, has_prefix, is_digit,
    lemma_decimal_digits, lemma_find_char_skips, lemma_parse_decimal, parse_u64, parse_u64_spec,
    push_char, push_decimal,
};

verus! {

/// Why a `Range` header was refused.
#[derive(Debug, Clone, Copy, PartialEq, Eq, Structural)]
pub enum RangeError {
    /// The request has no `Range` header.
    MissingHeader,
    /// The header's value is not visible ASCII text.
    InvalidHeader,
    /// The header does not begin with `bytes=`.
    InvalidUnit,
    /// The first position of the range is not a number.
    InvalidStart,
    /// The first position comes after the last one.
    InvalidBounds,
}

/// The text `bytes=`, with which a byte range begins.
pub open spec fn bytes_unit() -> Seq<char> {
    seq!['b', 'y', 't', 'e', 's', '=']
}

/// The text of the first position of a range `bytes=<first>-<last>`: what
/// comes after `bytes=`, up to the first `-`.
pub open spec fn range_start_text(h: Seq<char>) -> Seq<char> {
    h.subrange(6, find_char(h, '-', 6))
}

/// The text of the last position of a range, when there is a `-` after the
/// unit: what comes after the first `-`, up to the next `-`.
pub open spec fn range_end_text(h: Seq<char>) -> Option<Seq<char>> {
    let i = find_char(h, '-', 6);
    if i < h.len() {
        Some(h.subrange(i + 1, find_char(h, '-', i + 1)))
    } else {
        None
    }
}

/// The index of the last byte of a file, or 0 for an empty file.
pub open spec fn last_byte(file_size: u64) -> u64 {
    if file_size == 0 {
        0
    } else {
        (file_size - 1) as u64
    }
}

/// The last position that a range header asks for, within the file: the
/// file's last byte where the header gives no readable last position or one
/// past the end of a non-empty file.
pub open spec fn range_end(h: Seq<char>, file_size: u64) -> u64 {
    let asked = match range_end_text(h) {
        Some(t) => match parse_u64_spec(t) {
            Some(e) => e,
            None => last_byte(file_size),
        },
        None => last_byte(file_size),
    };
    if asked >= file_size && file_size > 0 {
        last_byte(file_size)
    } else {
        asked
    }
}

/// The byte range `(first, last)` that a `Range` header asks of a file of
/// `file_size` bytes, or why it is refused. An empty file is always read as
/// `(0, 0)` once the header has a readable first position.
pub open spec fn parse_range_spec(header: Option<Seq<char>>, file_size: u64) -> Result<
    (u64, u64),
    RangeError,
> {
    match header {
        None => Err(RangeError::MissingHeader),
        Some(h) => if !bytes_unit().is_prefix_of(h) {
            Err(RangeError::InvalidUnit)
        } else {
            match parse_u64_spec(range_start_text(h)) {
                None => Err(RangeError::InvalidStart),
                Some(start) => if file_size == 0 {
                    Ok((0u64, 0u64))
                } else if start > range_end(h, file_size) {
                    Err(RangeError::InvalidBounds)
                } else {
                    Ok((start, range_end(h, file_size)))
                },
            }
        },
    }
}

/// Reads the value of a `Range` header (`None` where the request has none)
/// for a file of `file_size` bytes.
///
/// A range that is granted lies within the file: its first position is at
/// most its last, and its last is a byte of the file (for an empty file the
/// range is `(0, 0)`).
pub fn parse_range(header: Option<&str>, file_size: u64) -> (r: Result<(u64, u64), RangeError>)
    ensures
        r == parse_range_spec(
            match header {
                Some(h) => Some(h@),
                None => None,
            },
            file_size,
        ),
        r matches Ok((start, end)) ==> (file_size == 0 && start == 0 && end == 0) || (start <= end
            && end < file_size),
{
    let h = match header {
        None => {
            return Err(RangeError::MissingHeader);
        },
        Some(h) => chars_of(h),
    };
    let unit = vec!['b', 'y', 't', 'e', 's', '='];
    assert(unit@ == bytes_unit());
    if !has_prefix(h.as_slice(), unit.as_slice()) {
        return Err(RangeError::InvalidUnit);
    }
    let dash = find_char_from(h.as_slice(), '-', 6);
    let start_text = chars_between(h.as_slice(), 6, dash);
    let start = match parse_u64(start_text.as_slice()) {
        None => {
            return Err(RangeError::InvalidStart);
        },
        Some(s) => s,
    };
    let file_last_byte = file_size.saturating_sub(1);
    let mut end = file_last_byte;
    if dash < h.len() {
        let next = find_char_from(h.as_slice(), '-', dash + 1);
        let end_text = chars_between(h.as_slice(), dash + 1, next);
        match parse_u64(end_text.as_slice()) {
            Some(e) => {
                end = e;
            },
            None => {},
        }
    }
    if end >= file_size && file_size > 0 {
        end = file_last_byte;
    }
    if file_size == 0 {
        return Ok((0, 0));
    }
    if start > end {
        return Err(RangeError::InvalidBounds);
    }
    Ok((start, end))
}

/// The number of bytes from `start` to `end`, both included.
pub fn range_length(start: u64, end: u64) -> (r: u64)
    requires
        start <= end < u64::MAX,
    ensures
        r == end - start + 1,
{
    end - start + 1
}

/// The text `bytes <first>-<last>/<size>` of a `Content-Range` header.
pub open spec fn content_range_text(start: u64, end: u64, file_size: u64) -> Seq<char> {
    seq!['b', 'y', 't', 'e', 's', ' '] + decimal(start as nat) + seq!['-'] + decimal(end as nat)
        + seq!['/'] + decimal(file_size as nat)
}

/// The value of the `Content-Range` header that describes the bytes `start`
/// to `end` of a file of `file_size` bytes.
pub fn content_range(start: u64, end: u64, file_size: u64) -> (r: String)
    ensures
        r@ == content_range_text(start, end, file_size),
{
    let mut r = String::new();
    push_char(&mut r, 'b');
    push_char(&mut r, 'y');
    push_char(&mut r, 't');
    push_char(&mut r, 'e');
    push_char(&mut r, 's');
    push_char(&mut r, ' ');
    push_decimal(&mut r, start);
    push_char(&mut r, '-');
    push_decimal(&mut r, end);
    push_char(&mut r, '/');
    push_decimal(&mut r, file_size);
    assert(r@ == content_range_text(start, end, file_size));
    r
}


/// A range with no last position, `bytes=<start>-`, runs to the file's last
/// byte: for a first position within a non-empty file, the granted range is
/// exactly from `start` to `file_size - 1`.
pub proof fn lemma_open_ended_range(start: u64, file_size: u64)
    requires
        start < file_size,
    ensures
        parse_range_spec(Some(seq!['b', 'y', 't', 'e', 's', '='] + decimal(start as nat) + seq!['-']), file_size)
            == Ok::<(u64, u64), RangeError>((start, (file_size - 1) as u64)),
{
    let a = decimal(start as nat);
    let h = seq!['b', 'y', 't', 'e', 's', '='] + a + seq!['-'];
    lemma_decimal_digits(start as nat);
    lemma_parse_decimal(start);
    let dash: int = 6 + a.len() as int;
    assert(bytes_unit().is_prefix_of(h));
    assert forall|k: int| 6 <= k < dash implies h[k] != '-' by {
        assert(h[k] == a[k - 6]);
        assert(is_digit(a[k - 6]));
    }
    assert(h[dash] == '-');
    lemma_find_char_skips(h, '-', 6, dash);
    assert(h.subrange(6, dash) == a);
    lemma_find_char_skips(h, '-', dash + 1, h.len() as int);
    assert(h.subrange(dash + 1, h.len() as int) =~= Seq::<char>::empty());
    assert(parse_u64_spec(Seq::<char>::empty()) is None);
}

} // verus!
