//! The client's side of the HTTP protocol: the requests it sends to the file
//! server and what it makes of the answers.

use vstd::prelude::*;
use crate::range::{bytes_unit, parse_range_spec, RangeError};
use crate::text::{
    chars_of, decimal, digit_char, find_char, lemma_find_char_skips, lemma_decimal_digits, lemma_parse_decimal, push_char,
    push_chars, push_decimal, push_str, trim_leading_slashes, trim_slashes_start, is_digit,
};

verus! {

/// The kind of a failed file operation, as the client reports it.
#[derive(Debug, Clone, Copy, PartialEq, Eq, Structural)]
pub enum IoErrorKind {
    NotFound,
    PermissionDenied,
    Other,
}

/// The address of the file server's API.
#[derive(Debug)]
pub struct Api {
    pub base_url: String,
}

/// What the client does to read part of a file.
#[derive(Debug)]
pub enum ReadPlan {
    /// Nothing is asked of the server: the read is empty.
    Nothing,
    /// A `GET` of `url` with the `Range` header `range`.
    Fetch { url: String, range: String },
}

/// A `PATCH` that renames a file: the address and the JSON body.
#[derive(Debug)]
pub struct RenamePlan {
    pub url: String,
    pub body: String,
}

/// The `Range` header that asks for the bytes `offset` to `end`:
/// `bytes=<offset>-<end>`.
pub open spec fn range_text(offset: u64, end: u64) -> Seq<char> {
    bytes_unit() + decimal(offset as nat) + seq!['-'] + decimal(end as nat)
}

/// The last byte of a read of `size > 0` bytes from `offset`; the read must
/// not reach past the largest offset (`offset + size <= u64::MAX`).
pub open spec fn read_end(offset: u64, size: u32) -> u64 {
    (offset + size - 1) as u64
}

/// Whether `plan` is how the client reads `size` bytes from `offset` of the
/// file at `path`, given the server's address `base`.
pub open spec fn plans_read(plan: ReadPlan, base: Seq<char>, path: Seq<char>, offset: u64, size: u32) -> bool {
    if size == 0 {
        plan is Nothing
    } else {
        plan matches ReadPlan::Fetch { url, range } && url@ == base + "files/"@
            + trim_leading_slashes(path) && range@ == range_text(offset, read_end(offset, size))
    }
}

/// What a read comes to, from the status of the server's answer and its
/// body (`None` where the body could not be read): the bytes of a partial
/// content answer, "not found" for a 404, any other failure otherwise.
pub open spec fn read_outcome_spec(status: u16, body: Option<Seq<u8>>) -> Result<Seq<u8>, IoErrorKind> {
    if status == 206 {
        match body {
            Some(b) => Ok(b),
            None => Err(IoErrorKind::Other),
        }
    } else if status == 404 {
        Err(IoErrorKind::NotFound)
    } else {
        Err(IoErrorKind::Other)
    }
}

/// Whether an HTTP status reports success (2xx).
pub open spec fn is_success(status: u16) -> bool {
    200 <= status <= 299
}

/// A lowercase hexadecimal digit.
pub open spec fn hex_digit(d: int) -> char {
    if 0 <= d < 10 {
        digit_char(d as nat)
    } else if d == 10 {
        'a'
    } else if d == 11 {
        'b'
    } else if d == 12 {
        'c'
    } else if d == 13 {
        'd'
    } else if d == 14 {
        'e'
    } else {
        'f'
    }
}

/// How one character stands within a JSON string as `serde_json` writes
/// it: `"` and `\` behind a `\`; backspace, tab, line feed, form feed and
/// carriage return as `\b`, `\t`, `\n`, `\f`, `\r`; the other control
/// characters below `0x20` as `\u00` and two lowercase hex digits; every
/// other character as itself.
pub open spec fn json_escape(c: char) -> Seq<char> {
    if c == '"' {
        seq!['\\', '"']
    } else if c == '\\' {
        seq!['\\', '\\']
    } else if c == '\u{8}' {
        seq!['\\', 'b']
    } else if c == '\t' {
        seq!['\\', 't']
    } else if c == '\n' {
        seq!['\\', 'n']
    } else if c == '\u{c}' {
        seq!['\\', 'f']
    } else if c == '\r' {
        seq!['\\', 'r']
    } else if (c as int) < 0x20 {
        seq!['\\', 'u', '0', '0', hex_digit(c as int / 16), hex_digit(c as int % 16)]
    } else {
        seq![c]
    }
}

/// The characters of `s`, each as it stands within a JSON string.
pub open spec fn json_escaped(s: Seq<char>) -> Seq<char>
    decreases s.len(),
{
    if s.len() == 0 {
        Seq::empty()
    } else {
        json_escaped(s.drop_last()) + json_escape(s.last())
    }
}

/// The JSON text that `serde_json` writes for a string: the string between
/// double quotes, each character escaped as `json_escape` says.
pub open spec fn json_string(s: Seq<char>) -> Seq<char> {
    seq!['"'] + json_escaped(s) + seq!['"']
}

/// Calls `serde_json::to_string` on a string slice, which writes it as a JSON
/// string into a `Vec<u8>`. Writing into a vector does not fail, so a text
/// always comes back: the string between double quotes, escaped through
/// serde_json's escape table.
#[verifier::external_body]
fn json_string_literal(s: &str) -> (r: Option<String>)
    ensures
        r is Some,
        r matches Some(t) ==> t@ == json_string(s@),
{
    serde_json::to_string(s).ok()
}

/// The body of a rename request whose new name is written in JSON as
/// `name_json`: `{"new_name":<name_json>}`.
pub open spec fn rename_body_of(name_json: Seq<char>) -> Seq<char> {
    "{\"new_name\":"@ + name_json + "}"@
}

/// The body of a rename request: `{"new_name":<name>}`.
pub open spec fn rename_body(new_name: Seq<char>) -> Seq<char> {
    rename_body_of(json_string(new_name))
}

impl Api {
    /// The server's address, `http://127.0.0.1:8080/api/`.
    pub fn new() -> (r: Api)
        ensures
            r.base_url@ == "http://127.0.0.1:8080/api/"@,
    {
        let mut base_url = String::new();
        push_str(&mut base_url, "http://127.0.0.1:8080/api/");
        Api { base_url }
    }

    /// The address at which the server lists the absolute directory `path`.
    pub fn list_dir_url(&self, path: &str) -> (r: String)
        requires
            path@.len() > 0 && path@[0] == '/',
        ensures
            r@ == self.base_url@ + "list"@ + path@,
    {
        let mut r = String::new();
        push_str(&mut r, self.base_url.as_str());
        push_str(&mut r, "list");
        push_str(&mut r, path);
        r
    }

    /// How the client reads `size` bytes from `offset` of the file at `path`:
    /// nothing for an empty read, else a ranged `GET` of the file for the
    /// bytes `offset` to `offset + size - 1`.
    pub fn read_file_contents_request(&self, path: &str, offset: u64, size: u32) -> (r: ReadPlan)
        requires
            size == 0 || offset + size <= u64::MAX,
        ensures
            plans_read(r, self.base_url@, path@, offset, size),
            size > 0 ==> (r matches ReadPlan::Fetch { range, .. } && range@ == "bytes="@ + decimal(
                offset as nat,
            ) + seq!['-'] + decimal((offset + size - 1) as nat)),
    {
        if size == 0 {
            return ReadPlan::Nothing;
        }
        let end = offset + (size as u64 - 1);
        let mut range = String::new();
        push_str(&mut range, "bytes=");
        push_decimal(&mut range, offset);
        push_char(&mut range, '-');
        push_decimal(&mut range, end);
        proof {
            reveal_strlit("bytes=");
        }
        assert(range@ == range_text(offset, read_end(offset, size)));
        assert(bytes_unit() == "bytes="@);
        let p = chars_of(path);
        let clean = trim_slashes_start(p.as_slice());
        let mut url = String::new();
        push_str(&mut url, self.base_url.as_str());
        push_str(&mut url, "files/");
        push_chars(&mut url, clean.as_slice());
        ReadPlan::Fetch { url, range }
    }

    /// What a read comes to, from the status of the server's answer and its
    /// body (`None` where the body could not be read).
    pub fn read_file_contents_outcome(status: u16, body: Option<Vec<u8>>) -> (r: Result<Vec<u8>, IoErrorKind>)
        ensures
            match read_outcome_spec(status, match body { Some(b) => Some(b@), None => None }) {
                Ok(b) => r matches Ok(v) && v@ == b,
                Err(e) => r == Err::<Vec<u8>, IoErrorKind>(e),
            },
    {
        if status == 206 {
            match body {
                Some(b) => Ok(b),
                None => Err(IoErrorKind::Other),
            }
        } else if status == 404 {
            Err(IoErrorKind::NotFound)
        } else {
            Err(IoErrorKind::Other)
        }
    }

    /// The address to which the content of the file at the absolute `path` is
    /// written.
    pub fn write_file_contents_url(&self, path: &str) -> (r: String)
        ensures
            r@ == self.base_url@ + "files"@ + path@,
    {
        let mut r = String::new();
        push_str(&mut r, self.base_url.as_str());
        push_str(&mut r, "files");
        push_str(&mut r, path);
        r
    }

    /// What a write comes to, from the status of the server's answer: done on
    /// success, refused otherwise.
    pub fn write_file_contents_outcome(status: u16) -> (r: Result<(), IoErrorKind>)
        ensures
            r == (if is_success(status) {
                Ok::<(), IoErrorKind>(())
            } else {
                Err(IoErrorKind::PermissionDenied)
            }),
    {
        if 200 <= status && status <= 299 {
            Ok(())
        } else {
            Err(IoErrorKind::PermissionDenied)
        }
    }

    /// The address at which the server deletes the file at the absolute `path`.
    pub fn delete_file_url(&self, path: &str) -> (r: String)
        ensures
            r@ == self.base_url@ + "files"@ + path@,
    {
        self.write_file_contents_url(path)
    }

    /// The address at which the server creates the directory `path`.
    pub fn create_directory_url(&self, path: &str) -> (r: String)
        ensures
            r@ == self.base_url@ + "mkdir/"@ + trim_leading_slashes(path@),
    {
        let p = chars_of(path);
        let clean = trim_slashes_start(p.as_slice());
        let mut r = String::new();
        push_str(&mut r, self.base_url.as_str());
        push_str(&mut r, "mkdir/");
        push_chars(&mut r, clean.as_slice());
        r
    }

    /// What a request that only succeeds or fails comes to: done on success,
    /// else the failing status.
    pub fn status_outcome(status: u16) -> (r: Result<(), u16>)
        ensures
            r == (if is_success(status) {
                Ok::<(), u16>(())
            } else {
                Err(status)
            }),
    {
        if 200 <= status && status <= 299 {
            Ok(())
        } else {
            Err(status)
        }
    }

    /// The request that renames the file at `old_path` to `new_name`: a
    /// `PATCH` of the file with the JSON body `{"new_name":<name>}`, the name
    /// written as a JSON string.
    pub fn rename_entry_request(&self, old_path: &str, new_name: &str) -> (r: Option<RenamePlan>)
        ensures
            r matches Some(p) && p.url@ == self.base_url@ + "files/"@ + trim_leading_slashes(
                old_path@,
            ) && p.body@ == rename_body(new_name@),
    {
        self.rename_entry_plan(old_path, json_string_literal(new_name))
    }

    /// The request that renames the file at `old_path`, given the JSON text
    /// of the new name (`None` where it could not be written): a `PATCH` of
    /// the file with the body `{"new_name":<name_json>}`, and no request
    /// without the name.
    pub fn rename_entry_plan(&self, old_path: &str, name_json: Option<String>) -> (r: Option<
        RenamePlan,
    >)
        ensures
            match name_json {
                None => r is None,
                Some(n) => r matches Some(p) && p.url@ == self.base_url@ + "files/"@
                    + trim_leading_slashes(old_path@) && p.body@ == rename_body_of(n@),
            },
    {
        let name = match name_json {
            Some(n) => n,
            None => {
                return None;
            },
        };
        let p = chars_of(old_path);
        let clean = trim_slashes_start(p.as_slice());
        let mut url = String::new();
        push_str(&mut url, self.base_url.as_str());
        push_str(&mut url, "files/");
        push_chars(&mut url, clean.as_slice());
        let mut body = String::new();
        push_str(&mut body, "{\"new_name\":");
        push_str(&mut body, name.as_str());
        push_str(&mut body, "}");
        Some(RenamePlan { url, body })
    }
}

/// The byte range that the client asks for in a read is the range that the
/// server's `parse_range` grants, cut to the end of the file: for a read of
/// `size > 0` bytes from `offset` of a non-empty file, the server sends the
/// bytes from `offset` to the smaller of the read's last byte and the file's
/// last byte, and refuses the range where `offset` lies past the file's end.
/// An empty file is always answered with the range `(0, 0)`.
pub proof fn lemma_requested_range_is_served(offset: u64, size: u32, file_size: u64)
    requires
        size > 0,
        offset + size <= u64::MAX,
    ensures
        ({
            let asked_end = read_end(offset, size);
            let end = if asked_end < file_size {
                asked_end
            } else {
                (file_size - 1) as u64
            };
            parse_range_spec(Some(range_text(offset, asked_end)), file_size) == if file_size == 0 {
                Ok::<(u64, u64), RangeError>((0u64, 0u64))
            } else if offset > end {
                Err(RangeError::InvalidBounds)
            } else {
                Ok((offset, end))
            }
        }),
{
    let asked_end = read_end(offset, size);
    let h = range_text(offset, asked_end);
    let a = decimal(offset as nat);
    let b = decimal(asked_end as nat);
    lemma_decimal_digits(offset as nat);
    lemma_decimal_digits(asked_end as nat);
    lemma_parse_decimal(offset);
    lemma_parse_decimal(asked_end);
    let dash: int = 6 + a.len() as int;
    assert(h == bytes_unit() + a + seq!['-'] + b);
    assert(bytes_unit().is_prefix_of(h));
    assert forall|k: int| 6 <= k < dash implies h[k] != '-' by {
        assert(h[k] == a[k - 6]);
        assert(is_digit(a[k - 6]));
    }
    assert(h[dash] == '-');
    lemma_find_char_skips(h, '-', 6, dash);
    assert(h.subrange(6, dash) == a);
    assert forall|k: int| dash + 1 <= k < h.len() implies h[k] != '-' by {
        assert(h[k] == b[k - dash - 1]);
        assert(is_digit(b[k - dash - 1]));
    }
    lemma_find_char_skips(h, '-', dash + 1, h.len() as int);
    assert(h.subrange(dash + 1, h.len() as int) == b);
}


/// A read of `size > 0` bytes asks for `size` bytes: the server, holding a
/// file that reaches at least to the read's end, grants the range from
/// `offset` to `offset + size - 1`, which is `size` bytes long.
pub proof fn lemma_read_asks_for_size_bytes(
    plan: ReadPlan,
    base: Seq<char>,
    path: Seq<char>,
    offset: u64,
    size: u32,
    file_size: u64,
)
    requires
        size > 0,
        offset + size <= file_size,
        plans_read(plan, base, path, offset, size),
    ensures
        plan matches ReadPlan::Fetch { range, .. } && parse_range_spec(Some(range@), file_size) == Ok::<
            (u64, u64),
            RangeError,
        >((offset, (offset + size - 1) as u64)) && (offset + size - 1) - offset + 1 == size,
{
    lemma_requested_range_is_served(offset, size, file_size);
}

} // verus!
