use vstd::prelude::*;
use vstd::utf8::{decode_utf8, valid_utf8};

use crate::filter::glob::{normalize_path, normalize_path_chars};
use crate::filter::records::{
    decode_utf8_bytes, find_nul, first_byte_index, line_records, lemma_utf8_error_offset, nul_records,
    parse_lines, parse_nul_records, split_chars, split_on, utf8_error_offset,
};
use crate::filter::rule::strip_dot_slash;
use crate::text::{chars_equal, chars_of, copy_chars, string_from_chars};

verus! {

/// Why a files-from input could not be read.
#[derive(Debug, Clone, PartialEq, Eq, Structural)]
pub enum FilesFromError {
    InvalidUtf8 { offset: usize },
    UnexpectedNul { offset: usize },
}

/// Why a files-from record was rejected.
#[derive(Debug, Clone, PartialEq, Eq)]
pub enum FilesFromPathError {
    Empty,
    NulByte { record: String },
    RootEscape { record: String },
}

/// The text of a `FilesFromError`.
pub open spec fn files_from_error_text(e: FilesFromError) -> Seq<char> {
    match e {
        FilesFromError::InvalidUtf8 { offset } => "files-from input is not valid UTF-8 at byte "@
            + crate::decimal::decimal_of(offset as nat),
        FilesFromError::UnexpectedNul { offset } => "files-from input contains NUL at byte "@
            + crate::decimal::decimal_of(offset as nat) + "; use --from0"@,
    }
}

impl FilesFromError {
    /// The error as a message.
    pub fn message(&self) -> (r: String)
        ensures
            r@ == files_from_error_text(*self),
    {
        match self {
            FilesFromError::InvalidUtf8 { offset } => {
                let mut out = String::from_str("files-from input is not valid UTF-8 at byte ");
                let n = crate::decimal::decimal_text(*offset as u128);
                vstd::string::StringExecFns::append(&mut out, n.as_str());
                out
            },
            FilesFromError::UnexpectedNul { offset } => {
                let mut out = String::from_str("files-from input contains NUL at byte ");
                let n = crate::decimal::decimal_text(*offset as u128);
                vstd::string::StringExecFns::append(&mut out, n.as_str());
                vstd::string::StringExecFns::append(&mut out, "; use --from0");
                out
            },
        }
    }
}

/// The text of a `FilesFromPathError`.
pub open spec fn files_from_path_error_text(e: FilesFromPathError) -> Seq<char> {
    match e {
        FilesFromPathError::Empty => "files-from record is empty"@,
        FilesFromPathError::NulByte { record } => "files-from record contains a NUL byte: `"@
            + record@ + "`"@,
        FilesFromPathError::RootEscape { record } =>
            "files-from record must stay within the transfer root: `"@ + record@ + "`"@,
    }
}

impl FilesFromPathError {
    /// The error as a message.
    pub fn message(&self) -> (r: String)
        ensures
            r@ == files_from_path_error_text(*self),
    {
        match self {
            FilesFromPathError::Empty => String::from_str("files-from record is empty"),
            FilesFromPathError::NulByte { record } => crate::text::join3(
                "files-from record contains a NUL byte: `",
                record.as_str(),
                "`",
            ),
            FilesFromPathError::RootEscape { record } => crate::text::join3(
                "files-from record must stay within the transfer root: `",
                record.as_str(),
                "`",
            ),
        }
    }
}

/// The kind of a rejected files-from record.
pub enum PathErrorKind {
    Empty,
    NulByte,
    RootEscape,
}

/// The non-empty records among `records`, in order.
pub open spec fn non_empty_records(records: Seq<Seq<char>>) -> Seq<Seq<char>>
    decreases records.len(),
{
    if records.len() == 0 {
        Seq::empty()
    } else {
        let prev = non_empty_records(records.drop_last());
        if records.last().len() == 0 {
            prev
        } else {
            prev.push(records.last())
        }
    }
}

/// The records of newline-separated files-from text: each without one trailing carriage
/// return, empty records dropped.
pub open spec fn spec_files_from_lines(text: Seq<char>) -> Seq<Seq<char>> {
    non_empty_records(line_records(text))
}

/// The records of a files-from byte input, or the error reading it.
pub open spec fn spec_files_from_bytes(input: Seq<u8>, from0: bool) -> Result<Seq<Seq<char>>, FilesFromError> {
    if from0 {
        match nul_records(input) {
            Ok(records) => Ok(records),
            Err(offset) => Err(FilesFromError::InvalidUtf8 { offset: offset as usize }),
        }
    } else {
        match first_byte_index(input, 0u8) {
            Some(offset) => Err(FilesFromError::UnexpectedNul { offset: offset as usize }),
            None => if valid_utf8(input) {
                Ok(spec_files_from_lines(decode_utf8(input)))
            } else {
                Err(FilesFromError::InvalidUtf8 { offset: utf8_error_offset(input) as usize })
            },
        }
    }
}

fn drop_empty(records: Vec<Vec<char>>) -> (r: Vec<String>)
    ensures
        r@.map_values(|s: String| s@) == non_empty_records(records@.map_values(|v: Vec<char>| v@)),
{
    let ghost rs = records@.map_values(|v: Vec<char>| v@);
    let mut out: Vec<String> = Vec::new();
    let mut k: usize = 0;
    while k < records.len()
        invariant
            rs == records@.map_values(|v: Vec<char>| v@),
            k <= rs.len(),
            out@.map_values(|s: String| s@) == non_empty_records(rs.take(k as int)),
        decreases records.len() - k,
    {
        assert(rs.take(k + 1).drop_last() =~= rs.take(k as int));
        let ghost before = out@.map_values(|s: String| s@);
        if records[k].len() > 0 {
            out.push(string_from_chars(records[k].as_slice()));
            assert(out@.map_values(|s: String| s@) =~= before.push(rs[k as int]));
        }
        k = k + 1;
    }
    assert(rs.take(rs.len() as int) =~= rs);
    out
}

/// The records of newline-separated files-from text: each without one trailing carriage
/// return, empty records dropped; spaces are kept.
pub fn parse_files_from(input: &str) -> (r: Vec<String>)
    ensures
        r@.map_values(|s: String| s@) == spec_files_from_lines(input@),
{
    let chars = chars_of(input);
    let lines = parse_lines(chars.as_slice());
    drop_empty(lines)
}

/// The non-empty NUL-separated records of `input`.
pub fn parse_files_from0(input: &[u8]) -> (r: Result<Vec<String>, FilesFromError>)
    ensures
        match spec_files_from_bytes(input@, true) {
            Ok(records) => r matches Ok(v) && v@.map_values(|s: String| s@) == records,
            Err(e) => r == Err::<Vec<String>, FilesFromError>(e),
        },
{
    parse_files_from_bytes(input, true)
}

/// The records of a files-from byte input: NUL-separated with `from0`, otherwise
/// newline-separated text in which a NUL byte is an error.
pub fn parse_files_from_bytes(input: &[u8], from0: bool) -> (r: Result<Vec<String>, FilesFromError>)
    ensures
        match spec_files_from_bytes(input@, from0) {
            Ok(records) => r matches Ok(v) && v@.map_values(|s: String| s@) == records,
            Err(e) => r == Err::<Vec<String>, FilesFromError>(e),
        },
{
    if from0 {
        match parse_nul_records(input) {
            Ok(records) => Ok(records),
            Err(offset) => Err(FilesFromError::InvalidUtf8 { offset }),
        }
    } else {
        if let Some(offset) = find_nul(input) {
            return Err(FilesFromError::UnexpectedNul { offset });
        }
        match decode_utf8_bytes(input) {
            Ok(text) => Ok(parse_files_from(text.as_str())),
            Err(offset) => {
                proof {
                    lemma_utf8_error_offset(input@, offset as int);
                }
                Err(FilesFromError::InvalidUtf8 { offset })
            },
        }
    }
}

/// A path component `..`.
pub open spec fn is_parent_component(c: Seq<char>) -> bool {
    c.len() == 2 && c[0] == '.' && c[1] == '.'
}

/// The normalized record, or the kind of rejection: empty after normalization, holding a NUL,
/// or leaving the transfer root (absolute, drive-qualified, or with a `..` component).
pub open spec fn spec_normalize_record(record: Seq<char>) -> Result<Seq<char>, PathErrorKind> {
    let n = strip_dot_slash(normalize_path(record));
    if n.len() == 0 {
        Err(PathErrorKind::Empty)
    } else if n.contains('\0') {
        Err(PathErrorKind::NulByte)
    } else if n[0] == '/' || n.contains(':') {
        Err(PathErrorKind::RootEscape)
    } else if exists|k: int| 0 <= k < split_on(n, '/').len() && is_parent_component(#[trigger] split_on(n, '/')[k]) {
        Err(PathErrorKind::RootEscape)
    } else {
        Ok(n)
    }
}

fn contains_char(s: &[char], c: char) -> (r: bool)
    ensures
        r == s@.contains(c),
{
    let mut i: usize = 0;
    while i < s.len()
        invariant
            i <= s@.len(),
            forall|j: int| 0 <= j < i ==> s@[j] != c,
        decreases s.len() - i,
    {
        if s[i] == c {
            assert(s@[i as int] == c);
            return true;
        }
        i = i + 1;
    }
    false
}

fn strip_dot_slash_chars(s: &[char]) -> (r: Vec<char>)
    ensures
        r@ == strip_dot_slash(s@),
{
    let mut start: usize = 0;
    assert(s@.skip(0) =~= s@);
    while start < s.len() && s.len() - start >= 2 && s[start] == '.' && s[start + 1] == '/'
        invariant
            start <= s@.len(),
            strip_dot_slash(s@) == strip_dot_slash(s@.skip(start as int)),
        decreases s.len() - start,
    {
        assert(s@.skip(start as int).skip(2) =~= s@.skip(start + 2));
        start = start + 2;
    }
    assert(s@.skip(start as int) =~= s@.subrange(start as int, s@.len() as int));
    copy_chars(s, start, s.len())
}

/// Normalizes one files-from record: separators become `/`, leading `./` is dropped; empty
/// records, records with NUL, and records that leave the transfer root are rejected.
pub fn normalize_files_from_record(record: &str) -> (r: Result<String, FilesFromPathError>)
    ensures
        match spec_normalize_record(record@) {
            Ok(n) => r matches Ok(s) && s@ == n,
            Err(PathErrorKind::Empty) => r matches Err(FilesFromPathError::Empty),
            Err(PathErrorKind::NulByte) => r matches Err(FilesFromPathError::NulByte { record: x }) && x@ == record@,
            Err(PathErrorKind::RootEscape) => r matches Err(FilesFromPathError::RootEscape { record: x }) && x@ == record@,
        },
{
    let chars = chars_of(record);
    let normalized = normalize_path_chars(chars.as_slice());
    let n = strip_dot_slash_chars(normalized.as_slice());
    if n.len() == 0 {
        return Err(FilesFromPathError::Empty);
    }
    if contains_char(n.as_slice(), '\0') {
        return Err(FilesFromPathError::NulByte { record: string_from_chars(chars.as_slice()) });
    }
    if n[0] == '/' || contains_char(n.as_slice(), ':') {
        return Err(FilesFromPathError::RootEscape { record: string_from_chars(chars.as_slice()) });
    }
    let components = split_chars(n.as_slice(), '/');
    let ghost cs = components@.map_values(|v: Vec<char>| v@);
    let mut k: usize = 0;
    #[verifier::loop_isolation(false)]
    while k < components.len()
        invariant
            cs == components@.map_values(|v: Vec<char>| v@),
            cs == split_on(n@, '/'),
            k <= cs.len(),
            forall|j: int| 0 <= j < k ==> !is_parent_component(#[trigger] cs[j]),
        decreases components.len() - k,
    {
        let c = &components[k];
        assert(c@ == cs[k as int]);
        if c.len() == 2 && c[0] == '.' && c[1] == '.' {
            assert(is_parent_component(cs[k as int]));
            return Err(FilesFromPathError::RootEscape { record: string_from_chars(chars.as_slice()) });
        }
        k = k + 1;
    }
    Ok(string_from_chars(n.as_slice()))
}

/// Normalizes every record (see `normalize_files_from_record`); the first rejected record
/// is the error.
pub fn normalize_files_from_records(records: &[&str]) -> (r: Result<Vec<String>, FilesFromPathError>)
    ensures
        r is Ok <==> forall|k: int| 0 <= k < records@.len() ==> (#[trigger] spec_normalize_record(records@[k]@)) is Ok,
        r matches Ok(v) ==> v@.len() == records@.len() && forall|k: int|
            0 <= k < records@.len() ==> Ok::<Seq<char>, PathErrorKind>(#[trigger] v@[k]@) == spec_normalize_record(records@[k]@),
        r matches Err(e) ==> exists|k: int|
            0 <= k < records@.len() && (forall|j: int| 0 <= j < k ==> (#[trigger] spec_normalize_record(records@[j]@)) is Ok)
                && match spec_normalize_record(#[trigger] records@[k]@) {
                    Ok(_) => false,
                    Err(PathErrorKind::Empty) => e matches FilesFromPathError::Empty,
                    Err(PathErrorKind::NulByte) => e matches FilesFromPathError::NulByte { record: x } && x@ == records@[k]@,
                    Err(PathErrorKind::RootEscape) => e matches FilesFromPathError::RootEscape { record: x } && x@ == records@[k]@,
                },
{
    let mut out: Vec<String> = Vec::new();
    let mut k: usize = 0;
    while k < records.len()
        invariant
            k <= records@.len(),
            out@.len() == k,
            forall|j: int| 0 <= j < k ==> Ok::<Seq<char>, PathErrorKind>(#[trigger] out@[j]@) == spec_normalize_record(records@[j]@),
        decreases records.len() - k,
    {
        match normalize_files_from_record(records[k]) {
            Ok(s) => {
                out.push(s);
            },
            Err(e) => {
                assert(forall|j: int| 0 <= j < k ==> (#[trigger] spec_normalize_record(records@[j]@)) is Ok) by {
                    assert forall|j: int| 0 <= j < k implies (#[trigger] spec_normalize_record(records@[j]@)) is Ok by {
                        assert(Ok::<Seq<char>, PathErrorKind>(out@[j]@) == spec_normalize_record(records@[j]@));
                    }
                }
                return Err(e);
            },
        }
        k = k + 1;
    }
    assert forall|j: int| 0 <= j < records@.len() implies (#[trigger] spec_normalize_record(records@[j]@)) is Ok by {
        assert(Ok::<Seq<char>, PathErrorKind>(out@[j]@) == spec_normalize_record(records@[j]@));
    }
    Ok(out)
}

} // verus!
