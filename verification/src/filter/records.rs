use vstd::prelude::*;
use vstd::utf8::{decode_utf8, valid_utf8};

use crate::bytes::copy_range;
use crate::text::{chars_of, copy_chars, string_from_chars};

verus! {

/// `s` split at every `sep` (the separators dropped); always at least one piece.
pub open spec fn split_on<T>(s: Seq<T>, sep: T) -> Seq<Seq<T>>
    decreases s.len(),
{
    if s.len() == 0 {
        seq![Seq::empty()]
    } else {
        let prev = split_on(s.drop_last(), sep);
        if s.last() == sep {
            prev.push(Seq::empty())
        } else {
            prev.update(prev.len() - 1, prev.last().push(s.last()))
        }
    }
}

/// Splitting always gives at least one piece.
pub proof fn lemma_split_on_nonempty<T>(s: Seq<T>, sep: T)
    ensures
        split_on(s, sep).len() >= 1,
    decreases s.len(),
{
    if s.len() > 0 {
        lemma_split_on_nonempty(s.drop_last(), sep);
    }
}

/// `bytes` split at every NUL byte.
pub fn split_bytes(bytes: &[u8], sep: u8) -> (r: Vec<Vec<u8>>)
    ensures
        r@.map_values(|v: Vec<u8>| v@) == split_on(bytes@, sep),
{
    let mut pieces: Vec<Vec<u8>> = Vec::new();
    let mut current: Vec<u8> = Vec::new();
    let mut i: usize = 0;
    while i < bytes.len()
        invariant
            i <= bytes@.len(),
            pieces@.map_values(|v: Vec<u8>| v@).push(current@) == split_on(bytes@.take(i as int), sep),
        decreases bytes.len() - i,
    {
        let ghost before = pieces@.map_values(|v: Vec<u8>| v@);
        assert(bytes@.take(i + 1).drop_last() =~= bytes@.take(i as int));
        proof {
            lemma_split_on_nonempty(bytes@.take(i as int), sep);
        }
        if bytes[i] == sep {
            let mut done: Vec<u8> = Vec::new();
            std::mem::swap(&mut done, &mut current);
            pieces.push(done);
            assert(pieces@.map_values(|v: Vec<u8>| v@) =~= before.push(split_on(bytes@.take(i as int), sep).last()));
            assert(pieces@.map_values(|v: Vec<u8>| v@).push(current@) =~= split_on(bytes@.take(i + 1), sep));
        } else {
            let ghost cur = current@;
            current.push(bytes[i]);
            assert(pieces@.map_values(|v: Vec<u8>| v@).push(current@) =~= split_on(bytes@.take(i + 1), sep));
        }
        i = i + 1;
    }
    assert(bytes@.take(bytes@.len() as int) =~= bytes@);
    pieces.push(current);
    pieces
}

/// `chars` split at every `sep`.
pub fn split_chars(chars: &[char], sep: char) -> (r: Vec<Vec<char>>)
    ensures
        r@.map_values(|v: Vec<char>| v@) == split_on(chars@, sep),
{
    let mut pieces: Vec<Vec<char>> = Vec::new();
    let mut current: Vec<char> = Vec::new();
    let mut i: usize = 0;
    while i < chars.len()
        invariant
            i <= chars@.len(),
            pieces@.map_values(|v: Vec<char>| v@).push(current@) == split_on(chars@.take(i as int), sep),
        decreases chars.len() - i,
    {
        let ghost before = pieces@.map_values(|v: Vec<char>| v@);
        assert(chars@.take(i + 1).drop_last() =~= chars@.take(i as int));
        proof {
            lemma_split_on_nonempty(chars@.take(i as int), sep);
        }
        if chars[i] == sep {
            let mut done: Vec<char> = Vec::new();
            std::mem::swap(&mut done, &mut current);
            pieces.push(done);
            assert(pieces@.map_values(|v: Vec<char>| v@) =~= before.push(split_on(chars@.take(i as int), sep).last()));
            assert(pieces@.map_values(|v: Vec<char>| v@).push(current@) =~= split_on(chars@.take(i + 1), sep));
        } else {
            current.push(chars[i]);
            assert(pieces@.map_values(|v: Vec<char>| v@).push(current@) =~= split_on(chars@.take(i + 1), sep));
        }
        i = i + 1;
    }
    assert(chars@.take(chars@.len() as int) =~= chars@);
    pieces.push(current);
    pieces
}

/// `k` is the length of the longest prefix of `bytes` that is valid UTF-8.
pub open spec fn is_utf8_valid_prefix_len(bytes: Seq<u8>, k: int) -> bool {
    &&& 0 <= k <= bytes.len()
    &&& valid_utf8(bytes.take(k))
    &&& forall|j: int| k < j <= bytes.len() ==> !valid_utf8(#[trigger] bytes.take(j))
}

/// The byte offset at which UTF-8 decoding of `bytes` fails.
pub open spec fn utf8_error_offset(bytes: Seq<u8>) -> int {
    choose|k: int| is_utf8_valid_prefix_len(bytes, k)
}

/// The longest valid prefix length is unique.
pub proof fn lemma_utf8_error_offset(bytes: Seq<u8>, k: int)
    requires
        is_utf8_valid_prefix_len(bytes, k),
    ensures
        utf8_error_offset(bytes) == k,
{
    let c = utf8_error_offset(bytes);
    assert(is_utf8_valid_prefix_len(bytes, c));
    if c < k {
        assert(!valid_utf8(bytes.take(k)));
    } else if k < c {
        assert(!valid_utf8(bytes.take(c)));
    }
}

/// Calls `std::str::from_utf8`. Trusted: it succeeds exactly on valid UTF-8 and then holds
/// the decoded characters; on failure the returned `Utf8Error::valid_up_to` is the length of
/// the longest valid prefix, as the standard library documents.
#[verifier::external_body]
pub(crate) fn decode_utf8_bytes(bytes: &[u8]) -> (r: Result<String, usize>)
    ensures
        r is Ok <==> valid_utf8(bytes@),
        r matches Ok(s) ==> s@ == decode_utf8(bytes@),
        r matches Err(k) ==> is_utf8_valid_prefix_len(bytes@, k as int),
{
    match std::str::from_utf8(bytes) {
        Ok(text) => Ok(text.to_owned()),
        Err(error) => Err(error.valid_up_to()),
    }
}

/// Where the `k`-th piece of a NUL split starts in the input.
pub open spec fn piece_offset(pieces: Seq<Seq<u8>>, k: int) -> int
    decreases k,
{
    if k <= 0 {
        0
    } else {
        piece_offset(pieces, k - 1) + pieces[k - 1].len() + 1
    }
}

/// The non-empty NUL-separated records from piece `k` on, decoded, or the input offset of the
/// first invalid UTF-8 byte.
pub open spec fn nul_records_from(pieces: Seq<Seq<u8>>, k: int) -> Result<Seq<Seq<char>>, int>
    decreases pieces.len() - k,
{
    if k < 0 || k >= pieces.len() {
        Ok(Seq::empty())
    } else if pieces[k].len() == 0 {
        nul_records_from(pieces, k + 1)
    } else if !valid_utf8(pieces[k]) {
        Err(piece_offset(pieces, k) + utf8_error_offset(pieces[k]))
    } else {
        match nul_records_from(pieces, k + 1) {
            Ok(rest) => Ok(seq![decode_utf8(pieces[k])] + rest),
            Err(e) => Err(e),
        }
    }
}

/// The non-empty records of NUL-separated input.
pub open spec fn nul_records(input: Seq<u8>) -> Result<Seq<Seq<char>>, int> {
    nul_records_from(split_on(input, 0u8), 0)
}

proof fn lemma_split_total_len(s: Seq<u8>, sep: u8)
    ensures
        piece_offset(split_on(s, sep), split_on(s, sep).len() as int) == s.len() + 1,
    decreases s.len(),
{
    lemma_split_on_nonempty(s, sep);
    if s.len() > 0 {
        let prev = split_on(s.drop_last(), sep);
        lemma_split_total_len(s.drop_last(), sep);
        lemma_split_on_nonempty(s.drop_last(), sep);
        let cur = split_on(s, sep);
        let n = prev.len() as int;
        if s.last() == sep {
            lemma_piece_offset_prefix(prev, cur, n);
            assert(piece_offset(cur, n + 1) == piece_offset(cur, n) + cur[n].len() + 1);
        } else {
            lemma_piece_offset_prefix(prev, cur, n - 1);
            assert(piece_offset(cur, n) == piece_offset(cur, n - 1) + cur[n - 1].len() + 1);
            assert(piece_offset(prev, n) == piece_offset(prev, n - 1) + prev[n - 1].len() + 1);
        }
    } else {
        let cur = split_on(s, sep);
        assert(piece_offset(cur, 1) == piece_offset(cur, 0) + cur[0].len() + 1);
    }
}

proof fn lemma_piece_offset_prefix(a: Seq<Seq<u8>>, b: Seq<Seq<u8>>, k: int)
    requires
        0 <= k <= a.len(),
        k <= b.len(),
        forall|j: int| 0 <= j < k ==> a[j] == b[j],
    ensures
        piece_offset(a, k) == piece_offset(b, k),
    decreases k,
{
    if k > 0 {
        lemma_piece_offset_prefix(a, b, k - 1);
    }
}

proof fn lemma_piece_offset_mono(pieces: Seq<Seq<u8>>, j: int, k: int)
    requires
        0 <= j <= k <= pieces.len(),
    ensures
        piece_offset(pieces, j) + (k - j) <= piece_offset(pieces, k),
    decreases k - j,
{
    if j < k {
        lemma_piece_offset_mono(pieces, j, k - 1);
    }
}

/// Decodes the non-empty NUL-separated records of `input`; `Err` holds the input offset of
/// the first byte that is not valid UTF-8.
pub fn parse_nul_records(input: &[u8]) -> (r: Result<Vec<String>, usize>)
    ensures
        match nul_records(input@) {
            Ok(records) => r matches Ok(v) && v@.map_values(|s: String| s@) == records,
            Err(offset) => r matches Err(x) && x as int == offset,
        },
{
    let input_len = input.len();
    let pieces = split_bytes(input, 0);
    let ghost ps = pieces@.map_values(|v: Vec<u8>| v@);
    proof {
        lemma_split_total_len(input@, 0u8);
    }
    let mut records: Vec<String> = Vec::new();
    let mut offset: usize = 0;
    let mut k: usize = 0;
    while k < pieces.len()
        invariant
            ps == pieces@.map_values(|v: Vec<u8>| v@),
            ps == split_on(input@, 0u8),
            k <= ps.len(),
            k < ps.len() ==> offset == piece_offset(ps, k as int),
            piece_offset(ps, ps.len() as int) == input@.len() + 1,
            input_len == input@.len(),
            nul_records(input@) == match nul_records_from(ps, k as int) {
                Ok(rest) => Ok(records@.map_values(|s: String| s@) + rest),
                Err(e) => Err(e),
            },
        decreases pieces.len() - k,
    {
        let piece = &pieces[k];
        assert(piece@ == ps[k as int]);
        proof {
            lemma_piece_offset_mono(ps, k + 1, ps.len() as int);
            assert(piece_offset(ps, k + 1) == piece_offset(ps, k as int) + ps[k as int].len() + 1);
        }
        if piece.len() > 0 {
            match decode_utf8_bytes(piece.as_slice()) {
                Ok(text) => {
                    let ghost before = records@.map_values(|s: String| s@);
                    records.push(text);
                    assert(records@.map_values(|s: String| s@) =~= before.push(decode_utf8(ps[k as int])));
                    proof {
                        match nul_records_from(ps, k + 1) {
                            Ok(rest) => {
                                assert(before + (seq![decode_utf8(ps[k as int])] + rest) =~= before.push(decode_utf8(ps[k as int])) + rest);
                            },
                            Err(_) => {},
                        }
                    }
                },
                Err(bad) => {
                    proof {
                        lemma_utf8_error_offset(piece@, bad as int);
                    }
                    return Err(offset + bad);
                },
            }
        } else {
        }
        if k + 1 < pieces.len() {
            offset = offset + piece.len() + 1;
        }
        k = k + 1;
    }
    assert(records@.map_values(|s: String| s@) + Seq::<Seq<char>>::empty() =~= records@.map_values(|s: String| s@));
    Ok(records)
}

/// `record` without one trailing carriage return.
pub open spec fn strip_cr(record: Seq<char>) -> Seq<char> {
    if record.len() > 0 && record.last() == '\r' {
        record.drop_last()
    } else {
        record
    }
}

/// The newline-separated records of `text`, each without one trailing carriage return.
pub open spec fn line_records(text: Seq<char>) -> Seq<Seq<char>> {
    split_on(text, '\n').map_values(|r: Seq<char>| strip_cr(r))
}

/// The newline-separated records of `text` (each without one trailing carriage return).
pub fn parse_lines(text: &[char]) -> (r: Vec<Vec<char>>)
    ensures
        r@.map_values(|v: Vec<char>| v@) == line_records(text@),
{
    let pieces = split_chars(text, '\n');
    let ghost ps = pieces@.map_values(|v: Vec<char>| v@);
    let mut out: Vec<Vec<char>> = Vec::new();
    let mut k: usize = 0;
    while k < pieces.len()
        invariant
            ps == pieces@.map_values(|v: Vec<char>| v@),
            k <= ps.len(),
            out@.map_values(|v: Vec<char>| v@) == ps.take(k as int).map_values(|r: Seq<char>| strip_cr(r)),
        decreases pieces.len() - k,
    {
        let piece = &pieces[k];
        let n = piece.len();
        let line = if n > 0 && piece[n - 1] == '\r' { copy_chars(piece.as_slice(), 0, n - 1) } else { copy_chars(piece.as_slice(), 0, n) };
        assert(line@ =~= strip_cr(ps[k as int]));
        out.push(line);
        assert(ps.take(k + 1).map_values(|r: Seq<char>| strip_cr(r)) =~= ps.take(k as int).map_values(|r: Seq<char>| strip_cr(r)).push(strip_cr(ps[k as int])));
        assert(out@.map_values(|v: Vec<char>| v@) =~= ps.take(k + 1).map_values(|r: Seq<char>| strip_cr(r)));
        k = k + 1;
    }
    assert(ps.take(ps.len() as int) =~= ps);
    out
}

/// The index of the first occurrence of `b` in `bytes`.
pub open spec fn first_byte_index(bytes: Seq<u8>, b: u8) -> Option<int>
    decreases bytes.len(),
{
    if bytes.len() == 0 {
        None
    } else if bytes[0] == b {
        Some(0)
    } else {
        match first_byte_index(bytes.drop_first(), b) {
            Some(i) => Some(i + 1),
            None => None,
        }
    }
}

proof fn lemma_first_byte_index(s: Seq<u8>, b: u8, k: int)
    requires
        0 <= k <= s.len(),
        forall|j: int| 0 <= j < k ==> #[trigger] s[j] != b,
    ensures
        k < s.len() && s[k] == b ==> first_byte_index(s, b) == Some(k),
        k == s.len() ==> first_byte_index(s, b) is None,
    decreases k,
{
    if k > 0 {
        lemma_first_byte_index(s.drop_first(), b, k - 1);
    }
}

/// The index of the first NUL byte of `bytes`.
pub fn find_nul(bytes: &[u8]) -> (r: Option<usize>)
    ensures
        match r {
            Some(i) => first_byte_index(bytes@, 0u8) == Some(i as int),
            None => first_byte_index(bytes@, 0u8) is None,
        },
{
    let mut i: usize = 0;
    while i < bytes.len()
        invariant
            i <= bytes@.len(),
            forall|j: int| 0 <= j < i ==> #[trigger] bytes@[j] != 0u8,
        decreases bytes.len() - i,
    {
        if bytes[i] == 0 {
            proof { lemma_first_byte_index(bytes@, 0u8, i as int); }
            return Some(i);
        }
        i = i + 1;
    }
    proof { lemma_first_byte_index(bytes@, 0u8, i as int); }
    None
}


/// Decoding never produces more characters than there are bytes.
pub proof fn lemma_decode_utf8_len(bytes: Seq<u8>)
    requires
        valid_utf8(bytes),
    ensures
        decode_utf8(bytes).len() <= bytes.len(),
    decreases bytes.len(),
{
    if bytes.len() > 0 {
        let n = vstd::utf8::length_of_first_scalar(bytes);
        assert(1 <= n <= bytes.len());
        let rest = vstd::utf8::pop_first_scalar(bytes);
        assert(rest.len() == bytes.len() - n);
        lemma_decode_utf8_len(rest);
    }
}

/// Every piece of a split is no longer than the input.
pub proof fn lemma_split_piece_len<T>(s: Seq<T>, sep: T)
    ensures
        forall|k: int| 0 <= k < split_on(s, sep).len() ==> (#[trigger] split_on(s, sep)[k]).len() <= s.len(),
    decreases s.len(),
{
    lemma_split_on_nonempty(s, sep);
    if s.len() > 0 {
        lemma_split_piece_len(s.drop_last(), sep);
        lemma_split_on_nonempty(s.drop_last(), sep);
    }
}


/// Decoded NUL-separated records are no longer than the longest piece.
pub proof fn lemma_nul_records_len(pieces: Seq<Seq<u8>>, k: int, bound: int)
    requires
        forall|j: int| 0 <= j < pieces.len() ==> (#[trigger] pieces[j]).len() <= bound,
    ensures
        nul_records_from(pieces, k) matches Ok(rs) ==> forall|i: int| 0 <= i < rs.len() ==> (#[trigger] rs[i]).len() <= bound,
    decreases pieces.len() - k,
{
    if 0 <= k < pieces.len() {
        lemma_nul_records_len(pieces, k + 1, bound);
        if pieces[k].len() > 0 && valid_utf8(pieces[k]) {
            lemma_decode_utf8_len(pieces[k]);
            match nul_records_from(pieces, k + 1) {
                Ok(rest) => {
                    let rs = seq![decode_utf8(pieces[k])] + rest;
                    assert forall|i: int| 0 <= i < rs.len() implies (#[trigger] rs[i]).len() <= bound by {
                        if i > 0 {
                            assert(rs[i] == rest[i - 1]);
                        }
                    }
                },
                Err(_) => {},
            }
        }
    }
}

/// Line records are no longer than the text.
pub proof fn lemma_line_records_len(text: Seq<char>)
    ensures
        forall|i: int| 0 <= i < line_records(text).len() ==> (#[trigger] line_records(text)[i]).len() <= text.len(),
{
    lemma_split_piece_len(text, '\n');
}

} // verus!
