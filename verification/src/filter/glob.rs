use vstd::prelude::*;

use crate::text::{chars_of, string_from_chars};

verus! {

/// `\` becomes `/`; every other character is kept.
pub open spec fn map_separator(c: char) -> char {
    if c == '\\' {
        '/'
    } else {
        c
    }
}

/// A path with `\` turned into `/` and runs of separators collapsed to one.
pub open spec fn normalize_path(s: Seq<char>) -> Seq<char>
    decreases s.len(),
{
    if s.len() == 0 {
        Seq::empty()
    } else {
        let prev = normalize_path(s.drop_last());
        let c = map_separator(s.last());
        if c == '/' && prev.len() > 0 && prev.last() == '/' {
            prev
        } else {
            prev.push(c)
        }
    }
}

/// Normalizes the characters of a path (see `normalize_path`).
pub fn normalize_path_chars(path: &[char]) -> (r: Vec<char>)
    ensures
        r@ == normalize_path(path@),
{
    let mut out: Vec<char> = Vec::new();
    let mut previous_was_separator = false;
    let mut i: usize = 0;
    while i < path.len()
        invariant
            i <= path@.len(),
            out@ == normalize_path(path@.take(i as int)),
            previous_was_separator == (out@.len() > 0 && out@.last() == '/'),
        decreases path.len() - i,
    {
        assert(path@.take(i + 1).drop_last() =~= path@.take(i as int));
        let ch = if path[i] == '\\' { '/' } else { path[i] };
        if ch == '/' {
            if previous_was_separator {
                i = i + 1;
                continue;
            }
            previous_was_separator = true;
        } else {
            previous_was_separator = false;
        }
        out.push(ch);
        i = i + 1;
    }
    assert(path@.take(path@.len() as int) =~= path@);
    out
}

/// A path with `\` turned into `/` and repeated separators collapsed.
pub fn normalize_filter_path(path: &str) -> (r: String)
    ensures
        r@ == normalize_path(path@),
{
    let chars = chars_of(path);
    let normalized = normalize_path_chars(chars.as_slice());
    string_from_chars(normalized.as_slice())
}

/// The first index at or after `i` that does not hold `*`.
pub open spec fn star_end(p: Seq<char>, i: int) -> int
    decreases p.len() - i,
{
    if 0 <= i < p.len() && p[i] == '*' {
        star_end(p, i + 1)
    } else {
        i
    }
}

pub proof fn lemma_star_end(p: Seq<char>, i: int)
    requires
        0 <= i,
    ensures
        i <= star_end(p, i),
        star_end(p, i) <= p.len() || star_end(p, i) == i,
        0 <= i < p.len() && p[i] == '*' ==> i < star_end(p, i),
        forall|j: int| i <= j < star_end(p, i) ==> p[j] == '*',
    decreases p.len() - i,
{
    if 0 <= i < p.len() && p[i] == '*' {
        lemma_star_end(p, i + 1);
    }
}

/// The items of a bracket class starting at `pos`: `(ranges, index after ']')`, or `None`
/// when the class is not closed.
pub open spec fn class_scan(p: Seq<char>, pos: int, saw_item: bool, ranges: Seq<(char, char)>) -> Option<
    (Seq<(char, char)>, int),
>
    decreases p.len() - pos,
{
    if pos < 0 || pos >= p.len() {
        None
    } else {
        let ch = p[pos];
        if ch == ']' && saw_item {
            Some((ranges, pos + 1))
        } else if pos + 2 < p.len() && p[pos + 1] == '-' && p[pos + 2] != ']' {
            class_scan(p, pos + 3, true, ranges.push((ch, p[pos + 2])))
        } else {
            class_scan(p, pos + 1, true, ranges.push((ch, ch)))
        }
    }
}

pub proof fn lemma_class_scan_next(p: Seq<char>, pos: int, saw_item: bool, ranges: Seq<(char, char)>)
    ensures
        class_scan(p, pos, saw_item, ranges) matches Some((_, next)) ==> pos < next <= p.len(),
    decreases p.len() - pos,
{
    if 0 <= pos < p.len() {
        let ch = p[pos];
        if ch == ']' && saw_item {
        } else if pos + 2 < p.len() && p[pos + 1] == '-' && p[pos + 2] != ']' {
            lemma_class_scan_next(p, pos + 3, true, ranges.push((ch, p[pos + 2])));
        } else {
            lemma_class_scan_next(p, pos + 1, true, ranges.push((ch, ch)));
        }
    }
}

/// The bracket class opening at `open`: `(negated, ranges, index after ']')`.
pub open spec fn class_parse(p: Seq<char>, open: int) -> Option<(bool, Seq<(char, char)>, int)> {
    let negated = 0 <= open + 1 < p.len() && (p[open + 1] == '!' || p[open + 1] == '^');
    let start = if negated {
        open + 2
    } else {
        open + 1
    };
    match class_scan(p, start, false, Seq::empty()) {
        Some((ranges, next)) => Some((negated, ranges, next)),
        None => None,
    }
}

/// Some range of the class contains `c`.
pub open spec fn ranges_contain(ranges: Seq<(char, char)>, c: char) -> bool {
    exists|i: int| 0 <= i < ranges.len() && (ranges[i].0 as u32) <= (c as u32) && (c as u32) <= (#[trigger] ranges[i]).1 as u32
}

/// Whether `pattern[pi..]` matches `text[ti..]`. `*` matches within one path component,
/// `**` (and longer runs) across components; `?` and classes never match `/`.
pub open spec fn glob_at(p: Seq<char>, pi: int, t: Seq<char>, ti: int) -> bool
    decreases p.len() - pi, t.len() + 2,
{
    if pi < 0 || ti < 0 || ti > t.len() {
        false
    } else if pi >= p.len() {
        ti == t.len()
    } else {
        let c = p[pi];
        if c == '*' {
            proof {
                lemma_star_end(p, pi);
            }
            let end = star_end(p, pi);
            star_from(p, end, end - pi >= 2, t, ti)
        } else if c == '?' {
            ti < t.len() && t[ti] != '/' && glob_at(p, pi + 1, t, ti + 1)
        } else if c == '[' {
            proof {
                lemma_class_scan_next(p, if 0 <= pi + 1 < p.len() && (p[pi + 1] == '!' || p[pi + 1] == '^') { pi + 2 } else { pi + 1 }, false, Seq::empty());
            }
            match class_parse(p, pi) {
                None => ti < t.len() && t[ti] == '[' && glob_at(p, pi + 1, t, ti + 1),
                Some((negated, ranges, next)) => ti < t.len() && t[ti] != '/' && (ranges_contain(ranges, t[ti])
                    != negated) && glob_at(p, next, t, ti + 1),
            }
        } else if c == '\\' {
            if pi + 1 >= p.len() {
                ti < t.len() && t[ti] == '\\' && glob_at(p, pi + 1, t, ti + 1)
            } else {
                ti < t.len() && t[ti] == p[pi + 1] && glob_at(p, pi + 2, t, ti + 1)
            }
        } else {
            ti < t.len() && t[ti] == c && glob_at(p, pi + 1, t, ti + 1)
        }
    }
}

/// After a run of stars ending at `end`: the rest of the pattern matches at `k` or at some
/// later position, consuming only non-`/` characters unless `recursive`.
pub open spec fn star_from(p: Seq<char>, end: int, recursive: bool, t: Seq<char>, k: int) -> bool
    decreases p.len() - end + 1, t.len() - k + 1,
{
    if k < 0 || k > t.len() || end < 1 || end > p.len() {
        false
    } else {
        glob_at(p, end, t, k) || (k < t.len() && (recursive || t[k] != '/') && star_from(
            p,
            end,
            recursive,
            t,
            k + 1,
        ))
    }
}

/// Whether `pattern` matches all of `text`, both normalized first.
pub open spec fn spec_glob_matches(pattern: Seq<char>, text: Seq<char>) -> bool {
    glob_at(normalize_path(pattern), 0, normalize_path(text), 0)
}

} // verus!

verus! {

fn class_parse_exec(p: &[char], open: usize) -> (r: Option<(bool, Vec<(char, char)>, usize)>)
    requires
        open < p@.len(),
        p@.len() < usize::MAX,
    ensures
        match r {
            Some((negated, ranges, next)) => class_parse(p@, open as int) == Some((negated, ranges@, next as int)),
            None => class_parse(p@, open as int) is None,
        },
{
    let mut pos = open + 1;
    let negated = pos < p.len() && (p[pos] == '!' || p[pos] == '^');
    if negated {
        pos = pos + 1;
    }
    let ghost start = pos as int;
    let mut ranges: Vec<(char, char)> = Vec::new();
    let mut saw_item = false;
    while pos < p.len()
        invariant
            start == if negated { open + 2 } else { open + 1 },
            negated == (0 <= open + 1 < p@.len() && (p@[open + 1] == '!' || p@[open + 1] == '^')),
            start <= pos <= p@.len() + 1,
            class_scan(p@, pos as int, saw_item, ranges@) == class_scan(p@, start, false, Seq::empty()),
        decreases p.len() - pos,
    {
        let ch = p[pos];
        if ch == ']' && saw_item {
            assert(class_scan(p@, pos as int, saw_item, ranges@) == Some((ranges@, pos + 1)));
            assert(class_scan(p@, start, false, Seq::empty()) == Some((ranges@, pos + 1)));
            assert(start == if negated { open + 2 } else { open + 1 });
            assert(negated == (0 <= open + 1 < p@.len() && (p@[open + 1] == '!' || p@[open + 1] == '^')));
            assert(class_parse(p@, open as int) == Some((negated, ranges@, (pos + 1) as int)));
            return Some((negated, ranges, pos + 1));
        }
        if p.len() > 2 && pos < p.len() - 2 && p[pos + 1] == '-' && p[pos + 2] != ']' {
            ranges.push((ch, p[pos + 2]));
            saw_item = true;
            pos = pos + 3;
        } else {
            ranges.push((ch, ch));
            saw_item = true;
            pos = pos + 1;
        }
    }
    None
}

fn ranges_contain_exec(ranges: &[(char, char)], c: char) -> (r: bool)
    ensures
        r == ranges_contain(ranges@, c),
{
    let mut i: usize = 0;
    while i < ranges.len()
        invariant
            i <= ranges@.len(),
            forall|k: int| 0 <= k < i ==> !((ranges@[k].0 as u32) <= (c as u32) && (c as u32) <= (#[trigger] ranges@[k]).1 as u32),
        decreases ranges.len() - i,
    {
        let (start, end) = ranges[i];
        if (start as u32) <= (c as u32) && (c as u32) <= (end as u32) {
            assert((ranges@[i as int].0 as u32) <= (c as u32) && (c as u32) <= ranges@[i as int].1 as u32);
            return true;
        }
        i = i + 1;
    }
    false
}

/// The rows `rows[j]` hold `glob_at(p, p.len() - j, t, ti)` for every `ti <= t.len()`.
spec fn rows_ok(rows: Seq<Vec<bool>>, p: Seq<char>, t: Seq<char>) -> bool {
    &&& rows.len() <= p.len() + 1
    &&& forall|j: int| 0 <= j < rows.len() ==> (#[trigger] rows[j])@.len() == t.len() + 1
    &&& forall|j: int, ti: int|
        0 <= j < rows.len() && 0 <= ti <= t.len() ==> #[trigger] rows[j]@[ti] == glob_at(p, p.len() - j, t, ti)
}

/// Whether `p` matches all of `t` (no normalization), by dynamic programming over
/// `(pattern position, text position)` from the end of the pattern backwards.
pub fn glob_match_chars(p: &[char], t: &[char]) -> (r: bool)
    requires
        p@.len() < usize::MAX,
        t@.len() < usize::MAX,
    ensures
        r == glob_at(p@, 0, t@, 0),
{
    let plen = p.len();
    let tlen = t.len();
    let mut rows: Vec<Vec<bool>> = Vec::new();
    let mut last: Vec<bool> = Vec::new();
    let mut ti: usize = 0;
    while ti <= tlen
        invariant
            ti <= tlen + 1,
            tlen == t@.len(),
            tlen < usize::MAX,
            plen == p@.len(),
            last@.len() == ti,
            forall|k: int| 0 <= k < ti ==> last@[k] == glob_at(p@, plen as int, t@, k),
        decreases tlen + 1 - ti,
    {
        last.push(ti == tlen);
        ti = ti + 1;
    }
    rows.push(last);
    while rows.len() <= plen
        invariant
            plen == p@.len(),
            tlen == t@.len(),
            tlen < usize::MAX,
            1 <= rows@.len() <= plen + 1,
            rows_ok(rows@, p@, t@),
            plen < usize::MAX,
        decreases plen + 1 - rows.len(),
    {
        let pi = plen - rows.len();
        let c = p[pi];
        let mut row: Vec<bool> = Vec::new();
        if c == '*' {
            let mut end = pi;
            while end < plen && p[end] == '*'
                invariant
                    pi <= end <= plen,
                    plen == p@.len(),
                    star_end(p@, pi as int) == star_end(p@, end as int),
                decreases plen - end,
            {
                end = end + 1;
            }
            proof {
                lemma_star_end(p@, pi as int);
            }
            let recursive = end - pi >= 2;
            let end_row = &rows[plen - end];
            let mut k: usize = 0;
            while k <= tlen
                invariant
                    k <= tlen + 1,
                    tlen == t@.len(),
                    tlen < usize::MAX,
                    row@.len() == k,
                decreases tlen + 1 - k,
            {
                row.push(false);
                k = k + 1;
            }
            let mut k: usize = tlen + 1;
            while k > 0
                invariant
                    k <= tlen + 1,
                    tlen == t@.len(),
                    row@.len() == tlen + 1,
                    end_row@.len() == tlen + 1,
                    pi < end <= plen,
                    plen == p@.len(),
                    forall|q: int| 0 <= q <= tlen ==> end_row@[q] == glob_at(p@, end as int, t@, q),
                    forall|q: int| k <= q <= tlen ==> row@[q] == star_from(p@, end as int, recursive, t@, q),
                decreases k,
            {
                k = k - 1;
                let v = end_row[k] || (k < tlen && (recursive || t[k] != '/') && row[k + 1]);
                row.set(k, v);
            }
        } else {
            let mut ti: usize = 0;
            let class = if c == '[' { class_parse_exec(p, pi) } else { None };
            proof {
                if c == '[' {
                    lemma_class_scan_next(p@, if 0 <= pi + 1 < p@.len() && (p@[pi + 1] == '!' || p@[pi + 1] == '^') { pi + 2 } else { pi + 1 }, false, Seq::empty());
                }
            }
            while ti <= tlen
                invariant
                    ti <= tlen + 1,
                    tlen == t@.len(),
                    tlen < usize::MAX,
                    plen == p@.len(),
                    pi < plen,
                    plen < usize::MAX,
                    c == p@[pi as int],
                    c != '*',
                    rows@.len() == plen - pi,
                    rows_ok(rows@, p@, t@),
                    c == '[' ==> match class {
                        Some((negated, ranges, next)) => class_parse(p@, pi as int) == Some((negated, ranges@, next as int)),
                        None => class_parse(p@, pi as int) is None,
                    },
                    c != '[' ==> class is None,
                    class matches Some((_, _, next)) ==> pi < next <= plen,
                    row@.len() == ti,
                    forall|q: int| 0 <= q < ti ==> row@[q] == glob_at(p@, pi as int, t@, q),
                decreases tlen + 1 - ti,
            {
                let next_row = &rows[rows.len() - 1];
                assert(forall|q: int| 0 <= q <= tlen ==> next_row@[q] == glob_at(p@, pi + 1, t@, q));
                let v = if c == '?' {
                    let v = ti < tlen && t[ti] != '/' && next_row[ti + 1];
                    assert(v == glob_at(p@, pi as int, t@, ti as int));
                    v
                } else if c == '[' {
                    match &class {
                        None => {
                            let v = ti < tlen && t[ti] == '[' && next_row[ti + 1];
                            assert(v == glob_at(p@, pi as int, t@, ti as int));
                            v
                        },
                        Some((negated, ranges, next)) => {
                            let after = &rows[plen - *next];
                            assert(forall|q: int| 0 <= q <= tlen ==> after@[q] == glob_at(p@, *next as int, t@, q));
                            let v = ti < tlen && t[ti] != '/' && (ranges_contain_exec(ranges.as_slice(), t[ti]) != *negated)
                                && after[ti + 1];
                            assert(v == glob_at(p@, pi as int, t@, ti as int));
                            v
                        },
                    }
                } else if c == '\\' {
                    if pi + 1 >= plen {
                        let v = ti < tlen && t[ti] == '\\' && next_row[ti + 1];
                        assert(v == glob_at(p@, pi as int, t@, ti as int));
                        v
                    } else {
                        let after = &rows[plen - (pi + 2)];
                        assert(forall|q: int| 0 <= q <= tlen ==> after@[q] == glob_at(p@, pi + 2, t@, q));
                        let v = ti < tlen && t[ti] == p[pi + 1] && after[ti + 1];
                        assert(v == glob_at(p@, pi as int, t@, ti as int));
                        v
                    }
                } else {
                    let v = ti < tlen && t[ti] == c && next_row[ti + 1];
                    assert(v == glob_at(p@, pi as int, t@, ti as int));
                    v
                };
                assert(v == glob_at(p@, pi as int, t@, ti as int));
                row.push(v);
                ti = ti + 1;
            }
        }
        rows.push(row);
    }
    let first = &rows[plen];
    first[0]
}

/// Whether `pattern` matches all of `text`, after normalizing both paths.
pub fn glob_matches(pattern: &str, text: &str) -> (r: bool)
    requires
        pattern@.len() < usize::MAX,
        text@.len() < usize::MAX,
    ensures
        r == spec_glob_matches(pattern@, text@),
{
    let pattern_chars = chars_of(pattern);
    let text_chars = chars_of(text);
    glob_matches_chars(pattern_chars.as_slice(), text_chars.as_slice())
}

/// `glob_matches` on character slices.
pub fn glob_matches_chars(pattern: &[char], text: &[char]) -> (r: bool)
    requires
        pattern@.len() < usize::MAX,
        text@.len() < usize::MAX,
    ensures
        r == spec_glob_matches(pattern@, text@),
{
    let p = normalize_path_chars(pattern);
    let t = normalize_path_chars(text);
    proof {
        lemma_normalize_len(pattern@);
        lemma_normalize_len(text@);
    }
    glob_match_chars(p.as_slice(), t.as_slice())
}

/// Normalizing never lengthens a path.
pub proof fn lemma_normalize_len(s: Seq<char>)
    ensures
        normalize_path(s).len() <= s.len(),
    decreases s.len(),
{
    if s.len() > 0 {
        lemma_normalize_len(s.drop_last());
    }
}

/// A bracket class opening with `^` is negated, as one opening with `!`: it matches one
/// character other than `/` exactly when that character is in none of the ranges that follow
/// the `^`, and the rest of the pattern then matches the rest of the text.
pub proof fn lemma_caret_class_negates(
    p: Seq<char>,
    pi: int,
    t: Seq<char>,
    ti: int,
    ranges: Seq<(char, char)>,
    next: int,
)
    requires
        0 <= pi,
        pi + 1 < p.len(),
        p[pi] == '[',
        p[pi + 1] == '^',
        class_scan(p, pi + 2, false, Seq::empty()) == Some((ranges, next)),
        0 <= ti <= t.len(),
    ensures
        glob_at(p, pi, t, ti) == (ti < t.len() && t[ti] != '/' && !ranges_contain(ranges, t[ti])
            && glob_at(p, next, t, ti + 1)),
{
}

/// `^` and `!` open a negated class alike: swapping one for the other at the start of a class
/// changes nothing about what the class matches at that point.
pub proof fn lemma_caret_class_as_bang(p: Seq<char>, pi: int)
    requires
        0 <= pi,
        pi + 1 < p.len(),
        p[pi] == '[',
        p[pi + 1] == '^',
    ensures
        class_parse(p, pi) == class_parse(p.update(pi + 1, '!'), pi),
{
    lemma_class_scan_update(p, pi + 1, '!', pi + 2, false, Seq::empty());
}

/// A class scan from `pos` on never reads the positions before it.
proof fn lemma_class_scan_update(
    p: Seq<char>,
    at: int,
    c: char,
    pos: int,
    saw_item: bool,
    ranges: Seq<(char, char)>,
)
    requires
        0 <= at < pos,
        at < p.len(),
    ensures
        class_scan(p, pos, saw_item, ranges) == class_scan(p.update(at, c), pos, saw_item, ranges),
    decreases p.len() - pos,
{
    let q = p.update(at, c);
    if 0 <= pos < p.len() {
        let ch = p[pos];
        assert(q[pos] == ch);
        if ch == ']' && saw_item {
        } else if pos + 2 < p.len() && p[pos + 1] == '-' && p[pos + 2] != ']' {
            assert(q[pos + 1] == p[pos + 1] && q[pos + 2] == p[pos + 2]);
            lemma_class_scan_update(p, at, c, pos + 3, true, ranges.push((ch, p[pos + 2])));
        } else {
            if pos + 2 < p.len() {
                assert(q[pos + 1] == p[pos + 1] && q[pos + 2] == p[pos + 2]);
            }
            lemma_class_scan_update(p, at, c, pos + 1, true, ranges.push((ch, ch)));
        }
    }
}

} // verus!
