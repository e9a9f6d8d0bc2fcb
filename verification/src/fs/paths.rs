use vstd::prelude::*;

use crate::filter::records::{split_chars, split_on};
use crate::fs::metadata::{after_drive, is_separator};
use crate::remote::claims::slashed;
use crate::text::{chars_of, string_from_chars};

verus! {

/// How two values compare.
#[derive(Debug, Clone, Copy, PartialEq, Eq, Structural)]
pub enum Order {
    Less,
    Equal,
    Greater,
}

/// Lexicographic order of character sequences (the order of `str`).
pub open spec fn text_less(a: Seq<char>, b: Seq<char>) -> bool
    decreases a.len(),
{
    if a.len() == 0 {
        b.len() > 0
    } else if b.len() == 0 {
        false
    } else if a[0] != b[0] {
        (a[0] as int) < (b[0] as int)
    } else {
        text_less(a.drop_first(), b.drop_first())
    }
}

/// Component-wise lexicographic order of paths (the order of `Path`).
pub open spec fn path_less(a: Seq<Seq<char>>, b: Seq<Seq<char>>) -> bool
    decreases a.len(),
{
    if a.len() == 0 {
        b.len() > 0
    } else if b.len() == 0 {
        false
    } else if a[0] != b[0] {
        text_less(a[0], b[0])
    } else {
        path_less(a.drop_first(), b.drop_first())
    }
}

pub proof fn lemma_text_less_irreflexive(a: Seq<char>)
    ensures
        !text_less(a, a),
    decreases a.len(),
{
    if a.len() > 0 {
        lemma_text_less_irreflexive(a.drop_first());
    }
}

pub proof fn lemma_text_less_transitive(a: Seq<char>, b: Seq<char>, c: Seq<char>)
    requires
        text_less(a, b),
        text_less(b, c),
    ensures
        text_less(a, c),
    decreases a.len(),
{
    if a.len() > 0 && b.len() > 0 && c.len() > 0 && a[0] == b[0] && b[0] == c[0] {
        lemma_text_less_transitive(a.drop_first(), b.drop_first(), c.drop_first());
    }
}

pub proof fn lemma_text_less_total(a: Seq<char>, b: Seq<char>)
    ensures
        a == b || text_less(a, b) || text_less(b, a),
    decreases a.len(),
{
    if a.len() > 0 && b.len() > 0 && a[0] == b[0] {
        lemma_text_less_total(a.drop_first(), b.drop_first());
        if a.drop_first() == b.drop_first() {
            assert(a =~= seq![a[0]] + a.drop_first());
            assert(b =~= seq![b[0]] + b.drop_first());
        }
    } else if a.len() == 0 && b.len() == 0 {
        assert(a =~= b);
    } else if a.len() > 0 && b.len() > 0 {
    }
}

pub proof fn lemma_text_less_asymmetric(a: Seq<char>, b: Seq<char>)
    requires
        text_less(a, b),
    ensures
        !text_less(b, a),
{
    if text_less(b, a) {
        lemma_text_less_transitive(a, b, a);
        lemma_text_less_irreflexive(a);
    }
}

pub proof fn lemma_path_less_irreflexive(a: Seq<Seq<char>>)
    ensures
        !path_less(a, a),
    decreases a.len(),
{
    if a.len() > 0 {
        lemma_path_less_irreflexive(a.drop_first());
    }
}

pub proof fn lemma_path_less_transitive(a: Seq<Seq<char>>, b: Seq<Seq<char>>, c: Seq<Seq<char>>)
    requires
        path_less(a, b),
        path_less(b, c),
    ensures
        path_less(a, c),
    decreases a.len(),
{
    if a.len() > 0 && b.len() > 0 && c.len() > 0 {
        if a[0] == b[0] && b[0] == c[0] {
            lemma_path_less_transitive(a.drop_first(), b.drop_first(), c.drop_first());
        } else if a[0] != b[0] && b[0] != c[0] {
            lemma_text_less_transitive(a[0], b[0], c[0]);
            if a[0] == c[0] {
                lemma_text_less_irreflexive(a[0]);
            }
        }
    }
}

pub proof fn lemma_path_less_total(a: Seq<Seq<char>>, b: Seq<Seq<char>>)
    ensures
        a == b || path_less(a, b) || path_less(b, a),
    decreases a.len(),
{
    if a.len() > 0 && b.len() > 0 {
        if a[0] == b[0] {
            lemma_path_less_total(a.drop_first(), b.drop_first());
            if a.drop_first() == b.drop_first() {
                assert(a =~= seq![a[0]] + a.drop_first());
                assert(b =~= seq![b[0]] + b.drop_first());
            }
        } else {
            lemma_text_less_total(a[0], b[0]);
        }
    } else if a.len() == 0 && b.len() == 0 {
        assert(a =~= b);
    }
}

pub proof fn lemma_path_less_asymmetric(a: Seq<Seq<char>>, b: Seq<Seq<char>>)
    requires
        path_less(a, b),
    ensures
        !path_less(b, a),
{
    if path_less(b, a) {
        lemma_path_less_transitive(a, b, a);
        lemma_path_less_irreflexive(a);
    }
}

/// How two character sequences compare.
pub fn compare_text(a: &[char], b: &[char]) -> (r: Order)
    ensures
        r == Order::Less <==> text_less(a@, b@),
        r == Order::Equal <==> a@ == b@,
        r == Order::Greater <==> text_less(b@, a@),
{
    let mut i: usize = 0;
    assert(a@.skip(0) =~= a@ && b@.skip(0) =~= b@);
    while i < a.len() && i < b.len() && a[i] == b[i]
        invariant
            i <= a@.len(),
            i <= b@.len(),
            a@.take(i as int) == b@.take(i as int),
            text_less(a@, b@) == text_less(a@.skip(i as int), b@.skip(i as int)),
            text_less(b@, a@) == text_less(b@.skip(i as int), a@.skip(i as int)),
        decreases a.len() - i,
    {
        assert(a@.skip(i as int).drop_first() =~= a@.skip(i + 1));
        assert(b@.skip(i as int).drop_first() =~= b@.skip(i + 1));
        assert(a@.take(i + 1) =~= a@.take(i as int).push(a@[i as int]));
        assert(b@.take(i + 1) =~= b@.take(i as int).push(b@[i as int]));
        i = i + 1;
    }
    proof {
        lemma_text_less_irreflexive(a@);
        if text_less(a@, b@) {
            lemma_text_less_asymmetric(a@, b@);
        }
    }
    if i == a.len() && i == b.len() {
        assert(a@ =~= a@.take(i as int));
        assert(b@ =~= b@.take(i as int));
        Order::Equal
    } else if i == a.len() {
        assert(a@.skip(i as int).len() == 0);
        assert(a@ != b@);
        Order::Less
    } else if i == b.len() {
        assert(b@.skip(i as int).len() == 0);
        assert(a@ != b@);
        Order::Greater
    } else {
        assert(a@.skip(i as int)[0] == a@[i as int]);
        assert(b@.skip(i as int)[0] == b@[i as int]);
        assert(a@ != b@) by {
            if a@ == b@ {
                assert(a@[i as int] == b@[i as int]);
            }
        }
        if a[i] < b[i] {
            Order::Less
        } else {
            Order::Greater
        }
    }
}

/// The view of a path held as components.
pub open spec fn components_view(path: Seq<String>) -> Seq<Seq<char>> {
    path.map_values(|s: String| s@)
}

/// How two paths held as components compare.
pub fn compare_paths(a: &[String], b: &[String]) -> (r: Order)
    ensures
        r == Order::Less <==> path_less(components_view(a@), components_view(b@)),
        r == Order::Equal <==> components_view(a@) == components_view(b@),
        r == Order::Greater <==> path_less(components_view(b@), components_view(a@)),
{
    let ghost av = components_view(a@);
    let ghost bv = components_view(b@);
    let mut i: usize = 0;
    assert(av.skip(0) =~= av && bv.skip(0) =~= bv);
    loop
        invariant
            i <= a@.len(),
            i <= b@.len(),
            av == components_view(a@),
            bv == components_view(b@),
            av.take(i as int) == bv.take(i as int),
            path_less(av, bv) == path_less(av.skip(i as int), bv.skip(i as int)),
            path_less(bv, av) == path_less(bv.skip(i as int), av.skip(i as int)),
        decreases a.len() - i,
    {
        proof {
            lemma_path_less_irreflexive(av);
            if path_less(av, bv) {
                lemma_path_less_asymmetric(av, bv);
            }
        }
        if i == a.len() && i == b.len() {
            assert(av =~= av.take(i as int));
            assert(bv =~= bv.take(i as int));
            return Order::Equal;
        }
        if i == a.len() {
            assert(av.skip(i as int).len() == 0);
            assert(av != bv);
            return Order::Less;
        }
        if i == b.len() {
            assert(bv.skip(i as int).len() == 0);
            assert(av != bv);
            return Order::Greater;
        }
        let x = chars_of(a[i].as_str());
        let y = chars_of(b[i].as_str());
        assert(av[i as int] == x@ && bv[i as int] == y@);
        assert(av.skip(i as int)[0] == av[i as int]);
        assert(bv.skip(i as int)[0] == bv[i as int]);
        match compare_text(x.as_slice(), y.as_slice()) {
            Order::Equal => {
                assert(av.skip(i as int).drop_first() =~= av.skip(i + 1));
                assert(bv.skip(i as int).drop_first() =~= bv.skip(i + 1));
                assert(av.take(i + 1) =~= av.take(i as int).push(av[i as int]));
                assert(bv.take(i + 1) =~= bv.take(i as int).push(bv[i as int]));
                i = i + 1;
            },
            Order::Less => {
                assert(av != bv) by {
                    if av == bv {
                        assert(av[i as int] == bv[i as int]);
                    }
                }
                return Order::Less;
            },
            Order::Greater => {
                assert(av != bv) by {
                    if av == bv {
                        assert(av[i as int] == bv[i as int]);
                    }
                }
                return Order::Greater;
            },
        }
    }
}

/// A path that starts at a root or with a drive prefix, which portable paths never do.
pub open spec fn rooted_or_prefixed(p: Seq<char>) -> bool {
    after_drive(p) == 2 || (p.len() > 0 && is_separator(p[0]))
}

/// The pieces of a path between its separators.
pub open spec fn raw_pieces(p: Seq<char>) -> Seq<Seq<char>> {
    split_on(slashed(p), '/')
}

/// The components of a relative path: empty and `.` pieces dropped; a `..` makes it invalid.
pub open spec fn normal_pieces(pieces: Seq<Seq<char>>) -> Option<Seq<Seq<char>>>
    decreases pieces.len(),
{
    if pieces.len() == 0 {
        Some(Seq::empty())
    } else {
        match normal_pieces(pieces.drop_last()) {
            None => None,
            Some(c) => {
                let p = pieces.last();
                if p.len() == 0 || p == seq!['.'] {
                    Some(c)
                } else if p == seq!['.', '.'] {
                    None
                } else {
                    Some(c.push(p))
                }
            },
        }
    }
}

/// The components of a relative path where `..` steps back one component, if it never steps
/// above the start.
pub open spec fn resolved_pieces(start: Seq<Seq<char>>, pieces: Seq<Seq<char>>) -> Option<
    Seq<Seq<char>>,
>
    decreases pieces.len(),
{
    if pieces.len() == 0 {
        Some(start)
    } else {
        match resolved_pieces(start, pieces.drop_last()) {
            None => None,
            Some(c) => {
                let p = pieces.last();
                if p.len() == 0 || p == seq!['.'] {
                    Some(c)
                } else if p == seq!['.', '.'] {
                    if c.len() == 0 {
                        None
                    } else {
                        Some(c.drop_last())
                    }
                } else {
                    Some(c.push(p))
                }
            },
        }
    }
}

/// The components of a portable path: relative, without `..`.
pub open spec fn portable_path(p: Seq<char>) -> Option<Seq<Seq<char>>> {
    if rooted_or_prefixed(p) {
        None
    } else {
        normal_pieces(raw_pieces(p))
    }
}

/// A path written out from its components, with `/` between them.
pub open spec fn path_text(c: Seq<Seq<char>>) -> Seq<char>
    decreases c.len(),
{
    if c.len() == 0 {
        Seq::empty()
    } else if c.len() == 1 {
        c[0]
    } else {
        path_text(c.drop_last()) + seq!['/'] + c.last()
    }
}

pub fn is_dot(p: &[char]) -> (r: bool)
    ensures
        r == (p@ == seq!['.']),
{
    if p.len() == 1 && p[0] == '.' {
        assert(p@ =~= seq!['.']);
        true
    } else {
        assert(p@.len() != 1 ==> p@ != seq!['.']);
        false
    }
}

pub fn is_dot_dot(p: &[char]) -> (r: bool)
    ensures
        r == (p@ == seq!['.', '.']),
{
    if p.len() == 2 && p[0] == '.' && p[1] == '.' {
        assert(p@ =~= seq!['.', '.']);
        true
    } else {
        assert(p@.len() != 2 ==> p@ != seq!['.', '.']);
        if p.len() == 2 {
            assert(p@ != seq!['.', '.']) by {
                if p@ == seq!['.', '.'] {
                    assert(p@[0] == '.' && p@[1] == '.');
                }
            }
        }
        false
    }
}

pub fn is_rooted_or_prefixed(p: &[char]) -> (r: bool)
    ensures
        r == rooted_or_prefixed(p@),
{
    (p.len() >= 2 && p[1] == ':' && (('a' <= p[0] && p[0] <= 'z') || ('A' <= p[0] && p[0] <= 'Z')))
        || (p.len() > 0 && (p[0] == '/' || p[0] == '\\'))
}

fn slashed_path(s: &[char]) -> (r: Vec<char>)
    ensures
        r@ == slashed(s@),
{
    let mut out: Vec<char> = Vec::new();
    let mut i: usize = 0;
    while i < s.len()
        invariant
            i <= s@.len(),
            out@ == slashed(s@.take(i as int)),
        decreases s.len() - i,
    {
        out.push(if s[i] == '\\' { '/' } else { s[i] });
        i = i + 1;
        assert(out@ =~= slashed(s@.take(i as int)));
    }
    assert(s@.take(s@.len() as int) =~= s@);
    out
}

/// The pieces of a path text.
pub fn path_pieces(p: &[char]) -> (r: Vec<Vec<char>>)
    ensures
        r@.map_values(|v: Vec<char>| v@) == raw_pieces(p@),
{
    let s = slashed_path(p);
    split_chars(s.as_slice(), '/')
}

/// The components of a portable path, or `None` when it is rooted, has a drive prefix or holds `..`.
pub fn portable_components(path: &str) -> (r: Option<Vec<String>>)
    ensures
        match portable_path(path@) {
            Some(c) => r matches Some(v) && components_view(v@) == c,
            None => r is None,
        },
{
    let chars = chars_of(path);
    if is_rooted_or_prefixed(chars.as_slice()) {
        return None;
    }
    let pieces = path_pieces(chars.as_slice());
    let ghost views = pieces@.map_values(|v: Vec<char>| v@);
    assert(views == raw_pieces(path@));
    let mut out: Vec<String> = Vec::new();
    let mut i: usize = 0;
    assert(views.take(0) =~= Seq::<Seq<char>>::empty());
    while i < pieces.len()
        invariant
            i <= pieces@.len(),
            views == pieces@.map_values(|v: Vec<char>| v@),
            views == raw_pieces(path@),
            normal_pieces(views.take(i as int)) == Some(components_view(out@)),
        decreases pieces.len() - i,
    {
        assert(views.take(i + 1).drop_last() =~= views.take(i as int));
        assert(views.take(i + 1).last() == pieces@[i as int]@);
        let piece = pieces[i].as_slice();
        if piece.len() == 0 || is_dot(piece) {
        } else if is_dot_dot(piece) {
            proof {
                lemma_normal_pieces_prefix_none(views, i + 1);
            }
            return None;
        } else {
            let ghost before = components_view(out@);
            out.push(string_from_chars(piece));
            assert(components_view(out@) =~= before.push(piece@));
        }
        i = i + 1;
    }
    assert(views.take(pieces@.len() as int) =~= views);
    Some(out)
}

proof fn lemma_normal_pieces_prefix_none(pieces: Seq<Seq<char>>, k: int)
    requires
        0 <= k <= pieces.len(),
        normal_pieces(pieces.take(k)) is None,
    ensures
        normal_pieces(pieces) is None,
    decreases pieces.len() - k,
{
    if k < pieces.len() {
        assert(pieces.take(k + 1).drop_last() =~= pieces.take(k));
        lemma_normal_pieces_prefix_none(pieces, k + 1);
    } else {
        assert(pieces.take(k) =~= pieces);
    }
}

proof fn lemma_resolved_pieces_prefix_none(start: Seq<Seq<char>>, pieces: Seq<Seq<char>>, k: int)
    requires
        0 <= k <= pieces.len(),
        resolved_pieces(start, pieces.take(k)) is None,
    ensures
        resolved_pieces(start, pieces) is None,
    decreases pieces.len() - k,
{
    if k < pieces.len() {
        assert(pieces.take(k + 1).drop_last() =~= pieces.take(k));
        lemma_resolved_pieces_prefix_none(start, pieces, k + 1);
    } else {
        assert(pieces.take(k) =~= pieces);
    }
}

/// `start` followed by the pieces of `text`, where `..` steps back one component.
pub fn resolve_relative(start: &[String], text: &str) -> (r: Option<Vec<String>>)
    ensures
        match resolved_pieces(components_view(start@), raw_pieces(text@)) {
            Some(c) => r matches Some(v) && components_view(v@) == c,
            None => r is None,
        },
{
    let chars = chars_of(text);
    let pieces = path_pieces(chars.as_slice());
    let ghost views = pieces@.map_values(|v: Vec<char>| v@);
    assert(views == raw_pieces(text@));
    let mut out: Vec<String> = Vec::new();
    let mut k: usize = 0;
    while k < start.len()
        invariant
            k <= start@.len(),
            components_view(out@) == components_view(start@).take(k as int),
        decreases start.len() - k,
    {
        let ghost before = components_view(out@);
        let piece = start[k].clone();
        assert(piece@ == components_view(start@)[k as int]);
        out.push(piece);
        assert(components_view(out@) =~= before.push(piece@));
        assert(components_view(start@).take(k + 1) =~= components_view(start@).take(k as int).push(
            piece@,
        ));
        k = k + 1;
    }
    assert(components_view(start@).take(start@.len() as int) =~= components_view(start@));
    let mut i: usize = 0;
    assert(views.take(0) =~= Seq::<Seq<char>>::empty());
    while i < pieces.len()
        invariant
            i <= pieces@.len(),
            views == pieces@.map_values(|v: Vec<char>| v@),
            views == raw_pieces(text@),
            resolved_pieces(components_view(start@), views.take(i as int)) == Some(
                components_view(out@),
            ),
        decreases pieces.len() - i,
    {
        assert(views.take(i + 1).drop_last() =~= views.take(i as int));
        assert(views.take(i + 1).last() == pieces@[i as int]@);
        let piece = pieces[i].as_slice();
        if piece.len() == 0 || is_dot(piece) {
        } else if is_dot_dot(piece) {
            if out.len() == 0 {
                proof {
                    lemma_resolved_pieces_prefix_none(components_view(start@), views, i + 1);
                }
                return None;
            }
            let ghost before = components_view(out@);
            out.pop();
            assert(components_view(out@) =~= before.drop_last());
        } else {
            let ghost before = components_view(out@);
            out.push(string_from_chars(piece));
            assert(components_view(out@) =~= before.push(piece@));
        }
        i = i + 1;
    }
    assert(views.take(pieces@.len() as int) =~= views);
    Some(out)
}

/// A path written out from its components, with `/` between them.
pub fn join_path(components: &[String]) -> (r: String)
    ensures
        r@ == path_text(components_view(components@)),
{
    let ghost c = components_view(components@);
    let mut out = String::new();
    let mut i: usize = 0;
    while i < components.len()
        invariant
            i <= components@.len(),
            c == components_view(components@),
            out@ == path_text(c.take(i as int)),
        decreases components.len() - i,
    {
        let ghost before = out@;
        assert(c.take(i + 1).drop_last() =~= c.take(i as int));
        if i > 0 {
            out.push('/');
        }
        let piece = chars_of(components[i].as_str());
        let mut j: usize = 0;
        let ghost mid = out@;
        while j < piece.len()
            invariant
                j <= piece@.len(),
                out@ == mid + piece@.take(j as int),
            decreases piece.len() - j,
        {
            out.push(piece[j]);
            j = j + 1;
            assert(out@ =~= mid + piece@.take(j as int));
        }
        assert(piece@.take(piece@.len() as int) =~= piece@);
        assert(c[i as int] == piece@);
        if i == 0 {
            assert(out@ =~= path_text(c.take(1)));
        } else {
            assert(out@ =~= path_text(c.take(i + 1)));
        }
        i = i + 1;
    }
    assert(c.take(components@.len() as int) =~= c);
    out
}

} // verus!
