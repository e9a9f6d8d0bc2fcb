use vstd::prelude::*;

use crate::fs::memory_fs::lemma_filter_step;
use crate::fs::metadata::is_separator;
use crate::fs::paths::{
    components_view, is_dot, is_dot_dot, is_rooted_or_prefixed, join_path, path_pieces, path_text,
    raw_pieces, rooted_or_prefixed,
};
use crate::fs::walk::FsError;
use crate::text::{chars_of, join3, string_from_chars};

verus! {

/// A piece of a path that names something: neither empty nor `.`.
pub open spec fn is_name(x: Seq<char>) -> bool {
    x.len() > 0 && x != seq!['.']
}

/// A name that is not `..`.
pub open spec fn is_normal_name(x: Seq<char>) -> bool {
    is_name(x) && x != seq!['.', '.']
}

pub open spec fn names_filter(keep_parent: bool) -> spec_fn(Seq<char>) -> bool {
    |x: Seq<char>| if keep_parent {
        is_name(x)
    } else {
        is_normal_name(x)
    }
}

/// The names along a path, `..` included.
pub open spec fn path_names(p: Seq<char>) -> Seq<Seq<char>> {
    raw_pieces(p).filter(names_filter(true))
}

/// The names along a path that go down: `..` left out.
pub open spec fn normal_names(p: Seq<char>) -> Seq<Seq<char>> {
    raw_pieces(p).filter(names_filter(false))
}

/// `b` taken from `a`: `b` itself when it is rooted or `a` is empty, else the two with one
/// separator between them.
pub open spec fn path_join(a: Seq<char>, b: Seq<char>) -> Seq<char> {
    if rooted_or_prefixed(b) || a.len() == 0 {
        b
    } else if is_separator(a.last()) {
        a + b
    } else {
        a + seq!['/'] + b
    }
}

/// The last name of a path, unless the path has none or ends in `..`.
pub open spec fn file_name_of(p: Seq<char>) -> Option<Seq<char>> {
    let n = path_names(p);
    if n.len() == 0 || n.last() == seq!['.', '.'] {
        None
    } else {
        Some(n.last())
    }
}

/// The root a path starts from: `/` for a path that starts with a separator.
pub open spec fn root_of(p: Seq<char>) -> Seq<char> {
    if p.len() > 0 && is_separator(p[0]) {
        seq!['/']
    } else {
        Seq::empty()
    }
}

/// The path without its last name, if it has one.
pub open spec fn parent_of_path(p: Seq<char>) -> Option<Seq<char>> {
    let n = path_names(p);
    if n.len() == 0 {
        None
    } else {
        Some(root_of(p) + path_text(n.drop_last()))
    }
}

/// The names of a path, `..` kept (or left out when `keep_parent` is false).
pub fn path_names_of(p: &str, keep_parent: bool) -> (r: Vec<String>)
    ensures
        components_view(r@) == raw_pieces(p@).filter(names_filter(keep_parent)),
{
    let chars = chars_of(p);
    let pieces = path_pieces(chars.as_slice());
    let ghost views = pieces@.map_values(|v: Vec<char>| v@);
    assert(views == raw_pieces(p@));
    let mut out: Vec<String> = Vec::new();
    let mut i: usize = 0;
    assert(views.take(0).filter(names_filter(keep_parent)) =~= Seq::<Seq<char>>::empty()) by {
        reveal(Seq::filter);
    }
    while i < pieces.len()
        invariant
            i <= pieces@.len(),
            views == pieces@.map_values(|v: Vec<char>| v@),
            components_view(out@) == views.take(i as int).filter(names_filter(keep_parent)),
        decreases pieces.len() - i,
    {
        proof {
            lemma_filter_step(views, i as int, names_filter(keep_parent));
        }
        let piece = pieces[i].as_slice();
        assert(views[i as int] == piece@);
        let keep = piece.len() > 0 && !is_dot(piece) && (keep_parent || !is_dot_dot(piece));
        if keep {
            let ghost before = components_view(out@);
            out.push(string_from_chars(piece));
            assert(components_view(out@) =~= before.push(piece@));
        }
        i = i + 1;
    }
    assert(views.take(pieces@.len() as int) =~= views);
    out
}

fn ends_with_separator(p: &str) -> (r: bool)
    ensures
        r == (p@.len() > 0 && is_separator(p@.last())),
{
    let chars = chars_of(p);
    let n = chars.len();
    n > 0 && (chars[n - 1] == '/' || chars[n - 1] == '\\')
}

/// `b` taken from `a`, as a path join does it.
pub fn join_paths(a: &str, b: &str) -> (r: String)
    ensures
        r@ == path_join(a@, b@),
{
    let bc = chars_of(b);
    if is_rooted_or_prefixed(bc.as_slice()) || a.unicode_len() == 0 {
        return b.to_owned();
    }
    proof {
        reveal_strlit("");
        reveal_strlit("/");
    }
    if ends_with_separator(a) {
        let r = join3(a, b, "");
        assert(r@ =~= a@ + b@);
        r
    } else {
        let r = join3(a, "/", b);
        assert(r@ =~= a@ + seq!['/'] + b@);
        r
    }
}

/// The last name of a path.
pub fn file_name(p: &str) -> (r: Option<String>)
    ensures
        match file_name_of(p@) {
            Some(n) => r matches Some(s) && s@ == n,
            None => r is None,
        },
{
    let names = path_names_of(p, true);
    let n = names.len();
    if n == 0 {
        return None;
    }
    let last = chars_of(names[n - 1].as_str());
    assert(components_view(names@)[n - 1] == last@);
    if is_dot_dot(last.as_slice()) {
        return None;
    }
    Some(names[n - 1].clone())
}

/// The path without its last name.
pub fn parent_path(p: &str) -> (r: Option<String>)
    ensures
        match parent_of_path(p@) {
            Some(q) => r matches Some(s) && s@ == q,
            None => r is None,
        },
{
    let names = path_names_of(p, true);
    let n = names.len();
    if n == 0 {
        return None;
    }
    let mut front: Vec<String> = names;
    front.pop();
    let ghost nv = path_names(p@);
    assert(components_view(front@) =~= nv.drop_last());
    let rest = join_path(front.as_slice());
    let chars = chars_of(p);
    proof {
        reveal_strlit("");
        reveal_strlit("/");
    }
    if chars.len() > 0 && (chars[0] == '/' || chars[0] == '\\') {
        let r = join3("/", rest.as_str(), "");
        assert(r@ =~= seq!['/'] + rest@);
        Some(r)
    } else {
        assert(rest@ =~= Seq::<char>::empty() + rest@);
        Some(rest)
    }
}

/// The parent of a path, when it has one that is not empty.
pub fn non_empty_parent(p: &str) -> (r: Option<String>)
    ensures
        match parent_of_path(p@) {
            Some(q) => if q.len() > 0 {
                r matches Some(s) && s@ == q
            } else {
                r is None
            },
            None => r is None,
        },
{
    match parent_path(p) {
        Some(q) => if q.unicode_len() > 0 {
            Some(q)
        } else {
            None
        },
        None => None,
    }
}

/// A source operand as a path below the destination: its names that go down, or an error when it
/// has none.
pub fn relative_operand_path(path: &str) -> (r: Result<String, FsError>)
    ensures
        normal_names(path@).len() > 0 ==> (r matches Ok(s) && s@ == path_text(normal_names(path@))),
        normal_names(path@).len() == 0 ==> (r matches Err(FsError::InvalidPortablePath(s))
            && s@ == path@),
{
    let names = path_names_of(path, false);
    if names.len() == 0 {
        Err(FsError::InvalidPortablePath(path.to_owned()))
    } else {
        Ok(join_path(names.as_slice()))
    }
}

/// The path a destination check looks at: the names of `target` that go down, or `target` itself
/// when it has none.
pub fn destination_preflight_path(target: &str) -> (r: String)
    ensures
        r@ == if normal_names(target@).len() == 0 {
            target@
        } else {
            path_text(normal_names(target@))
        },
{
    let names = path_names_of(target, false);
    if names.len() == 0 {
        target.to_owned()
    } else {
        join_path(names.as_slice())
    }
}

/// The form of a path that filter rules match: its names that go down, joined by `/`.
pub fn filter_path(path: &str) -> (r: String)
    ensures
        r@ == path_text(normal_names(path@)),
{
    let names = path_names_of(path, false);
    join_path(names.as_slice())
}

/// Whether a symbolic link target leaves the tree it is in: it is rooted, has a drive prefix, or
/// steps up with `..`.
pub open spec fn unsafe_symlink_target(t: Seq<char>) -> bool {
    rooted_or_prefixed(t) || raw_pieces(t).contains(seq!['.', '.'])
}

pub fn is_unsafe_symlink_target(target: &str) -> (r: bool)
    ensures
        r == unsafe_symlink_target(target@),
{
    let chars = chars_of(target);
    if is_rooted_or_prefixed(chars.as_slice()) {
        return true;
    }
    let pieces = path_pieces(chars.as_slice());
    let ghost views = pieces@.map_values(|v: Vec<char>| v@);
    let mut i: usize = 0;
    while i < pieces.len()
        invariant
            i <= pieces@.len(),
            views == pieces@.map_values(|v: Vec<char>| v@),
            views == raw_pieces(target@),
            forall|j: int| 0 <= j < i ==> views[j] != seq!['.', '.'],
        decreases pieces.len() - i,
    {
        assert(views[i as int] == pieces@[i as int]@);
        if is_dot_dot(pieces[i].as_slice()) {
            return true;
        }
        i = i + 1;
    }
    false
}

/// Where a symbolic link at `link` with target `target` points: a rooted target as it is, else the
/// target taken from the link's parent.
pub open spec fn symlink_destination(link: Seq<char>, target: Seq<char>) -> Seq<char> {
    if rooted_or_prefixed(target) {
        target
    } else {
        match parent_of_path(link) {
            Some(parent) => path_join(parent, target),
            None => target,
        }
    }
}

pub fn resolve_symlink_target(link_path: &str, target: &str) -> (r: String)
    ensures
        r@ == symlink_destination(link_path@, target@),
{
    let chars = chars_of(target);
    if is_rooted_or_prefixed(chars.as_slice()) {
        return target.to_owned();
    }
    match parent_path(link_path) {
        Some(parent) => join_paths(parent.as_str(), target),
        None => target.to_owned(),
    }
}

/// Whether `a` starts with the names of `b`.
pub open spec fn names_start_with(a: Seq<Seq<char>>, b: Seq<Seq<char>>) -> bool {
    b.len() <= a.len() && a.take(b.len() as int) == b
}

/// Whether a relative path is selected by a files-from list: it equals, lies below, or lies above
/// one of the listed paths.
pub open spec fn files_from_selects(relative: Seq<char>, files_from: Seq<Seq<char>>) -> bool {
    exists|i: int|
        0 <= i < files_from.len() && (names_start_with(
            path_names(relative),
            #[trigger] path_names(files_from[i]),
        ) || names_start_with(path_names(files_from[i]), path_names(relative)))
}

fn names_prefix(a: &[String], b: &[String]) -> (r: bool)
    ensures
        r == names_start_with(components_view(a@), components_view(b@)),
{
    let ghost av = components_view(a@);
    let ghost bv = components_view(b@);
    if b.len() > a.len() {
        return false;
    }
    let mut i: usize = 0;
    while i < b.len()
        invariant
            i <= b@.len() <= a@.len(),
            av == components_view(a@),
            bv == components_view(b@),
            forall|k: int| 0 <= k < i ==> av[k] == bv[k],
        decreases b.len() - i,
    {
        if !crate::text::str_eq(a[i].as_str(), b[i].as_str()) {
            assert(av.take(bv.len() as int)[i as int] != bv[i as int]);
            return false;
        }
        i = i + 1;
    }
    assert(av.take(bv.len() as int) =~= bv);
    true
}

pub fn files_from_matches(relative: &str, files_from: &[String]) -> (r: bool)
    ensures
        r == files_from_selects(relative@, files_from@.map_values(|s: String| s@)),
{
    let ghost ff = files_from@.map_values(|s: String| s@);
    let rel = path_names_of(relative, true);
    let mut i: usize = 0;
    while i < files_from.len()
        invariant
            i <= files_from@.len(),
            ff == files_from@.map_values(|s: String| s@),
            components_view(rel@) == path_names(relative@),
            forall|j: int|
                0 <= j < i ==> !(names_start_with(path_names(relative@), #[trigger] path_names(ff[j]))
                    || names_start_with(path_names(ff[j]), path_names(relative@))),
        decreases files_from.len() - i,
    {
        let sel = path_names_of(files_from[i].as_str(), true);
        assert(ff[i as int] == files_from@[i as int]@);
        assert(components_view(sel@) == path_names(ff[i as int]));
        if names_prefix(rel.as_slice(), sel.as_slice()) || names_prefix(sel.as_slice(), rel.as_slice()) {
            assert(0 <= i < ff.len());
            return true;
        }
        i = i + 1;
    }
    false
}

/// The path with `suffix` added to its last name (or pushed as a new name when it has none).
pub open spec fn with_suffix(p: Seq<char>, suffix: Seq<char>) -> Seq<char> {
    if suffix.len() == 0 {
        p
    } else {
        match file_name_of(p) {
            Some(n) => path_join(parent_of_path(p)->Some_0, n + suffix),
            None => path_join(p, suffix),
        }
    }
}

pub fn append_suffix(path: &str, suffix: &str) -> (r: String)
    ensures
        r@ == with_suffix(path@, suffix@),
{
    if suffix.unicode_len() == 0 {
        return path.to_owned();
    }
    proof {
        reveal_strlit("");
    }
    match file_name(path) {
        Some(name) => {
            let parent = match parent_path(path) {
                Some(q) => q,
                None => {
                    assert(false);
                    String::new()
                },
            };
            let named = join3(name.as_str(), suffix, "");
            assert(named@ =~= name@ + suffix@);
            join_paths(parent.as_str(), named.as_str())
        },
        None => join_paths(path, suffix),
    }
}

} // verus!
