use vstd::prelude::*;

use crate::fs::memory::{
    ensure_node, entries_sorted, insert_node, lemma_insert_node, lemma_remove_node, lookup,
    remove_node, Entries,
};
use crate::fs::memory_fs::{
    append_outcome, create_dir_all_outcome, create_dirs, directory_node, ensure_dirs, file_metadata,
    metadata_outcome, parent_dirs, read_nodes, read_outcome, remove_file_outcome, rename_outcome,
    resolve_prefix, symlink_prefix, write_outcome, write_path, FsFail,
};
use crate::fs::metadata::FileType;
use crate::fs::paths::{path_text, portable_path};

verus! {

/// Whether no prefix of `c` (but the root) holds a symbolic link.
pub open spec fn no_links_along(s: Entries, c: Seq<Seq<char>>) -> bool {
    forall|j: int|
        1 <= j <= c.len() ==> !(#[trigger] lookup(s, c.take(j)) matches Some(n) && n.0.file_type
            == FileType::Symlink)
}

proof fn lemma_no_symlink_prefix(s: Entries, c: Seq<Seq<char>>, k: int)
    requires
        1 <= k,
        no_links_along(s, c),
    ensures
        symlink_prefix(s, c, k) is None,
    decreases c.len() + 1 - k,
{
    if k <= c.len() {
        assert(!(lookup(s, c.take(k)) matches Some(n) && n.0.file_type == FileType::Symlink));
        lemma_no_symlink_prefix(s, c, k + 1);
    }
}

proof fn lemma_no_links_parent(s: Entries, c: Seq<Seq<char>>)
    requires
        c.len() > 0,
        no_links_along(s, c),
    ensures
        no_links_along(s, c.drop_last()),
{
    assert forall|j: int| 1 <= j <= c.drop_last().len() implies !(#[trigger] lookup(
        s,
        c.drop_last().take(j),
    ) matches Some(n) && n.0.file_type == FileType::Symlink) by {
        assert(c.drop_last().take(j) =~= c.take(j));
        assert(!(lookup(s, c.take(j)) matches Some(n) && n.0.file_type == FileType::Symlink));
    }
}

/// Adding a node only where there is none keeps the order and every node already there.
proof fn lemma_ensure_node(s: Entries, k: Seq<Seq<char>>, n: (crate::fs::metadata::PortableMetadata, Seq<u8>))
    requires
        entries_sorted(s),
    ensures
        entries_sorted(ensure_node(s, k, n)),
        lookup(ensure_node(s, k, n), k) is Some,
        forall|k2: Seq<Seq<char>>|
            lookup(s, k2) is Some ==> #[trigger] lookup(ensure_node(s, k, n), k2) == lookup(s, k2),
        forall|k2: Seq<Seq<char>>|
            k2 != k ==> #[trigger] lookup(ensure_node(s, k, n), k2) == lookup(s, k2),
{
    if lookup(s, k) is None {
        lemma_insert_node(s, k, n);
    }
}

/// Creating the directories along `p` up to `n` components keeps the order and every node already
/// there, and leaves a node at each of those prefixes.
pub proof fn lemma_ensure_dirs(s: Entries, p: Seq<Seq<char>>, n: nat)
    requires
        entries_sorted(s),
        n <= p.len(),
    ensures
        entries_sorted(ensure_dirs(s, p, n)),
        forall|j: int| 0 <= j <= n ==> #[trigger] lookup(ensure_dirs(s, p, n), p.take(j)) is Some,
        forall|k2: Seq<Seq<char>>|
            lookup(s, k2) is Some ==> #[trigger] lookup(ensure_dirs(s, p, n), k2) == lookup(s, k2),
        forall|k2: Seq<Seq<char>>|
            (forall|j: int| 0 <= j <= n ==> k2 != #[trigger] p.take(j)) ==> #[trigger] lookup(
                ensure_dirs(s, p, n),
                k2,
            ) == lookup(s, k2),
    decreases n,
{
    if n == 0 {
        lemma_ensure_node(s, Seq::empty(), directory_node());
        assert(p.take(0) =~= Seq::<Seq<char>>::empty());
    } else {
        let m = (n - 1) as nat;
        lemma_ensure_dirs(s, p, m);
        let e = ensure_dirs(s, p, m);
        lemma_ensure_node(e, p.take(n as int), directory_node());
        assert forall|j: int| 0 <= j <= n implies #[trigger] lookup(ensure_dirs(s, p, n), p.take(j)) is Some by {
            if j < n {
                assert(lookup(e, p.take(j)) is Some);
            }
        }
        assert forall|k2: Seq<Seq<char>>|
            (forall|j: int| 0 <= j <= n ==> k2 != #[trigger] p.take(j)) implies #[trigger] lookup(
                ensure_dirs(s, p, n),
                k2,
            ) == lookup(s, k2) by {
            assert(k2 != p.take(n as int));
            assert forall|j: int| 0 <= j <= m implies k2 != #[trigger] p.take(j) by {
                assert(k2 != p.take(j));
            }
        }
    }
}

/// With no link along `c`, creating its directories succeeds, keeps every node already there and
/// leaves a node at each prefix of `c`.
pub proof fn lemma_create_dirs(s: Entries, c: Seq<Seq<char>>)
    requires
        entries_sorted(s),
        no_links_along(s, c),
    ensures
        create_dirs(s, c) == Ok::<Entries, FsFail>(ensure_dirs(s, c, c.len())),
        entries_sorted(ensure_dirs(s, c, c.len())),
        forall|j: int|
            0 <= j <= c.len() ==> #[trigger] lookup(ensure_dirs(s, c, c.len()), c.take(j)) is Some,
        forall|k2: Seq<Seq<char>>|
            lookup(s, k2) is Some ==> #[trigger] lookup(ensure_dirs(s, c, c.len()), k2) == lookup(s, k2),
        forall|k2: Seq<Seq<char>>|
            (forall|j: int| 0 <= j <= c.len() ==> k2 != #[trigger] c.take(j)) ==> #[trigger] lookup(
                ensure_dirs(s, c, c.len()),
                k2,
            ) == lookup(s, k2),
{
    lemma_no_symlink_prefix(s, c, 1);
    assert(resolve_prefix(s, c, 32) == Ok::<Seq<Seq<char>>, FsFail>(c));
    lemma_ensure_dirs(s, c, c.len());
}

/// With no link along `c`, the parent directories of `c` can be created, and doing so keeps every
/// node already there and adds none at `c`.
proof fn lemma_parent_dirs(s: Entries, c: Seq<Seq<char>>)
    requires
        entries_sorted(s),
        no_links_along(s, c),
    ensures
        parent_dirs(s, c) matches Ok(s1) && entries_sorted(s1) && lookup(s1, c) == lookup(s, c)
            && (forall|k2: Seq<Seq<char>>|
            lookup(s, k2) is Some ==> #[trigger] lookup(s1, k2) == lookup(s, k2)),
{
    if c.len() > 0 {
        let d = c.drop_last();
        lemma_no_links_parent(s, c);
        lemma_create_dirs(s, d);
        assert forall|j: int| 0 <= j <= d.len() implies c != #[trigger] d.take(j) by {
            assert(d.take(j).len() < c.len());
        }
    }
}

/// A file written at a path with no symbolic link along it reads back as the bytes written.
pub proof fn lemma_write_then_read(s: Entries, path: Seq<char>, bytes: Seq<u8>)
    requires
        entries_sorted(s),
        portable_path(path) matches Some(c) && no_links_along(s, c),
    ensures
        write_outcome(s, path, bytes) matches Ok(s2) && read_outcome(s2, path) == Ok::<
            Seq<u8>,
            FsFail,
        >(bytes),
{
    let c = portable_path(path)->Some_0;
    lemma_no_symlink_prefix(s, c, 1);
    assert(write_path(s, path) == Ok::<Seq<Seq<char>>, FsFail>(c));
    lemma_parent_dirs(s, c);
    let s1 = parent_dirs(s, c)->Ok_0;
    lemma_insert_node(s1, c, (file_metadata(bytes.len() as int), bytes));
    let s2 = insert_node(s1, c, (file_metadata(bytes.len() as int), bytes));
    assert(read_nodes(s2, c, s2.len()) == Ok::<Seq<u8>, FsFail>(bytes));
}

/// Writing a file at a path with no symbolic link along it leaves every other node there was as
/// it was.
pub proof fn lemma_write_keeps_other_nodes(
    s: Entries,
    path: Seq<char>,
    bytes: Seq<u8>,
    other: Seq<Seq<char>>,
)
    requires
        entries_sorted(s),
        portable_path(path) matches Some(c) && no_links_along(s, c) && other != c,
        lookup(s, other) is Some,
    ensures
        write_outcome(s, path, bytes) matches Ok(s2) && lookup(s2, other) == lookup(s, other),
{
    let c = portable_path(path)->Some_0;
    lemma_no_symlink_prefix(s, c, 1);
    lemma_parent_dirs(s, c);
    let s1 = parent_dirs(s, c)->Ok_0;
    lemma_insert_node(s1, c, (file_metadata(bytes.len() as int), bytes));
}

/// Appending to a file at a path with no symbolic link along it reads back as the old content
/// followed by the bytes appended.
pub proof fn lemma_append_then_read(s: Entries, path: Seq<char>, bytes: Seq<u8>)
    requires
        entries_sorted(s),
        portable_path(path) matches Some(c) && no_links_along(s, c) && (lookup(s, c) matches Some(
            n,
        ) && n.0.file_type == FileType::File),
    ensures
        append_outcome(s, path, bytes) matches Ok(s2) && read_outcome(s2, path) == Ok::<
            Seq<u8>,
            FsFail,
        >(lookup(s, portable_path(path)->Some_0)->Some_0.1 + bytes),
{
    let c = portable_path(path)->Some_0;
    let n = lookup(s, c)->Some_0;
    lemma_no_symlink_prefix(s, c, 1);
    let content = n.1 + bytes;
    let m = crate::fs::metadata::PortableMetadata { len: content.len() as u64, ..n.0 };
    lemma_insert_node(s, c, (m, content));
    let s2 = insert_node(s, c, (m, content));
    assert(read_nodes(s2, c, s2.len()) == Ok::<Seq<u8>, FsFail>(content));
}

/// A removed file is gone: its metadata is not found and it cannot be read.
pub proof fn lemma_remove_then_missing(s: Entries, path: Seq<char>)
    requires
        entries_sorted(s),
        remove_file_outcome(s, path) is Ok,
    ensures
        remove_file_outcome(s, path) matches Ok(s2) && metadata_outcome(s2, path) == Err::<
            crate::fs::metadata::PortableMetadata,
            FsFail,
        >(FsFail::NotFound(path_text(portable_path(path)->Some_0))) && read_outcome(s2, path)
            == Err::<Seq<u8>, FsFail>(FsFail::NotFound(path_text(portable_path(path)->Some_0))),
{
    let c = portable_path(path)->Some_0;
    lemma_remove_node(s, c);
}

/// Creating a directory path with no symbolic link along it leaves a node at every prefix of the
/// path, and every node there was as it was.
pub proof fn lemma_create_dir_all_makes_path(s: Entries, path: Seq<char>)
    requires
        entries_sorted(s),
        portable_path(path) matches Some(c) && no_links_along(s, c),
    ensures
        create_dir_all_outcome(s, path) matches Ok(s2) && metadata_outcome(s2, path) is Ok && (forall|
            j: int,
        | 0 <= j <= portable_path(path)->Some_0.len() ==> #[trigger] lookup(
            s2,
            portable_path(path)->Some_0.take(j),
        ) is Some) && (forall|k2: Seq<Seq<char>>|
            lookup(s, k2) is Some ==> #[trigger] lookup(s2, k2) == lookup(s, k2)),
{
    let c = portable_path(path)->Some_0;
    lemma_create_dirs(s, c);
    assert(c.take(c.len() as int) =~= c);
}

/// Renaming moves the node: after a rename to a path with no symbolic link along it, the
/// destination holds what the source held and the source is gone.
pub proof fn lemma_rename_moves_node(s: Entries, source: Seq<char>, dest: Seq<char>)
    requires
        entries_sorted(s),
        portable_path(source) matches Some(src) && lookup(s, src) is Some,
        portable_path(dest) matches Some(d) && no_links_along(s, d),
        portable_path(source) != portable_path(dest),
    ensures
        rename_outcome(s, source, dest).1 is Ok,
        lookup(rename_outcome(s, source, dest).0, portable_path(dest)->Some_0) == lookup(
            s,
            portable_path(source)->Some_0,
        ),
        lookup(rename_outcome(s, source, dest).0, portable_path(source)->Some_0) is None,
{
    let src = portable_path(source)->Some_0;
    let d = portable_path(dest)->Some_0;
    lemma_no_symlink_prefix(s, d, 1);
    lemma_parent_dirs(s, d);
    let s1 = parent_dirs(s, d)->Ok_0;
    let n = lookup(s1, src)->Some_0;
    lemma_remove_node(s1, src);
    lemma_insert_node(remove_node(s1, src), d, n);
}

} // verus!
