use vstd::prelude::*;

use crate::fs::metadata::FileType;
use crate::fs::paths::path_text;
use crate::fs::sync_engine::MAX_TREE_DEPTH;
use crate::fs::sync_paths::{path_names, path_names_of};
use crate::fs::sync_plan::EntryMap;
use crate::fs::walk::{FsError, PortableFileSystem, WalkEntry};

verus! {

/// Every entry below `root`, directories walked into, in path order.
pub fn walk_tree<F: PortableFileSystem>(fs: &F, root: &str) -> (r: Result<Vec<WalkEntry>, FsError>)
    ensures
        r matches Ok(v) ==> forall|i: int, j: int|
            0 <= i < j < v@.len() ==> crate::fs::paths::path_less(
                path_names(#[trigger] v@[i].path@),
                path_names(#[trigger] v@[j].path@),
            ),
{
    let mut entries = EntryMap::new();
    walk_tree_inner(fs, root, &mut entries, MAX_TREE_DEPTH)?;
    entries.assert_sorted();
    let n = entries.len();
    let mut out: Vec<WalkEntry> = Vec::new();
    let mut i: usize = 0;
    while i < n
        invariant
            n == entries@.len(),
            i <= n,
            out@.len() == i,
            crate::fs::memory::entries_sorted(entries@),
            forall|k: int|
                0 <= k < entries@.len() ==> #[trigger] path_names(entries@[k].1.path@) == entries@[k].0,
            forall|k: int| 0 <= k < i ==> #[trigger] path_names(out@[k].path@) == entries@[k].0,
        decreases n - i,
    {
        let ghost before = out@;
        out.push(entries.entry_at(i).clone());
        proof {
            assert forall|k: int| 0 <= k < i + 1 implies #[trigger] path_names(out@[k].path@)
                == entries@[k].0 by {
                if k < i {
                    assert(out@[k] == before[k]);
                }
            }
        }
        i = i + 1;
    }
    Ok(out)
}

fn walk_tree_inner<F: PortableFileSystem>(fs: &F, root: &str, entries: &mut EntryMap, depth: usize) -> (r: Result<
    (),
    FsError,
>)
    requires
        forall|k: int|
            0 <= k < old(entries)@.len() ==> #[trigger] path_names(old(entries)@[k].1.path@)
                == old(entries)@[k].0,
    ensures
        forall|k: int|
            0 <= k < final(entries)@.len() ==> #[trigger] path_names(final(entries)@[k].1.path@)
                == final(entries)@[k].0,
        depth == 0 ==> final(entries)@ == old(entries)@,
        depth == 0 ==> (r matches Err(FsError::Unsupported(m)) && m@
            == "directory tree is too deep to walk"@),
    decreases depth,
{
    if depth == 0 {
        return Err(FsError::Unsupported("directory tree is too deep to walk"));
    }
    let listing = fs.list(root)?;
    let n = listing.len();
    let mut i: usize = 0;
    while i < n
        invariant
            n == listing@.len(),
            i <= n,
            depth > 0,
            forall|k: int|
                0 <= k < entries@.len() ==> #[trigger] path_names(entries@[k].1.path@) == entries@[k].0,
        decreases n - i,
    {
        let entry = listing[i].clone();
        i = i + 1;
        let is_dir = matches!(entry.metadata.file_type, FileType::Directory);
        let path = entry.path.clone();
        let key = path_names_of(path.as_str(), true);
        let ghost before = entries@;
        let ghost kv = crate::fs::paths::components_view(key@);
        let ghost e = entry;
        entries.insert(key, entry);
        proof {
            crate::fs::memory::lemma_insert_node_elements(before, kv, e);
            assert forall|k: int| 0 <= k < entries@.len() implies #[trigger] path_names(
                entries@[k].1.path@,
            ) == entries@[k].0 by {
                if entries@[k] != (kv, e) {
                    let j = choose|j: int| 0 <= j < before.len() && entries@[k] == before[j];
                    assert(path_names(before[j].1.path@) == before[j].0);
                }
            }
        }
        if is_dir {
            walk_tree_inner(fs, path.as_str(), entries, depth - 1)?;
        }
    }
    Ok(())
}

} // verus!
