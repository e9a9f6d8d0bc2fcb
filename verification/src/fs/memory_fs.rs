use vstd::prelude::*;

use crate::fs::memory::{
    ensure_node, entries_sorted, entry_index, first_not_less, insert_node, lemma_insert_node,
    lemma_lookup_found, lemma_lookup_missing, lemma_remove_node, lookup, remove_node, Entries,
    NodeView,
};
use crate::fs::metadata::{FileType, HardlinkId, PortableMetadata};
use crate::fs::paths::{
    components_view, compare_paths, is_rooted_or_prefixed, join_path, path_less, path_text,
    portable_components, portable_path, raw_pieces, resolve_relative, resolved_pieces,
    rooted_or_prefixed, Order,
};
use crate::bytes::{append_bytes, copy_range};
use crate::fs::walk::{FileWriteOptions, FsError, PortableFileSystem, WalkEntry};
use crate::text::chars_of;

verus! {

/// A failure of a file system operation, as the contracts describe it.
pub enum FsFail {
    InvalidPath(Seq<char>),
    NotFound(Seq<char>),
    NotDirectory(Seq<char>),
    Unsupported(Seq<char>),
}

/// Whether an error is the failure `f`.
pub open spec fn fails_as(e: FsError, f: FsFail) -> bool {
    match f {
        FsFail::InvalidPath(t) => e matches FsError::InvalidPortablePath(s) && s@ == t,
        FsFail::NotFound(t) => e matches FsError::NotFound(s) && s@ == t,
        FsFail::NotDirectory(t) => e matches FsError::NotDirectory(s) && s@ == t,
        FsFail::Unsupported(t) => e matches FsError::Unsupported(s) && s@ == t,
    }
}

/// The metadata of a kind of entry that carries nothing but its kind.
pub open spec fn bare(file_type: FileType) -> PortableMetadata {
    PortableMetadata {
        file_type,
        len: 0,
        modified: None,
        mode: None,
        symlink_target: None,
        hardlink_id: None,
        hardlink_count: None,
    }
}

/// An empty directory node.
pub open spec fn directory_node() -> NodeView {
    (bare(FileType::Directory), Seq::empty())
}

/// The view of an optional string.
pub open spec fn text_of(s: Option<String>) -> Option<Seq<char>> {
    match s {
        Some(t) => Some(t@),
        None => None,
    }
}

/// The parent of a path: all but its last component (the root is its own parent).
pub open spec fn parent_of(p: Seq<Seq<char>>) -> Seq<Seq<char>> {
    if p.len() == 0 {
        p
    } else {
        p.drop_last()
    }
}

/// What a symbolic link at `link` whose target is `target` points to: the target's pieces taken
/// from the link's directory, where `..` steps back; rooted, prefixed or escaping targets fail.
pub open spec fn link_target(link: Seq<Seq<char>>, target: Option<Seq<char>>) -> Result<
    Seq<Seq<char>>,
    FsFail,
> {
    match target {
        None => Err(FsFail::InvalidPath(path_text(link))),
        Some(t) => if rooted_or_prefixed(t) {
            Err(FsFail::InvalidPath(t))
        } else {
            let parent = parent_of(link);
            match resolved_pieces(parent, raw_pieces(t)) {
                Some(c) => Ok(c),
                None => Err(
                    FsFail::InvalidPath(
                        if parent.len() == 0 {
                            t
                        } else {
                            path_text(parent) + seq!['/'] + t
                        },
                    ),
                ),
            }
        },
    }
}

/// The shortest prefix of `p`, of at least `k` components, at which a symbolic link lies.
pub open spec fn symlink_prefix(s: Entries, p: Seq<Seq<char>>, k: int) -> Option<int>
    decreases p.len() + 1 - k,
{
    if k > p.len() {
        None
    } else if k >= 1 && (lookup(s, p.take(k)) matches Some(n) && n.0.file_type == FileType::Symlink) {
        Some(k)
    } else {
        symlink_prefix(s, p, k + 1)
    }
}

/// A path with the symbolic links along it followed, at most `limit` times.
pub open spec fn resolve_prefix(s: Entries, p: Seq<Seq<char>>, limit: nat) -> Result<
    Seq<Seq<char>>,
    FsFail,
>
    decreases limit,
{
    match symlink_prefix(s, p, 1) {
        None => Ok(p),
        Some(k) => if limit == 0 {
            Err(FsFail::Unsupported("too many nested memory symlinks"@))
        } else {
            match link_target(p.take(k), text_of(lookup(s, p.take(k))->Some_0.0.symlink_target)) {
                Err(e) => Err(e),
                Ok(t) => resolve_prefix(s, t + p.skip(k), (limit - 1) as nat),
            }
        },
    }
}

/// The entries with a directory at every prefix of `p` up to `n` components that had no node.
pub open spec fn ensure_dirs(s: Entries, p: Seq<Seq<char>>, n: nat) -> Entries
    decreases n,
{
    if n == 0 {
        ensure_node(s, Seq::empty(), directory_node())
    } else {
        ensure_node(ensure_dirs(s, p, (n - 1) as nat), p.take(n as int), directory_node())
    }
}

/// The entries after creating the directories of `p` (following the symbolic links along it).
pub open spec fn create_dirs(s: Entries, p: Seq<Seq<char>>) -> Result<Entries, FsFail> {
    match resolve_prefix(s, p, 32) {
        Err(e) => Err(e),
        Ok(r) => Ok(ensure_dirs(s, r, r.len())),
    }
}

struct MemoryEntry {
    path: Vec<String>,
    metadata: PortableMetadata,
    bytes: Vec<u8>,
}

/// The view of a stored node: its path, metadata and content.
spec fn entry_views() -> spec_fn(MemoryEntry) -> (Seq<Seq<char>>, NodeView) {
    |e: MemoryEntry| (components_view(e.path@), (e.metadata, e.bytes@))
}

/// A step of a filter over a growing prefix.
pub proof fn lemma_filter_step<A>(s: Seq<A>, k: int, pred: spec_fn(A) -> bool)
    requires
        0 <= k < s.len(),
    ensures
        s.take(k + 1).filter(pred) == if pred(s[k]) {
            s.take(k).filter(pred).push(s[k])
        } else {
            s.take(k).filter(pred)
        },
{
    reveal(Seq::filter);
    assert(s.take(k + 1).drop_last() =~= s.take(k));
}

/// Mapping over a sequence with one more element.
pub proof fn lemma_map_push<A, B>(a: Seq<A>, x: A, f: spec_fn(A) -> B)
    ensures
        a.push(x).map_values(f) == a.map_values(f).push(f(x)),
{
    assert(a.push(x).map_values(f) =~= a.map_values(f).push(f(x)));
}

/// Mapping over a sequence without its first element.
pub proof fn lemma_map_rest<A, B>(a: Seq<A>, f: spec_fn(A) -> B, t: Seq<B>, k: int)
    requires
        a.len() > 0,
        0 <= k < t.len(),
        a.map_values(f) == t.skip(k),
    ensures
        f(a[0]) == t[k],
        a.skip(1).map_values(f) == t.skip(k + 1),
{
    assert(a.map_values(f)[0] == f(a[0]));
    assert(t.skip(k)[0] == t[k]);
    assert(a.map_values(f).len() == a.len());
    assert(t.skip(k).len() == t.len() - k);
    assert(a.skip(1).map_values(f) =~= t.skip(k + 1)) by {
        assert forall|j: int| 0 <= j < a.len() - 1 implies #[trigger] a.skip(1).map_values(f)[j] == t.skip(k + 1)[j] by {
            assert(a.map_values(f)[j + 1] == f(a[j + 1]));
            assert(t.skip(k)[j + 1] == t[k + j + 1]);
            assert(a.skip(1)[j] == a[j + 1]);
        }
    }
}

/// A file system held in memory, for tests and dry runs: a tree of nodes in path order.
pub struct MemoryFileSystem {
    nodes: Vec<MemoryEntry>,
    next_hardlink_file: u64,
}

impl View for MemoryFileSystem {
    type V = Entries;

    closed spec fn view(&self) -> Entries {
        self.nodes@.map_values(entry_views())
    }
}

impl MemoryFileSystem {
    #[verifier::type_invariant]
    closed spec fn sorted(self) -> bool {
        entries_sorted(self@)
    }

    /// The file index the next hard link group gets.
    pub closed spec fn next_hardlink(self) -> u64 {
        self.next_hardlink_file
    }

    /// A file system with an empty root directory.
    pub fn new() -> (r: Self)
        ensures
            r@ == seq![(Seq::<Seq<char>>::empty(), directory_node())],
            r.next_hardlink() == 1,
    {
        let root = MemoryEntry {
            path: Vec::new(),
            metadata: PortableMetadata::directory(),
            bytes: Vec::new(),
        };
        assert(components_view(root.path@) =~= Seq::<Seq<char>>::empty());
        assert(root.bytes@ =~= Seq::<u8>::empty());
        let mut nodes: Vec<MemoryEntry> = Vec::new();
        nodes.push(root);
        let r = MemoryFileSystem { nodes, next_hardlink_file: 1 };
        assert(r@ =~= seq![(Seq::<Seq<char>>::empty(), directory_node())]);
        r
    }

    /// Where the node at `key` is, or where one would go.
    fn find(&self, key: &[String]) -> (r: Result<usize, usize>)
        ensures
            match r {
                Ok(i) => entry_index(self@, components_view(key@)) == Some(i as int),
                Err(p) => entry_index(self@, components_view(key@)) is None && p == first_not_less(
                    self@,
                    components_view(key@),
                    0,
                ),
            },
    {
        let ghost k = components_view(key@);
        let n = self.nodes.len();
        let mut i: usize = 0;
        while i < n
            invariant
                n == self.nodes@.len(),
                i <= n,
                first_not_less(self@, k, 0) == first_not_less(self@, k, i as int),
                k == components_view(key@),
            decreases n - i,
        {
            assert(self@[i as int].0 == components_view(self.nodes@[i as int].path@));
            match compare_paths(self.nodes[i].path.as_slice(), key) {
                Order::Less => {
                    i = i + 1;
                },
                Order::Equal => {
                    return Ok(i);
                },
                Order::Greater => {
                    proof {
                        crate::fs::paths::lemma_path_less_asymmetric(k, self@[i as int].0);
                    }
                    return Err(i);
                },
            }
        }
        Err(i)
    }

    /// Sets the node at `key`.
    fn put(&mut self, key: Vec<String>, metadata: PortableMetadata, bytes: Vec<u8>)
        ensures
            final(self)@ == insert_node(old(self)@, components_view(key@), (metadata, bytes@)),
            final(self).next_hardlink() == old(self).next_hardlink(),
    {
        proof {
            use_type_invariant(&*self);
            lemma_insert_node(self@, components_view(key@), (metadata, bytes@));
        }
        let ghost k = components_view(key@);
        let ghost n = (metadata, bytes@);
        let found = self.find(key.as_slice());
        proof {
            crate::fs::memory::lemma_first_not_less(self@, k, 0);
        }
        let mut nodes: Vec<MemoryEntry> = Vec::new();
        std::mem::swap(&mut nodes, &mut self.nodes);
        let entry = MemoryEntry { path: key, metadata, bytes };
        match found {
            Ok(i) => {
                nodes.set(i, entry);
            },
            Err(i) => {
                nodes.insert(i, entry);
            },
        }
        proof {
            let v = nodes@.map_values(entry_views());
            assert(v =~= insert_node(old(self)@, k, n));
        }
        self.nodes = nodes;
    }

    /// Adds a directory at `key` when there is no node there.
    fn ensure_dir(&mut self, key: Vec<String>)
        ensures
            final(self)@ == ensure_node(old(self)@, components_view(key@), directory_node()),
            final(self).next_hardlink() == old(self).next_hardlink(),
    {
        match self.find(key.as_slice()) {
            Ok(_) => {},
            Err(_) => {
                let metadata = PortableMetadata::directory();
                assert(metadata == bare(FileType::Directory));
                let bytes: Vec<u8> = Vec::new();
                assert(bytes@ =~= Seq::<u8>::empty());
                self.put(key, metadata, bytes);
            },
        }
    }

    /// Removes the node at `key`, handing it back.
    fn take(&mut self, key: &[String]) -> (r: Option<(PortableMetadata, Vec<u8>)>)
        ensures
            final(self)@ == remove_node(old(self)@, components_view(key@)),
            final(self).next_hardlink() == old(self).next_hardlink(),
            match lookup(old(self)@, components_view(key@)) {
                Some(n) => r matches Some(x) && x.0 == n.0 && x.1@ == n.1,
                None => r is None,
            },
    {
        proof {
            use_type_invariant(&*self);
            lemma_remove_node(self@, components_view(key@));
        }
        match self.find(key) {
            Ok(i) => {
                let mut nodes: Vec<MemoryEntry> = Vec::new();
                std::mem::swap(&mut nodes, &mut self.nodes);
                let entry = nodes.remove(i);
                proof {
                    let v = nodes@.map_values(entry_views());
                    assert(v =~= remove_node(old(self)@, components_view(key@)));
                }
                self.nodes = nodes;
                Some((entry.metadata, entry.bytes))
            },
            Err(_) => None,
        }
    }

    /// The paths of all nodes, in path order.
    pub fn paths(&self) -> (r: Vec<String>)
        ensures
            r@.len() == self@.len(),
            forall|i: int| 0 <= i < r@.len() ==> #[trigger] r@[i]@ == path_text(self@[i].0),
    {
        let n = self.nodes.len();
        let mut out: Vec<String> = Vec::new();
        let mut i: usize = 0;
        while i < n
            invariant
                n == self.nodes@.len(),
                i <= n,
                out@.len() == i,
                forall|j: int| 0 <= j < i ==> #[trigger] out@[j]@ == path_text(self@[j].0),
            decreases n - i,
        {
            assert(self@[i as int].0 == components_view(self.nodes@[i as int].path@));
            out.push(join_path(self.nodes[i].path.as_slice()));
            i = i + 1;
        }
        out
    }
}

/// The components of a portable path, or the error for a path that is not one.
pub fn normalize_portable_path(path: &str) -> (r: Result<Vec<String>, FsError>)
    ensures
        match portable_path(path@) {
            Some(c) => r matches Ok(v) && components_view(v@) == c,
            None => r matches Err(e) && fails_as(e, FsFail::InvalidPath(path@)),
        },
{
    match portable_components(path) {
        Some(c) => Ok(c),
        None => Err(FsError::InvalidPortablePath(path.to_owned())),
    }
}

/// A copy of `path[start..end]`.
fn copy_path(path: &[String], start: usize, end: usize) -> (r: Vec<String>)
    requires
        start <= end <= path@.len(),
    ensures
        components_view(r@) == components_view(path@).subrange(start as int, end as int),
{
    let mut out: Vec<String> = Vec::new();
    let mut i = start;
    while i < end
        invariant
            start <= i <= end,
            end <= path@.len(),
            components_view(out@) == components_view(path@).subrange(start as int, i as int),
        decreases end - i,
    {
        let ghost before = components_view(out@);
        let piece = path[i].clone();
        out.push(piece);
        assert(components_view(out@) =~= before.push(piece@));
        i = i + 1;
        assert(components_view(out@) =~= components_view(path@).subrange(start as int, i as int));
    }
    out
}

/// `a` followed by `b`.
fn concat_paths(a: Vec<String>, b: &[String]) -> (r: Vec<String>)
    ensures
        components_view(r@) == components_view(a@) + components_view(b@),
{
    let mut out = a;
    let rest = copy_path(b, 0, b.len());
    let ghost before = components_view(out@);
    assert(components_view(b@).subrange(0, b@.len() as int) =~= components_view(b@));
    let mut rest = rest;
    out.append(&mut rest);
    assert(components_view(out@) =~= before + components_view(b@));
    out
}

/// The error for a symbolic link target that escapes its tree.
fn escaping_target(parent: &[String], target: &str) -> (r: FsError)
    ensures
        fails_as(
            r,
            FsFail::InvalidPath(
                if parent@.len() == 0 {
                    target@
                } else {
                    path_text(components_view(parent@)) + seq!['/'] + target@
                },
            ),
        ),
{
    if parent.len() == 0 {
        FsError::InvalidPortablePath(target.to_owned())
    } else {
        let mut text = join_path(parent);
        text.push('/');
        let ghost before = text@;
        assert(before =~= path_text(components_view(parent@)) + seq!['/']);
        let t = chars_of(target);
        let mut i: usize = 0;
        while i < t.len()
            invariant
                i <= t@.len(),
                t@ == target@,
                text@ == before + t@.take(i as int),
            decreases t.len() - i,
        {
            text.push(t[i]);
            i = i + 1;
            assert(text@ =~= before + t@.take(i as int));
        }
        assert(t@.take(t@.len() as int) =~= t@);
        FsError::InvalidPortablePath(text)
    }
}

/// What the symbolic link at `link` with target `target` points to.
pub fn resolve_memory_symlink_target(link: &[String], target: &Option<String>) -> (r: Result<
    Vec<String>,
    FsError,
>)
    ensures
        match link_target(components_view(link@), text_of(*target)) {
            Ok(c) => r matches Ok(v) && components_view(v@) == c,
            Err(f) => r matches Err(e) && fails_as(e, f),
        },
{
    let t = match target {
        Some(t) => t,
        None => {
            return Err(FsError::InvalidPortablePath(join_path(link)));
        },
    };
    if is_rooted_or_prefixed(chars_of(t.as_str()).as_slice()) {
        return Err(FsError::InvalidPortablePath(t.clone()));
    }
    let parent = if link.len() == 0 {
        Vec::new()
    } else {
        copy_path(link, 0, link.len() - 1)
    };
    assert(components_view(parent@) =~= crate::fs::memory_fs::parent_of(components_view(link@)));
    match resolve_relative(parent.as_slice(), t.as_str()) {
        Some(c) => Ok(c),
        None => Err(escaping_target(parent.as_slice(), t.as_str())),
    }
}

impl MemoryFileSystem {
    /// `path` with the symbolic links along it followed, at most `limit` times.
    fn resolve_prefix_at(&self, path: Vec<String>, limit: usize) -> (r: Result<Vec<String>, FsError>)
        ensures
            match resolve_prefix(self@, components_view(path@), limit as nat) {
                Ok(c) => r matches Ok(v) && components_view(v@) == c,
                Err(f) => r matches Err(e) && fails_as(e, f),
            },
        decreases limit,
    {
        let ghost p = components_view(path@);
        let n = path.len();
        let mut j: usize = 0;
        while j < n
            invariant
                j <= n,
                n == path@.len(),
                p == components_view(path@),
                symlink_prefix(self@, p, 1) == symlink_prefix(self@, p, j + 1),
            decreases n - j,
        {
            let k = j + 1;
            let prefix = copy_path(path.as_slice(), 0, k);
            assert(components_view(prefix@) =~= p.take(k as int));
            match self.find(prefix.as_slice()) {
                Ok(i) => {
                    assert(lookup(self@, p.take(k as int)) == Some(self@[i as int].1));
                    assert(self@[i as int].1.0 == self.nodes@[i as int].metadata);
                    if matches!(self.nodes[i].metadata.file_type, FileType::Symlink) {
                        if limit == 0 {
                            return Err(FsError::Unsupported("too many nested memory symlinks"));
                        }
                        let target = match resolve_memory_symlink_target(
                            prefix.as_slice(),
                            &self.nodes[i].metadata.symlink_target,
                        ) {
                            Ok(t) => t,
                            Err(e) => {
                                return Err(e);
                            },
                        };
                        let rest = copy_path(path.as_slice(), k, n);
                        assert(components_view(rest@) =~= p.skip(k as int));
                        let next = concat_paths(target, rest.as_slice());
                        return self.resolve_prefix_at(next, limit - 1);
                    }
                },
                Err(_) => {},
            }
            j = k;
        }
        Ok(path)
    }

    /// Adds a directory at every prefix of `path` (following the links along it) that has no node.
    fn create_dirs_for(&mut self, path: Vec<String>) -> (r: Result<(), FsError>)
        ensures
            match create_dirs(old(self)@, components_view(path@)) {
                Ok(s) => r is Ok && final(self)@ == s,
                Err(f) => r matches Err(e) && fails_as(e, f) && final(self)@ == old(self)@,
            },
            final(self).next_hardlink() == old(self).next_hardlink(),
    {
        let resolved = match self.resolve_prefix_at(path, 32) {
            Ok(r) => r,
            Err(e) => {
                return Err(e);
            },
        };
        let ghost r = components_view(resolved@);
        let root: Vec<String> = Vec::new();
        assert(components_view(root@) =~= Seq::<Seq<char>>::empty());
        self.ensure_dir(root);
        let n = resolved.len();
        let mut j: usize = 0;
        while j < n
            invariant
                j <= n,
                n == resolved@.len(),
                r == components_view(resolved@),
                self@ == ensure_dirs(old(self)@, r, j as nat),
                self.next_hardlink() == old(self).next_hardlink(),
            decreases n - j,
        {
            let k = j + 1;
            let prefix = copy_path(resolved.as_slice(), 0, k);
            assert(components_view(prefix@) =~= r.take(k as int));
            self.ensure_dir(prefix);
            j = k;
        }
        Ok(())
    }
}

/// The path a write to `path` goes to: the portable path with the links along it followed.
pub open spec fn write_path(s: Entries, path: Seq<char>) -> Result<Seq<Seq<char>>, FsFail> {
    match portable_path(path) {
        None => Err(FsFail::InvalidPath(path)),
        Some(c) => resolve_prefix(s, c, 32),
    }
}

/// The entries after creating the parent directories of `p`, if it has a parent.
pub open spec fn parent_dirs(s: Entries, p: Seq<Seq<char>>) -> Result<Entries, FsFail> {
    if p.len() > 0 {
        create_dirs(s, p.drop_last())
    } else {
        Ok(s)
    }
}

/// The metadata of a regular file of `len` bytes.
pub open spec fn file_metadata(len: int) -> PortableMetadata {
    PortableMetadata {
        file_type: FileType::File,
        len: len as u64,
        modified: None,
        mode: None,
        symlink_target: None,
        hardlink_id: None,
        hardlink_count: None,
    }
}

/// The entries after writing `bytes` to `path`.
pub open spec fn write_outcome(s: Entries, path: Seq<char>, bytes: Seq<u8>) -> Result<Entries, FsFail> {
    match write_path(s, path) {
        Err(e) => Err(e),
        Ok(p) => match parent_dirs(s, p) {
            Err(e) => Err(e),
            Ok(s1) => Ok(insert_node(s1, p, (file_metadata(bytes.len() as int), bytes))),
        },
    }
}

/// The content read at `p`, following at most `fuel` symbolic links.
pub open spec fn read_nodes(s: Entries, p: Seq<Seq<char>>, fuel: nat) -> Result<Seq<u8>, FsFail>
    decreases fuel,
{
    match lookup(s, p) {
        None => Err(FsFail::NotFound(path_text(p))),
        Some(n) => if n.0.file_type == FileType::Symlink {
            if fuel == 0 {
                Err(FsFail::Unsupported("too many nested memory symlinks"@))
            } else {
                match link_target(p, text_of(n.0.symlink_target)) {
                    Err(e) => Err(e),
                    Ok(t) => read_nodes(s, t, (fuel - 1) as nat),
                }
            }
        } else if n.0.file_type != FileType::File {
            Err(FsFail::Unsupported("reading non-file memory nodes"@))
        } else {
            Ok(n.1)
        },
    }
}

/// The content read at `path`: a chain of symbolic links longer than the tree has nodes is a
/// cycle and is refused.
pub open spec fn read_outcome(s: Entries, path: Seq<char>) -> Result<Seq<u8>, FsFail> {
    match portable_path(path) {
        None => Err(FsFail::InvalidPath(path)),
        Some(c) => read_nodes(s, c, s.len()),
    }
}

/// The metadata at `path`.
pub open spec fn metadata_outcome(s: Entries, path: Seq<char>) -> Result<PortableMetadata, FsFail> {
    match portable_path(path) {
        None => Err(FsFail::InvalidPath(path)),
        Some(c) => match lookup(s, c) {
            None => Err(FsFail::NotFound(path_text(c))),
            Some(n) => Ok(n.0),
        },
    }
}

/// The metadata at `path`, or at what a symbolic link there points to.
pub open spec fn metadata_follow_outcome(s: Entries, path: Seq<char>) -> Result<PortableMetadata, FsFail> {
    match portable_path(path) {
        None => Err(FsFail::InvalidPath(path)),
        Some(c) => match lookup(s, c) {
            None => Err(FsFail::NotFound(path_text(c))),
            Some(n) => if n.0.file_type != FileType::Symlink {
                Ok(n.0)
            } else {
                match link_target(c, text_of(n.0.symlink_target)) {
                    Err(e) => Err(e),
                    Ok(t) => match lookup(s, t) {
                        None => Err(FsFail::NotFound(path_text(t))),
                        Some(m) => Ok(m.0),
                    },
                }
            },
        },
    }
}

/// The entries after appending `bytes` to the file at `path`.
pub open spec fn append_outcome(s: Entries, path: Seq<char>, bytes: Seq<u8>) -> Result<Entries, FsFail> {
    match write_path(s, path) {
        Err(e) => Err(e),
        Ok(p) => match lookup(s, p) {
            None => Err(FsFail::NotFound(path_text(p))),
            Some(n) => if n.0.file_type != FileType::File {
                Err(FsFail::Unsupported("append_file on non-file memory nodes"@))
            } else {
                let content = n.1 + bytes;
                Ok(
                    insert_node(
                        s,
                        p,
                        (PortableMetadata { len: content.len() as u64, ..n.0 }, content),
                    ),
                )
            },
        },
    }
}

/// The entries after moving the node at `source` to `dest`, and whether that succeeded (the
/// parent directories of `dest` are created first, and stay when the move fails).
pub open spec fn rename_outcome(s: Entries, source: Seq<char>, dest: Seq<char>) -> (Entries, Result<(), FsFail>) {
    match portable_path(source) {
        None => (s, Err(FsFail::InvalidPath(source))),
        Some(src) => match write_path(s, dest) {
            Err(e) => (s, Err(e)),
            Ok(d) => match parent_dirs(s, d) {
                Err(e) => (s, Err(e)),
                Ok(s1) => match lookup(s1, src) {
                    None => (s1, Err(FsFail::NotFound(path_text(src)))),
                    Some(n) => (insert_node(remove_node(s1, src), d, n), Ok(())),
                },
            },
        },
    }
}

/// The entries after creating the directory `path` and its parents.
pub open spec fn create_dir_all_outcome(s: Entries, path: Seq<char>) -> Result<Entries, FsFail> {
    match portable_path(path) {
        None => Err(FsFail::InvalidPath(path)),
        Some(c) => create_dirs(s, c),
    }
}

/// The metadata of a symbolic link to `target`.
pub open spec fn is_symlink_to(m: PortableMetadata, target: Seq<char>) -> bool {
    &&& m.file_type == FileType::Symlink
    &&& m.len == 0
    &&& m.modified is None
    &&& m.mode is None
    &&& text_of(m.symlink_target) == Some(target)
    &&& m.hardlink_id is None
    &&& m.hardlink_count is None
}

/// The entries after adding the node `n` at `path` (its parent directories created first).
pub open spec fn add_node_outcome(s: Entries, path: Seq<char>, n: NodeView) -> Result<Entries, FsFail> {
    match portable_path(path) {
        None => Err(FsFail::InvalidPath(path)),
        Some(c) => match parent_dirs(s, c) {
            Err(e) => Err(e),
            Ok(s1) => Ok(insert_node(s1, c, n)),
        },
    }
}

/// The entries after removing the file (or link) at `path`.
pub open spec fn remove_file_outcome(s: Entries, path: Seq<char>) -> Result<Entries, FsFail> {
    match portable_path(path) {
        None => Err(FsFail::InvalidPath(path)),
        Some(c) => match lookup(s, c) {
            None => Err(FsFail::NotFound(path_text(c))),
            Some(n) => if n.0.file_type == FileType::Directory {
                Err(FsFail::Unsupported("remove_file on directory"@))
            } else {
                Ok(remove_node(s, c))
            },
        },
    }
}

/// Whether `p` is `dir` or lies below it.
pub open spec fn lies_under(p: Seq<Seq<char>>, dir: Seq<Seq<char>>) -> bool {
    p.len() >= dir.len() && p.take(dir.len() as int) == dir
}

/// The entries directly inside the directory `dir`, as listed: their paths and metadata.
pub open spec fn children(s: Entries, dir: Seq<Seq<char>>) -> Seq<(Seq<char>, PortableMetadata)> {
    s.filter(child_of(dir)).map_values(listing())
}

/// Whether an entry lies directly inside `dir`.
pub open spec fn child_of(dir: Seq<Seq<char>>) -> spec_fn((Seq<Seq<char>>, NodeView)) -> bool {
    |x: (Seq<Seq<char>>, NodeView)| x.0.len() > 0 && x.0 != dir && x.0.drop_last() == dir
}

/// An entry as listed: its path written out, and its metadata.
pub open spec fn listing() -> spec_fn((Seq<Seq<char>>, NodeView)) -> (Seq<char>, PortableMetadata) {
    |x: (Seq<Seq<char>>, NodeView)| (path_text(x.0), x.1.0)
}

/// The listing of the directory `path`.
pub open spec fn list_outcome(s: Entries, path: Seq<char>) -> Result<Seq<(Seq<char>, PortableMetadata)>, FsFail> {
    match portable_path(path) {
        None => Err(FsFail::InvalidPath(path)),
        Some(c) => match lookup(s, c) {
            None => Err(FsFail::NotFound(path_text(c))),
            Some(n) => if n.0.file_type != FileType::Directory {
                Err(FsFail::NotDirectory(path_text(c)))
            } else {
                Ok(children(s, c))
            },
        },
    }
}

/// The entries after setting the modification time at `path`.
pub open spec fn set_mtime_outcome(s: Entries, path: Seq<char>, modified: std::time::SystemTime) -> Result<
    Entries,
    FsFail,
> {
    match portable_path(path) {
        None => Err(FsFail::InvalidPath(path)),
        Some(c) => match lookup(s, c) {
            None => Err(FsFail::NotFound(path_text(c))),
            Some(n) => Ok(insert_node(s, c, (PortableMetadata { modified: Some(modified), ..n.0 }, n.1))),
        },
    }
}

impl MemoryFileSystem {
    /// The path a write to `path` goes to.
    fn resolve_write_path(&self, path: &str) -> (r: Result<Vec<String>, FsError>)
        ensures
            match write_path(self@, path@) {
                Ok(c) => r matches Ok(v) && components_view(v@) == c,
                Err(f) => r matches Err(e) && fails_as(e, f),
            },
    {
        let c = match normalize_portable_path(path) {
            Ok(c) => c,
            Err(e) => {
                return Err(e);
            },
        };
        self.resolve_prefix_at(c, 32)
    }

    /// Creates the parent directories of `p`, if it has a parent.
    fn create_parent_dirs(&mut self, p: &[String]) -> (r: Result<(), FsError>)
        ensures
            match parent_dirs(old(self)@, components_view(p@)) {
                Ok(s) => r is Ok && final(self)@ == s,
                Err(f) => r matches Err(e) && fails_as(e, f) && final(self)@ == old(self)@,
            },
            final(self).next_hardlink() == old(self).next_hardlink(),
    {
        if p.len() > 0 {
            let parent = copy_path(p, 0, p.len() - 1);
            assert(components_view(parent@) =~= components_view(p@).drop_last());
            self.create_dirs_for(parent)
        } else {
            Ok(())
        }
    }

    /// The content at `p`, following at most `fuel` symbolic links.
    fn read_nodes_at(&self, p: Vec<String>, fuel: usize) -> (r: Result<Vec<u8>, FsError>)
        ensures
            match read_nodes(self@, components_view(p@), fuel as nat) {
                Ok(b) => r matches Ok(v) && v@ == b,
                Err(f) => r matches Err(e) && fails_as(e, f),
            },
        decreases fuel,
    {
        match self.find(p.as_slice()) {
            Err(_) => Err(FsError::NotFound(join_path(p.as_slice()))),
            Ok(i) => {
                let entry = &self.nodes[i];
                assert(self@[i as int].1 == (entry.metadata, entry.bytes@));
                if matches!(entry.metadata.file_type, FileType::Symlink) {
                    if fuel == 0 {
                        return Err(FsError::Unsupported("too many nested memory symlinks"));
                    }
                    let target = match resolve_memory_symlink_target(
                        p.as_slice(),
                        &entry.metadata.symlink_target,
                    ) {
                        Ok(t) => t,
                        Err(e) => {
                            return Err(e);
                        },
                    };
                    self.read_nodes_at(target, fuel - 1)
                } else if !matches!(entry.metadata.file_type, FileType::File) {
                    Err(FsError::Unsupported("reading non-file memory nodes"))
                } else {
                    Ok(copy_range(entry.bytes.as_slice(), 0, entry.bytes.len()))
                }
            },
        }
    }

    /// Adds `metadata` and `bytes` as the node at `path`, creating its parent directories first.
    fn add_node(&mut self, path: &str, metadata: PortableMetadata, bytes: Vec<u8>) -> (r: Result<(), FsError>)
        ensures
            match add_node_outcome(old(self)@, path@, (metadata, bytes@)) {
                Ok(s) => r is Ok && final(self)@ == s,
                Err(f) => r matches Err(e) && fails_as(e, f) && final(self)@ == old(self)@,
            },
            final(self).next_hardlink() == old(self).next_hardlink(),
    {
        let c = match normalize_portable_path(path) {
            Ok(c) => c,
            Err(e) => {
                return Err(e);
            },
        };
        match self.create_parent_dirs(c.as_slice()) {
            Ok(()) => {},
            Err(e) => {
                return Err(e);
            },
        }
        self.put(c, metadata, bytes);
        Ok(())
    }

    /// Adds the directory `path` and its parents.
    pub fn add_dir(&mut self, path: &str) -> (r: Result<(), FsError>)
        ensures
            match create_dir_all_outcome(old(self)@, path@) {
                Ok(s) => r is Ok && final(self)@ == s,
                Err(f) => r matches Err(e) && fails_as(e, f) && final(self)@ == old(self)@,
            },
            final(self).next_hardlink() == old(self).next_hardlink(),
    {
        self.create_dir_all(path)
    }

    /// Adds a regular file at `path` holding `bytes`, creating its parent directories.
    pub fn add_file(&mut self, path: &str, bytes: &[u8]) -> (r: Result<(), FsError>)
        ensures
            match add_node_outcome(
                old(self)@,
                path@,
                (file_metadata(bytes@.len() as int), bytes@),
            ) {
                Ok(s) => r is Ok && final(self)@ == s,
                Err(f) => r matches Err(e) && fails_as(e, f) && final(self)@ == old(self)@,
            },
            final(self).next_hardlink() == old(self).next_hardlink(),
    {
        let metadata = PortableMetadata::file(bytes.len() as u64);
        let data = copy_range(bytes, 0, bytes.len());
        assert(data@ =~= bytes@);
        self.add_node(path, metadata, data)
    }

    /// Adds a symbolic link at `path` pointing to `target`, creating its parent directories.
    pub fn add_symlink(&mut self, path: &str, target: &str) -> (r: Result<(), FsError>)
        ensures
            match portable_path(path@) {
                None => r matches Err(e) && fails_as(e, FsFail::InvalidPath(path@)) && final(self)@
                    == old(self)@,
                Some(c) => match parent_dirs(old(self)@, c) {
                    Err(f) => r matches Err(e) && fails_as(e, f) && final(self)@ == old(self)@,
                    Ok(s1) => r is Ok && exists|m: PortableMetadata|
                        is_symlink_to(m, target@) && final(self)@ == insert_node(s1, c, (m, Seq::empty())),
                },
            },
            final(self).next_hardlink() == old(self).next_hardlink(),
    {
        let metadata = PortableMetadata::symlink(target);
        let ghost m = metadata;
        let data: Vec<u8> = Vec::new();
        assert(data@ =~= Seq::<u8>::empty());
        let r = self.add_node(path, metadata, data);
        assert(is_symlink_to(m, target@));
        r
    }

    /// Links `link` to the regular file at `existing`, making them one hard link group.
    pub fn add_hardlink(&mut self, existing: &str, link: &str) -> (r: Result<(), FsError>)
        ensures
            match portable_path(existing@) {
                None => r matches Err(e) && fails_as(e, FsFail::InvalidPath(existing@)) && final(self)@
                    == old(self)@,
                Some(e) => match portable_path(link@) {
                    None => r matches Err(x) && fails_as(x, FsFail::InvalidPath(link@)) && final(self)@
                        == old(self)@,
                    Some(l) => ({
                        let (s2, next, res) = hard_link_outcome(old(self)@, old(self).next_hardlink(), e, l);
                        final(self)@ == s2 && final(self).next_hardlink() == next && match res {
                            Ok(()) => r is Ok,
                            Err(f) => r matches Err(x) && fails_as(x, f),
                        }
                    }),
                },
            },
    {
        let e = match normalize_portable_path(existing) {
            Ok(c) => c,
            Err(err) => {
                return Err(err);
            },
        };
        let l = match normalize_portable_path(link) {
            Ok(c) => c,
            Err(err) => {
                return Err(err);
            },
        };
        self.hard_link(e, l)
    }

    /// Adds a device node at `path`, creating its parent directories.
    pub fn add_device(&mut self, path: &str) -> (r: Result<(), FsError>)
        ensures
            match add_node_outcome(old(self)@, path@, (bare(FileType::Device), Seq::empty())) {
                Ok(s) => r is Ok && final(self)@ == s,
                Err(f) => r matches Err(e) && fails_as(e, f) && final(self)@ == old(self)@,
            },
            final(self).next_hardlink() == old(self).next_hardlink(),
    {
        let data: Vec<u8> = Vec::new();
        assert(data@ =~= Seq::<u8>::empty());
        self.add_node(path, PortableMetadata::device(), data)
    }

    /// Adds a special file (socket or pipe) at `path`, creating its parent directories.
    pub fn add_special(&mut self, path: &str) -> (r: Result<(), FsError>)
        ensures
            match add_node_outcome(old(self)@, path@, (bare(FileType::Special), Seq::empty())) {
                Ok(s) => r is Ok && final(self)@ == s,
                Err(f) => r matches Err(e) && fails_as(e, f) && final(self)@ == old(self)@,
            },
            final(self).next_hardlink() == old(self).next_hardlink(),
    {
        let data: Vec<u8> = Vec::new();
        assert(data@ =~= Seq::<u8>::empty());
        self.add_node(path, PortableMetadata::special(), data)
    }
}

/// The number of nodes in the hard link group `id`.
pub open spec fn group_size(s: Entries, id: HardlinkId) -> nat {
    s.filter(in_group(id)).len()
}

/// Whether an entry belongs to the hard link group `id`.
pub open spec fn in_group(id: HardlinkId) -> spec_fn((Seq<Seq<char>>, NodeView)) -> bool {
    |x: (Seq<Seq<char>>, NodeView)| x.1.0.hardlink_id == Some(id)
}

/// The entries with every member of the group `id` counting the members of the group.
pub open spec fn refresh_counts(s: Entries, id: HardlinkId) -> Entries {
    s.map_values(
        |x: (Seq<Seq<char>>, NodeView)|
            if x.1.0.hardlink_id == Some(id) {
                (x.0, (PortableMetadata { hardlink_count: Some(group_size(s, id) as u64), ..x.1.0 }, x.1.1))
            } else {
                x
            },
    )
}

/// The file index after `next` (wrapping around).
pub open spec fn next_file_index(next: u64) -> u64 {
    if next == u64::MAX {
        0
    } else {
        (next + 1) as u64
    }
}

/// Whether `h` is the group `id`.
fn same_group(h: &Option<HardlinkId>, id: &HardlinkId) -> (r: bool)
    ensures
        r == (*h == Some(*id)),
{
    match h {
        Some(x) => x.volume == id.volume && x.file == id.file,
        None => false,
    }
}

/// The hard link group of the file at `e`: the one it has, or a new one made from `next`.
pub open spec fn link_group(s: Entries, e: Seq<Seq<char>>, next: u64) -> Result<(Entries, u64, HardlinkId), FsFail> {
    match lookup(s, e) {
        None => Err(FsFail::NotFound(path_text(e))),
        Some(n) => if n.0.file_type != FileType::File {
            Err(FsFail::Unsupported("hard link source is not a file"@))
        } else {
            match n.0.hardlink_id {
                Some(id) => Ok((s, next, id)),
                None => {
                    let id = HardlinkId { volume: 0, file: next };
                    Ok(
                        (
                            insert_node(
                                s,
                                e,
                                (PortableMetadata { hardlink_id: Some(id), hardlink_count: Some(1), ..n.0 }, n.1),
                            ),
                            next_file_index(next),
                            id,
                        ),
                    )
                },
            }
        },
    }
}

/// The entries, next file index and outcome of linking the (resolved) path `l` to the file at the
/// (resolved) path `e`.
pub open spec fn hard_link_resolved_outcome(s: Entries, next: u64, e: Seq<Seq<char>>, l: Seq<Seq<char>>) -> (
    Entries,
    u64,
    Result<(), FsFail>,
) {
    match link_group(s, e, next) {
        Err(f) => (s, next, Err(f)),
        Ok((s1, next1, id)) => {
            let n = lookup(s1, e)->Some_0;
            let linked = (PortableMetadata { hardlink_id: Some(id), hardlink_count: Some(1), ..n.0 }, n.1);
            match parent_dirs(s1, l) {
                Err(f) => (s1, next1, Err(f)),
                Ok(s2) => (refresh_counts(insert_node(s2, l, linked), id), next1, Ok(())),
            }
        },
    }
}

/// The entries, next file index and outcome of linking `ln` to the file at `ex` (both followed
/// through the links along them).
pub open spec fn hard_link_outcome(s: Entries, next: u64, ex: Seq<Seq<char>>, ln: Seq<Seq<char>>) -> (
    Entries,
    u64,
    Result<(), FsFail>,
) {
    match resolve_prefix(s, ex, 32) {
        Err(f) => (s, next, Err(f)),
        Ok(e) => match resolve_prefix(s, ln, 32) {
            Err(f) => (s, next, Err(f)),
            Ok(l) => hard_link_resolved_outcome(s, next, e, l),
        },
    }
}

proof fn lemma_refresh_sorted(s: Entries, id: HardlinkId)
    requires
        entries_sorted(s),
    ensures
        entries_sorted(refresh_counts(s, id)),
{
    let t = refresh_counts(s, id);
    assert forall|i: int, j: int| 0 <= i < j < t.len() implies path_less(#[trigger] t[i].0, #[trigger] t[j].0) by {
        assert(t[i].0 == s[i].0 && t[j].0 == s[j].0);
    }
}

impl MemoryFileSystem {
    /// Gives every member of the hard link group `id` the size of the group as its link count.
    fn refresh_hardlink_count(&mut self, id: HardlinkId)
        ensures
            final(self)@ == refresh_counts(old(self)@, id),
            final(self).next_hardlink() == old(self).next_hardlink(),
    {
        proof {
            use_type_invariant(&*self);
            lemma_refresh_sorted(self@, id);
        }
        let ghost s = self@;
        let n = self.nodes.len();
        let mut count: usize = 0;
        let mut i: usize = 0;
        while i < n
            invariant
                n == self.nodes@.len(),
                self@ == s,
                i <= n,
                count == s.take(i as int).filter(in_group(id)).len(),
                count <= i,
            decreases n - i,
        {
            proof {
                lemma_filter_step(s, i as int, in_group(id));
                assert(s[i as int].1.0 == self.nodes@[i as int].metadata);
            }
            if same_group(&self.nodes[i].metadata.hardlink_id, &id) {
                count = count + 1;
            }
            i = i + 1;
        }
        assert(s.take(n as int) =~= s);
        let mut rest: Vec<MemoryEntry> = Vec::new();
        std::mem::swap(&mut rest, &mut self.nodes);
        let mut done: Vec<MemoryEntry> = Vec::new();
        let ghost t = refresh_counts(s, id);
        let mut k: usize = 0;
        while rest.len() > 0
            invariant
                k + rest@.len() == n,
                n == s.len(),
                n == t.len(),
                count == group_size(s, id),
                t == refresh_counts(s, id),
                done@.map_values(entry_views()) == t.take(k as int),
                rest@.map_values(entry_views()) == s.skip(k as int),
            decreases rest.len(),
        {
            let ghost before = done@;
            let ghost old_rest = rest@;
            proof {
                lemma_map_rest(old_rest, entry_views(), s, k as int);
            }
            let mut entry = rest.remove(0);
            assert(rest@ =~= old_rest.skip(1));
            if same_group(&entry.metadata.hardlink_id, &id) {
                entry.metadata.hardlink_count = Some(count as u64);
            }
            proof {
                lemma_map_push(before, entry, entry_views());
            }
            done.push(entry);
            assert(done@.map_values(entry_views()) =~= t.take(k + 1));
            k = k + 1;
        }
        assert(t.take(n as int) =~= t);
        self.nodes = done;
    }

    /// The hard link group of the file at `e`, made when it has none.
    fn ensure_hardlink_id(&mut self, e: &[String]) -> (r: Result<HardlinkId, FsError>)
        ensures
            match link_group(old(self)@, components_view(e@), old(self).next_hardlink()) {
                Ok((s1, next1, id)) => r == Ok::<HardlinkId, FsError>(id) && final(self)@ == s1
                    && final(self).next_hardlink() == next1,
                Err(f) => r matches Err(x) && fails_as(x, f) && final(self)@ == old(self)@
                    && final(self).next_hardlink() == old(self).next_hardlink(),
            },
    {
        proof {
            use_type_invariant(&*self);
        }
        let i = match self.find(e) {
            Ok(i) => i,
            Err(_) => {
                return Err(FsError::NotFound(join_path(e)));
            },
        };
        assert(self@[i as int].1.0 == self.nodes@[i as int].metadata);
        if !matches!(self.nodes[i].metadata.file_type, FileType::File) {
            return Err(FsError::Unsupported("hard link source is not a file"));
        }
        if let Some(id) = self.nodes[i].metadata.hardlink_id {
            return Ok(id);
        }
        let id = HardlinkId { volume: 0, file: self.next_hardlink_file };
        self.next_hardlink_file = if self.next_hardlink_file == u64::MAX {
            0
        } else {
            self.next_hardlink_file + 1
        };
        let mut metadata = self.nodes[i].metadata.clone();
        metadata.hardlink_id = Some(id);
        metadata.hardlink_count = Some(1);
        let bytes = copy_range(self.nodes[i].bytes.as_slice(), 0, self.nodes[i].bytes.len());
        assert(bytes@ =~= self.nodes@[i as int].bytes@);
        let key = copy_path(e, 0, e.len());
        assert(components_view(key@) =~= components_view(e@));
        self.put(key, metadata, bytes);
        Ok(id)
    }

    /// Links `l` to the file at `e` (both already resolved).
    fn hard_link_resolved(&mut self, e: Vec<String>, l: Vec<String>) -> (r: Result<(), FsError>)
        ensures
            ({
                let (s2, next, res) = hard_link_resolved_outcome(
                    old(self)@,
                    old(self).next_hardlink(),
                    components_view(e@),
                    components_view(l@),
                );
                final(self)@ == s2 && final(self).next_hardlink() == next && match res {
                    Ok(()) => r is Ok,
                    Err(f) => r matches Err(x) && fails_as(x, f),
                }
            }),
    {
        proof {
            use_type_invariant(&*self);
        }
        let ghost s = self@;
        let ghost ev = components_view(e@);
        let id = match self.ensure_hardlink_id(e.as_slice()) {
            Ok(id) => id,
            Err(x) => {
                return Err(x);
            },
        };
        proof {
            let n = lookup(s, ev)->Some_0;
            if n.0.hardlink_id is None {
                lemma_insert_node(
                    s,
                    ev,
                    (PortableMetadata { hardlink_id: Some(id), hardlink_count: Some(1), ..n.0 }, n.1),
                );
            }
        }
        let i = match self.node_index(e.as_slice()) {
            Ok(i) => i,
            Err(x) => {
                return Err(x);
            },
        };
        let (_, mut metadata, bytes) = self.node_at(i);
        metadata.hardlink_id = Some(id);
        metadata.hardlink_count = Some(1);
        match self.create_parent_dirs(l.as_slice()) {
            Ok(()) => {},
            Err(x) => {
                return Err(x);
            },
        }
        self.put(l, metadata, bytes);
        self.refresh_hardlink_count(id);
        Ok(())
    }

    /// Links `ln` to the file at `ex`, following the links along both.
    fn hard_link(&mut self, ex: Vec<String>, ln: Vec<String>) -> (r: Result<(), FsError>)
        ensures
            ({
                let (s2, next, res) = hard_link_outcome(
                    old(self)@,
                    old(self).next_hardlink(),
                    components_view(ex@),
                    components_view(ln@),
                );
                final(self)@ == s2 && final(self).next_hardlink() == next && match res {
                    Ok(()) => r is Ok,
                    Err(f) => r matches Err(x) && fails_as(x, f),
                }
            }),
    {
        let e = match self.resolve_prefix_at(ex, 32) {
            Ok(e) => e,
            Err(x) => {
                return Err(x);
            },
        };
        let l = match self.resolve_prefix_at(ln, 32) {
            Ok(l) => l,
            Err(x) => {
                return Err(x);
            },
        };
        self.hard_link_resolved(e, l)
    }
}

/// The entries after removing the directory `path` and everything below it.
pub open spec fn remove_dir_all_outcome(s: Entries, path: Seq<char>) -> Result<Entries, FsFail> {
    match portable_path(path) {
        None => Err(FsFail::InvalidPath(path)),
        Some(c) => if c.len() == 0 {
            Err(FsFail::Unsupported("remove root directory"@))
        } else if !exists|i: int| 0 <= i < s.len() && lies_under(#[trigger] s[i].0, c) {
            Err(FsFail::NotFound(path_text(c)))
        } else {
            Ok(s.filter(outside(c)))
        },
    }
}

/// Whether an entry lies outside the directory `dir`.
pub open spec fn outside(dir: Seq<Seq<char>>) -> spec_fn((Seq<Seq<char>>, NodeView)) -> bool {
    |x: (Seq<Seq<char>>, NodeView)| !lies_under(x.0, dir)
}

/// Whether `p` is `dir` or lies below it.
fn path_lies_under(p: &[String], dir: &[String]) -> (r: bool)
    ensures
        r == lies_under(components_view(p@), components_view(dir@)),
{
    let ghost pv = components_view(p@);
    let ghost dv = components_view(dir@);
    if p.len() < dir.len() {
        return false;
    }
    let mut i: usize = 0;
    while i < dir.len()
        invariant
            i <= dir@.len() <= p@.len(),
            pv == components_view(p@),
            dv == components_view(dir@),
            forall|k: int| 0 <= k < i ==> pv[k] == dv[k],
        decreases dir.len() - i,
    {
        if !crate::text::str_eq(p[i].as_str(), dir[i].as_str()) {
            assert(pv.take(dv.len() as int)[i as int] != dv[i as int]);
            return false;
        }
        i = i + 1;
    }
    assert(pv.take(dv.len() as int) =~= dv);
    true
}

/// The listing entry of a node.
pub open spec fn listed(e: WalkEntry) -> (Seq<char>, PortableMetadata) {
    (e.path@, e.metadata)
}

impl MemoryFileSystem {
    /// The index of the node at `c`, or the error that there is none.
    fn node_index(&self, c: &[String]) -> (r: Result<usize, FsError>)
        ensures
            match lookup(self@, components_view(c@)) {
                Some(n) => r matches Ok(i) && i < self@.len() && self@[i as int].1 == n
                    && self@[i as int].0 == components_view(c@),
                None => r matches Err(e) && fails_as(e, FsFail::NotFound(path_text(components_view(c@)))),
            },
    {
        proof {
            use_type_invariant(self);
        }
        match self.find(c) {
            Ok(i) => Ok(i),
            Err(_) => Err(FsError::NotFound(join_path(c))),
        }
    }

    /// A copy of the node at index `i`: its path, metadata and content.
    fn node_at(&self, i: usize) -> (r: (Vec<String>, PortableMetadata, Vec<u8>))
        requires
            i < self@.len(),
        ensures
            components_view(r.0@) == self@[i as int].0,
            r.1 == self@[i as int].1.0,
            r.2@ == self@[i as int].1.1,
    {
        let entry = &self.nodes[i];
        let path = copy_path(entry.path.as_slice(), 0, entry.path.len());
        assert(components_view(entry.path@).subrange(0, entry.path@.len() as int) =~= components_view(entry.path@));
        let bytes = copy_range(entry.bytes.as_slice(), 0, entry.bytes.len());
        assert(bytes@ =~= entry.bytes@);
        (path, entry.metadata.clone(), bytes)
    }
}

impl Default for MemoryFileSystem {
    fn default() -> (r: Self)
        ensures
            r@ == seq![(Seq::<Seq<char>>::empty(), directory_node())],
            r.next_hardlink() == 1,
    {
        MemoryFileSystem::new()
    }
}

impl PortableFileSystem for MemoryFileSystem {
    open spec fn metadata_of(&self, path: Seq<char>) -> Option<PortableMetadata> {
        match metadata_outcome(self@, path) {
            Ok(m) => Some(m),
            Err(_) => None,
        }
    }

    open spec fn contents_of(&self, path: Seq<char>) -> Option<Seq<u8>> {
        match read_outcome(self@, path) {
            Ok(b) => Some(b),
            Err(_) => None,
        }
    }

    fn metadata(&self, path: &str) -> (r: Result<PortableMetadata, FsError>)
        ensures
            match metadata_outcome(self@, path@) {
                Ok(m) => r == Ok::<PortableMetadata, FsError>(m),
                Err(f) => r matches Err(e) && fails_as(e, f),
            },
            match self.metadata_of(path@) {
                Some(m) => r == Ok::<PortableMetadata, FsError>(m),
                None => r is Err,
            },
    {
        let c = match normalize_portable_path(path) {
            Ok(c) => c,
            Err(e) => {
                return Err(e);
            },
        };
        let i = match self.node_index(c.as_slice()) {
            Ok(i) => i,
            Err(e) => {
                return Err(e);
            },
        };
        assert(self@[i as int].1.0 == self.nodes@[i as int].metadata);
        Ok(self.nodes[i].metadata.clone())
    }

    fn metadata_follow(&self, path: &str) -> (r: Result<PortableMetadata, FsError>)
        ensures
            match metadata_follow_outcome(self@, path@) {
                Ok(m) => r == Ok::<PortableMetadata, FsError>(m),
                Err(f) => r matches Err(e) && fails_as(e, f),
            },
    {
        let c = match normalize_portable_path(path) {
            Ok(c) => c,
            Err(e) => {
                return Err(e);
            },
        };
        let i = match self.node_index(c.as_slice()) {
            Ok(i) => i,
            Err(e) => {
                return Err(e);
            },
        };
        assert(self@[i as int].1.0 == self.nodes@[i as int].metadata);
        if !matches!(self.nodes[i].metadata.file_type, FileType::Symlink) {
            return Ok(self.nodes[i].metadata.clone());
        }
        let target = match resolve_memory_symlink_target(
            c.as_slice(),
            &self.nodes[i].metadata.symlink_target,
        ) {
            Ok(t) => t,
            Err(e) => {
                return Err(e);
            },
        };
        let j = match self.node_index(target.as_slice()) {
            Ok(j) => j,
            Err(e) => {
                return Err(e);
            },
        };
        assert(self@[j as int].1.0 == self.nodes@[j as int].metadata);
        Ok(self.nodes[j].metadata.clone())
    }

    fn resolve_path_for_prefix_check(&self, path: &str) -> (r: Result<String, FsError>)
        ensures
            match portable_path(path@) {
                Some(c) => r matches Ok(t) && t@ == path_text(c),
                None => r matches Err(e) && fails_as(e, FsFail::InvalidPath(path@)),
            },
    {
        match normalize_portable_path(path) {
            Ok(c) => Ok(join_path(c.as_slice())),
            Err(e) => Err(e),
        }
    }

    fn read_file(&self, path: &str) -> (r: Result<Vec<u8>, FsError>)
        ensures
            match read_outcome(self@, path@) {
                Ok(b) => r matches Ok(v) && v@ == b,
                Err(f) => r matches Err(e) && fails_as(e, f),
            },
            match self.contents_of(path@) {
                Some(b) => r matches Ok(v) && v@ == b,
                None => r is Err,
            },
    {
        let c = match normalize_portable_path(path) {
            Ok(c) => c,
            Err(e) => {
                return Err(e);
            },
        };
        self.read_nodes_at(c, self.nodes.len())
    }

    fn write_file_atomic(&mut self, path: &str, bytes: &[u8]) -> (r: Result<(), FsError>)
        ensures
            match write_outcome(old(self)@, path@, bytes@) {
                Ok(s) => r is Ok && final(self)@ == s,
                Err(f) => r matches Err(e) && fails_as(e, f) && final(self)@ == old(self)@,
            },
            final(self).next_hardlink() == old(self).next_hardlink(),
    {
        let p = match self.resolve_write_path(path) {
            Ok(p) => p,
            Err(e) => {
                return Err(e);
            },
        };
        match self.create_parent_dirs(p.as_slice()) {
            Ok(()) => {},
            Err(e) => {
                return Err(e);
            },
        }
        let metadata = PortableMetadata::file(bytes.len() as u64);
        let data = copy_range(bytes, 0, bytes.len());
        assert(data@ =~= bytes@);
        self.put(p, metadata, data);
        Ok(())
    }

    fn write_file_direct(&mut self, path: &str, bytes: &[u8]) -> (r: Result<(), FsError>)
        ensures
            match write_outcome(old(self)@, path@, bytes@) {
                Ok(s) => r is Ok && final(self)@ == s,
                Err(f) => r matches Err(e) && fails_as(e, f) && final(self)@ == old(self)@,
            },
            final(self).next_hardlink() == old(self).next_hardlink(),
    {
        self.write_file_atomic(path, bytes)
    }

    fn write_file_with_options(
        &mut self,
        path: &str,
        bytes: &[u8],
        options: &FileWriteOptions,
    ) -> (r: Result<(), FsError>)
        ensures
            match write_outcome(old(self)@, path@, bytes@) {
                Ok(s) => r is Ok && final(self)@ == s,
                Err(f) => r matches Err(e) && fails_as(e, f) && final(self)@ == old(self)@,
            },
            final(self).next_hardlink() == old(self).next_hardlink(),
    {
        match options.mode {
            crate::fs::walk::FileWriteMode::Atomic => self.write_file_atomic(path, bytes),
            crate::fs::walk::FileWriteMode::InPlace => self.write_file_direct(path, bytes),
        }
    }

    fn append_file(&mut self, path: &str, bytes: &[u8]) -> (r: Result<(), FsError>)
        ensures
            match append_outcome(old(self)@, path@, bytes@) {
                Ok(s) => r is Ok && final(self)@ == s,
                Err(f) => r matches Err(e) && fails_as(e, f) && final(self)@ == old(self)@,
            },
            final(self).next_hardlink() == old(self).next_hardlink(),
    {
        let p = match self.resolve_write_path(path) {
            Ok(p) => p,
            Err(e) => {
                return Err(e);
            },
        };
        let i = match self.node_index(p.as_slice()) {
            Ok(i) => i,
            Err(e) => {
                return Err(e);
            },
        };
        let (_, mut metadata, mut content) = self.node_at(i);
        if !matches!(metadata.file_type, FileType::File) {
            return Err(FsError::Unsupported("append_file on non-file memory nodes"));
        }
        append_bytes(&mut content, bytes);
        metadata.len = content.len() as u64;
        self.put(p, metadata, content);
        Ok(())
    }

    fn copy_file_with_options(
        &mut self,
        source: &str,
        dest: &str,
        options: &FileWriteOptions,
    ) -> (r: Result<u64, FsError>)
        ensures
            match read_outcome(old(self)@, source@) {
                Err(f) => r matches Err(e) && fails_as(e, f) && final(self)@ == old(self)@,
                Ok(b) => match write_outcome(old(self)@, dest@, b) {
                    Ok(s) => r == Ok::<u64, FsError>(b.len() as u64) && final(self)@ == s,
                    Err(f) => r matches Err(e) && fails_as(e, f) && final(self)@ == old(self)@,
                },
            },
            final(self).next_hardlink() == old(self).next_hardlink(),
    {
        let bytes = match self.read_file(source) {
            Ok(b) => b,
            Err(e) => {
                return Err(e);
            },
        };
        let len = bytes.len() as u64;
        match self.write_file_with_options(dest, bytes.as_slice(), options) {
            Ok(()) => Ok(len),
            Err(e) => Err(e),
        }
    }

    fn rename_file(&mut self, source: &str, dest: &str) -> (r: Result<(), FsError>)
        ensures
            ({
                let (s, res) = rename_outcome(old(self)@, source@, dest@);
                final(self)@ == s && match res {
                    Ok(()) => r is Ok,
                    Err(f) => r matches Err(e) && fails_as(e, f),
                }
            }),
            final(self).next_hardlink() == old(self).next_hardlink(),
    {
        let src = match normalize_portable_path(source) {
            Ok(c) => c,
            Err(e) => {
                return Err(e);
            },
        };
        let d = match self.resolve_write_path(dest) {
            Ok(p) => p,
            Err(e) => {
                return Err(e);
            },
        };
        match self.create_parent_dirs(d.as_slice()) {
            Ok(()) => {},
            Err(e) => {
                return Err(e);
            },
        }
        match self.take(src.as_slice()) {
            None => Err(FsError::NotFound(join_path(src.as_slice()))),
            Some((metadata, bytes)) => {
                self.put(d, metadata, bytes);
                Ok(())
            },
        }
    }

    fn create_dir_all(&mut self, path: &str) -> (r: Result<(), FsError>)
        ensures
            match create_dir_all_outcome(old(self)@, path@) {
                Ok(s) => r is Ok && final(self)@ == s,
                Err(f) => r matches Err(e) && fails_as(e, f) && final(self)@ == old(self)@,
            },
            final(self).next_hardlink() == old(self).next_hardlink(),
    {
        let c = match normalize_portable_path(path) {
            Ok(c) => c,
            Err(e) => {
                return Err(e);
            },
        };
        self.create_dirs_for(c)
    }

    fn create_symlink(&mut self, path: &str, target: &str, target_kind: FileType) -> (r: Result<
        (),
        FsError,
    >)
        ensures
            match portable_path(path@) {
                None => r matches Err(e) && fails_as(e, FsFail::InvalidPath(path@)) && final(self)@
                    == old(self)@,
                Some(c) => match parent_dirs(old(self)@, c) {
                    Err(f) => r matches Err(e) && fails_as(e, f) && final(self)@ == old(self)@,
                    Ok(s1) => r is Ok && exists|m: PortableMetadata|
                        is_symlink_to(m, target@) && final(self)@ == insert_node(s1, c, (m, Seq::empty())),
                },
            },
            final(self).next_hardlink() == old(self).next_hardlink(),
    {
        self.add_symlink(path, target)
    }

    fn create_hard_link(&mut self, existing: &str, link: &str) -> (r: Result<(), FsError>)
        ensures
            match write_path(old(self)@, existing@) {
                Err(f) => r matches Err(e) && fails_as(e, f) && final(self)@ == old(self)@
                    && final(self).next_hardlink() == old(self).next_hardlink(),
                Ok(e) => match write_path(old(self)@, link@) {
                    Err(f) => r matches Err(x) && fails_as(x, f) && final(self)@ == old(self)@
                        && final(self).next_hardlink() == old(self).next_hardlink(),
                    Ok(l) => ({
                        let (s2, next, res) = hard_link_resolved_outcome(
                            old(self)@,
                            old(self).next_hardlink(),
                            e,
                            l,
                        );
                        final(self)@ == s2 && final(self).next_hardlink() == next && match res {
                            Ok(()) => r is Ok,
                            Err(f) => r matches Err(x) && fails_as(x, f),
                        }
                    }),
                },
            },
    {
        let e = match self.resolve_write_path(existing) {
            Ok(p) => p,
            Err(x) => {
                return Err(x);
            },
        };
        let l = match self.resolve_write_path(link) {
            Ok(p) => p,
            Err(x) => {
                return Err(x);
            },
        };
        self.hard_link_resolved(e, l)
    }

    fn remove_file(&mut self, path: &str) -> (r: Result<(), FsError>)
        ensures
            match remove_file_outcome(old(self)@, path@) {
                Ok(s) => r is Ok && final(self)@ == s,
                Err(f) => r matches Err(e) && fails_as(e, f) && final(self)@ == old(self)@,
            },
            final(self).next_hardlink() == old(self).next_hardlink(),
    {
        let c = match normalize_portable_path(path) {
            Ok(c) => c,
            Err(e) => {
                return Err(e);
            },
        };
        let i = match self.node_index(c.as_slice()) {
            Ok(i) => i,
            Err(e) => {
                return Err(e);
            },
        };
        assert(self@[i as int].1.0 == self.nodes@[i as int].metadata);
        if matches!(self.nodes[i].metadata.file_type, FileType::Directory) {
            return Err(FsError::Unsupported("remove_file on directory"));
        }
        let _ = self.take(c.as_slice());
        Ok(())
    }

    fn remove_dir_all(&mut self, path: &str) -> (r: Result<(), FsError>)
        ensures
            match remove_dir_all_outcome(old(self)@, path@) {
                Ok(s) => r is Ok && final(self)@ == s,
                Err(f) => r matches Err(e) && fails_as(e, f) && final(self)@ == old(self)@,
            },
            final(self).next_hardlink() == old(self).next_hardlink(),
    {
        proof {
            use_type_invariant(&*self);
        }
        let c = match normalize_portable_path(path) {
            Ok(c) => c,
            Err(e) => {
                return Err(e);
            },
        };
        if c.len() == 0 {
            return Err(FsError::Unsupported("remove root directory"));
        }
        let ghost s = self@;
        let ghost dir = components_view(c@);
        let n = self.nodes.len();
        let mut found = false;
        let mut i: usize = 0;
        while i < n
            invariant
                n == self.nodes@.len(),
                self@ == s,
                dir == components_view(c@),
                i <= n,
                !found ==> forall|j: int| 0 <= j < i ==> !lies_under(#[trigger] s[j].0, dir),
                found ==> exists|j: int| 0 <= j < s.len() && lies_under(#[trigger] s[j].0, dir),
            decreases n - i,
        {
            assert(s[i as int].0 == components_view(self.nodes@[i as int].path@));
            if path_lies_under(self.nodes[i].path.as_slice(), c.as_slice()) {
                found = true;
            }
            i = i + 1;
        }
        if !found {
            return Err(FsError::NotFound(join_path(c.as_slice())));
        }
        let mut rest: Vec<MemoryEntry> = Vec::new();
        std::mem::swap(&mut rest, &mut self.nodes);
        let mut done: Vec<MemoryEntry> = Vec::new();
        let mut k: usize = 0;
        while rest.len() > 0
            invariant
                k + rest@.len() == n,
                n == s.len(),
                entries_sorted(s),
                dir == components_view(c@),
                done@.map_values(entry_views()) == s.take(k as int).filter(outside(dir)),
                rest@.map_values(entry_views()) == s.skip(k as int),
                entries_sorted(done@.map_values(entry_views())),
                forall|a: int, j: int|
                    0 <= a < done@.len() && k <= j < n ==> path_less(
                        #[trigger] done@.map_values(entry_views())[a].0,
                        #[trigger] s[j].0,
                    ),
            decreases rest.len(),
        {
            let ghost before = done@;
            let ghost old_rest = rest@;
            proof {
                lemma_map_rest(old_rest, entry_views(), s, k as int);
                lemma_filter_step(s, k as int, outside(dir));
            }
            let entry = rest.remove(0);
            assert(rest@ =~= old_rest.skip(1));
            if !path_lies_under(entry.path.as_slice(), c.as_slice()) {
                proof {
                    lemma_map_push(before, entry, entry_views());
                }
                done.push(entry);
                assert(done@.map_values(entry_views()) =~= s.take(k + 1).filter(outside(dir)));
            }
            k = k + 1;
        }
        assert(s.take(n as int) =~= s);
        self.nodes = done;
        Ok(())
    }

    fn list(&self, path: &str) -> (r: Result<Vec<WalkEntry>, FsError>)
        ensures
            match list_outcome(self@, path@) {
                Ok(v) => r matches Ok(w) && w@.map_values(|e: WalkEntry| listed(e)) == v,
                Err(f) => r matches Err(e) && fails_as(e, f),
            },
    {
        let c = match normalize_portable_path(path) {
            Ok(c) => c,
            Err(e) => {
                return Err(e);
            },
        };
        let i = match self.node_index(c.as_slice()) {
            Ok(i) => i,
            Err(e) => {
                return Err(e);
            },
        };
        assert(self@[i as int].1.0 == self.nodes@[i as int].metadata);
        if !matches!(self.nodes[i].metadata.file_type, FileType::Directory) {
            return Err(FsError::NotDirectory(join_path(c.as_slice())));
        }
        let ghost s = self@;
        let ghost dir = components_view(c@);
        let n = self.nodes.len();
        let mut out: Vec<WalkEntry> = Vec::new();
        let mut k: usize = 0;
        while k < n
            invariant
                n == self.nodes@.len(),
                self@ == s,
                dir == components_view(c@),
                k <= n,
                out@.map_values(|e: WalkEntry| listed(e)) == children(s.take(k as int), dir),
            decreases n - k,
        {
            proof {
                lemma_filter_step(s, k as int, child_of(dir));
                lemma_map_push(s.take(k as int).filter(child_of(dir)), s[k as int], listing());
            }
            let ghost before = out@.map_values(|e: WalkEntry| listed(e));
            let entry = &self.nodes[k];
            assert(s[k as int] == (components_view(entry.path@), (entry.metadata, entry.bytes@)));
            let len = entry.path.len();
            if len > 0 && len - 1 == c.len() && path_lies_under(entry.path.as_slice(), c.as_slice()) {
                proof {
                    let pv = components_view(entry.path@);
                    assert(pv.drop_last() =~= pv.take(dir.len() as int));
                }
                out.push(WalkEntry { path: join_path(entry.path.as_slice()), metadata: entry.metadata.clone() });
                assert(out@.map_values(|e: WalkEntry| listed(e)) =~= before.push(
                    (path_text(s[k as int].0), s[k as int].1.0),
                ));
            } else {
                proof {
                    let pv = components_view(entry.path@);
                    if pv.len() > 0 && pv != dir && pv.drop_last() == dir {
                        assert(pv.drop_last() =~= pv.take(dir.len() as int));
                    }
                }
            }
            k = k + 1;
        }
        assert(s.take(n as int) =~= s);
        Ok(out)
    }

    fn set_mtime(&mut self, path: &str, modified: std::time::SystemTime) -> (r: Result<(), FsError>)
        ensures
            match set_mtime_outcome(old(self)@, path@, modified) {
                Ok(s) => r is Ok && final(self)@ == s,
                Err(f) => r matches Err(e) && fails_as(e, f) && final(self)@ == old(self)@,
            },
            final(self).next_hardlink() == old(self).next_hardlink(),
    {
        let c = match normalize_portable_path(path) {
            Ok(c) => c,
            Err(e) => {
                return Err(e);
            },
        };
        let i = match self.node_index(c.as_slice()) {
            Ok(i) => i,
            Err(e) => {
                return Err(e);
            },
        };
        let (_, mut metadata, bytes) = self.node_at(i);
        metadata.modified = Some(modified);
        self.put(c, metadata, bytes);
        Ok(())
    }

    fn path_exists(&self, path: &str) -> (r: bool)
        ensures
            r == metadata_outcome(self@, path@) is Ok,
    {
        self.metadata(path).is_ok()
    }
}

} // verus!
