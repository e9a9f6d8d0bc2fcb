use vstd::prelude::*;

use crate::fs::memory::{
    entries_sorted, entry_index, first_not_less, insert_node, lemma_first_not_less,
    lemma_insert_node, lookup,
};
use crate::fs::metadata::{FileType, HardlinkId, PortableMetadata};
use crate::fs::paths::{compare_paths, components_view, join_path, path_text, Order};
use crate::fs::sync::{SyncOptions, UpdateMode};
use crate::fs::sync_paths::{
    files_from_matches, files_from_selects, join_paths, path_join, with_suffix, append_suffix,
};
use crate::fs::walk::{FileWriteMode, FileWriteOptions, WalkEntry};
use crate::fs::metadata::is_separator;
use crate::fs::paths::{is_rooted_or_prefixed, rooted_or_prefixed};
use crate::text::chars_of;

verus! {

#[verifier::external_type_specification]
#[verifier::external_body]
pub struct ExSystemTimeError(std::time::SystemTimeError);

/// `SystemTime`'s `==`: whether two instants are the same.
#[verifier::external_body]
fn times_equal(a: &std::time::SystemTime, b: &std::time::SystemTime) -> (r: bool)
    ensures
        r == (*a == *b),
{
    *a == *b
}

/// Whether two instants are the same.
pub fn same_instant(a: &std::time::SystemTime, b: &std::time::SystemTime) -> (r: bool)
    ensures
        r == (*a == *b),
{
    times_equal(a, b)
}

/// Whether the instant `a` is later than `b`, as `SystemTime`'s `>` orders them.
pub uninterp spec fn instant_later(a: std::time::SystemTime, b: std::time::SystemTime) -> bool;

/// `SystemTime`'s `>`: whether `a` is later than `b`. Trusted: the result is `instant_later` of
/// the two instants, and a later instant is a different one.
#[verifier::external_body]
fn time_later(a: &std::time::SystemTime, b: &std::time::SystemTime) -> (r: bool)
    ensures
        r == instant_later(*a, *b),
        r ==> *a != *b,
{
    *a > *b
}

/// What `SystemTime::duration_since` returns for `a` and `b`.
pub uninterp spec fn duration_since_result(
    a: std::time::SystemTime,
    b: std::time::SystemTime,
) -> Result<std::time::Duration, std::time::SystemTimeError>;

/// What `SystemTimeError::duration` returns for `e`.
pub uninterp spec fn error_duration_of(e: std::time::SystemTimeError) -> std::time::Duration;

/// What `Duration::as_secs` returns for `d`.
pub uninterp spec fn whole_seconds_of(d: std::time::Duration) -> u64;

/// `SystemTime::duration_since`: how long after `b` the instant `a` is, or the error that holds
/// how long before. Trusted: the result is `duration_since_result` of the two instants, and it is
/// an error exactly when `b` is later than `a`.
#[verifier::external_body]
fn duration_since(a: &std::time::SystemTime, b: &std::time::SystemTime) -> (r: Result<
    std::time::Duration,
    std::time::SystemTimeError,
>)
    ensures
        r == duration_since_result(*a, *b),
        r is Err <==> instant_later(*b, *a),
{
    a.duration_since(*b)
}

/// `SystemTimeError::duration`: how far the later instant was ahead. Trusted: the result is
/// `error_duration_of` the error.
#[verifier::external_body]
fn error_duration(e: &std::time::SystemTimeError) -> (r: std::time::Duration)
    ensures
        r == error_duration_of(*e),
{
    e.duration()
}

/// `Duration::as_secs`: the whole seconds of a duration. Trusted: the result is
/// `whole_seconds_of` the duration.
#[verifier::external_body]
fn whole_seconds(d: &std::time::Duration) -> (r: u64)
    ensures
        r == whole_seconds_of(*d),
{
    d.as_secs()
}

/// The whole seconds between two instants, whichever comes first.
pub open spec fn gap_seconds(a: std::time::SystemTime, b: std::time::SystemTime) -> u64 {
    match duration_since_result(a, b) {
        Ok(d) => whole_seconds_of(d),
        Err(e) => whole_seconds_of(error_duration_of(e)),
    }
}

/// Whether two instants `gap` seconds apart count as the same modification time under
/// `--modify-window=window`.
pub open spec fn within_window(gap: u64, window: i64) -> bool {
    window >= 0 && gap <= window
}

pub fn gap_within_window(gap: u64, window: i64) -> (r: bool)
    ensures
        r == within_window(gap, window),
{
    window >= 0 && gap <= window as u64
}

/// Whether two modification times count as equal: the same instant for a negative window, else
/// within `window` whole seconds of each other.
pub fn mtimes_equal(left: &std::time::SystemTime, right: &std::time::SystemTime, window: i64) -> (r: bool)
    ensures
        window < 0 ==> r == (*left == *right),
        window >= 0 ==> r == within_window(gap_seconds(*left, *right), window),
{
    if window < 0 {
        return times_equal(left, right);
    }
    let gap = match duration_since(left, right) {
        Ok(diff) => whole_seconds(&diff),
        Err(err) => whole_seconds(&error_duration(&err)),
    };
    gap_within_window(gap, window)
}

/// Whether the receiver's copy is newer than the sender's: both times known, the receiver's later.
pub open spec fn receiver_newer_of(source: PortableMetadata, target: PortableMetadata) -> bool {
    match (source.modified, target.modified) {
        (Some(s), Some(t)) => instant_later(t, s),
        _ => false,
    }
}

/// Whether both modification times are known and count as equal: the same instant for a
/// negative window, else within `window` whole seconds.
pub open spec fn mtimes_match_of(source: PortableMetadata, target: PortableMetadata, window: i64) -> Option<bool> {
    match (source.modified, target.modified) {
        (Some(s), Some(t)) => Some(
            if window < 0 {
                s == t
            } else {
                within_window(gap_seconds(s, t), window)
            },
        ),
        _ => None,
    }
}

/// Whether the receiver's copy is newer than the sender's (both times known).
pub fn receiver_is_newer(source: &PortableMetadata, target: &PortableMetadata) -> (r: bool)
    ensures
        r == receiver_newer_of(*source, *target),
        r == match (source.modified, target.modified) {
            (Some(s), Some(t)) => instant_later(t, s),
            _ => false,
        },
        r ==> (source.modified is Some && target.modified is Some && target.modified
            != source.modified),
{
    match (&source.modified, &target.modified) {
        (Some(s), Some(t)) => time_later(t, s),
        _ => false,
    }
}

/// Whether both modification times are known and count as equal.
pub fn mtimes_match(source: &PortableMetadata, target: &PortableMetadata, window: i64) -> (r: Option<bool>)
    ensures
        r is Some <==> (source.modified is Some && target.modified is Some),
        window < 0 ==> (r matches Some(b) ==> b == (source.modified == target.modified)),
        window >= 0 ==> (r matches Some(b) ==> b == within_window(
            gap_seconds(source.modified->Some_0, target.modified->Some_0),
            window,
        )),
        r == mtimes_match_of(*source, *target, window),
{
    match (&source.modified, &target.modified) {
        (Some(s), Some(t)) => Some(mtimes_equal(s, t, window)),
        _ => None,
    }
}

/// What an update check concludes for a file.
#[derive(Debug, Clone, Copy, PartialEq, Eq, Structural)]
pub enum UpdateCheck {
    Skip,
    Transfer,
    CompareContents,
}

/// Whether a file needs a transfer, given the sender's metadata, the receiver's (if it has the
/// path), whether the receiver's copy is newer and whether the two times match.
pub open spec fn update_check_of(
    source: PortableMetadata,
    target: Option<PortableMetadata>,
    receiver_newer: bool,
    mtimes_match: Option<bool>,
    o: SyncOptions,
) -> UpdateCheck {
    if (o.max_size matches Some(max) && source.len > max) || (o.min_size matches Some(min)
        && source.len < min) {
        UpdateCheck::Skip
    } else {
        match target {
            None => if o.existing_only {
                UpdateCheck::Skip
            } else {
                UpdateCheck::Transfer
            },
            Some(t) => if t.file_type != FileType::File {
                UpdateCheck::Transfer
            } else if o.ignore_existing {
                UpdateCheck::Skip
            } else if o.skip_newer_receiver && receiver_newer {
                UpdateCheck::Skip
            } else {
                match o.update_mode {
                    UpdateMode::IgnoreTimes => UpdateCheck::Transfer,
                    UpdateMode::SizeOnly => if source.len != t.len {
                        UpdateCheck::Transfer
                    } else {
                        UpdateCheck::Skip
                    },
                    UpdateMode::QuickCheck => if source.len != t.len || mtimes_match != Some(true) {
                        UpdateCheck::Transfer
                    } else {
                        UpdateCheck::Skip
                    },
                    UpdateMode::Checksum => UpdateCheck::CompareContents,
                }
            },
        }
    }
}

pub fn update_check(
    source: &PortableMetadata,
    target: Option<&PortableMetadata>,
    receiver_newer: bool,
    mtimes_match: Option<bool>,
    options: &SyncOptions,
) -> (r: UpdateCheck)
    ensures
        r == update_check_of(
            *source,
            match target {
                Some(t) => Some(*t),
                None => None,
            },
            receiver_newer,
            mtimes_match,
            *options,
        ),
{
    let too_large = match options.max_size {
        Some(max) => source.len > max,
        None => false,
    };
    let too_small = match options.min_size {
        Some(min) => source.len < min,
        None => false,
    };
    if too_large || too_small {
        return UpdateCheck::Skip;
    }
    let t = match target {
        None => {
            return if options.existing_only {
                UpdateCheck::Skip
            } else {
                UpdateCheck::Transfer
            };
        },
        Some(t) => t,
    };
    if !matches!(t.file_type, FileType::File) {
        return UpdateCheck::Transfer;
    }
    if options.ignore_existing {
        return UpdateCheck::Skip;
    }
    if options.skip_newer_receiver && receiver_newer {
        return UpdateCheck::Skip;
    }
    match options.update_mode {
        UpdateMode::IgnoreTimes => UpdateCheck::Transfer,
        UpdateMode::SizeOnly => if source.len != t.len {
            UpdateCheck::Transfer
        } else {
            UpdateCheck::Skip
        },
        UpdateMode::QuickCheck => {
            let same = match mtimes_match {
                Some(b) => b,
                None => false,
            };
            if source.len != t.len || !same {
                UpdateCheck::Transfer
            } else {
                UpdateCheck::Skip
            }
        },
        UpdateMode::Checksum => UpdateCheck::CompareContents,
    }
}

/// How files of a sync are written.
pub fn file_write_options(options: &SyncOptions) -> (r: FileWriteOptions)
    ensures
        r.mode == options.file_write_mode,
        r.keep_partial == options.keep_partial,
        r.partial_dir == options.partial_dir,
        r.temp_dir == options.temp_dir,
        r.fsync == options.fsync,
        !r.sparse && !r.preallocate,
{
    FileWriteOptions {
        mode: options.file_write_mode,
        keep_partial: options.keep_partial,
        partial_dir: options.partial_dir.clone(),
        temp_dir: options.temp_dir.clone(),
        fsync: options.fsync,
        sparse: false,
        preallocate: false,
    }
}

/// How files staged for a delayed update are written: atomically, with no temporary directory.
pub fn delayed_file_write_options(options: &SyncOptions) -> (r: FileWriteOptions)
    ensures
        r.mode == FileWriteMode::Atomic,
        r.keep_partial == options.keep_partial,
        r.partial_dir == options.partial_dir,
        r.temp_dir is None,
        r.fsync == options.fsync,
        !r.sparse && !r.preallocate,
{
    FileWriteOptions {
        mode: FileWriteMode::Atomic,
        keep_partial: options.keep_partial,
        partial_dir: options.partial_dir.clone(),
        temp_dir: None,
        fsync: options.fsync,
        sparse: false,
        preallocate: false,
    }
}

/// Where a delayed update of `relative` is staged: below the temporary directory (taken from the
/// destination root when relative), or below `.~tmp~` in the destination root.
pub open spec fn delayed_path(dest_root: Seq<char>, relative: Seq<char>, temp_dir: Option<Seq<char>>) -> Seq<char> {
    let root = match temp_dir {
        Some(t) => if rooted_or_prefixed(t) {
            t
        } else {
            path_join(dest_root, t)
        },
        None => path_join(dest_root, ".~tmp~"@),
    };
    path_join(root, relative)
}

pub fn delayed_update_path(dest_root: &str, relative: &str, options: &SyncOptions) -> (r: String)
    ensures
        r@ == delayed_path(
            dest_root@,
            relative@,
            match options.temp_dir {
                Some(t) => Some(t@),
                None => None,
            },
        ),
{
    let root = match &options.temp_dir {
        Some(t) => if is_rooted_or_prefixed(chars_of(t.as_str()).as_slice()) {
            t.clone()
        } else {
            join_paths(dest_root, t.as_str())
        },
        None => join_paths(dest_root, ".~tmp~"),
    };
    join_paths(root.as_str(), relative)
}

/// Where a backup of `target` goes: below the backup directory (taken from the destination root
/// when relative) at `relative`, or `target` itself, with the backup suffix added.
pub open spec fn backup_path(
    dest_root: Seq<char>,
    target: Seq<char>,
    relative: Seq<char>,
    backup_dir: Option<Seq<char>>,
    suffix: Seq<char>,
) -> Seq<char> {
    let base = match backup_dir {
        Some(d) => if rooted_or_prefixed(d) {
            path_join(d, relative)
        } else {
            path_join(path_join(dest_root, d), relative)
        },
        None => target,
    };
    with_suffix(base, suffix)
}

pub fn backup_path_for(dest_root: &str, target: &str, relative: &str, options: &SyncOptions) -> (r: String)
    ensures
        r@ == backup_path(
            dest_root@,
            target@,
            relative@,
            match options.backup_dir {
                Some(d) => Some(d@),
                None => None,
            },
            options.backup_suffix@,
        ),
{
    let base = match &options.backup_dir {
        Some(d) => if is_rooted_or_prefixed(chars_of(d.as_str()).as_slice()) {
            join_paths(d.as_str(), relative)
        } else {
            let under = join_paths(dest_root, d.as_str());
            join_paths(under.as_str(), relative)
        },
        None => target.to_owned(),
    };
    append_suffix(base.as_str(), options.backup_suffix.as_str())
}

/// The entries of a tree by their path relative to its root, in path order.
pub struct EntryMap {
    items: Vec<(Vec<String>, WalkEntry)>,
}

pub open spec fn keyed_views() -> spec_fn((Vec<String>, WalkEntry)) -> (Seq<Seq<char>>, WalkEntry) {
    |x: (Vec<String>, WalkEntry)| (components_view(x.0@), x.1)
}

impl View for EntryMap {
    type V = Seq<(Seq<Seq<char>>, WalkEntry)>;

    closed spec fn view(&self) -> Seq<(Seq<Seq<char>>, WalkEntry)> {
        self.items@.map_values(keyed_views())
    }
}

impl EntryMap {
    #[verifier::type_invariant]
    closed spec fn sorted(self) -> bool {
        entries_sorted(self@)
    }

    /// An empty map.
    pub fn new() -> (r: Self)
        ensures
            r@ == Seq::<(Seq<Seq<char>>, WalkEntry)>::empty(),
    {
        let r = EntryMap { items: Vec::new() };
        assert(r@ =~= Seq::<(Seq<Seq<char>>, WalkEntry)>::empty());
        r
    }

    pub fn len(&self) -> (r: usize)
        ensures
            r == self@.len(),
    {
        self.items.len()
    }

    /// The entries are in path order.
    pub fn assert_sorted(&self)
        ensures
            entries_sorted(self@),
    {
        proof {
            use_type_invariant(self);
        }
    }

    /// The path of the entry at `i`, as components.
    pub fn key_at(&self, i: usize) -> (r: &[String])
        requires
            i < self@.len(),
        ensures
            components_view(r@) == self@[i as int].0,
    {
        assert(self@[i as int] == (components_view(self.items@[i as int].0@), self.items@[i as int].1));
        self.items[i].0.as_slice()
    }

    /// The entry at `i`.
    pub fn entry_at(&self, i: usize) -> (r: &WalkEntry)
        requires
            i < self@.len(),
        ensures
            *r == self@[i as int].1,
    {
        assert(self@[i as int] == (components_view(self.items@[i as int].0@), self.items@[i as int].1));
        &self.items[i].1
    }

    /// Where the entry at `key` is, or where one would go.
    fn find(&self, key: &[String]) -> (r: Result<usize, usize>)
        ensures
            match r {
                Ok(i) => entry_index(self@, components_view(key@)) == Some(i as int),
                Err(p) => entry_index(self@, components_view(key@)) is None && p == first_not_less(
                    self@,
                    components_view(key@),
                    0,
                ),
            },
    {
        proof {
            use_type_invariant(self);
        }
        let ghost k = components_view(key@);
        let n = self.items.len();
        let mut i: usize = 0;
        while i < n
            invariant
                n == self.items@.len(),
                i <= n,
                first_not_less(self@, k, 0) == first_not_less(self@, k, i as int),
                k == components_view(key@),
            decreases n - i,
        {
            assert(self@[i as int].0 == components_view(self.items@[i as int].0@));
            match compare_paths(self.items[i].0.as_slice(), key) {
                Order::Less => {
                    i = i + 1;
                },
                Order::Equal => {
                    return Ok(i);
                },
                Order::Greater => {
                    proof {
                        crate::fs::paths::lemma_path_less_asymmetric(k, self@[i as int].0);
                    }
                    return Err(i);
                },
            }
        }
        Err(i)
    }

    /// Whether there is an entry at `key`.
    pub fn contains_key(&self, key: &[String]) -> (r: bool)
        ensures
            r == (lookup(self@, components_view(key@)) is Some),
    {
        self.find(key).is_ok()
    }

    /// Sets the entry at `key`.
    pub fn insert(&mut self, key: Vec<String>, entry: WalkEntry)
        ensures
            final(self)@ == insert_node(old(self)@, components_view(key@), entry),
    {
        proof {
            use_type_invariant(&*self);
            lemma_insert_node(self@, components_view(key@), entry);
        }
        let ghost k = components_view(key@);
        let found = self.find(key.as_slice());
        proof {
            lemma_first_not_less(self@, k, 0);
        }
        let mut items: Vec<(Vec<String>, WalkEntry)> = Vec::new();
        std::mem::swap(&mut items, &mut self.items);
        let ghost e = entry;
        match found {
            Ok(i) => {
                items.set(i, (key, entry));
            },
            Err(i) => {
                items.insert(i, (key, entry));
            },
        }
        assert(items@.map_values(keyed_views()) =~= insert_node(old(self)@, k, e));
        self.items = items;
    }

    /// Keeps the entries that a files-from list selects.
    pub fn retain_files_from(&mut self, files_from: &[String])
        ensures
            final(self)@ == old(self)@.filter(
                |x: (Seq<Seq<char>>, WalkEntry)|
                    files_from_selects(path_text(x.0), files_from@.map_values(|s: String| s@)),
            ),
    {
        proof {
            use_type_invariant(&*self);
        }
        let ghost s = self@;
        let ghost ff = files_from@.map_values(|s: String| s@);
        let ghost keep = |x: (Seq<Seq<char>>, WalkEntry)| files_from_selects(path_text(x.0), ff);
        let n = self.items.len();
        let mut rest: Vec<(Vec<String>, WalkEntry)> = Vec::new();
        std::mem::swap(&mut rest, &mut self.items);
        let mut done: Vec<(Vec<String>, WalkEntry)> = Vec::new();
        let mut k: usize = 0;
        while rest.len() > 0
            invariant
                k + rest@.len() == n,
                n == s.len(),
                entries_sorted(s),
                ff == files_from@.map_values(|s: String| s@),
                keep == (|x: (Seq<Seq<char>>, WalkEntry)| files_from_selects(path_text(x.0), ff)),
                done@.map_values(keyed_views()) == s.take(k as int).filter(keep),
                rest@.map_values(keyed_views()) == s.skip(k as int),
                entries_sorted(done@.map_values(keyed_views())),
                forall|a: int, j: int|
                    0 <= a < done@.len() && k <= j < n ==> crate::fs::paths::path_less(
                        #[trigger] done@.map_values(keyed_views())[a].0,
                        #[trigger] s[j].0,
                    ),
            decreases rest.len(),
        {
            let ghost before = done@;
            let ghost old_rest = rest@;
            proof {
                crate::fs::memory_fs::lemma_map_rest(old_rest, keyed_views(), s, k as int);
                crate::fs::memory_fs::lemma_filter_step(s, k as int, keep);
            }
            let item = rest.remove(0);
            assert(rest@ =~= old_rest.skip(1));
            let text = join_path(item.0.as_slice());
            if files_from_matches(text.as_str(), files_from) {
                proof {
                    crate::fs::memory_fs::lemma_map_push(before, item, keyed_views());
                }
                done.push(item);
                assert(done@.map_values(keyed_views()) =~= s.take(k + 1).filter(keep));
            }
            k = k + 1;
        }
        assert(s.take(n as int) =~= s);
        self.items = done;
    }

    /// The paths of the entries, in order, written out.
    pub fn key_texts(&self) -> (r: Vec<String>)
        ensures
            r@.len() == self@.len(),
            forall|i: int| 0 <= i < r@.len() ==> #[trigger] r@[i]@ == path_text(self@[i].0),
    {
        let n = self.items.len();
        let mut out: Vec<String> = Vec::new();
        let mut i: usize = 0;
        while i < n
            invariant
                n == self.items@.len(),
                i <= n,
                out@.len() == i,
                forall|j: int| 0 <= j < i ==> #[trigger] out@[j]@ == path_text(self@[j].0),
            decreases n - i,
        {
            assert(self@[i as int].0 == components_view(self.items@[i as int].0@));
            out.push(join_path(self.items[i].0.as_slice()));
            i = i + 1;
        }
        out
    }
}

/// Whether every entry of `s` is keyed by the names of its own path.
pub open spec fn keyed_by_path(s: Seq<(Seq<Seq<char>>, WalkEntry)>) -> bool {
    forall|k: int| 0 <= k < s.len() ==> #[trigger] crate::fs::sync_paths::path_names(s[k].1.path@) == s[k].0
}

impl EntryMap {
    /// Adds `entry` under the names of its path, unless an entry is there already.
    pub fn add_by_path(&mut self, entry: WalkEntry)
        requires
            keyed_by_path(old(self)@),
        ensures
            keyed_by_path(final(self)@),
            lookup(old(self)@, crate::fs::sync_paths::path_names(entry.path@)) is Some
                ==> final(self)@ == old(self)@,
            lookup(old(self)@, crate::fs::sync_paths::path_names(entry.path@)) is None
                ==> final(self)@ == insert_node(
                old(self)@,
                crate::fs::sync_paths::path_names(entry.path@),
                entry,
            ),
    {
        let key = crate::fs::sync_paths::path_names_of(entry.path.as_str(), true);
        if self.contains_key(key.as_slice()) {
            return;
        }
        let ghost before = self@;
        let ghost kv = components_view(key@);
        let ghost e = entry;
        self.insert(key, entry);
        proof {
            crate::fs::memory::lemma_insert_node_elements(before, kv, e);
            assert forall|k: int| 0 <= k < self@.len() implies #[trigger] crate::fs::sync_paths::path_names(
                self@[k].1.path@,
            ) == self@[k].0 by {
                if self@[k] != (kv, e) {
                    let j = choose|j: int| 0 <= j < before.len() && self@[k] == before[j];
                    assert(crate::fs::sync_paths::path_names(before[j].1.path@) == before[j].0);
                }
            }
        }
    }

    /// The paths of the entries, in order: for a map keyed by path, sorted by their names and
    /// without two paths of the same names.
    pub fn entry_paths(&self) -> (r: Vec<String>)
        ensures
            r@.len() == self@.len(),
            forall|i: int| 0 <= i < r@.len() ==> #[trigger] r@[i] == self@[i].1.path,
            keyed_by_path(self@) ==> forall|i: int, j: int|
                0 <= i < j < r@.len() ==> crate::fs::paths::path_less(
                    crate::fs::sync_paths::path_names(#[trigger] r@[i]@),
                    crate::fs::sync_paths::path_names(#[trigger] r@[j]@),
                ),
    {
        self.assert_sorted();
        let n = self.items.len();
        let mut out: Vec<String> = Vec::new();
        let mut i: usize = 0;
        while i < n
            invariant
                n == self@.len(),
                i <= n,
                out@.len() == i,
                forall|k: int| 0 <= k < i ==> #[trigger] out@[k] == self@[k].1.path,
            decreases n - i,
        {
            let ghost before = out@;
            out.push(self.entry_at(i).path.clone());
            proof {
                assert forall|k: int| 0 <= k < i + 1 implies #[trigger] out@[k] == self@[k].1.path by {
                    if k < i {
                        assert(out@[k] == before[k]);
                    }
                }
            }
            i = i + 1;
        }
        proof {
            if keyed_by_path(self@) {
                assert forall|i: int, j: int| 0 <= i < j < out@.len() implies crate::fs::paths::path_less(
                    crate::fs::sync_paths::path_names(#[trigger] out@[i]@),
                    crate::fs::sync_paths::path_names(#[trigger] out@[j]@),
                ) by {
                    assert(out@[i] == self@[i].1.path && out@[j] == self@[j].1.path);
                    assert(crate::fs::sync_paths::path_names(self@[i].1.path@) == self@[i].0);
                    assert(crate::fs::sync_paths::path_names(self@[j].1.path@) == self@[j].0);
                }
            }
        }
        out
    }
}

/// The first receiver path written for each hard link group.
pub struct HardlinkTargets {
    items: Vec<(HardlinkId, String)>,
}

impl HardlinkTargets {
    pub closed spec fn targets(self) -> Seq<(HardlinkId, Seq<char>)> {
        self.items@.map_values(|x: (HardlinkId, String)| (x.0, x.1@))
    }

    pub fn new() -> (r: Self)
        ensures
            r.targets() == Seq::<(HardlinkId, Seq<char>)>::empty(),
    {
        let r = HardlinkTargets { items: Vec::new() };
        assert(r.targets() =~= Seq::<(HardlinkId, Seq<char>)>::empty());
        r
    }

    /// The path recorded for the group `id`, if any.
    pub fn get(&self, id: HardlinkId) -> (r: Option<String>)
        ensures
            match r {
                Some(p) => exists|i: int|
                    0 <= i < self.targets().len() && #[trigger] self.targets()[i] == (id, p@),
                None => forall|i: int|
                    0 <= i < self.targets().len() ==> (#[trigger] self.targets()[i]).0 != id,
            },
    {
        let n = self.items.len();
        let mut i: usize = 0;
        while i < n
            invariant
                n == self.items@.len(),
                i <= n,
                forall|j: int| 0 <= j < i ==> (#[trigger] self.targets()[j]).0 != id,
            decreases n - i,
        {
            assert(self.targets()[i as int] == (self.items@[i as int].0, self.items@[i as int].1@));
            if self.items[i].0.volume == id.volume && self.items[i].0.file == id.file {
                return Some(self.items[i].1.clone());
            }
            i = i + 1;
        }
        None
    }

    /// Records `target` for the group `id` unless the group has a path already.
    pub fn remember(&mut self, id: HardlinkId, target: &str)
        ensures
            (forall|i: int| 0 <= i < old(self).targets().len() ==> (#[trigger] old(self).targets()[i]).0 != id)
                ==> final(self).targets() == old(self).targets().push((id, target@)),
            (exists|i: int| 0 <= i < old(self).targets().len() && (#[trigger] old(self).targets()[i]).0 == id)
                ==> final(self).targets() == old(self).targets(),
    {
        match self.get(id) {
            Some(_) => {},
            None => {
                self.items.push((id, target.to_owned()));
                assert(self.targets() =~= old(self).targets().push((id, target@)));
            },
        }
    }
}

/// Quick check: when the receiver holds a regular file of the sender's size, but both
/// modification times are known and lie further apart than `--modify-window` (or differ at all
/// under a negative window), the file is transferred. Only size limits, `--ignore-existing` and
/// `--update` against a newer receiver keep it.
pub proof fn lemma_quick_check_transfers_changed_mtime(
    o: SyncOptions,
    source: PortableMetadata,
    target: PortableMetadata,
)
    requires
        o.update_mode == UpdateMode::QuickCheck,
        !(o.max_size matches Some(max) && source.len > max),
        !(o.min_size matches Some(min) && source.len < min),
        target.file_type == FileType::File,
        !o.ignore_existing,
        !o.skip_newer_receiver,
        source.len == target.len,
        source.modified matches Some(s) && target.modified matches Some(t) && if o.modify_window
            < 0 {
            s != t
        } else {
            gap_seconds(s, t) > o.modify_window
        },
    ensures
        update_check_of(
            source,
            Some(target),
            receiver_newer_of(source, target),
            mtimes_match_of(source, target, o.modify_window),
            o,
        ) == UpdateCheck::Transfer,
{
}

/// Quick check: a receiver file of the sender's size whose modification time lies within the
/// window is skipped (under the same conditions), so the two cases differ exactly by the times.
pub proof fn lemma_quick_check_skips_matching_mtime(
    o: SyncOptions,
    source: PortableMetadata,
    target: PortableMetadata,
)
    requires
        o.update_mode == UpdateMode::QuickCheck,
        !(o.max_size matches Some(max) && source.len > max),
        !(o.min_size matches Some(min) && source.len < min),
        target.file_type == FileType::File,
        !o.ignore_existing,
        !o.skip_newer_receiver,
        source.len == target.len,
        source.modified matches Some(s) && target.modified matches Some(t) && if o.modify_window
            < 0 {
            s == t
        } else {
            gap_seconds(s, t) <= o.modify_window
        },
    ensures
        update_check_of(
            source,
            Some(target),
            receiver_newer_of(source, target),
            mtimes_match_of(source, target, o.modify_window),
            o,
        ) == UpdateCheck::Skip,
{
}

} // verus!
