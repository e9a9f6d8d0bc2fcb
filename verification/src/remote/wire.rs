use vstd::prelude::*;

use crate::fs::paths::{
    components_view, join_path, lemma_text_less_asymmetric, lemma_text_less_total, path_text,
    text_less, Order,
};
use crate::fs::sync_paths::{normal_names, path_names_of};
use crate::text::{chars_of, str_eq};

verus! {

/// The kind of an entry in a file list exchanged with a remote peer.
#[derive(Debug, Clone, Copy, PartialEq, Eq, Structural)]
pub enum WireFileType {
    File,
    Directory,
    Symlink,
}

/// What a receiver reads of one file-list entry: its relative path, kind, length and
/// modification time in seconds since the Unix epoch.
#[derive(Debug)]
pub struct RemoteEntry {
    pub path: String,
    pub file_type: WireFileType,
    pub len: u64,
    pub mtime_unix: i64,
}

impl Clone for RemoteEntry {
    fn clone(&self) -> (r: Self)
        ensures
            r == *self,
    {
        RemoteEntry {
            path: self.path.clone(),
            file_type: self.file_type,
            len: self.len,
            mtime_unix: self.mtime_unix,
        }
    }
}

/// The top directory of a transfer: the directory entry `.`.
pub open spec fn is_top_dir(e: RemoteEntry) -> bool {
    e.file_type == WireFileType::Directory && e.path@ == seq!['.']
}

/// Whether `entry` is the top directory of the transfer.
pub fn remote_entry_is_top_dir(entry: &RemoteEntry) -> (r: bool)
    ensures
        r == is_top_dir(*entry),
{
    proof {
        reveal_strlit(".");
    }
    let dot = str_eq(entry.path.as_str(), ".");
    assert(".".view() =~= seq!['.']);
    entry.file_type == WireFileType::Directory && dot
}

/// The names along `path` that go down (empty, `.` and `..` pieces left out).
pub fn normal_path_components(path: &str) -> (r: Vec<String>)
    ensures
        components_view(r@) == normal_names(path@),
{
    path_names_of(path, false)
}

/// A path made of `components`, with `/` between them.
pub fn path_from_components(components: &[String]) -> (r: String)
    ensures
        r@ == path_text(components_view(components@)),
{
    join_path(components)
}

/// The shorter of two lengths.
pub open spec fn shared_len(a: Seq<Seq<char>>, b: Seq<Seq<char>>) -> int {
    if a.len() < b.len() {
        a.len() as int
    } else {
        b.len() as int
    }
}

/// How two lengths compare.
pub open spec fn length_order(a: int, b: int) -> Order {
    if a < b {
        Order::Less
    } else if a == b {
        Order::Equal
    } else {
        Order::Greater
    }
}

/// The opposite answer.
pub open spec fn flipped(o: Order) -> Order {
    match o {
        Order::Less => Order::Greater,
        Order::Equal => Order::Equal,
        Order::Greater => Order::Less,
    }
}

/// How two component lists compare from position `i` on, in the sender's file-list order: at
/// the first names that differ, a prefix that is not a listed directory comes before one that
/// is; otherwise the names compare as text. A list that runs out first comes first.
pub open spec fn components_order(
    lc: Seq<Seq<char>>,
    rc: Seq<Seq<char>>,
    dirs: Set<Seq<char>>,
    i: int,
) -> Order
    decreases shared_len(lc, rc) - i,
{
    if i < 0 || i >= shared_len(lc, rc) {
        length_order(lc.len() as int, rc.len() as int)
    } else if lc[i] == rc[i] {
        components_order(lc, rc, dirs, i + 1)
    } else {
        let ld = dirs.contains(path_text(lc.take(i + 1)));
        let rd = dirs.contains(path_text(rc.take(i + 1)));
        if !ld && rd {
            Order::Less
        } else if ld && !rd {
            Order::Greater
        } else if text_less(lc[i], rc[i]) {
            Order::Less
        } else {
            Order::Greater
        }
    }
}

/// The order in which a sender lists two entries: one path is one entry; the top directory
/// comes first; the rest go by their names, as `components_order` says.
#[verifier::opaque]
pub open spec fn entry_order(l: RemoteEntry, r: RemoteEntry, dirs: Set<Seq<char>>) -> Order {
    if l.path@ == r.path@ {
        Order::Equal
    } else if is_top_dir(l) {
        Order::Less
    } else if is_top_dir(r) {
        Order::Greater
    } else {
        components_order(normal_names(l.path@), normal_names(r.path@), dirs, 0)
    }
}

proof fn lemma_components_order_flip(
    lc: Seq<Seq<char>>,
    rc: Seq<Seq<char>>,
    dirs: Set<Seq<char>>,
    i: int,
)
    ensures
        components_order(rc, lc, dirs, i) == flipped(components_order(lc, rc, dirs, i)),
    decreases shared_len(lc, rc) - i,
{
    if 0 <= i < shared_len(lc, rc) {
        if lc[i] == rc[i] {
            lemma_components_order_flip(lc, rc, dirs, i + 1);
        } else {
            lemma_text_less_total(lc[i], rc[i]);
            if text_less(lc[i], rc[i]) {
                lemma_text_less_asymmetric(lc[i], rc[i]);
            }
        }
    }
}

/// Swapping the two entries swaps the answer.
pub proof fn lemma_entry_order_flip(l: RemoteEntry, r: RemoteEntry, dirs: Set<Seq<char>>)
    ensures
        entry_order(r, l, dirs) == flipped(entry_order(l, r, dirs)),
{
    reveal(entry_order);
    lemma_components_order_flip(normal_names(l.path@), normal_names(r.path@), dirs, 0);
}

/// Whether `p` is among the listed directories.
fn directory_listed(dirs: &[String], p: &str) -> (r: bool)
    ensures
        r == components_view(dirs@).contains(p@),
{
    let ghost dv = components_view(dirs@);
    let mut i: usize = 0;
    while i < dirs.len()
        invariant
            i <= dirs@.len(),
            dv == components_view(dirs@),
            forall|j: int| 0 <= j < i ==> dv[j] != p@,
        decreases dirs.len() - i,
    {
        if str_eq(dirs[i].as_str(), p) {
            assert(dv[i as int] == p@);
            return true;
        }
        i = i + 1;
    }
    false
}

/// How two component lists compare in the sender's file-list order.
fn order_of_components(lc: &[String], rc: &[String], dirs: &[String]) -> (r: Order)
    ensures
        r == components_order(
            components_view(lc@),
            components_view(rc@),
            components_view(dirs@).to_set(),
            0,
        ),
{
    let ghost lv = components_view(lc@);
    let ghost rv = components_view(rc@);
    let ghost dset = components_view(dirs@).to_set();
    let shared = if lc.len() < rc.len() {
        lc.len()
    } else {
        rc.len()
    };
    let mut left_prefix: Vec<String> = Vec::new();
    let mut right_prefix: Vec<String> = Vec::new();
    let mut i: usize = 0;
    while i < shared
        invariant
            i <= shared,
            shared == shared_len(lv, rv),
            lv == components_view(lc@),
            rv == components_view(rc@),
            dset == components_view(dirs@).to_set(),
            components_view(left_prefix@) == lv.take(i as int),
            components_view(right_prefix@) == rv.take(i as int),
            components_order(lv, rv, dset, 0) == components_order(lv, rv, dset, i as int),
        decreases shared - i,
    {
        let ghost lb = components_view(left_prefix@);
        let ghost rb = components_view(right_prefix@);
        let lname = lc[i].clone();
        let rname = rc[i].clone();
        assert(lname@ == lv[i as int]);
        assert(rname@ == rv[i as int]);
        left_prefix.push(lname);
        right_prefix.push(rname);
        assert(components_view(left_prefix@) =~= lb.push(lv[i as int]));
        assert(components_view(right_prefix@) =~= rb.push(rv[i as int]));
        assert(lv.take(i + 1) =~= lv.take(i as int).push(lv[i as int]));
        assert(rv.take(i + 1) =~= rv.take(i as int).push(rv[i as int]));
        let same = str_eq(lc[i].as_str(), rc[i].as_str());
        assert(lv[i as int] == lc@[i as int]@);
        assert(rv[i as int] == rc@[i as int]@);
        if !same {
            let left_path = path_from_components(left_prefix.as_slice());
            let right_path = path_from_components(right_prefix.as_slice());
            let left_is_directory = directory_listed(dirs, left_path.as_str());
            let right_is_directory = directory_listed(dirs, right_path.as_str());
            if !left_is_directory && right_is_directory {
                return Order::Less;
            }
            if left_is_directory && !right_is_directory {
                return Order::Greater;
            }
            let lchars = chars_of(lc[i].as_str());
            let rchars = chars_of(rc[i].as_str());
            return crate::fs::paths::compare_text(lchars.as_slice(), rchars.as_slice());
        }
        i = i + 1;
    }
    if lc.len() < rc.len() {
        Order::Less
    } else if lc.len() == rc.len() {
        Order::Equal
    } else {
        Order::Greater
    }
}

/// How two entries compare in the sender's file-list order, with `directories` the paths of
/// the directory entries of the list.
pub fn sender_entry_order(left: &RemoteEntry, right: &RemoteEntry, directories: &[String]) -> (r:
    Order)
    ensures
        r == entry_order(*left, *right, components_view(directories@).to_set()),
{
    reveal(entry_order);
    if str_eq(left.path.as_str(), right.path.as_str()) {
        return Order::Equal;
    }
    if remote_entry_is_top_dir(left) {
        return Order::Less;
    }
    if remote_entry_is_top_dir(right) {
        return Order::Greater;
    }
    let left_components = normal_path_components(left.path.as_str());
    let right_components = normal_path_components(right.path.as_str());
    order_of_components(left_components.as_slice(), right_components.as_slice(), directories)
}

/// `sender_entry_order` as a standard ordering, for sorting.
pub fn remote_sender_entry_cmp(
    left: &RemoteEntry,
    right: &RemoteEntry,
    directories: &[String],
) -> (r: std::cmp::Ordering)
    ensures
        (r == std::cmp::Ordering::Less) == (entry_order(
            *left,
            *right,
            components_view(directories@).to_set(),
        ) == Order::Less),
        (r == std::cmp::Ordering::Equal) == (entry_order(
            *left,
            *right,
            components_view(directories@).to_set(),
        ) == Order::Equal),
        (r == std::cmp::Ordering::Greater) == (entry_order(
            *left,
            *right,
            components_view(directories@).to_set(),
        ) == Order::Greater),
{
    match sender_entry_order(left, right, directories) {
        Order::Less => std::cmp::Ordering::Less,
        Order::Equal => std::cmp::Ordering::Equal,
        Order::Greater => std::cmp::Ordering::Greater,
    }
}

/// The paths of the directory entries of a file list.
pub open spec fn directory_set(entries: Seq<RemoteEntry>) -> Set<Seq<char>> {
    Set::new(
        |p: Seq<char>|
            exists|j: int|
                0 <= j < entries.len() && (#[trigger] entries[j]).file_type
                    == WireFileType::Directory && entries[j].path@ == p,
    )
}

/// The paths of the directory entries of `entries`.
pub fn directory_paths_of(entries: &[RemoteEntry]) -> (r: Vec<String>)
    ensures
        components_view(r@).to_set() == directory_set(entries@),
{
    let mut out: Vec<String> = Vec::new();
    let mut i: usize = 0;
    while i < entries.len()
        invariant
            i <= entries@.len(),
            forall|p: Seq<char>|
                components_view(out@).contains(p) <==> exists|j: int|
                    0 <= j < i && (#[trigger] entries@[j]).file_type == WireFileType::Directory
                        && entries@[j].path@ == p,
        decreases entries.len() - i,
    {
        if entries[i].file_type == WireFileType::Directory {
            let ghost before = components_view(out@);
            let path = entries[i].path.clone();
            out.push(path);
            assert(components_view(out@) =~= before.push(entries@[i as int].path@));
            assert forall|p: Seq<char>|
                components_view(out@).contains(p) <==> exists|j: int|
                    0 <= j < i + 1 && (#[trigger] entries@[j]).file_type
                        == WireFileType::Directory && entries@[j].path@ == p by {
                if components_view(out@).contains(p) {
                    let k = choose|k: int|
                        0 <= k < components_view(out@).len() && components_view(out@)[k] == p;
                    if k < before.len() {
                        assert(before.contains(p));
                    } else {
                        assert(entries@[i as int].path@ == p);
                    }
                }
                if exists|j: int|
                    0 <= j < i + 1 && (#[trigger] entries@[j]).file_type
                        == WireFileType::Directory && entries@[j].path@ == p {
                    let j = choose|j: int|
                        0 <= j < i + 1 && (#[trigger] entries@[j]).file_type
                            == WireFileType::Directory && entries@[j].path@ == p;
                    if j < i {
                        assert(before.contains(p));
                        let k = choose|k: int| 0 <= k < before.len() && before[k] == p;
                        assert(components_view(out@)[k] == before[k]);
                    } else {
                        assert(components_view(out@)[before.len() as int] == p);
                    }
                }
            }
        } else {
            assert forall|p: Seq<char>|
                components_view(out@).contains(p) <==> exists|j: int|
                    0 <= j < i + 1 && (#[trigger] entries@[j]).file_type
                        == WireFileType::Directory && entries@[j].path@ == p by {
                if exists|j: int|
                    0 <= j < i + 1 && (#[trigger] entries@[j]).file_type
                        == WireFileType::Directory && entries@[j].path@ == p {
                    let j = choose|j: int|
                        0 <= j < i + 1 && (#[trigger] entries@[j]).file_type
                            == WireFileType::Directory && entries@[j].path@ == p;
                    assert(j < i);
                }
            }
        }
        i = i + 1;
    }
    assert(components_view(out@).to_set() =~= directory_set(entries@));
    out
}

/// Every entry comes no later than the next one in the sender's order.
pub open spec fn sender_sorted(s: Seq<RemoteEntry>, dirs: Set<Seq<char>>) -> bool {
    forall|i: int|
        #![trigger s[i]]
        0 <= i < s.len() - 1 ==> entry_order(s[i], s[i + 1], dirs) != Order::Greater
}

proof fn lemma_insert_keeps_sorted(
    before: Seq<RemoteEntry>,
    j: int,
    item: RemoteEntry,
    dset: Set<Seq<char>>,
)
    requires
        0 <= j <= before.len(),
        sender_sorted(before, dset),
        j > 0 ==> entry_order(before[j - 1], item, dset) != Order::Greater,
        j < before.len() ==> entry_order(before[j], item, dset) == Order::Greater,
    ensures
        sender_sorted(before.insert(j, item), dset),
{
    let after = before.insert(j, item);
    if j < before.len() {
        lemma_entry_order_flip(before[j], item, dset);
    }
    assert forall|i: int| #![trigger after[i]] 0 <= i < after.len() - 1 implies entry_order(
        after[i],
        after[i + 1],
        dset,
    ) != Order::Greater by {
        if i + 1 < j {
            assert(after[i] == before[i] && after[i + 1] == before[i + 1]);
            assert(before[i] == before[i]);
        } else if i + 1 == j {
            assert(after[i] == before[i] && after[i + 1] == item);
        } else if i == j {
            assert(after[i] == item && after[i + 1] == before[i]);
        } else {
            assert(after[i] == before[i - 1] && after[i + 1] == before[i]);
            assert(before[i - 1] == before[i - 1]);
        }
    }
}

proof fn lemma_insert_counts(
    original: Seq<RemoteEntry>,
    k: int,
    before: Seq<RemoteEntry>,
    j: int,
    item: RemoteEntry,
)
    requires
        0 <= k < original.len(),
        0 <= j <= before.len(),
        item == original[k],
        before.to_multiset() == original.take(k).to_multiset(),
    ensures
        before.insert(j, item).to_multiset() == original.take(k + 1).to_multiset(),
{
    vstd::seq_lib::to_multiset_insert(before, j, item);
    assert(original.take(k + 1) =~= original.take(k).push(original[k]));
    vstd::seq_lib::to_multiset_build(original.take(k), original[k]);
}

/// Where `item` goes in `sorted`: after every entry that does not come later than it.
fn insert_position(sorted: &Vec<RemoteEntry>, item: &RemoteEntry, directories: &[String]) -> (j:
    usize)
    ensures
        j <= sorted@.len(),
        j > 0 ==> entry_order(sorted@[j - 1], *item, components_view(directories@).to_set())
            != Order::Greater,
        j < sorted@.len() ==> entry_order(
            sorted@[j as int],
            *item,
            components_view(directories@).to_set(),
        ) == Order::Greater,
{
    let mut j: usize = sorted.len();
    loop
        invariant
            j <= sorted@.len(),
            j < sorted@.len() ==> entry_order(
                sorted@[j as int],
                *item,
                components_view(directories@).to_set(),
            ) == Order::Greater,
        decreases j,
    {
        if j == 0 {
            return j;
        }
        let o = sender_entry_order(&sorted[j - 1], item, directories);
        if o != Order::Greater {
            return j;
        }
        j = j - 1;
    }
}

/// Puts a file list in the order in which the sender numbers its entries: the same entries,
/// each no later than the next in the sender's order, the directories being those of the list.
pub fn sort_remote_entries_for_sender_indexes(entries: &mut Vec<RemoteEntry>)
    ensures
        final(entries)@.to_multiset() == old(entries)@.to_multiset(),
        sender_sorted(final(entries)@, directory_set(old(entries)@)),
{
    let ghost original = entries@;
    let ghost dset = directory_set(original);
    let directories = directory_paths_of(entries.as_slice());
    let mut sorted: Vec<RemoteEntry> = Vec::new();
    let mut k: usize = 0;
    assert(original.take(0) =~= Seq::<RemoteEntry>::empty());
    while k < entries.len()
        invariant
            k <= entries@.len(),
            entries@ == original,
            dset == directory_set(original),
            components_view(directories@).to_set() == dset,
            sorted@.to_multiset() == original.take(k as int).to_multiset(),
            sender_sorted(sorted@, dset),
        decreases entries.len() - k,
    {
        let item = entries[k].clone();
        let j = insert_position(&sorted, &item, directories.as_slice());
        let ghost before = sorted@;
        sorted.insert(j, item);
        proof {
            lemma_insert_counts(original, k as int, before, j as int, item);
            lemma_insert_keeps_sorted(before, j as int, item, dset);
        }
        k = k + 1;
    }
    assert(original.take(original.len() as int) =~= original);
    *entries = sorted;
}

} // verus!
