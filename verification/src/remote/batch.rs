use vstd::prelude::*;

use crate::fs::paths::{components_view, Order};
use crate::remote::wire::{
    directory_paths_of, directory_set, entry_order, lemma_entry_order_flip, sender_entry_order,
    RemoteEntry, WireFileType,
};
use crate::transfer::sum_head::{ensure_allocation_within_limit, TransferError};

verus! {

/// An entry a sender lists: its wire form and the local path its data is read from.
#[derive(Debug)]
pub struct RemoteSourceEntry {
    pub wire: RemoteEntry,
    pub local_path: String,
}

impl Clone for RemoteSourceEntry {
    fn clone(&self) -> (r: Self)
        ensures
            r == *self,
    {
        RemoteSourceEntry { wire: self.wire.clone(), local_path: self.local_path.clone() }
    }
}

/// A batch of a sender's file list: entries numbered from `base_index`, and whether it is the
/// last batch.
#[derive(Debug)]
pub struct RemoteSourceEntryBatch {
    pub base_index: usize,
    pub entries: Vec<RemoteSourceEntry>,
    pub is_final: bool,
}

/// The wire form of a file-list batch.
#[derive(Debug)]
pub struct FileListBatch {
    pub base_index: usize,
    pub entries: Vec<RemoteEntry>,
    pub is_final: bool,
}

impl RemoteSourceEntryBatch {
    /// The batch as it goes on the wire: the same numbering, the wire form of each entry.
    pub fn file_list_batch(&self) -> (r: FileListBatch)
        ensures
            r.base_index == self.base_index,
            r.is_final == self.is_final,
            r.entries@ == self.entries@.map_values(|e: RemoteSourceEntry| e.wire),
    {
        let mut entries: Vec<RemoteEntry> = Vec::new();
        let mut i: usize = 0;
        while i < self.entries.len()
            invariant
                i <= self.entries@.len(),
                entries@ == self.entries@.take(i as int).map_values(|e: RemoteSourceEntry| e.wire),
            decreases self.entries.len() - i,
        {
            entries.push(self.entries[i].wire.clone());
            assert(self.entries@.take(i + 1) =~= self.entries@.take(i as int).push(
                self.entries@[i as int],
            ));
            i = i + 1;
            assert(entries@ =~= self.entries@.take(i as int).map_values(
                |e: RemoteSourceEntry| e.wire,
            ));
        }
        assert(self.entries@.take(self.entries@.len() as int) =~= self.entries@);
        FileListBatch { base_index: self.base_index, entries, is_final: self.is_final }
    }
}

/// Cuts a sender's file list into batches of at most a given number of entries, and, under a
/// positive allocation limit, of an estimated size within the limit.
pub struct RemoteSourceEntryBatchBuilder {
    max_entries: usize,
    max_alloc: Option<u64>,
    next_base_index: usize,
    current_entries: Vec<RemoteSourceEntry>,
    current_alloc: usize,
}

/// The estimate `a + b`, held at `usize::MAX`.
pub open spec fn saturating_sum(a: int, b: int) -> int {
    if a + b > usize::MAX {
        usize::MAX as int
    } else {
        a + b
    }
}

impl RemoteSourceEntryBatchBuilder {
    /// The most entries a batch holds.
    pub closed spec fn limit(self) -> nat {
        self.max_entries as nat
    }

    /// The allocation limit the builder was made with.
    pub closed spec fn alloc_limit(self) -> Option<u64> {
        self.max_alloc
    }

    /// The index of the first entry of the next batch.
    pub closed spec fn base(self) -> nat {
        self.next_base_index as nat
    }

    /// The entries waiting for the next batch, in the order they came.
    pub closed spec fn pending(self) -> Seq<RemoteSourceEntry> {
        self.current_entries@
    }

    /// The estimated size of the waiting entries.
    pub closed spec fn pending_alloc(self) -> nat {
        self.current_alloc as nat
    }

    /// Whether the waiting entries go out before an entry of estimated size `entry_alloc`
    /// joins them: there are some, and either the batch is full or, under a positive limit, the
    /// entry would take the estimate beyond it.
    pub open spec fn flushes_before(self, entry_alloc: usize) -> bool {
        self.pending().len() > 0 && (self.pending().len() >= self.limit() || match self.alloc_limit() {
            Some(limit) => limit > 0 && saturating_sum(self.pending_alloc() as int, entry_alloc as int)
                > limit,
            None => false,
        })
    }

    /// Whether a single entry of estimated size `entry_alloc` is beyond a positive limit.
    pub open spec fn entry_too_large(self, entry_alloc: usize) -> bool {
        match self.alloc_limit() {
            Some(limit) => limit > 0 && entry_alloc > limit,
            None => false,
        }
    }

    /// The error for an entry beyond the limit.
    pub open spec fn too_large_error(self, entry_alloc: usize) -> TransferError {
        TransferError::AllocationExceedsLimit {
            label: "file-list batch entry",
            bytes: entry_alloc,
            limit: self.alloc_limit()->0,
        }
    }

    /// A builder for batches of at most `max_entries` entries under the allocation limit
    /// `max_alloc`; a batch size of zero is refused.
    pub fn with_max_alloc(max_entries: usize, max_alloc: Option<u64>) -> (r: Result<
        Self,
        TransferError,
    >)
        ensures
            max_entries == 0 <==> r == Err::<Self, TransferError>(TransferError::ZeroBatchSize),
            r matches Ok(b) ==> b.limit() == max_entries && b.alloc_limit() == max_alloc
                && b.base() == 0 && b.pending() == Seq::<RemoteSourceEntry>::empty()
                && b.pending_alloc() == 0,
    {
        if max_entries == 0 {
            return Err(TransferError::ZeroBatchSize);
        }
        Ok(
            Self {
                max_entries,
                max_alloc,
                next_base_index: 0,
                current_entries: Vec::new(),
                current_alloc: 0,
            },
        )
    }

    /// Whether the waiting entries go out before an entry of estimated size `entry_alloc`.
    pub fn should_flush_before(&self, entry_alloc: usize) -> (r: bool)
        ensures
            r == self.flushes_before(entry_alloc),
    {
        if self.current_entries.len() == 0 {
            return false;
        }
        if self.current_entries.len() >= self.max_entries {
            return true;
        }
        match self.max_alloc {
            Some(limit) => {
                if limit > 0 {
                    let sum = self.current_alloc.saturating_add(entry_alloc);
                    sum as u64 > limit
                } else {
                    false
                }
            },
            None => false,
        }
    }

    /// Adds an entry of estimated size `entry_alloc` to the waiting ones, unless it alone is
    /// beyond a positive allocation limit.
    pub fn push_current(&mut self, entry: RemoteSourceEntry, entry_alloc: usize) -> (r: Result<
        (),
        TransferError,
    >)
        ensures
            final(self).limit() == old(self).limit(),
            final(self).alloc_limit() == old(self).alloc_limit(),
            final(self).base() == old(self).base(),
            old(self).entry_too_large(entry_alloc) ==> r == Err::<(), TransferError>(
                old(self).too_large_error(entry_alloc),
            ) && final(self).pending() == old(self).pending() && final(self).pending_alloc()
                == old(self).pending_alloc(),
            !old(self).entry_too_large(entry_alloc) ==> r is Ok && final(self).pending() == old(self).pending().push(entry) && final(self).pending_alloc() == saturating_sum(
                old(self).pending_alloc() as int,
                entry_alloc as int,
            ),
    {
        ensure_allocation_within_limit("file-list batch entry", entry_alloc, self.max_alloc)?;
        self.current_alloc = self.current_alloc.saturating_add(entry_alloc);
        self.current_entries.push(entry);
        Ok(())
    }

    /// Sends out the waiting entries as a batch numbered from the current base, and starts the
    /// next batch after them.
    pub fn emit(&mut self, is_final: bool) -> (r: RemoteSourceEntryBatch)
        requires
            old(self).base() + old(self).pending().len() <= usize::MAX,
        ensures
            r.base_index == old(self).base(),
            r.entries@ == old(self).pending(),
            r.is_final == is_final,
            final(self).limit() == old(self).limit(),
            final(self).alloc_limit() == old(self).alloc_limit(),
            final(self).base() == old(self).base() + old(self).pending().len(),
            final(self).pending() == Seq::<RemoteSourceEntry>::empty(),
            final(self).pending_alloc() == 0,
    {
        let mut entries: Vec<RemoteSourceEntry> = Vec::new();
        std::mem::swap(&mut entries, &mut self.current_entries);
        let base_index = self.next_base_index;
        self.next_base_index = self.next_base_index + entries.len();
        self.current_alloc = 0;
        RemoteSourceEntryBatch { base_index, entries, is_final }
    }

    /// Sends out the waiting entries as the last batch.
    pub fn finish(&mut self) -> (r: RemoteSourceEntryBatch)
        requires
            old(self).base() + old(self).pending().len() <= usize::MAX,
        ensures
            r.base_index == old(self).base(),
            r.entries@ == old(self).pending(),
            r.is_final,
            final(self).base() == old(self).base() + old(self).pending().len(),
            final(self).pending() == Seq::<RemoteSourceEntry>::empty(),
    {
        self.emit(true)
    }

    /// Adds an entry of estimated size `entry_alloc`. When the waiting entries must go out
    /// first, they come back as a batch and the entry starts the next one; when the entry
    /// fills the batch, the batch comes back with it. Entries leave in the order they came, and
    /// each batch is numbered from the index after the one before it.
    pub fn push(&mut self, entry: RemoteSourceEntry, entry_alloc: usize) -> (r: Result<
        Option<RemoteSourceEntryBatch>,
        TransferError,
    >)
        requires
            old(self).base() + old(self).pending().len() < usize::MAX,
        ensures
            final(self).limit() == old(self).limit(),
            final(self).alloc_limit() == old(self).alloc_limit(),
            old(self).entry_too_large(entry_alloc) ==> r == Err::<
                Option<RemoteSourceEntryBatch>,
                TransferError,
            >(old(self).too_large_error(entry_alloc)) && if old(self).flushes_before(entry_alloc) {
                final(self).pending().len() == 0 && final(self).base() == old(self).base() + old(self).pending().len()
            } else {
                final(self).pending() == old(self).pending() && final(self).base() == old(self).base()
            },
            !old(self).entry_too_large(entry_alloc) ==> r is Ok,
            r is Ok ==> final(self).base() + final(self).pending().len() == old(self).base() + old(self).pending().len() + 1,
            r matches Ok(Some(b)) ==> !b.is_final && b.base_index == old(self).base()
                && final(self).base() == b.base_index + b.entries@.len() && b.entries@ + final(self).pending() == old(self).pending().push(entry),
            r matches Ok(None) ==> final(self).base() == old(self).base() && final(self).pending()
                == old(self).pending().push(entry),
            r is Ok ==> (r matches Ok(Some(_)) <==> (old(self).flushes_before(entry_alloc) || old(self).pending().len() + 1 >= old(self).limit())),
    {
        if self.should_flush_before(entry_alloc) {
            let batch = self.emit(false);
            self.push_current(entry, entry_alloc)?;
            assert(batch.entries@ + self.pending() =~= old(self).pending().push(entry));
            return Ok(Some(batch));
        }
        self.push_current(entry, entry_alloc)?;
        if self.current_entries.len() >= self.max_entries {
            Ok(Some(self.emit(false)))
        } else {
            Ok(None)
        }
    }
}

/// How many regular files a list holds and their total length.
pub open spec fn file_summary(entries: Seq<RemoteSourceEntry>) -> (nat, nat)
    decreases entries.len(),
{
    if entries.len() == 0 {
        (0, 0)
    } else {
        let prev = file_summary(entries.drop_last());
        if entries.last().wire.file_type == WireFileType::File {
            (prev.0 + 1, prev.1 + entries.last().wire.len as nat)
        } else {
            prev
        }
    }
}

proof fn lemma_file_summary_grows(entries: Seq<RemoteSourceEntry>, n: int)
    requires
        0 <= n <= entries.len(),
    ensures
        file_summary(entries.take(n)).0 <= n,
        file_summary(entries.take(n)).1 <= file_summary(entries).1,
    decreases entries.len() - n,
{
    if n < entries.len() {
        lemma_file_summary_grows(entries, n + 1);
        assert(entries.take(n + 1).drop_last() =~= entries.take(n));
    } else {
        assert(entries.take(n) =~= entries);
    }
    lemma_file_summary_count(entries.take(n));
}

proof fn lemma_file_summary_count(entries: Seq<RemoteSourceEntry>)
    ensures
        file_summary(entries).0 <= entries.len(),
    decreases entries.len(),
{
    if entries.len() > 0 {
        lemma_file_summary_count(entries.drop_last());
    }
}

/// The number of regular files among `entries` and their total length.
pub fn remote_entries_file_summary(entries: &[RemoteSourceEntry]) -> (r: (usize, u64))
    requires
        file_summary(entries@).1 <= u64::MAX,
    ensures
        r.0 == file_summary(entries@).0,
        r.1 == file_summary(entries@).1,
{
    let mut count: usize = 0;
    let mut bytes: u64 = 0;
    let mut i: usize = 0;
    assert(entries@.take(0) =~= Seq::<RemoteSourceEntry>::empty());
    while i < entries.len()
        invariant
            i <= entries@.len(),
            file_summary(entries@).1 <= u64::MAX,
            count == file_summary(entries@.take(i as int)).0,
            bytes == file_summary(entries@.take(i as int)).1,
        decreases entries.len() - i,
    {
        proof {
            lemma_file_summary_grows(entries@, i + 1);
        }
        assert(entries@.take(i + 1).drop_last() =~= entries@.take(i as int));
        if entries[i].wire.file_type == WireFileType::File {
            count = count + 1;
            bytes = bytes + entries[i].wire.len;
        }
        i = i + 1;
    }
    assert(entries@.take(entries@.len() as int) =~= entries@);
    (count, bytes)
}

/// The wire forms of a list of source entries.
pub open spec fn wire_entries(entries: Seq<RemoteSourceEntry>) -> Seq<RemoteEntry> {
    entries.map_values(|e: RemoteSourceEntry| e.wire)
}

/// Every source entry comes no later than the next one in the sender's order of their wire
/// forms.
pub open spec fn sources_sorted(s: Seq<RemoteSourceEntry>, dirs: Set<Seq<char>>) -> bool {
    forall|i: int|
        #![trigger s[i]]
        0 <= i < s.len() - 1 ==> entry_order(s[i].wire, s[i + 1].wire, dirs) != Order::Greater
}

fn source_insert_position(
    sorted: &Vec<RemoteSourceEntry>,
    item: &RemoteSourceEntry,
    directories: &[String],
) -> (j: usize)
    ensures
        j <= sorted@.len(),
        j > 0 ==> entry_order(
            sorted@[j - 1].wire,
            item.wire,
            components_view(directories@).to_set(),
        ) != Order::Greater,
        j < sorted@.len() ==> entry_order(
            sorted@[j as int].wire,
            item.wire,
            components_view(directories@).to_set(),
        ) == Order::Greater,
{
    let mut j: usize = sorted.len();
    loop
        invariant
            j <= sorted@.len(),
            j < sorted@.len() ==> entry_order(
                sorted@[j as int].wire,
                item.wire,
                components_view(directories@).to_set(),
            ) == Order::Greater,
        decreases j,
    {
        if j == 0 {
            return j;
        }
        let o = sender_entry_order(&sorted[j - 1].wire, &item.wire, directories);
        if o != Order::Greater {
            return j;
        }
        j = j - 1;
    }
}

#[verifier::rlimit(30)]
proof fn lemma_source_insert_keeps_sorted(
    before: Seq<RemoteSourceEntry>,
    j: int,
    item: RemoteSourceEntry,
    dset: Set<Seq<char>>,
)
    requires
        0 <= j <= before.len(),
        sources_sorted(before, dset),
        j > 0 ==> entry_order(before[j - 1].wire, item.wire, dset) != Order::Greater,
        j < before.len() ==> entry_order(before[j].wire, item.wire, dset) == Order::Greater,
    ensures
        sources_sorted(before.insert(j, item), dset),
{
    let after = before.insert(j, item);
    if j < before.len() {
        lemma_entry_order_flip(before[j].wire, item.wire, dset);
    }
    assert forall|i: int| #![trigger after[i]] 0 <= i < after.len() - 1 implies entry_order(
        after[i].wire,
        after[i + 1].wire,
        dset,
    ) != Order::Greater by {
        if i + 1 < j {
            assert(after[i] == before[i] && after[i + 1] == before[i + 1]);
            assert(before[i] == before[i]);
        } else if i + 1 == j {
            assert(after[i] == before[i] && after[i + 1] == item);
        } else if i == j {
            assert(after[i] == item && after[i + 1] == before[i]);
        } else {
            assert(after[i] == before[i - 1] && after[i + 1] == before[i]);
            assert(before[i - 1] == before[i - 1]);
        }
    }
}

proof fn lemma_source_insert_counts(
    original: Seq<RemoteSourceEntry>,
    k: int,
    before: Seq<RemoteSourceEntry>,
    j: int,
    item: RemoteSourceEntry,
)
    requires
        0 <= k < original.len(),
        0 <= j <= before.len(),
        item == original[k],
        before.to_multiset() == original.take(k).to_multiset(),
    ensures
        before.insert(j, item).to_multiset() == original.take(k + 1).to_multiset(),
{
    vstd::seq_lib::to_multiset_insert(before, j, item);
    assert(original.take(k + 1) =~= original.take(k).push(original[k]));
    vstd::seq_lib::to_multiset_build(original.take(k), original[k]);
}

fn source_directory_paths(entries: &[RemoteSourceEntry]) -> (r: Vec<String>)
    ensures
        components_view(r@).to_set() == directory_set(wire_entries(entries@)),
{
    let mut wires: Vec<RemoteEntry> = Vec::new();
    let mut i: usize = 0;
    while i < entries.len()
        invariant
            i <= entries@.len(),
            wires@ == wire_entries(entries@.take(i as int)),
        decreases entries.len() - i,
    {
        wires.push(entries[i].wire.clone());
        assert(entries@.take(i + 1) =~= entries@.take(i as int).push(entries@[i as int]));
        i = i + 1;
        assert(wires@ =~= wire_entries(entries@.take(i as int)));
    }
    assert(entries@.take(entries@.len() as int) =~= entries@);
    directory_paths_of(wires.as_slice())
}

/// Puts a sender's source entries in the order in which it numbers them: the same entries,
/// each no later than the next in the sender's order of their wire forms, the directories being
/// those of the list.
pub fn sort_remote_source_entries_for_sender_indexes(entries: &mut Vec<RemoteSourceEntry>)
    ensures
        final(entries)@.to_multiset() == old(entries)@.to_multiset(),
        sources_sorted(final(entries)@, directory_set(wire_entries(old(entries)@))),
{
    let ghost original = entries@;
    let ghost dset = directory_set(wire_entries(original));
    let directories = source_directory_paths(entries.as_slice());
    let mut sorted: Vec<RemoteSourceEntry> = Vec::new();
    let mut k: usize = 0;
    assert(original.take(0) =~= Seq::<RemoteSourceEntry>::empty());
    while k < entries.len()
        invariant
            k <= entries@.len(),
            entries@ == original,
            dset == directory_set(wire_entries(original)),
            components_view(directories@).to_set() == dset,
            sorted@.to_multiset() == original.take(k as int).to_multiset(),
            sources_sorted(sorted@, dset),
        decreases entries.len() - k,
    {
        let item = entries[k].clone();
        let j = source_insert_position(&sorted, &item, directories.as_slice());
        let ghost before = sorted@;
        sorted.insert(j, item);
        proof {
            lemma_source_insert_counts(original, k as int, before, j as int, item);
            lemma_source_insert_keeps_sorted(before, j as int, item, dset);
        }
        k = k + 1;
    }
    assert(original.take(original.len() as int) =~= original);
    *entries = sorted;
}

} // verus!
