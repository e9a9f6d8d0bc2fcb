use vstd::prelude::*;

use crate::fs::metadata::{FileType, HardlinkId, PortableMetadata};
use crate::fs::paths::{
    compare_paths, components_view, lemma_path_less_asymmetric, lemma_path_less_irreflexive,
    lemma_path_less_total, lemma_path_less_transitive, path_less, Order,
};

verus! {

/// The view of a node: its metadata and its content.
pub type NodeView = (PortableMetadata, Seq<u8>);

/// The view of an in-memory tree: its entries, each a path (as components) with its node.
pub type Entries = Seq<(Seq<Seq<char>>, NodeView)>;

/// Whether entries keyed by path (as components) are in strict path order.
pub open spec fn entries_sorted<V>(s: Seq<(Seq<Seq<char>>, V)>) -> bool {
    forall|i: int, j: int| 0 <= i < j < s.len() ==> path_less(#[trigger] s[i].0, #[trigger] s[j].0)
}

/// The first entry from `i` on whose path is not before `k`.
pub open spec fn first_not_less<V>(
    s: Seq<(Seq<Seq<char>>, V)>,
    k: Seq<Seq<char>>,
    i: int,
) -> int
    decreases s.len() - i,
{
    if i >= s.len() {
        s.len() as int
    } else if path_less(s[i].0, k) {
        first_not_less(s, k, i + 1)
    } else {
        i
    }
}

/// Where the entry for `k` is, if there is one.
pub open spec fn entry_index<V>(s: Seq<(Seq<Seq<char>>, V)>, k: Seq<Seq<char>>) -> Option<int> {
    let p = first_not_less(s, k, 0);
    if p < s.len() && s[p].0 == k {
        Some(p)
    } else {
        None
    }
}

/// The node at path `k`, if there is one.
pub open spec fn lookup<V>(s: Seq<(Seq<Seq<char>>, V)>, k: Seq<Seq<char>>) -> Option<V> {
    match entry_index(s, k) {
        Some(p) => Some(s[p].1),
        None => None,
    }
}

/// The entries with the node at `k` set to `n`.
pub open spec fn insert_node<V>(
    s: Seq<(Seq<Seq<char>>, V)>,
    k: Seq<Seq<char>>,
    n: V,
) -> Seq<(Seq<Seq<char>>, V)> {
    let p = first_not_less(s, k, 0);
    if p < s.len() && s[p].0 == k {
        s.update(p, (k, n))
    } else {
        s.insert(p, (k, n))
    }
}

/// The entries with a node at `k`: the one there, or `n` when there is none.
pub open spec fn ensure_node<V>(
    s: Seq<(Seq<Seq<char>>, V)>,
    k: Seq<Seq<char>>,
    n: V,
) -> Seq<(Seq<Seq<char>>, V)> {
    if lookup(s, k) is Some {
        s
    } else {
        insert_node(s, k, n)
    }
}

/// The entries without the node at `k`.
pub open spec fn remove_node<V>(s: Seq<(Seq<Seq<char>>, V)>, k: Seq<Seq<char>>) -> Seq<(Seq<Seq<char>>, V)> {
    match entry_index(s, k) {
        Some(p) => s.remove(p),
        None => s,
    }
}

/// The scan for an insertion point stops within the entries, after entries that are before `k`.
pub proof fn lemma_first_not_less<V>(s: Seq<(Seq<Seq<char>>, V)>, k: Seq<Seq<char>>, i: int)
    requires
        0 <= i <= s.len(),
    ensures
        i <= first_not_less(s, k, i) <= s.len(),
        forall|j: int| i <= j < first_not_less(s, k, i) ==> path_less(#[trigger] s[j].0, k),
        first_not_less(s, k, i) < s.len() ==> !path_less(s[first_not_less(s, k, i)].0, k),
    decreases s.len() - i,
{
    if i < s.len() && path_less(s[i].0, k) {
        lemma_first_not_less(s, k, i + 1);
    }
}

/// In path order, the node at `k` is found wherever an entry with that path is.
pub proof fn lemma_lookup_found<V>(s: Seq<(Seq<Seq<char>>, V)>, k: Seq<Seq<char>>, i: int)
    requires
        entries_sorted(s),
        0 <= i < s.len(),
        s[i].0 == k,
    ensures
        entry_index(s, k) == Some(i),
        lookup(s, k) == Some(s[i].1),
{
    lemma_first_not_less(s, k, 0);
    let p = first_not_less(s, k, 0);
    lemma_path_less_irreflexive(k);
    if p > i {
        assert(path_less(s[i].0, k));
    } else if p < i {
        assert(path_less(s[p].0, s[i].0));
        lemma_path_less_total(s[p].0, k);
    }
}

/// In path order, there is no node at `k` when no entry has that path.
pub proof fn lemma_lookup_missing<V>(s: Seq<(Seq<Seq<char>>, V)>, k: Seq<Seq<char>>)
    requires
        forall|i: int| 0 <= i < s.len() ==> s[i].0 != k,
    ensures
        entry_index(s, k) is None,
        lookup(s, k) is None,
{
    lemma_first_not_less(s, k, 0);
}

/// Where a new entry for `k` goes: every entry before is before `k`, every entry after is after.
proof fn lemma_insert_position<V>(s: Seq<(Seq<Seq<char>>, V)>, k: Seq<Seq<char>>)
    requires
        entries_sorted(s),
    ensures
        ({
            let p = first_not_less(s, k, 0);
            &&& 0 <= p <= s.len()
            &&& forall|j: int| 0 <= j < p ==> path_less(#[trigger] s[j].0, k)
            &&& forall|j: int| p < j < s.len() ==> path_less(k, #[trigger] s[j].0)
            &&& (p < s.len() && s[p].0 != k) ==> path_less(k, s[p].0)
        }),
{
    lemma_first_not_less(s, k, 0);
    let p = first_not_less(s, k, 0);
    if p < s.len() {
        lemma_path_less_total(s[p].0, k);
        assert forall|j: int| p < j < s.len() implies path_less(k, #[trigger] s[j].0) by {
            assert(path_less(s[p].0, s[j].0));
            if s[p].0 != k {
                lemma_path_less_transitive(k, s[p].0, s[j].0);
            }
        }
    }
}

/// Setting the node at `k` keeps the entries in path order, changes the node at `k` and no other.
pub proof fn lemma_insert_node<V>(
    s: Seq<(Seq<Seq<char>>, V)>,
    k: Seq<Seq<char>>,
    n: V,
)
    requires
        entries_sorted(s),
    ensures
        entries_sorted(insert_node(s, k, n)),
        forall|k2: Seq<Seq<char>>| #[trigger] lookup(insert_node(s, k, n), k2) == if k2 == k {
            Some(n)
        } else {
            lookup(s, k2)
        },
{
    lemma_insert_position(s, k);
    let p = first_not_less(s, k, 0);
    let t = insert_node(s, k, n);
    if p < s.len() && s[p].0 == k {
        assert(entries_sorted(t));
        assert(forall|j: int| 0 <= j < t.len() ==> #[trigger] t[j].0 == s[j].0);
    } else {
        assert forall|i: int, j: int| 0 <= i < j < t.len() implies path_less(#[trigger] t[i].0, #[trigger] t[j].0) by {
            if j < p {
                assert(t[i] == s[i] && t[j] == s[j]);
            } else if j == p {
                assert(t[i] == s[i]);
            } else if i == p {
                assert(t[j] == s[j - 1]);
            } else if i < p {
                assert(t[i] == s[i] && t[j] == s[j - 1]);
                lemma_path_less_transitive(s[i].0, k, s[j - 1].0);
            } else {
                assert(t[i] == s[i - 1] && t[j] == s[j - 1]);
            }
        }
    }
    assert forall|k2: Seq<Seq<char>>| #[trigger] lookup(t, k2) == if k2 == k {
        Some(n)
    } else {
        lookup(s, k2)
    } by {
        if p < s.len() && s[p].0 == k {
            if k2 == k {
                lemma_lookup_found(t, k2, p);
            } else if exists|i: int| 0 <= i < s.len() && s[i].0 == k2 {
                let i = choose|i: int| 0 <= i < s.len() && s[i].0 == k2;
                lemma_lookup_found(s, k2, i);
                lemma_lookup_found(t, k2, i);
            } else {
                lemma_lookup_missing(s, k2);
                lemma_lookup_missing(t, k2);
            }
        } else {
            if k2 == k {
                lemma_lookup_found(t, k2, p);
            } else if exists|i: int| 0 <= i < s.len() && s[i].0 == k2 {
                let i = choose|i: int| 0 <= i < s.len() && s[i].0 == k2;
                lemma_lookup_found(s, k2, i);
                if i < p {
                    lemma_lookup_found(t, k2, i);
                } else {
                    lemma_lookup_found(t, k2, i + 1);
                }
            } else {
                lemma_lookup_missing(s, k2);
                assert forall|i: int| 0 <= i < t.len() implies t[i].0 != k2 by {
                    if i < p {
                        assert(t[i] == s[i]);
                    } else if i > p {
                        assert(t[i] == s[i - 1]);
                    }
                }
                lemma_lookup_missing(t, k2);
            }
        }
    }
}

/// Removing the node at `k` keeps the entries in path order and removes that node only.
pub proof fn lemma_remove_node<V>(s: Seq<(Seq<Seq<char>>, V)>, k: Seq<Seq<char>>)
    requires
        entries_sorted(s),
    ensures
        entries_sorted(remove_node(s, k)),
        forall|k2: Seq<Seq<char>>| #[trigger] lookup(remove_node(s, k), k2) == if k2 == k {
            None
        } else {
            lookup(s, k2)
        },
{
    let t = remove_node(s, k);
    match entry_index(s, k) {
        None => {
            assert forall|k2: Seq<Seq<char>>| #[trigger] lookup(t, k2) == if k2 == k {
                None
            } else {
                lookup(s, k2)
            } by {
                if k2 == k && exists|i: int| 0 <= i < s.len() && s[i].0 == k2 {
                    let i = choose|i: int| 0 <= i < s.len() && s[i].0 == k2;
                    lemma_lookup_found(s, k2, i);
                }
            }
        },
        Some(p) => {
            lemma_first_not_less(s, k, 0);
            assert(0 <= p < s.len());
            assert(t == s.remove(p));
            assert(t.len() == s.len() - 1);
            assert forall|i: int, j: int| 0 <= i < j < t.len() implies path_less(#[trigger] t[i].0, #[trigger] t[j].0) by {
                if j < p {
                    assert(t[i] == s[i] && t[j] == s[j]);
                } else if i < p {
                    assert(t[i] == s[i] && t[j] == s[j + 1]);
                } else {
                    assert(t[i] == s[i + 1] && t[j] == s[j + 1]);
                }
            }
            assert forall|k2: Seq<Seq<char>>| #[trigger] lookup(t, k2) == if k2 == k {
                None
            } else {
                lookup(s, k2)
            } by {
                if exists|i: int| 0 <= i < s.len() && s[i].0 == k2 {
                    let i = choose|i: int| 0 <= i < s.len() && s[i].0 == k2;
                    lemma_lookup_found(s, k2, i);
                    if k2 == k {
                        assert forall|j: int| 0 <= j < t.len() implies t[j].0 != k2 by {
                            if j < p {
                                assert(t[j] == s[j]);
                                lemma_path_less_irreflexive(k);
                            } else {
                                assert(t[j] == s[j + 1]);
                                lemma_path_less_irreflexive(k);
                            }
                        }
                        lemma_lookup_missing(t, k2);
                    } else if i < p {
                        lemma_lookup_found(t, k2, i);
                    } else {
                        assert(i != p);
                        lemma_lookup_found(t, k2, i - 1);
                    }
                } else {
                    lemma_lookup_missing(s, k2);
                    assert forall|j: int| 0 <= j < t.len() implies t[j].0 != k2 by {
                        if j < p {
                            assert(t[j] == s[j]);
                        } else {
                            assert(t[j] == s[j + 1]);
                        }
                    }
                    lemma_lookup_missing(t, k2);
                }
            }
        },
    }
}

/// Every entry after setting the node at `k` is the new one or one that was there before.
pub proof fn lemma_insert_node_elements<V>(s: Seq<(Seq<Seq<char>>, V)>, k: Seq<Seq<char>>, n: V)
    ensures
        forall|i: int|
            0 <= i < insert_node(s, k, n).len() ==> #[trigger] insert_node(s, k, n)[i] == (k, n) || exists|
                j: int,
            | 0 <= j < s.len() && insert_node(s, k, n)[i] == s[j],
{
    lemma_first_not_less(s, k, 0);
    let p = first_not_less(s, k, 0);
    let t = insert_node(s, k, n);
    assert forall|i: int| 0 <= i < t.len() implies #[trigger] t[i] == (k, n) || exists|j: int|
        0 <= j < s.len() && t[i] == s[j] by {
        if p < s.len() && s[p].0 == k {
            if i != p {
                assert(t[i] == s[i]);
            }
        } else {
            if i < p {
                assert(t[i] == s[i]);
            } else if i > p {
                assert(t[i] == s[i - 1]);
            }
        }
    }
}

} // verus!
