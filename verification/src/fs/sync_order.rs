use vstd::prelude::*;

use crate::fs::memory::{entries_sorted, lookup};
use crate::fs::paths::{components_view, path_less};
use crate::fs::sync_plan::EntryMap;
use crate::fs::walk::WalkEntry;

verus! {

/// Whether the receiver entry at `a` is deleted before the one at `b`: deeper paths first, and
/// among paths of one depth the later one first.
pub open spec fn deletes_before(a: Seq<Seq<char>>, b: Seq<Seq<char>>) -> bool {
    a.len() > b.len() || (a.len() == b.len() && path_less(b, a))
}

/// Whether the receiver entry `j` of `dest` is one the sender does not have.
pub open spec fn extra_entry(
    source: Seq<(Seq<Seq<char>>, WalkEntry)>,
    dest: Seq<(Seq<Seq<char>>, WalkEntry)>,
    j: int,
) -> bool {
    0 <= j < dest.len() && lookup(source, dest[j].0) is None
}

pub open spec fn item_view(x: (Vec<String>, WalkEntry)) -> (Seq<Seq<char>>, WalkEntry) {
    (components_view(x.0@), x.1)
}

/// Whether `x` is a receiver entry that the sender does not have.
pub open spec fn from_dest(
    source: Seq<(Seq<Seq<char>>, WalkEntry)>,
    dest: Seq<(Seq<Seq<char>>, WalkEntry)>,
    x: (Seq<Seq<char>>, WalkEntry),
) -> bool {
    exists|j: int| extra_entry(source, dest, j) && x == #[trigger] dest[j]
}

/// Whether `x` is among the items `lo..hi` of `out`.
pub open spec fn covered(out: Seq<(Vec<String>, WalkEntry)>, x: (Seq<Seq<char>>, WalkEntry), lo: int, hi: int) -> bool {
    exists|k: int| lo <= k < hi && #[trigger] item_view(out[k]) == x
}

proof fn lemma_covered_extends(
    before: Seq<(Vec<String>, WalkEntry)>,
    out: Seq<(Vec<String>, WalkEntry)>,
    x: (Seq<Seq<char>>, WalkEntry),
    lo: int,
    hi: int,
    hi2: int,
)
    requires
        covered(before, x, lo, hi),
        0 <= lo,
        hi <= before.len() <= out.len(),
        hi <= hi2,
        forall|k: int| 0 <= k < before.len() ==> out[k] == before[k],
    ensures
        covered(out, x, lo, hi2),
{
    let k = choose|k: int| lo <= k < hi && #[trigger] item_view(before[k]) == x;
    assert(out[k] == before[k]);
    assert(item_view(out[k]) == x);
}

/// The receiver entries that the sender does not have, deepest first and, within one depth, in
/// reverse path order: the order in which receiver deletes happen.
pub fn delete_order(source: &EntryMap, dest: &EntryMap) -> (r: Vec<(Vec<String>, WalkEntry)>)
    ensures
        forall|k: int| 0 <= k < r@.len() ==> from_dest(source@, dest@, #[trigger] item_view(r@[k])),
        forall|j: int| extra_entry(source@, dest@, j) ==> covered(r@, #[trigger] dest@[j], 0, r@.len() as int),
        forall|k1: int, k2: int|
            0 <= k1 < k2 < r@.len() ==> deletes_before(
                #[trigger] item_view(r@[k1]).0,
                #[trigger] item_view(r@[k2]).0,
            ),
{
    dest.assert_sorted();
    let ghost s = source@;
    let ghost d = dest@;
    let n = dest.len();
    let mut max_depth: usize = 0;
    let mut i: usize = 0;
    while i < n
        invariant
            n == d.len(),
            d == dest@,
            i <= n,
            forall|j: int| 0 <= j < i ==> d[j].0.len() <= max_depth,
        decreases n - i,
    {
        let len = dest.key_at(i).len();
        if len > max_depth {
            max_depth = len;
        }
        i = i + 1;
    }
    let mut out: Vec<(Vec<String>, WalkEntry)> = Vec::new();
    let mut depth: usize = max_depth;
    let mut done_depths = false;
    while !done_depths
        invariant
            n == d.len(),
            d == dest@,
            s == source@,
            entries_sorted(d),
            forall|j: int| 0 <= j < n ==> d[j].0.len() <= max_depth,
            depth <= max_depth,
            forall|k: int| 0 <= k < out@.len() ==> from_dest(s, d, #[trigger] item_view(out@[k])),
            !done_depths ==> forall|k: int|
                0 <= k < out@.len() ==> (#[trigger] item_view(out@[k])).0.len() > depth,
            forall|j: int|
                extra_entry(s, d, j) && (done_depths || d[j].0.len() > depth) ==> covered(
                    out@,
                    #[trigger] d[j],
                    0,
                    out@.len() as int,
                ),
            forall|k1: int, k2: int|
                0 <= k1 < k2 < out@.len() ==> deletes_before(
                    #[trigger] item_view(out@[k1]).0,
                    #[trigger] item_view(out@[k2]).0,
                ),
        decreases depth + if done_depths {
            0int
        } else {
            1int
        },
    {
        let ghost out_before: int = out@.len() as int;
        let mut j = n;
        while j > 0
            invariant
                n == d.len(),
                d == dest@,
                s == source@,
                entries_sorted(d),
                j <= n,
                0 <= out_before <= out@.len(),
                forall|k: int| 0 <= k < out@.len() ==> from_dest(s, d, #[trigger] item_view(out@[k])),
                forall|k: int|
                    0 <= k < out_before ==> (#[trigger] item_view(out@[k])).0.len() > depth,
                forall|k: int|
                    out_before <= k < out@.len() ==> (#[trigger] item_view(out@[k])).0.len() == depth,
                forall|k: int, jj: int|
                    out_before <= k < out@.len() && 0 <= jj < j ==> path_less(
                        #[trigger] d[jj].0,
                        #[trigger] item_view(out@[k]).0,
                    ),
                forall|k1: int, k2: int|
                    0 <= k1 < k2 < out@.len() ==> deletes_before(
                        #[trigger] item_view(out@[k1]).0,
                        #[trigger] item_view(out@[k2]).0,
                    ),
                forall|jj: int|
                    extra_entry(s, d, jj) && d[jj].0.len() > depth ==> covered(
                        out@,
                        #[trigger] d[jj],
                        0,
                        out_before,
                    ),
                forall|jj: int|
                    extra_entry(s, d, jj) && d[jj].0.len() == depth && jj >= j ==> covered(
                        out@,
                        #[trigger] d[jj],
                        out_before,
                        out@.len() as int,
                    ),
            decreases j,
        {
            j = j - 1;
            let key = dest.key_at(j);
            if key.len() == depth && !source.contains_key(key) {
                let copy = copy_key(key);
                let entry = dest.entry_at(j).clone();
                let ghost before = out@;
                out.push((copy, entry));
                proof {
                    let last = out@.len() - 1;
                    assert(item_view(out@[last]) == d[j as int]);
                    assert(extra_entry(s, d, j as int));
                    assert(out@.drop_last() =~= before);
                    assert forall|k: int| 0 <= k < before.len() implies out@[k] == before[k] by {
                        assert(out@.drop_last()[k] == out@[k]);
                    }
                    assert forall|k: int| 0 <= k < out@.len() implies from_dest(
                        s,
                        d,
                        #[trigger] item_view(out@[k]),
                    ) by {
                        if k == last {
                            assert(extra_entry(s, d, j as int) && item_view(out@[k]) == d[j as int]);
                        } else {
                            assert(out@[k] == before[k]);
                            assert(from_dest(s, d, item_view(before[k])));
                        }
                    }
                    assert forall|k1: int, k2: int|
                        0 <= k1 < k2 < out@.len() implies deletes_before(
                        #[trigger] item_view(out@[k1]).0,
                        #[trigger] item_view(out@[k2]).0,
                    ) by {
                        assert(out@[k1] == before[k1]);
                        if k2 == last {
                            if k1 >= out_before {
                                assert(path_less(d[j as int].0, item_view(before[k1]).0));
                            } else {
                                assert(item_view(before[k1]).0.len() > depth);
                            }
                        } else {
                            assert(out@[k2] == before[k2]);
                            assert(deletes_before(item_view(before[k1]).0, item_view(before[k2]).0));
                        }
                    }
                    assert forall|k: int, jj: int|
                        out_before <= k < out@.len() && 0 <= jj < j implies path_less(
                        #[trigger] d[jj].0,
                        #[trigger] item_view(out@[k]).0,
                    ) by {
                        if k < last {
                            assert(out@[k] == before[k]);
                            assert(path_less(d[jj].0, item_view(before[k]).0));
                        } else {
                            assert(path_less(d[jj].0, d[j as int].0));
                        }
                    }
                    assert forall|jj: int|
                        extra_entry(s, d, jj) && d[jj].0.len() == depth && jj >= j implies covered(
                        out@,
                        #[trigger] d[jj],
                        out_before,
                        out@.len() as int,
                    ) by {
                        if jj == j {
                            assert(item_view(out@[last]) == d[jj]);
                        } else {
                            lemma_covered_extends(before, out@, d[jj], out_before, before.len() as int, out@.len() as int);
                        }
                    }
                    assert forall|jj: int|
                        extra_entry(s, d, jj) && d[jj].0.len() > depth implies covered(
                        out@,
                        #[trigger] d[jj],
                        0,
                        out_before,
                    ) by {
                        lemma_covered_extends(before, out@, d[jj], 0, out_before, out_before);
                    }
                    assert forall|k: int| 0 <= k < out_before implies (#[trigger] item_view(out@[k])).0.len() > depth by {
                        assert(out@[k] == before[k]);
                    }
                    assert forall|k: int| out_before <= k < out@.len() implies (#[trigger] item_view(out@[k])).0.len() == depth by {
                        if k < last {
                            assert(out@[k] == before[k]);
                        }
                    }
                }
            } else {
                proof {
                    assert forall|jj: int|
                        extra_entry(s, d, jj) && d[jj].0.len() == depth && jj >= j implies covered(
                        out@,
                        #[trigger] d[jj],
                        out_before,
                        out@.len() as int,
                    ) by {
                        if jj == j {
                            assert(lookup(s, d[jj].0) is None);
                            assert(false);
                        }
                    }
                }
            }
        }
        proof {
            assert forall|jj: int|
                extra_entry(s, d, jj) && d[jj].0.len() >= depth implies covered(
                out@,
                #[trigger] d[jj],
                0,
                out@.len() as int,
            ) by {
                if d[jj].0.len() > depth {
                    lemma_covered_extends(out@, out@, d[jj], 0, out_before, out@.len() as int);
                } else {
                    let k = choose|k: int|
                        out_before <= k < out@.len() && #[trigger] item_view(out@[k]) == d[jj];
                    assert(0 <= k < out@.len());
                }
            }
        }
        if depth == 0 {
            done_depths = true;
        } else {
            depth = depth - 1;
        }
    }
    out
}

/// A copy of a path held as components.
fn copy_key(key: &[String]) -> (r: Vec<String>)
    ensures
        components_view(r@) == components_view(key@),
{
    let mut out: Vec<String> = Vec::new();
    let mut i: usize = 0;
    while i < key.len()
        invariant
            i <= key@.len(),
            components_view(out@) == components_view(key@).take(i as int),
        decreases key.len() - i,
    {
        let ghost before = components_view(out@);
        out.push(key[i].clone());
        assert(components_view(out@) =~= before.push(key@[i as int]@));
        assert(components_view(key@).take(i + 1) =~= components_view(key@).take(i as int).push(
            key@[i as int]@,
        ));
        i = i + 1;
    }
    assert(components_view(key@).take(key@.len() as int) =~= components_view(key@));
    out
}

} // verus!
