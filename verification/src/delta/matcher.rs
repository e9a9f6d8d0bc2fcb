use vstd::prelude::*;

use crate::bytes::{bytes_equal, copy_range};
use crate::delta::rollsum::{rolling_checksum, spec_rolling_checksum};
use crate::delta::signature::{BlockSignature, DeterministicStrongChecksum, StrongChecksum};
use std::collections::HashMap;

verus! {

broadcast use vstd::std_specs::hash::group_hash_axioms;

/// One instruction of a delta: literal bytes, or a copy of a basis range.
#[derive(Debug, Clone, PartialEq, Eq)]
pub enum DeltaToken {
    Literal(Vec<u8>),
    Copy { offset: usize, len: usize },
}

/// The mathematical content of a delta token.
pub enum DeltaOp {
    Literal(Seq<u8>),
    Copy(nat, nat),
}

impl View for DeltaToken {
    type V = DeltaOp;

    open spec fn view(&self) -> DeltaOp {
        match self {
            DeltaToken::Literal(bytes) => DeltaOp::Literal(bytes@),
            DeltaToken::Copy { offset, len } => DeltaOp::Copy(*offset as nat, *len as nat),
        }
    }
}

/// The contents of a token list.
pub open spec fn ops_of(tokens: Seq<DeltaToken>) -> Seq<DeltaOp> {
    tokens.map_values(|t: DeltaToken| t@)
}

/// The target bytes `target[pos..pos + len]`.
pub open spec fn window(target: Seq<u8>, pos: int, len: int) -> Seq<u8> {
    target.subrange(pos, pos + len)
}

/// Signature `sig` fits at `pos` and both its weak and strong checksums equal those of
/// the target window there.
pub open spec fn sig_matches_at<S: StrongChecksum>(sig: BlockSignature, target: Seq<u8>, pos: int, checksum: S) -> bool {
    &&& 0 <= pos
    &&& pos + sig.len <= target.len()
    &&& sig.weak == spec_rolling_checksum(window(target, pos, sig.len as int))
    &&& sig.strong@ == checksum.spec_digest(window(target, pos, sig.len as int))
}

/// Among the first `n` signatures, the one matching at `pos` with the greatest length,
/// the earliest of those on a tie.
pub open spec fn best_match<S: StrongChecksum>(
    sigs: Seq<BlockSignature>,
    n: int,
    target: Seq<u8>,
    pos: int,
    checksum: S,
) -> Option<int>
    decreases n,
{
    if n <= 0 {
        None
    } else {
        let prev = best_match(sigs, n - 1, target, pos, checksum);
        if sig_matches_at(sigs[n - 1], target, pos, checksum) && (prev is None || sigs[n - 1].len
            > sigs[prev->0].len) {
            Some(n - 1)
        } else {
            prev
        }
    }
}

/// A pending literal, as a token list (empty literals produce no token).
pub open spec fn flush_op(literal: Seq<u8>) -> Seq<DeltaOp> {
    if literal.len() == 0 {
        Seq::empty()
    } else {
        seq![DeltaOp::Literal(literal)]
    }
}

/// Greedy scan of `target` from `pos` with the pending literal `literal`: at each position
/// the best matching signature becomes a copy, otherwise the byte joins the literal.
pub open spec fn scan_ops<S: StrongChecksum>(
    sigs: Seq<BlockSignature>,
    target: Seq<u8>,
    checksum: S,
    pos: int,
    literal: Seq<u8>,
) -> Seq<DeltaOp>
    decreases target.len() - pos,
{
    if pos < 0 || pos >= target.len() {
        flush_op(literal)
    } else {
        match best_match(sigs, sigs.len() as int, target, pos, checksum) {
            Some(i) => if 0 < sigs[i].len && pos + sigs[i].len <= target.len() {
                flush_op(literal) + seq![DeltaOp::Copy(sigs[i].offset as nat, sigs[i].len as nat)]
                    + scan_ops(sigs, target, checksum, pos + sigs[i].len, Seq::empty())
            } else {
                flush_op(literal)
            },
            None => scan_ops(sigs, target, checksum, pos + 1, literal.push(target[pos])),
        }
    }
}

/// The delta that `generate_delta_with` produces.
pub open spec fn spec_delta<S: StrongChecksum>(sigs: Seq<BlockSignature>, target: Seq<u8>, checksum: S) -> Seq<DeltaOp> {
    if target.len() == 0 {
        Seq::empty()
    } else if sigs.len() == 0 {
        seq![DeltaOp::Literal(target)]
    } else {
        scan_ops(sigs, target, checksum, 0, Seq::empty())
    }
}

/// No zero-length signature matches the empty window (such a signature would never let the
/// scan advance).
pub open spec fn no_empty_match<S: StrongChecksum>(sigs: Seq<BlockSignature>, checksum: S) -> bool {
    forall|i: int|
        0 <= i < sigs.len() && (#[trigger] sigs[i]).len == 0 ==> !(sigs[i].weak == spec_rolling_checksum(
            Seq::empty(),
        ) && sigs[i].strong@ == checksum.spec_digest(Seq::empty()))
}

pub(crate) proof fn lemma_best_match_props<S: StrongChecksum>(
    sigs: Seq<BlockSignature>,
    n: int,
    target: Seq<u8>,
    pos: int,
    checksum: S,
)
    requires
        0 <= n <= sigs.len(),
    ensures
        match best_match(sigs, n, target, pos, checksum) {
            Some(b) => {
                &&& 0 <= b < n
                &&& sig_matches_at(sigs[b], target, pos, checksum)
                &&& forall|j: int|
                    0 <= j < n && sig_matches_at(#[trigger] sigs[j], target, pos, checksum) ==> sigs[j].len
                        < sigs[b].len || (sigs[j].len == sigs[b].len && b <= j)
            },
            None => forall|j: int| 0 <= j < n ==> !sig_matches_at(#[trigger] sigs[j], target, pos, checksum),
        },
    decreases n,
{
    if n > 0 {
        lemma_best_match_props(sigs, n - 1, target, pos, checksum);
    }
}

proof fn lemma_best_match_is<S: StrongChecksum>(
    sigs: Seq<BlockSignature>,
    target: Seq<u8>,
    pos: int,
    checksum: S,
    b: int,
)
    requires
        0 <= b < sigs.len(),
        sig_matches_at(sigs[b], target, pos, checksum),
        forall|j: int|
            0 <= j < sigs.len() && sig_matches_at(#[trigger] sigs[j], target, pos, checksum) ==> sigs[j].len
                < sigs[b].len || (sigs[j].len == sigs[b].len && b <= j),
    ensures
        best_match(sigs, sigs.len() as int, target, pos, checksum) == Some(b),
{
    lemma_best_match_props(sigs, sigs.len() as int, target, pos, checksum);
}

/// Some signature has length `len`.
pub open spec fn has_signature_len(sigs: Seq<BlockSignature>, len: usize) -> bool {
    exists|j: int| 0 <= j < sigs.len() && sigs[j].len == len
}

/// `lengths` lists each signature length exactly once, longest first.
pub open spec fn lengths_index_of(lengths: Seq<usize>, sigs: Seq<BlockSignature>) -> bool {
    &&& forall|a: int, b: int| 0 <= a < b < lengths.len() ==> lengths[a] > lengths[b]
    &&& forall|k: int| 0 <= k < lengths.len() ==> has_signature_len(sigs, #[trigger] lengths[k])
    &&& forall|j: int| 0 <= j < sigs.len() ==> lengths.contains(#[trigger] sigs[j].len)
}

/// The key under which signatures of length `len` and weak checksum `weak` are filed.
pub open spec fn signature_key(len: int, weak: int) -> int {
    len * 0x1_0000_0000 + weak
}

/// Equal keys mean equal lengths and weak checksums.
proof fn lemma_signature_key_injective(l1: int, w1: int, l2: int, w2: int)
    requires
        0 <= w1 < 0x1_0000_0000,
        0 <= w2 < 0x1_0000_0000,
        signature_key(l1, w1) == signature_key(l2, w2),
    ensures
        l1 == l2 && w1 == w2,
{
    if l1 < l2 {
        assert(l1 * 0x1_0000_0000 + 0x1_0000_0000 <= l2 * 0x1_0000_0000);
    } else if l2 < l1 {
        assert(l2 * 0x1_0000_0000 + 0x1_0000_0000 <= l1 * 0x1_0000_0000);
    }
}

/// The key of a signature.
pub open spec fn key_of(s: BlockSignature) -> int {
    signature_key(s.len as int, s.weak as int)
}

/// Whether `b` lists, in increasing order, exactly the signatures among the first `n` that are
/// filed under `k`.
pub open spec fn bucket_exact(b: Seq<usize>, sigs: Seq<BlockSignature>, k: int, n: int) -> bool {
    &&& forall|p: int, q: int| 0 <= p < q < b.len() ==> b[p] < b[q]
    &&& forall|p: int| 0 <= p < b.len() ==> #[trigger] b[p] < n && key_of(sigs[b[p] as int]) == k
    &&& forall|j: int| 0 <= j < n && #[trigger] key_of(sigs[j]) == k ==> b.contains(j as usize)
}

/// Whether `m` files the first `n` signatures by their keys.
pub open spec fn buckets_of(m: Map<u128, Vec<usize>>, sigs: Seq<BlockSignature>, n: int) -> bool {
    &&& forall|k: u128| #[trigger] m.contains_key(k) ==> bucket_exact(m[k]@, sigs, k as int, n)
    &&& forall|j: int| 0 <= j < n ==> m.contains_key(#[trigger] key_of(sigs[j]) as u128)
}

struct SignatureIndex {
    lengths_desc: Vec<usize>,
    by_len_and_weak: HashMap<u128, Vec<usize>>,
}

impl SignatureIndex {
    spec fn valid(&self, sigs: Seq<BlockSignature>) -> bool {
        &&& lengths_index_of(self.lengths_desc@, sigs)
        &&& buckets_of(self.by_len_and_weak@, sigs, sigs.len() as int)
    }
}

/// The key of a signature, as filed.
fn signature_key_of(len: usize, weak: u32) -> (r: u128)
    ensures
        r as int == signature_key(len as int, weak as int),
{
    (len as u128) * 0x1_0000_0000u128 + (weak as u128)
}

/// Files the signatures by length and weak checksum.
fn build_buckets(signatures: &[BlockSignature]) -> (r: HashMap<u128, Vec<usize>>)
    ensures
        buckets_of(r@, signatures@, signatures@.len() as int),
{
    let ghost sigs = signatures@;
    let mut map: HashMap<u128, Vec<usize>> = HashMap::new();
    let mut i: usize = 0;
    while i < signatures.len()
        invariant
            i <= sigs.len(),
            sigs == signatures@,
            buckets_of(map@, sigs, i as int),
        decreases signatures.len() - i,
    {
        let key = signature_key_of(signatures[i].len, signatures[i].weak);
        assert(key as int == key_of(sigs[i as int]));
        let mut bucket: Vec<usize> = Vec::new();
        match map.get(&key) {
            Some(b) => {
                let mut t: usize = 0;
                while t < b.len()
                    invariant
                        t <= b@.len(),
                        bucket@ == b@.take(t as int),
                    decreases b.len() - t,
                {
                    bucket.push(b[t]);
                    t = t + 1;
                    assert(bucket@ =~= b@.take(t as int));
                }
                assert(b@.take(b@.len() as int) =~= b@);
            },
            None => {},
        }
        let ghost before = bucket@;
        assert(map@.contains_key(key) ==> before == map@[key]@);
        assert(!map@.contains_key(key) ==> before.len() == 0);
        bucket.push(i);
        let ghost old_map = map@;
        map.insert(key, bucket);
        proof {
            assert forall|k: u128| #[trigger] map@.contains_key(k) implies bucket_exact(
                map@[k]@,
                sigs,
                k as int,
                i + 1,
            ) by {
                if k == key {
                    let b = map@[k]@;
                    assert(b == before.push(i));
                    assert forall|j: int| 0 <= j < i + 1 && #[trigger] key_of(sigs[j]) == k implies b.contains(
                        j as usize,
                    ) by {
                        if j < i {
                            assert(old_map.contains_key(key_of(sigs[j]) as u128));
                            assert(before.contains(j as usize));
                            let p = choose|p: int| 0 <= p < before.len() && before[p] == j as usize;
                            assert(b[p] == j as usize);
                        } else {
                            assert(b[before.len() as int] == i);
                        }
                    }
                    assert forall|p: int| 0 <= p < b.len() implies #[trigger] b[p] < i + 1 && key_of(
                        sigs[b[p] as int],
                    ) == k by {
                        if p < before.len() {
                            assert(b[p] == before[p]);
                        }
                    }
                    assert forall|p: int, q: int| 0 <= p < q < b.len() implies b[p] < b[q] by {
                        if q < before.len() {
                            assert(b[p] == before[p] && b[q] == before[q]);
                        } else {
                            assert(b[p] == before[p]);
                        }
                    }
                } else {
                    assert(old_map.contains_key(k));
                    let b = map@[k]@;
                    assert(b == old_map[k]@);
                    assert forall|j: int| 0 <= j < i + 1 && #[trigger] key_of(sigs[j]) == k implies b.contains(
                        j as usize,
                    ) by {
                        if j == i {
                            assert(key_of(sigs[j]) == key as int);
                        }
                    }
                }
            }
            assert forall|j: int| 0 <= j < i + 1 implies map@.contains_key(
                #[trigger] key_of(sigs[j]) as u128,
            ) by {
                if j < i {
                    assert(old_map.contains_key(key_of(sigs[j]) as u128));
                }
            }
        }
        i = i + 1;
    }
    map
}

impl SignatureIndex {
    fn new(signatures: &[BlockSignature]) -> (r: SignatureIndex)
        ensures
            r.valid(signatures@),
    {
        let mut lengths: Vec<usize> = Vec::new();
        let mut i: usize = 0;
        while i < signatures.len()
            invariant
                i <= signatures@.len(),
                forall|a: int, b: int| 0 <= a < b < lengths@.len() ==> lengths@[a] > lengths@[b],
                forall|k: int| 0 <= k < lengths@.len() ==> has_signature_len(signatures@.take(i as int), #[trigger] lengths@[k]),
                forall|j: int| 0 <= j < i ==> lengths@.contains(#[trigger] signatures@[j].len),
            decreases signatures.len() - i,
        {
            let len = signatures[i].len;
            let mut p: usize = 0;
            while p < lengths.len() && lengths[p] > len
                invariant
                    p <= lengths@.len(),
                    forall|k: int| 0 <= k < p ==> lengths@[k] > len,
                decreases lengths.len() - p,
            {
                p = p + 1;
            }
            let ghost old_lengths = lengths@;
            if p < lengths.len() && lengths[p] == len {
                assert(lengths@[p as int] == signatures@[i as int].len);
                assert forall|k: int| 0 <= k < lengths@.len() implies has_signature_len(signatures@.take(i + 1), #[trigger] lengths@[k]) by {
                    assert(has_signature_len(signatures@.take(i as int), lengths@[k]));
                    let j = choose|j: int| 0 <= j < i && signatures@.take(i as int)[j].len == lengths@[k];
                    assert(signatures@.take(i + 1)[j] == signatures@[j]);
                }
            } else {
                lengths.insert(p, len);
                assert forall|a: int, b: int| 0 <= a < b < lengths@.len() implies lengths@[a] > lengths@[b] by {
                    if b < p {
                    } else if a < p && b == p {
                    } else if a < p {
                        assert(lengths@[b] == old_lengths[b - 1]);
                    } else if a == p {
                        assert(lengths@[b] == old_lengths[b - 1]);
                        assert(old_lengths[p as int] < len || p == old_lengths.len() || b - 1 >= p);
                        if b - 1 > p {
                            assert(old_lengths[p as int] > old_lengths[b - 1]);
                        }
                    } else {
                        assert(lengths@[a] == old_lengths[a - 1]);
                        assert(lengths@[b] == old_lengths[b - 1]);
                    }
                }
                assert forall|k: int| 0 <= k < lengths@.len() implies has_signature_len(signatures@.take(i + 1), #[trigger] lengths@[k]) by {
                    if k < p {
                        assert(lengths@[k] == old_lengths[k]);
                        assert(has_signature_len(signatures@.take(i as int), old_lengths[k]));
                        let j = choose|j: int| 0 <= j < i && signatures@.take(i as int)[j].len == old_lengths[k];
                        assert(signatures@.take(i + 1)[j] == signatures@[j]);
                    } else if k == p {
                        assert(signatures@.take(i + 1)[i as int].len == lengths@[k]);
                    } else {
                        assert(lengths@[k] == old_lengths[k - 1]);
                        assert(has_signature_len(signatures@.take(i as int), old_lengths[k - 1]));
                        let j = choose|j: int| 0 <= j < i && signatures@.take(i as int)[j].len == old_lengths[k - 1];
                        assert(signatures@.take(i + 1)[j] == signatures@[j]);
                    }
                }
                assert forall|j: int| 0 <= j < i implies lengths@.contains(#[trigger] signatures@[j].len) by {
                    let k = choose|k: int| 0 <= k < old_lengths.len() && old_lengths[k] == signatures@[j].len;
                    if k < p {
                        assert(lengths@[k] == old_lengths[k]);
                    } else {
                        assert(lengths@[k + 1] == old_lengths[k]);
                    }
                }
                assert(lengths@[p as int] == signatures@[i as int].len);
            }
            i = i + 1;
        }
        assert(signatures@.take(i as int) =~= signatures@);
        assert(forall|j: int| 0 <= j < signatures@.len() ==> lengths@.contains(#[trigger] signatures@[j].len));
        assert(forall|a: int, b: int| 0 <= a < b < lengths@.len() ==> lengths@[a] > lengths@[b]);
        assert(lengths_index_of(lengths@, signatures@));
        SignatureIndex { lengths_desc: lengths, by_len_and_weak: build_buckets(signatures) }
    }

    /// The best signature matching `target` at `pos`.
    fn find_match<S: StrongChecksum>(
        &self,
        signatures: &[BlockSignature],
        target: &[u8],
        pos: usize,
        strong_checksum: &S,
    ) -> (r: Option<usize>)
        requires
            self.valid(signatures@),
            pos < target@.len(),
        ensures
            match r {
                Some(i) => best_match(signatures@, signatures@.len() as int, target@, pos as int, *strong_checksum)
                    == Some(i as int),
                None => best_match(signatures@, signatures@.len() as int, target@, pos as int, *strong_checksum)
                    is None,
            },
    {
        // The slice length bounds every signature index.
        let _sig_count = signatures.len();
        let ghost sigs = signatures@;
        let ghost cs = *strong_checksum;
        let lengths = &self.lengths_desc;
        let mut k: usize = 0;
        while k < lengths.len()
            invariant
                lengths_index_of(lengths@, sigs),
                self.valid(sigs),
                sigs.len() <= usize::MAX,
                sigs == signatures@,
                cs == *strong_checksum,
                pos < target@.len(),
                k <= lengths@.len(),
                forall|j: int|
                    0 <= j < sigs.len() && (k == lengths@.len() || sigs[j].len > lengths@[k as int]) ==> !sig_matches_at(
                        #[trigger] sigs[j],
                        target@,
                        pos as int,
                        cs,
                    ),
            decreases lengths.len() - k,
        {
            let len = lengths[k];
            proof {
                assert forall|j: int|
                    0 <= j < sigs.len() && sigs[j].len > lengths@[k as int] implies !sig_matches_at(
                    #[trigger] sigs[j],
                    target@,
                    pos as int,
                    cs,
                ) by {
                    let kk = choose|kk: int| 0 <= kk < lengths@.len() && lengths@[kk] == sigs[j].len;
                    if kk > k as int {
                        assert(lengths@[k as int] > lengths@[kk]);
                    }
                }
            }
            if len <= target.len() - pos {
                let candidate = &target[pos..pos + len];
                let weak = rolling_checksum(candidate);
                let key = signature_key_of(len, weak);
                match self.by_len_and_weak.get(&key) {
                    None => {
                        assert forall|q: int| 0 <= q < sigs.len() && sigs[q].len == len implies !sig_matches_at(
                            #[trigger] sigs[q],
                            target@,
                            pos as int,
                            cs,
                        ) by {
                            if sig_matches_at(sigs[q], target@, pos as int, cs) {
                                assert(window(target@, pos as int, len as int) =~= candidate@);
                                assert(key_of(sigs[q]) == key as int);
                                assert(self.by_len_and_weak@.contains_key(key_of(sigs[q]) as u128));
                            }
                        }
                    },
                    Some(bucket) => {
                        let strong = strong_checksum.digest(candidate);
                        let ghost b = bucket@;
                        assert(self.by_len_and_weak@.contains_key(key));
                        assert(bucket_exact(b, sigs, key as int, sigs.len() as int));
                        let mut t: usize = 0;
                        while t < bucket.len()
                            invariant
                                t <= b.len(),
                                b == bucket@,
                                bucket_exact(b, sigs, key as int, sigs.len() as int),
                                sigs == signatures@,
                                sigs.len() <= usize::MAX,
                                lengths_index_of(lengths@, sigs),
                                cs == *strong_checksum,
                                k < lengths@.len(),
                                len == lengths@[k as int],
                                key as int == signature_key(len as int, weak as int),
                                forall|q: int|
                                    0 <= q < sigs.len() && sigs[q].len > lengths@[k as int] ==> !sig_matches_at(
                                        #[trigger] sigs[q],
                                        target@,
                                        pos as int,
                                        cs,
                                    ),
                                candidate@ == window(target@, pos as int, len as int),
                                weak == spec_rolling_checksum(candidate@),
                                strong@ == cs.spec_digest(candidate@),
                                pos + len <= target@.len(),
                                forall|p: int| 0 <= p < t ==> !sig_matches_at(#[trigger] sigs[b[p] as int], target@, pos as int, cs),
                            decreases bucket.len() - t,
                        {
                            let j = bucket[t];
                            proof {
                                assert(b[t as int] == j);
                                assert(j < sigs.len() && key_of(sigs[j as int]) == key as int);
                                lemma_signature_key_injective(
                                    sigs[j as int].len as int,
                                    sigs[j as int].weak as int,
                                    len as int,
                                    weak as int,
                                );
                            }
                            if bytes_equal(signatures[j].strong.as_slice(), strong.as_slice()) {
                                proof {
                                    assert(sig_matches_at(sigs[j as int], target@, pos as int, cs));
                                    assert forall|q: int|
                                        0 <= q < sigs.len() && sig_matches_at(#[trigger] sigs[q], target@, pos as int, cs) implies sigs[q].len
                                            < sigs[j as int].len || (sigs[q].len == sigs[j as int].len && j <= q) by {
                                        let kk = choose|kk: int| 0 <= kk < lengths@.len() && lengths@[kk] == sigs[q].len;
                                        assert(lengths@.contains(sigs[q].len));
                                        if kk < k as int {
                                            assert(lengths@[kk] > lengths@[k as int]);
                                        } else if kk > k as int {
                                            assert(lengths@[k as int] > lengths@[kk]);
                                        } else {
                                            assert(window(target@, pos as int, len as int) =~= candidate@);
                                            assert(key_of(sigs[q]) == key as int);
                                            assert(b.contains(q as usize));
                                            let p = choose|p: int| 0 <= p < b.len() && b[p] == q as usize;
                                            if p < t {
                                                assert(!sig_matches_at(sigs[b[p] as int], target@, pos as int, cs));
                                            } else if p > t {
                                                assert(b[t as int] < b[p]);
                                            }
                                        }
                                    }
                                    lemma_best_match_is(sigs, target@, pos as int, cs, j as int);
                                }
                                return Some(j);
                            }
                            t = t + 1;
                        }
                        assert(t == b.len());
                        assert forall|q: int| 0 <= q < sigs.len() && sigs[q].len == len implies !sig_matches_at(
                            #[trigger] sigs[q],
                            target@,
                            pos as int,
                            cs,
                        ) by {
                            if sig_matches_at(sigs[q], target@, pos as int, cs) {
                                assert(window(target@, pos as int, len as int) =~= candidate@);
                                assert(key_of(sigs[q]) == key as int);
                                assert(b.contains(q as usize));
                                let p = choose|p: int| 0 <= p < b.len() && b[p] == q as usize;
                                assert(p < t);
                                assert(b[p] as int == q);
                                assert(!sig_matches_at(sigs[b[p] as int], target@, pos as int, cs));
                            }
                        }
                    },
                }
            } else {
                assert(forall|q: int| 0 <= q < sigs.len() && sigs[q].len == len ==> !sig_matches_at(#[trigger] sigs[q], target@, pos as int, cs));
            }
            proof {
                assert forall|j: int|
                    0 <= j < sigs.len() && (k + 1 == lengths@.len() || sigs[j].len > lengths@[k + 1]) implies !sig_matches_at(
                    #[trigger] sigs[j],
                    target@,
                    pos as int,
                    cs,
                ) by {
                    let kk = choose|kk: int| 0 <= kk < lengths@.len() && lengths@[kk] == sigs[j].len;
                    if kk < k as int {
                        assert(lengths@[kk] > lengths@[k as int]);
                    } else if kk > k as int {
                        assert(lengths@[k as int + 1] >= lengths@[kk]);
                    }
                }
            }
            k = k + 1;
        }
        proof {
            lemma_best_match_props(sigs, sigs.len() as int, target@, pos as int, cs);
        }
        None
    }
}

fn flush_literal(tokens: &mut Vec<DeltaToken>, literal: &mut Vec<u8>)
    ensures
        ops_of(final(tokens)@) == ops_of(old(tokens)@) + flush_op(old(literal)@),
        final(literal)@.len() == 0,
{
    if literal.len() == 0 {
        assert(ops_of(tokens@) =~= ops_of(old(tokens)@) + flush_op(old(literal)@));
        return;
    }
    let mut taken: Vec<u8> = Vec::new();
    std::mem::swap(&mut taken, literal);
    tokens.push(DeltaToken::Literal(taken));
    assert(ops_of(tokens@) =~= ops_of(old(tokens)@) + flush_op(old(literal)@));
}

/// Delta of `target` against signatures, with the deterministic strong checksum.
pub fn generate_test_delta(signatures: &[BlockSignature], target: &[u8]) -> (r: Vec<DeltaToken>)
    requires
        no_empty_match(signatures@, DeterministicStrongChecksum),
    ensures
        ops_of(r@) == spec_delta(signatures@, target@, DeterministicStrongChecksum),
{
    generate_delta_with(signatures, target, &DeterministicStrongChecksum)
}

/// Greedy delta of `target` against basis signatures: at each position the longest
/// signature whose weak and strong checksums match the window there becomes a copy token,
/// otherwise the byte joins the pending literal.
pub fn generate_delta_with<S: StrongChecksum>(
    signatures: &[BlockSignature],
    target: &[u8],
    strong_checksum: &S,
) -> (r: Vec<DeltaToken>)
    requires
        no_empty_match(signatures@, *strong_checksum),
    ensures
        ops_of(r@) == spec_delta(signatures@, target@, *strong_checksum),
{
    if target.len() == 0 {
        let r: Vec<DeltaToken> = Vec::new();
        assert(ops_of(r@) =~= Seq::<DeltaOp>::empty());
        return r;
    }
    if signatures.len() == 0 {
        let mut r: Vec<DeltaToken> = Vec::new();
        r.push(DeltaToken::Literal(copy_range(target, 0, target.len())));
        assert(target@.subrange(0, target@.len() as int) =~= target@);
        assert(ops_of(r@) =~= seq![DeltaOp::Literal(target@)]);
        return r;
    }
    let ghost sigs = signatures@;
    let ghost cs = *strong_checksum;
    let index = SignatureIndex::new(signatures);
    let mut tokens: Vec<DeltaToken> = Vec::new();
    let mut literal: Vec<u8> = Vec::new();
    let mut pos: usize = 0;
    assert(ops_of(tokens@) =~= Seq::<DeltaOp>::empty());
    while pos < target.len()
        invariant
            sigs == signatures@,
            cs == *strong_checksum,
            index.valid(sigs),
            no_empty_match(sigs, cs),
            pos <= target@.len(),
            ops_of(tokens@) + scan_ops(sigs, target@, cs, pos as int, literal@) == scan_ops(
                sigs,
                target@,
                cs,
                0,
                Seq::empty(),
            ),
        decreases target.len() - pos,
    {
        match index.find_match(signatures, target, pos, strong_checksum) {
            Some(i) => {
                proof {
                    lemma_best_match_props(sigs, sigs.len() as int, target@, pos as int, cs);
                    if sigs[i as int].len == 0 {
                        assert(window(target@, pos as int, 0) =~= Seq::<u8>::empty());
                    }
                }
                let ghost old_tokens = ops_of(tokens@);
                let ghost old_literal = literal@;
                let offset = signatures[i].offset;
                let len = signatures[i].len;
                flush_literal(&mut tokens, &mut literal);
                tokens.push(DeltaToken::Copy { offset, len });
                assert(ops_of(tokens@) =~= old_tokens + flush_op(old_literal) + seq![DeltaOp::Copy(offset as nat, len as nat)]);
                assert(literal@ =~= Seq::<u8>::empty());
                pos = pos + len;
            },
            None => {
                literal.push(target[pos]);
                pos = pos + 1;
            },
        }
    }
    flush_literal(&mut tokens, &mut literal);
    tokens
}

} // verus!
