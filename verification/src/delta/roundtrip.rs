use vstd::prelude::*;

use crate::delta::apply::{apply_ops, lemma_apply_ops_concat};
use crate::delta::matcher::{
    best_match, flush_op, no_empty_match, scan_ops, sig_matches_at, spec_delta, window, DeltaOp,
    lemma_best_match_props,
};
use crate::delta::signature::{are_basis_signatures, basis_block, BlockSignature, StrongChecksum};

verus! {

/// Every signature describes a range inside `basis`.
pub open spec fn signatures_within(sigs: Seq<BlockSignature>, basis: Seq<u8>) -> bool {
    forall|i: int| 0 <= i < sigs.len() ==> (#[trigger] sigs[i]).offset + sigs[i].len <= basis.len()
}

/// Whenever a signature's weak and strong checksums match a target window, the window holds
/// exactly the basis bytes that the signature describes (no checksum collision).
pub open spec fn collision_free<S: StrongChecksum>(
    sigs: Seq<BlockSignature>,
    basis: Seq<u8>,
    target: Seq<u8>,
    checksum: S,
) -> bool {
    forall|i: int, pos: int|
        0 <= i < sigs.len() && #[trigger] sig_matches_at(sigs[i], target, pos, checksum) ==> window(
            target,
            pos,
            sigs[i].len as int,
        ) == basis.subrange(sigs[i].offset as int, sigs[i].offset + sigs[i].len)
}

proof fn lemma_apply_single(basis: Seq<u8>, op: DeltaOp)
    ensures
        apply_ops(basis, seq![op]) == match op {
            DeltaOp::Literal(bytes) => Some(bytes),
            DeltaOp::Copy(offset, len) => if offset + len <= basis.len() {
                Some(basis.subrange(offset as int, (offset + len) as int))
            } else {
                None
            },
        },
{
    assert(seq![op].drop_last() =~= Seq::<DeltaOp>::empty());
    assert(apply_ops(basis, Seq::<DeltaOp>::empty()) == Some(Seq::<u8>::empty()));
    match op {
        DeltaOp::Literal(bytes) => { assert(Seq::<u8>::empty() + bytes =~= bytes); }
        DeltaOp::Copy(offset, len) => {
            let part = basis.subrange(offset as int, (offset + len) as int);
            assert(Seq::<u8>::empty() + part =~= part);
        }
    }
}

proof fn lemma_apply_flush(basis: Seq<u8>, literal: Seq<u8>)
    ensures
        apply_ops(basis, flush_op(literal)) == Some(literal),
{
    if literal.len() == 0 {
        assert(literal =~= Seq::<u8>::empty());
    } else {
        lemma_apply_single(basis, DeltaOp::Literal(literal));
    }
}

proof fn lemma_scan_reconstructs<S: StrongChecksum>(
    basis: Seq<u8>,
    sigs: Seq<BlockSignature>,
    target: Seq<u8>,
    checksum: S,
    pos: int,
    literal: Seq<u8>,
)
    requires
        0 <= pos <= target.len(),
        signatures_within(sigs, basis),
        no_empty_match(sigs, checksum),
        collision_free(sigs, basis, target, checksum),
    ensures
        apply_ops(basis, scan_ops(sigs, target, checksum, pos, literal)) == Some(
            literal + target.subrange(pos, target.len() as int),
        ),
    decreases target.len() - pos,
{
    if pos >= target.len() {
        lemma_apply_flush(basis, literal);
        assert(literal + target.subrange(pos, target.len() as int) =~= literal);
    } else {
        lemma_best_match_props(sigs, sigs.len() as int, target, pos, checksum);
        match best_match(sigs, sigs.len() as int, target, pos, checksum) {
            Some(i) => {
                let sig = sigs[i];
                if sig.len == 0 {
                    assert(window(target, pos, 0) =~= Seq::<u8>::empty());
                    assert(false);
                }
                let next = pos + sig.len;
                let copy = seq![DeltaOp::Copy(sig.offset as nat, sig.len as nat)];
                let rest = scan_ops(sigs, target, checksum, next, Seq::empty());
                lemma_scan_reconstructs(basis, sigs, target, checksum, next, Seq::empty());
                lemma_apply_flush(basis, literal);
                lemma_apply_single(basis, DeltaOp::Copy(sig.offset as nat, sig.len as nat));
                lemma_apply_ops_concat(basis, flush_op(literal), copy);
                lemma_apply_ops_concat(basis, flush_op(literal) + copy, rest);
                let w = window(target, pos, sig.len as int);
                assert(w == basis.subrange(sig.offset as int, sig.offset + sig.len));
                assert(literal + w + (Seq::<u8>::empty() + target.subrange(next, target.len() as int))
                    =~= literal + target.subrange(pos, target.len() as int));
            },
            None => {
                lemma_scan_reconstructs(basis, sigs, target, checksum, pos + 1, literal.push(target[pos]));
                assert(literal.push(target[pos]) + target.subrange(pos + 1, target.len() as int)
                    =~= literal + target.subrange(pos, target.len() as int));
            },
        }
    }
}

/// Applying the delta of `target` to the basis it was computed against gives back `target`,
/// as long as no signature's checksums collide with a different window of `target`.
pub proof fn lemma_delta_round_trip<S: StrongChecksum>(
    basis: Seq<u8>,
    sigs: Seq<BlockSignature>,
    target: Seq<u8>,
    checksum: S,
)
    requires
        signatures_within(sigs, basis),
        no_empty_match(sigs, checksum),
        collision_free(sigs, basis, target, checksum),
    ensures
        apply_ops(basis, spec_delta(sigs, target, checksum)) == Some(target),
{
    if target.len() == 0 {
        assert(target =~= Seq::<u8>::empty());
    } else if sigs.len() == 0 {
        lemma_apply_single(basis, DeltaOp::Literal(target));
    } else {
        lemma_scan_reconstructs(basis, sigs, target, checksum, 0, Seq::empty());
        assert(Seq::<u8>::empty() + target.subrange(0, target.len() as int) =~= target);
    }
}

/// Signatures generated for a basis are in range and none of them is empty, so the delta
/// generator accepts them.
pub proof fn lemma_basis_signatures_are_usable<S: StrongChecksum>(
    sigs: Seq<BlockSignature>,
    basis: Seq<u8>,
    block_size: nat,
    checksum: S,
)
    requires
        are_basis_signatures(sigs, basis, block_size, checksum),
    ensures
        signatures_within(sigs, basis),
        no_empty_match(sigs, checksum),
        forall|i: int| 0 <= i < sigs.len() ==> (#[trigger] sigs[i]).len > 0,
{
    assert forall|i: int| 0 <= i < sigs.len() implies (#[trigger] sigs[i]).len > 0 && sigs[i].offset
        + sigs[i].len <= basis.len() by {
        assert(i * block_size < basis.len());
        let b = basis_block(basis, block_size, i as nat);
    }
}

} // verus!
