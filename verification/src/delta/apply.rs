use vstd::prelude::*;

use crate::bytes::append_bytes;
use crate::delta::matcher::{DeltaToken, DeltaOp, ops_of};

verus! {

/// Why a delta could not be applied.
#[derive(Debug, PartialEq, Eq)]
pub enum ApplyError {
    CopyOutOfBounds { offset: usize, len: usize, basis_len: usize },
}

/// Whether a copy of `len` bytes at `offset` lies inside `basis`.
pub open spec fn copy_in_bounds(basis: Seq<u8>, offset: nat, len: nat) -> bool {
    offset + len <= basis.len()
}

/// The file that applying `ops` to `basis` produces, or `None` when a copy leaves the basis.
pub open spec fn apply_ops(basis: Seq<u8>, ops: Seq<DeltaOp>) -> Option<Seq<u8>>
    decreases ops.len(),
{
    if ops.len() == 0 {
        Some(Seq::empty())
    } else {
        match apply_ops(basis, ops.drop_last()) {
            None => None,
            Some(prefix) => match ops.last() {
                DeltaOp::Literal(bytes) => Some(prefix + bytes),
                DeltaOp::Copy(offset, len) => if copy_in_bounds(basis, offset, len) {
                    Some(prefix + basis.subrange(offset as int, (offset + len) as int))
                } else {
                    None
                },
            },
        }
    }
}

/// Applying a concatenation of token lists applies them one after the other.
pub proof fn lemma_apply_ops_concat(basis: Seq<u8>, a: Seq<DeltaOp>, b: Seq<DeltaOp>)
    ensures
        apply_ops(basis, a + b) == match (apply_ops(basis, a), apply_ops(basis, b)) {
            (Some(x), Some(y)) => Some(x + y),
            _ => None::<Seq<u8>>,
        },
    decreases b.len(),
{
    if b.len() == 0 {
        assert(a + b =~= a);
        match apply_ops(basis, a) {
            Some(x) => { assert(x + Seq::<u8>::empty() =~= x); }
            None => {}
        }
    } else {
        assert((a + b).drop_last() =~= a + b.drop_last());
        lemma_apply_ops_concat(basis, a, b.drop_last());
        match (apply_ops(basis, a), apply_ops(basis, b.drop_last())) {
            (Some(x), Some(y)) => {
                match b.last() {
                    DeltaOp::Literal(bytes) => { assert(x + y + bytes =~= x + (y + bytes)); }
                    DeltaOp::Copy(offset, len) => {
                        let part = basis.subrange(offset as int, (offset + len) as int);
                        assert(x + y + part =~= x + (y + part));
                    }
                }
            }
            _ => {}
        }
    }
}

/// Rebuilds a file from a basis and a token list: literals are copied as they are, copy
/// tokens take their bytes from the basis. The first copy token outside the basis is an error.
pub fn apply_delta(basis: &[u8], tokens: &[DeltaToken]) -> (r: Result<Vec<u8>, ApplyError>)
    ensures
        r is Ok <==> apply_ops(basis@, ops_of(tokens@)) is Some,
        r matches Ok(out) ==> apply_ops(basis@, ops_of(tokens@)) == Some(out@),
        r matches Err(ApplyError::CopyOutOfBounds { offset, len, basis_len }) ==> {
            &&& basis_len == basis@.len()
            &&& exists|k: int|
                0 <= k < tokens@.len() && #[trigger] tokens@[k] == (DeltaToken::Copy { offset, len })
                    && !copy_in_bounds(basis@, offset as nat, len as nat)
                    && apply_ops(basis@, ops_of(tokens@.take(k))) is Some
        },
{
    let mut output: Vec<u8> = Vec::new();
    let mut i: usize = 0;
    while i < tokens.len()
        invariant
            i <= tokens@.len(),
            apply_ops(basis@, ops_of(tokens@.take(i as int))) == Some(output@),
        decreases tokens.len() - i,
    {
        let ghost before = output@;
        assert(ops_of(tokens@.take(i + 1)).drop_last() =~= ops_of(tokens@.take(i as int)));
        match &tokens[i] {
            DeltaToken::Literal(bytes) => {
                append_bytes(&mut output, bytes.as_slice());
            },
            DeltaToken::Copy { offset, len } => {
                let offset = *offset;
                let len = *len;
                if len > basis.len() || offset > basis.len() - len {
                    proof {
                        assert(tokens@[i as int] == (DeltaToken::Copy { offset, len }));
                        let ops = ops_of(tokens@);
                        let head = ops_of(tokens@.take(i + 1));
                        assert(apply_ops(basis@, head) is None);
                        assert(ops =~= head + ops.skip(i + 1));
                        lemma_apply_ops_concat(basis@, head, ops.skip(i + 1));
                    }
                    return Err(ApplyError::CopyOutOfBounds { offset, len, basis_len: basis.len() });
                }
                append_bytes(&mut output, &basis[offset..offset + len]);
            },
        }
        i = i + 1;
    }
    assert(tokens@.take(tokens@.len() as int) =~= tokens@);
    Ok(output)
}

} // verus!
