use vstd::prelude::*;
use vstd::bytes::{spec_u64_to_le_bytes, u64_to_le_bytes};
use digest::Digest;

use crate::delta::rollsum::{rolling_checksum, spec_rolling_checksum};
use crate::bytes::{append_bytes, copy_range};

verus! {

/// Why signatures could not be generated.
#[derive(Debug, PartialEq, Eq)]
pub enum SignatureError {
    ZeroBlockSize,
}

/// A strong (collision-resistant) checksum over a block of bytes.
pub trait StrongChecksum {
    /// The digest this checksum assigns to a block.
    spec fn spec_digest(&self, block: Seq<u8>) -> Seq<u8>;

    /// Computes the digest of `block`.
    fn digest(&self, block: &[u8]) -> (r: Vec<u8>)
        ensures
            r@ == self.spec_digest(block@),
    ;
}

/// The FNV-1a 64-bit hash PRIME.
pub open spec fn fnv_prime() -> u64 {
    0x0000_0100_0000_01b3
}

/// FNV-1a over `bytes`, starting from `seed`.
pub open spec fn spec_fnv1a64(bytes: Seq<u8>, seed: u64) -> u64
    decreases bytes.len(),
{
    if bytes.len() == 0 {
        seed
    } else {
        let h = spec_fnv1a64(bytes.drop_last(), seed) ^ (bytes.last() as u64);
        ((h as nat * fnv_prime() as nat) % 0x1_0000_0000_0000_0000) as u64
    }
}

/// The seed of the first half of the deterministic digest.
pub open spec fn first_seed() -> u64 {
    0xcbf2_9ce4_8422_2325
}

/// The seed of the second half of the deterministic digest, mixed with the block length.
pub open spec fn second_seed(len: nat) -> u64 {
    0x9e37_79b9_7f4a_7c15u64 ^ (len as u64)
}

/// The 16-byte deterministic digest: two little-endian FNV-1a hashes with different seeds.
pub open spec fn deterministic_digest(block: Seq<u8>) -> Seq<u8> {
    spec_u64_to_le_bytes(spec_fnv1a64(block, first_seed()))
        + spec_u64_to_le_bytes(spec_fnv1a64(block, second_seed(block.len())))
}

fn fnv1a64(bytes: &[u8], seed: u64) -> (r: u64)
    ensures
        r == spec_fnv1a64(bytes@, seed),
{
    let mut hash = seed;
    let mut i: usize = 0;
    while i < bytes.len()
        invariant
            i <= bytes.len(),
            hash == spec_fnv1a64(bytes@.take(i as int), seed),
        decreases bytes.len() - i,
    {
        assert(bytes@.take(i + 1).drop_last() =~= bytes@.take(i as int));
        hash = hash ^ (bytes[i] as u64);
        hash = hash.wrapping_mul(0x0000_0100_0000_01b3);
        i = i + 1;
    }
    assert(bytes@.take(bytes.len() as int) =~= bytes@);
    hash
}

/// A dependency-free strong checksum built from two seeded FNV-1a hashes.
#[derive(Debug, Default, Clone, Copy)]
pub struct DeterministicStrongChecksum;

impl StrongChecksum for DeterministicStrongChecksum {
    open spec fn spec_digest(&self, block: Seq<u8>) -> Seq<u8> {
        deterministic_digest(block)
    }

    fn digest(&self, block: &[u8]) -> (r: Vec<u8>) {
        let first = fnv1a64(block, 0xcbf2_9ce4_8422_2325);
        let second = fnv1a64(block, 0x9e37_79b9_7f4a_7c15u64 ^ (block.len() as u64));
        let mut out: Vec<u8> = Vec::with_capacity(16);
        let first_bytes = u64_to_le_bytes(first);
        let second_bytes = u64_to_le_bytes(second);
        append_bytes(&mut out, first_bytes.as_slice());
        append_bytes(&mut out, second_bytes.as_slice());
        out
    }
}

/// The MD4 digest of a block, as the `md4` crate computes it.
pub uninterp spec fn md4_digest(block: Seq<u8>) -> Seq<u8>;

/// The MD5 digest of a block, as the `md-5` crate computes it.
pub uninterp spec fn md5_digest(block: Seq<u8>) -> Seq<u8>;

/// Calls `md4::Md4::digest` (via `digest::Digest`). Trusted: the result is the
/// crate's MD4 digest of `block`, which is 16 bytes long.
#[verifier::external_body]
fn md4_digest_bytes(block: &[u8]) -> (r: Vec<u8>)
    ensures
        r@ == md4_digest(block@),
        r@.len() == 16,
{
    md4::Md4::digest(block).to_vec()
}

/// Calls `md5::Md5::digest` (via `digest::Digest`). Trusted: the result is the
/// crate's MD5 digest of `block`, which is 16 bytes long.
#[verifier::external_body]
fn md5_digest_bytes(block: &[u8]) -> (r: Vec<u8>)
    ensures
        r@ == md5_digest(block@),
        r@.len() == 16,
{
    md5::Md5::digest(block).to_vec()
}

/// MD4 as the strong checksum.
#[derive(Debug, Default, Clone, Copy)]
pub struct Md4StrongChecksum;

impl StrongChecksum for Md4StrongChecksum {
    open spec fn spec_digest(&self, block: Seq<u8>) -> Seq<u8> {
        md4_digest(block)
    }

    fn digest(&self, block: &[u8]) -> (r: Vec<u8>) {
        md4_digest_bytes(block)
    }
}

/// MD5 as the strong checksum.
#[derive(Debug, Default, Clone, Copy)]
pub struct Md5StrongChecksum;

impl StrongChecksum for Md5StrongChecksum {
    open spec fn spec_digest(&self, block: Seq<u8>) -> Seq<u8> {
        md5_digest(block)
    }

    fn digest(&self, block: &[u8]) -> (r: Vec<u8>) {
        md5_digest_bytes(block)
    }
}

/// The weak and strong checksums of one basis block.
#[derive(Debug, Clone, PartialEq, Eq)]
pub struct BlockSignature {
    pub index: usize,
    pub offset: usize,
    pub len: usize,
    pub weak: u32,
    pub strong: Vec<u8>,
}

/// The bytes of `basis` that the `index`-th block of size `block_size` covers.
pub open spec fn basis_block(basis: Seq<u8>, block_size: nat, index: nat) -> Seq<u8> {
    let start: int = (index * block_size) as int;
    let end: int = if start + block_size <= basis.len() { start + block_size } else { basis.len() as int };
    basis.subrange(start, end)
}

/// `sig` is the signature of the `index`-th block of `basis`.
pub open spec fn is_block_signature<S: StrongChecksum>(
    sig: BlockSignature,
    basis: Seq<u8>,
    block_size: nat,
    index: nat,
    checksum: S,
) -> bool {
    let block = basis_block(basis, block_size, index);
    &&& sig.index == index
    &&& sig.offset == index * block_size
    &&& sig.len == block.len()
    &&& sig.weak == spec_rolling_checksum(block)
    &&& sig.strong@ == checksum.spec_digest(block)
}

/// `sigs` are the signatures of consecutive `block_size` chunks covering all of `basis`
/// (the last one possibly shorter).
pub open spec fn are_basis_signatures<S: StrongChecksum>(
    sigs: Seq<BlockSignature>,
    basis: Seq<u8>,
    block_size: nat,
    checksum: S,
) -> bool {
    &&& block_size > 0
    &&& sigs.len() * block_size >= basis.len()
    &&& forall|i: int| 0 <= i < sigs.len() ==> #[trigger] (i * block_size) < basis.len()
    &&& forall|i: int|
        0 <= i < sigs.len() ==> is_block_signature(#[trigger] sigs[i], basis, block_size, i as nat, checksum)
}

/// Signatures of `basis` with the dependency-free deterministic checksum.
pub fn generate_test_signatures(basis: &[u8], block_size: usize) -> (r: Result<Vec<BlockSignature>, SignatureError>)
    ensures
        block_size == 0 <==> r is Err,
        r matches Err(e) ==> e == SignatureError::ZeroBlockSize,
        r matches Ok(sigs) ==> are_basis_signatures(sigs@, basis@, block_size as nat, DeterministicStrongChecksum),
{
    generate_signatures_with(basis, block_size, &DeterministicStrongChecksum)
}

/// Splits `basis` into `block_size` chunks and computes each chunk's weak and strong checksum.
pub fn generate_signatures_with<S: StrongChecksum>(
    basis: &[u8],
    block_size: usize,
    strong_checksum: &S,
) -> (r: Result<Vec<BlockSignature>, SignatureError>)
    ensures
        block_size == 0 <==> r is Err,
        r matches Err(e) ==> e == SignatureError::ZeroBlockSize,
        r matches Ok(sigs) ==> are_basis_signatures(sigs@, basis@, block_size as nat, *strong_checksum),
{
    if block_size == 0 {
        return Err(SignatureError::ZeroBlockSize);
    }
    let mut signatures: Vec<BlockSignature> = Vec::new();
    let mut offset: usize = 0;
    let mut index: usize = 0;
    while offset < basis.len()
        invariant
            block_size > 0,
            offset <= basis.len(),
            index == signatures.len(),
            offset as int == index * block_size,
            forall|i: int| 0 <= i < signatures.len() ==> #[trigger] (i * block_size) < basis.len(),
            forall|i: int|
                0 <= i < signatures.len() ==> is_block_signature(
                    #[trigger] signatures@[i],
                    basis@,
                    block_size as nat,
                    i as nat,
                    *strong_checksum,
                ),
        decreases basis.len() - offset,
    {
        let end = if block_size <= basis.len() - offset { offset + block_size } else { basis.len() };
        let block = copy_range(basis, offset, end);
        assert(block@ == basis_block(basis@, block_size as nat, index as nat));
        let sig = BlockSignature {
            index,
            offset,
            len: end - offset,
            weak: rolling_checksum(block.as_slice()),
            strong: strong_checksum.digest(block.as_slice()),
        };
        signatures.push(sig);
        proof {
            assert((index + 1) * block_size == index * block_size + block_size) by (nonlinear_arith);
        }
        if end == basis.len() {
            proof {
                assert(signatures.len() * block_size >= basis.len()) by (nonlinear_arith)
                    requires
                        signatures.len() == index + 1,
                        (index + 1) * block_size == index * block_size + block_size,
                        offset == index * block_size,
                        end <= offset + block_size,
                        end == basis.len();
            }
            return Ok(signatures);
        }
        assert(index <= offset) by (nonlinear_arith)
            requires
                offset == index * block_size,
                block_size > 0;
        offset = end;
        index = index + 1;
    }
    Ok(signatures)
}

} // verus!
