use vstd::prelude::*;

use crate::delta::signature::BlockSignature;

verus! {

/// The header that precedes a list of block checksums: how many blocks, how long each is, how
/// long each strong checksum is, and how long the last block is when it is short.
#[derive(Debug, Clone, Copy, PartialEq, Eq, Structural)]
pub struct RemoteSumHead {
    pub block_count: usize,
    pub block_len: usize,
    pub checksum_len: usize,
    pub remainder: usize,
}

/// Why a block checksum header, a copy token or an allocation was refused.
#[derive(Debug, Clone, Copy, PartialEq, Eq)]
pub enum TransferError {
    AppendZeroBlockLength,
    AppendRemainderTooLarge,
    AppendLengthOverflow,
    AppendLengthUnderflow,
    ZeroBlockLength,
    RemainderTooLarge,
    MissingBasisBlock(usize),
    BlockOffsetOverflow,
    BlockIndexOutOfRange,
    BlockTokenOverflow,
    CopyTokenNotNegative,
    CopyTokenOverflow,
    CopyTokenIndexTooLarge,
    AllocationExceedsLimit { label: &'static str, bytes: usize, limit: u64 },
    SignatureEstimateOverflow,
    FileLengthTooLarge,
    ZeroBatchSize,
    InvalidDeltaBlockSize,
    FileLengthExceeded { expected: u64, actual: u64 },
    FileLengthShort { expected: u64, actual: u64 },
    UnexpectedToken(i32),
    FileChecksumMismatch,
}

/// The length of the file that a checksum header describes: whole blocks, the last one
/// shortened to the remainder when there is one.
pub open spec fn described_len(h: RemoteSumHead) -> int {
    if h.remainder == 0 {
        h.block_count * h.block_len
    } else {
        h.block_count * h.block_len - (h.block_len - h.remainder)
    }
}

/// The length of the basis file that an append-mode checksum header describes.
pub fn remote_sum_head_file_len(sum_head: RemoteSumHead) -> (r: Result<usize, TransferError>)
    ensures
        sum_head.block_count == 0 ==> r == Ok::<usize, TransferError>(0),
        sum_head.block_count > 0 && sum_head.block_len == 0 ==> r == Err::<usize, TransferError>(
            TransferError::AppendZeroBlockLength,
        ),
        sum_head.block_count > 0 && sum_head.block_len > 0 && sum_head.remainder
            > sum_head.block_len ==> r == Err::<usize, TransferError>(
            TransferError::AppendRemainderTooLarge,
        ),
        sum_head.block_count > 0 && sum_head.block_len > 0 && sum_head.remainder
            <= sum_head.block_len ==> if sum_head.block_count * sum_head.block_len > usize::MAX {
            r == Err::<usize, TransferError>(TransferError::AppendLengthOverflow)
        } else {
            r == Ok::<usize, TransferError>(described_len(sum_head) as usize)
        },
{
    if sum_head.block_count == 0 {
        return Ok(0);
    }
    if sum_head.block_len == 0 {
        return Err(TransferError::AppendZeroBlockLength);
    }
    if sum_head.remainder > sum_head.block_len {
        return Err(TransferError::AppendRemainderTooLarge);
    }
    let full_len = match sum_head.block_count.checked_mul(sum_head.block_len) {
        Some(n) => n,
        None => {
            return Err(TransferError::AppendLengthOverflow);
        },
    };
    if sum_head.remainder == 0 {
        Ok(full_len)
    } else {
        proof {
            vstd::arithmetic::mul::lemma_mul_inequality(
                1,
                sum_head.block_count as int,
                sum_head.block_len as int,
            );
        }
        match full_len.checked_sub(sum_head.block_len - sum_head.remainder) {
            Some(n) => Ok(n),
            None => Err(TransferError::AppendLengthUnderflow),
        }
    }
}

/// Whether a checksum header is consistent: blocks have a length, and the remainder is no longer
/// than a block.
pub open spec fn sum_head_valid(h: RemoteSumHead) -> bool {
    h.block_count > 0 ==> (h.block_len > 0 && h.remainder <= h.block_len)
}

pub fn validate_sum_head(sum_head: RemoteSumHead) -> (r: Result<(), TransferError>)
    ensures
        sum_head.block_count > 0 && sum_head.block_len == 0 ==> r == Err::<(), TransferError>(
            TransferError::ZeroBlockLength,
        ),
        sum_head.block_count > 0 && sum_head.block_len > 0 && sum_head.remainder
            > sum_head.block_len ==> r == Err::<(), TransferError>(TransferError::RemainderTooLarge),
        sum_head_valid(sum_head) ==> r == Ok::<(), TransferError>(()),
{
    if sum_head.block_count > 0 && sum_head.block_len == 0 {
        return Err(TransferError::ZeroBlockLength);
    }
    if sum_head.remainder > sum_head.block_len && sum_head.block_count > 0 {
        return Err(TransferError::RemainderTooLarge);
    }
    Ok(())
}

/// Where block `i` of a file starts.
pub open spec fn block_offset(h: RemoteSumHead, i: int) -> int {
    i * h.block_len
}

/// How long block `i` of a file is: a whole block, or the remainder for a short last block.
pub open spec fn block_length(h: RemoteSumHead, i: int) -> int {
    if i + 1 == h.block_count && h.remainder != 0 {
        h.remainder as int
    } else {
        h.block_len as int
    }
}

/// The offset and length of basis block `block_index`.
pub fn block_span(sum_head: &RemoteSumHead, block_index: usize) -> (r: Result<(usize, usize), TransferError>)
    ensures
        !sum_head_valid(*sum_head) ==> r is Err,
        sum_head.block_count > 0 && sum_head.block_len == 0 ==> r == Err::<(usize, usize), TransferError>(
            TransferError::ZeroBlockLength,
        ),
        sum_head.block_count > 0 && sum_head.block_len > 0 && sum_head.remainder
            > sum_head.block_len ==> r == Err::<(usize, usize), TransferError>(
            TransferError::RemainderTooLarge,
        ),
        sum_head_valid(*sum_head) && block_index >= sum_head.block_count ==> r == Err::<
            (usize, usize),
            TransferError,
        >(TransferError::MissingBasisBlock(block_index)),
        sum_head_valid(*sum_head) && block_index < sum_head.block_count ==> if block_offset(
            *sum_head,
            block_index as int,
        ) > usize::MAX {
            r == Err::<(usize, usize), TransferError>(TransferError::BlockOffsetOverflow)
        } else {
            r matches Ok((offset, len)) && offset == block_offset(*sum_head, block_index as int)
                && len == block_length(*sum_head, block_index as int)
        },
{
    match validate_sum_head(*sum_head) {
        Ok(()) => {},
        Err(e) => {
            return Err(e);
        },
    }
    if block_index >= sum_head.block_count {
        return Err(TransferError::MissingBasisBlock(block_index));
    }
    let offset = match block_index.checked_mul(sum_head.block_len) {
        Some(n) => n,
        None => {
            return Err(TransferError::BlockOffsetOverflow);
        },
    };
    let is_last = block_index + 1 == sum_head.block_count;
    let len = if is_last && sum_head.remainder != 0 {
        sum_head.remainder
    } else {
        sum_head.block_len
    };
    Ok((offset, len))
}

/// The copy token that refers to basis block `i`: `-(i + 1)`.
pub open spec fn copy_token_for(i: int) -> int {
    -(i + 1)
}

pub fn block_index_to_copy_token(block_index: usize) -> (r: Result<i32, TransferError>)
    ensures
        block_index < i32::MAX ==> r == Ok::<i32, TransferError>(
            copy_token_for(block_index as int) as i32,
        ),
        block_index > i32::MAX ==> r == Err::<i32, TransferError>(
            TransferError::BlockIndexOutOfRange,
        ),
        block_index == i32::MAX ==> r == Err::<i32, TransferError>(TransferError::BlockTokenOverflow),
{
    if block_index > i32::MAX as usize {
        return Err(TransferError::BlockIndexOutOfRange);
    }
    let token = block_index as i32;
    match token.checked_add(1) {
        Some(value) => Ok(-value),
        None => Err(TransferError::BlockTokenOverflow),
    }
}

pub fn copy_token_to_block_index(token: i32) -> (r: Result<usize, TransferError>)
    ensures
        token >= 0 ==> r == Err::<usize, TransferError>(TransferError::CopyTokenNotNegative),
        token == i32::MIN ==> r == Err::<usize, TransferError>(TransferError::CopyTokenOverflow),
        i32::MIN < token < 0 ==> r == Ok::<usize, TransferError>((-token - 1) as usize),
{
    if token >= 0 {
        return Err(TransferError::CopyTokenNotNegative);
    }
    if token == i32::MIN {
        return Err(TransferError::CopyTokenOverflow);
    }
    let raw = -token - 1;
    Ok(raw as usize)
}

/// A block index goes through its copy token and back unchanged.
pub proof fn lemma_copy_token_round_trip(block_index: int)
    requires
        0 <= block_index < i32::MAX,
    ensures
        i32::MIN < copy_token_for(block_index) < 0,
        -copy_token_for(block_index) - 1 == block_index,
{
}

/// The blocks of a valid checksum header follow one another, and the last one ends where the
/// described file ends.
pub proof fn lemma_blocks_tile_file(h: RemoteSumHead, i: int)
    requires
        sum_head_valid(h),
        0 <= i < h.block_count,
    ensures
        i + 1 < h.block_count ==> block_offset(h, i) + block_length(h, i) == block_offset(h, i + 1),
        i + 1 == h.block_count ==> block_offset(h, i) + block_length(h, i) == described_len(h),
{
    vstd::arithmetic::mul::lemma_mul_is_distributive_add_other_way(h.block_len as int, i, 1);
}

/// Refuses an allocation of `bytes` beyond a positive `--max-alloc` limit.
pub fn ensure_allocation_within_limit(
    label: &'static str,
    bytes: usize,
    max_alloc: Option<u64>,
) -> (r: Result<(), TransferError>)
    ensures
        match max_alloc {
            Some(limit) => if limit > 0 && bytes > limit {
                r == Err::<(), TransferError>(
                    TransferError::AllocationExceedsLimit { label, bytes, limit },
                )
            } else {
                r is Ok
            },
            None => r is Ok,
        },
{
    if let Some(limit) = max_alloc {
        if limit > 0 && bytes as u64 > limit {
            return Err(TransferError::AllocationExceedsLimit { label, bytes, limit });
        }
    }
    Ok(())
}

/// Refuses a basis copy block larger than the allocation limit.
pub fn ensure_basis_copy_budget(sum_head: RemoteSumHead, max_alloc: Option<u64>) -> (r: Result<
    (),
    TransferError,
>)
    ensures
        !sum_head_valid(sum_head) ==> r is Err,
        sum_head_valid(sum_head) && sum_head.block_count == 0 ==> r is Ok,
        sum_head_valid(sum_head) && sum_head.block_count > 0 ==> match max_alloc {
            Some(limit) => if limit > 0 && sum_head.block_len > limit {
                r == Err::<(), TransferError>(
                    TransferError::AllocationExceedsLimit {
                        label: "basis copy block",
                        bytes: sum_head.block_len,
                        limit,
                    },
                )
            } else {
                r is Ok
            },
            None => r is Ok,
        },
{
    match validate_sum_head(sum_head) {
        Ok(()) => {},
        Err(e) => {
            return Err(e);
        },
    }
    if sum_head.block_count == 0 {
        return Ok(());
    }
    ensure_allocation_within_limit("basis copy block", sum_head.block_len, max_alloc)
}

/// Refuses a signature table whose estimated size is beyond the allocation limit.
pub fn ensure_signature_table_budget(
    label: &'static str,
    block_count: usize,
    checksum_len: usize,
    max_alloc: Option<u64>,
) -> (r: Result<(), TransferError>)
    ensures
        ({
            let per_signature = vstd::layout::size_of::<BlockSignature>() + checksum_len;
            let bytes = block_count * per_signature;
            if per_signature > usize::MAX || bytes > usize::MAX {
                r == Err::<(), TransferError>(TransferError::SignatureEstimateOverflow)
            } else {
                match max_alloc {
                    Some(limit) => if limit > 0 && bytes > limit {
                        r == Err::<(), TransferError>(
                            TransferError::AllocationExceedsLimit { label, bytes: bytes as usize, limit },
                        )
                    } else {
                        r is Ok
                    },
                    None => r is Ok,
                }
            }
        }),
{
    let size = std::mem::size_of::<BlockSignature>();
    let per_signature = match size.checked_add(checksum_len) {
        Some(n) => n,
        None => {
            return Err(TransferError::SignatureEstimateOverflow);
        },
    };
    let bytes = match block_count.checked_mul(per_signature) {
        Some(n) => n,
        None => {
            return Err(TransferError::SignatureEstimateOverflow);
        },
    };
    ensure_allocation_within_limit(label, bytes, max_alloc)
}

/// A file length as a `usize`, when it fits this platform's address size.
pub fn sync_action_len(len: u64) -> (r: Result<usize, TransferError>)
    ensures
        len <= usize::MAX ==> r == Ok::<usize, TransferError>(len as usize),
        len > usize::MAX ==> r == Err::<usize, TransferError>(TransferError::FileLengthTooLarge),
{
    if len <= usize::MAX as u64 {
        Ok(len as usize)
    } else {
        Err(TransferError::FileLengthTooLarge)
    }
}

} // verus!
