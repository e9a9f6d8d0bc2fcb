use rsync_win::transfer::sum_head::{
    block_index_to_copy_token, block_span, copy_token_to_block_index,
    ensure_allocation_within_limit, ensure_basis_copy_budget, ensure_signature_table_budget,
    remote_sum_head_file_len, sync_action_len, validate_sum_head, RemoteSumHead, TransferError,
};

fn head(block_count: usize, block_len: usize, remainder: usize) -> RemoteSumHead {
    RemoteSumHead {
        block_count,
        block_len,
        checksum_len: 16,
        remainder,
    }
}

#[test]
fn sum_head_file_len_counts_short_last_block() {
    assert_eq!(remote_sum_head_file_len(head(0, 0, 0)), Ok(0));
    assert_eq!(remote_sum_head_file_len(head(3, 700, 0)), Ok(2100));
    assert_eq!(remote_sum_head_file_len(head(3, 700, 100)), Ok(1500));
    assert_eq!(
        remote_sum_head_file_len(head(2, 0, 0)),
        Err(TransferError::AppendZeroBlockLength)
    );
    assert_eq!(
        remote_sum_head_file_len(head(2, 10, 11)),
        Err(TransferError::AppendRemainderTooLarge)
    );
    assert_eq!(
        remote_sum_head_file_len(head(usize::MAX, 2, 0)),
        Err(TransferError::AppendLengthOverflow)
    );
}

#[test]
fn sum_head_validation_and_block_spans() {
    assert_eq!(validate_sum_head(head(0, 0, 9)), Ok(()));
    assert_eq!(validate_sum_head(head(1, 0, 0)), Err(TransferError::ZeroBlockLength));
    assert_eq!(validate_sum_head(head(1, 4, 5)), Err(TransferError::RemainderTooLarge));
    let h = head(3, 700, 100);
    assert_eq!(block_span(&h, 0), Ok((0, 700)));
    assert_eq!(block_span(&h, 1), Ok((700, 700)));
    assert_eq!(block_span(&h, 2), Ok((1400, 100)));
    assert_eq!(block_span(&h, 3), Err(TransferError::MissingBasisBlock(3)));
    let (offset, len) = block_span(&h, 2).unwrap();
    assert_eq!(offset + len, remote_sum_head_file_len(h).unwrap());
    assert_eq!(block_span(&head(2, 5, 0), 1), Ok((5, 5)));
}

#[test]
fn copy_tokens_round_trip() {
    assert_eq!(block_index_to_copy_token(0), Ok(-1));
    assert_eq!(block_index_to_copy_token(41), Ok(-42));
    assert_eq!(copy_token_to_block_index(-42), Ok(41));
    assert_eq!(copy_token_to_block_index(0), Err(TransferError::CopyTokenNotNegative));
    assert_eq!(copy_token_to_block_index(i32::MIN), Err(TransferError::CopyTokenOverflow));
    assert_eq!(
        block_index_to_copy_token(i32::MAX as usize),
        Err(TransferError::BlockTokenOverflow)
    );
    assert_eq!(
        block_index_to_copy_token(i32::MAX as usize + 1),
        Err(TransferError::BlockIndexOutOfRange)
    );
    for index in [0usize, 1, 7, 65_535, (i32::MAX - 1) as usize] {
        let token = block_index_to_copy_token(index).unwrap();
        assert_eq!(copy_token_to_block_index(token), Ok(index));
    }
}

#[test]
fn allocation_limits() {
    assert_eq!(ensure_allocation_within_limit("x", 10, None), Ok(()));
    assert_eq!(ensure_allocation_within_limit("x", 10, Some(0)), Ok(()));
    assert_eq!(ensure_allocation_within_limit("x", 10, Some(10)), Ok(()));
    assert_eq!(
        ensure_allocation_within_limit("x", 11, Some(10)),
        Err(TransferError::AllocationExceedsLimit {
            label: "x",
            bytes: 11,
            limit: 10
        })
    );
    assert_eq!(ensure_basis_copy_budget(head(0, 0, 0), Some(1)), Ok(()));
    assert_eq!(
        ensure_basis_copy_budget(head(2, 4096, 0), Some(1024)),
        Err(TransferError::AllocationExceedsLimit {
            label: "basis copy block",
            bytes: 4096,
            limit: 1024
        })
    );
    assert_eq!(
        ensure_basis_copy_budget(head(2, 0, 0), None),
        Err(TransferError::ZeroBlockLength)
    );
    let per = std::mem::size_of::<rsync_win::delta::signature::BlockSignature>() + 16;
    assert_eq!(ensure_signature_table_budget("sigs", 10, 16, Some((10 * per) as u64)), Ok(()));
    assert_eq!(
        ensure_signature_table_budget("sigs", 10, 16, Some((10 * per - 1) as u64)),
        Err(TransferError::AllocationExceedsLimit {
            label: "sigs",
            bytes: 10 * per,
            limit: (10 * per - 1) as u64
        })
    );
    assert_eq!(
        ensure_signature_table_budget("sigs", usize::MAX, 16, None),
        Err(TransferError::SignatureEstimateOverflow)
    );
    assert_eq!(sync_action_len(5), Ok(5));
}
