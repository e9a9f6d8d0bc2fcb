use rsync_win::fs::metadata::PortableMetadata;
use rsync_win::fs::sync_plan::{mtimes_equal, mtimes_match};
use rsync_win::transfer::sum_head::{RemoteSumHead, TransferError};
use rsync_win::transfer::tokens::{
    finish_received_file, receive_token_step, receive_token_stream, received_token, ReceivedToken,
};

fn head() -> RemoteSumHead {
    RemoteSumHead { block_count: 3, block_len: 4, checksum_len: 16, remainder: 2 }
}

#[test]
fn raw_tokens_are_literals_ends_and_copies() {
    assert_eq!(received_token(5), ReceivedToken::Literal(5));
    assert_eq!(received_token(0), ReceivedToken::End);
    assert_eq!(received_token(-2), ReceivedToken::Copy(-2));
}

#[test]
fn literal_past_expected_length_is_refused() {
    assert_eq!(receive_token_step(6, 10, ReceivedToken::Literal(4), None), Ok(10));
    assert_eq!(
        receive_token_step(6, 10, ReceivedToken::Literal(5), None),
        Err(TransferError::FileLengthExceeded { expected: 10, actual: 11 })
    );
    assert_eq!(
        receive_token_step(u64::MAX, u64::MAX, ReceivedToken::Literal(1), None),
        Err(TransferError::FileLengthExceeded { expected: u64::MAX, actual: u64::MAX })
    );
}

#[test]
fn copy_without_basis_is_unexpected() {
    assert_eq!(
        receive_token_step(0, 10, ReceivedToken::Copy(-1), None),
        Err(TransferError::UnexpectedToken(-1))
    );
    let empty = RemoteSumHead { block_count: 0, block_len: 4, checksum_len: 16, remainder: 0 };
    assert_eq!(
        receive_token_step(0, 10, ReceivedToken::Copy(-1), Some(empty)),
        Err(TransferError::UnexpectedToken(-1))
    );
}

#[test]
fn copy_adds_the_basis_block_length() {
    assert_eq!(receive_token_step(0, 10, ReceivedToken::Copy(-1), Some(head())), Ok(4));
    assert_eq!(receive_token_step(4, 10, ReceivedToken::Copy(-3), Some(head())), Ok(6));
    assert_eq!(
        receive_token_step(0, 10, ReceivedToken::Copy(-4), Some(head())),
        Err(TransferError::MissingBasisBlock(3))
    );
    assert_eq!(
        receive_token_step(8, 10, ReceivedToken::Copy(-2), Some(head())),
        Err(TransferError::FileLengthExceeded { expected: 10, actual: 12 })
    );
}

#[test]
fn short_file_is_refused_at_the_end() {
    assert_eq!(receive_token_step(10, 10, ReceivedToken::End, None), Ok(10));
    assert_eq!(
        receive_token_step(7, 10, ReceivedToken::End, None),
        Err(TransferError::FileLengthShort { expected: 10, actual: 7 })
    );
}

#[test]
fn token_streams_end_at_the_end_token() {
    let tokens = vec![
        ReceivedToken::Literal(3),
        ReceivedToken::Copy(-1),
        ReceivedToken::Copy(-3),
        ReceivedToken::End,
        ReceivedToken::Literal(100),
    ];
    assert_eq!(receive_token_stream(&tokens, 9, Some(head())), Some(Ok(9)));
    assert_eq!(
        receive_token_stream(&tokens, 12, Some(head())),
        Some(Err(TransferError::FileLengthShort { expected: 12, actual: 9 }))
    );
    assert_eq!(receive_token_stream(&tokens[..2], 9, Some(head())), None);
}

#[test]
fn modification_times_within_the_window_match() {
    let base = std::time::UNIX_EPOCH + std::time::Duration::from_secs(1_000);
    let later = base + std::time::Duration::from_millis(2_500);
    assert!(!mtimes_equal(&base, &later, 0));
    assert!(!mtimes_equal(&base, &later, 1));
    assert!(mtimes_equal(&base, &later, 2));
    assert!(mtimes_equal(&later, &base, 2));
    assert!(!mtimes_equal(&base, &later, -1));
    assert!(mtimes_equal(&base, &base, 0));
    let mut source = PortableMetadata::file(1);
    let mut target = PortableMetadata::file(1);
    source.modified = Some(base);
    target.modified = Some(later);
    assert_eq!(mtimes_match(&source, &target, 2), Some(true));
    assert_eq!(mtimes_match(&source, &target, 0), Some(false));
    target.modified = None;
    assert_eq!(mtimes_match(&source, &target, 2), None);
}

#[test]
fn received_file_needs_length_then_checksum() {
    assert_eq!(
        finish_received_file(9, 10, &[1, 2], &[1, 2]),
        Err(TransferError::FileLengthShort { expected: 10, actual: 9 })
    );
    assert_eq!(
        finish_received_file(10, 10, &[1, 2], &[1, 3]),
        Err(TransferError::FileChecksumMismatch)
    );
    assert_eq!(finish_received_file(10, 10, &[1, 2], &[1, 2]), Ok(10));
}
