use rsync_win::delta::apply::{apply_delta, ApplyError};
use rsync_win::delta::matcher::{generate_test_delta, DeltaToken};
use rsync_win::delta::rollsum::{rolling_checksum, RollingChecksum};
use rsync_win::delta::signature::{
    generate_signatures_with, generate_test_signatures, Md4StrongChecksum, Md5StrongChecksum,
    SignatureError, StrongChecksum,
};

fn assert_round_trip(basis: &[u8], target: &[u8], block_size: usize) -> Vec<DeltaToken> {
    let signatures = generate_test_signatures(basis, block_size).unwrap();
    let tokens = generate_test_delta(&signatures, target);
    let reconstructed = apply_delta(basis, &tokens).unwrap();
    assert_eq!(reconstructed, target);
    tokens
}

#[test]
fn applies_literal_and_copy_tokens() {
    let tokens = vec![
        DeltaToken::Copy { offset: 0, len: 3 },
        DeltaToken::Literal(b"XY".to_vec()),
        DeltaToken::Copy { offset: 3, len: 3 },
    ];

    assert_eq!(apply_delta(b"abcdef", &tokens).unwrap(), b"abcXYdef");
}

#[test]
fn rejects_out_of_bounds_copy() {
    let tokens = vec![DeltaToken::Copy { offset: 2, len: 5 }];
    let err = apply_delta(b"abc", &tokens).unwrap_err();
    assert_eq!(
        err,
        ApplyError::CopyOutOfBounds {
            offset: 2,
            len: 5,
            basis_len: 3
        }
    );
}

#[test]
fn emits_copy_tokens_for_identical_content() {
    let tokens = assert_round_trip(b"abcdef", b"abcdef", 2);
    assert!(tokens
        .iter()
        .all(|token| matches!(token, DeltaToken::Copy { .. })));
}

#[test]
fn reconstructs_inserted_content() {
    assert_round_trip(b"abcdef", b"abXYcdef", 2);
}

#[test]
fn reconstructs_deleted_content() {
    assert_round_trip(b"abcdef", b"abef", 2);
}

#[test]
fn reconstructs_moved_blocks() {
    let tokens = assert_round_trip(b"abcdef", b"cdefab", 2);
    assert_eq!(
        tokens,
        vec![
            DeltaToken::Copy { offset: 2, len: 2 },
            DeltaToken::Copy { offset: 4, len: 2 },
            DeltaToken::Copy { offset: 0, len: 2 },
        ]
    );
}

#[test]
fn reconstructs_empty_file_cases() {
    assert_round_trip(b"", b"", 4);
    assert_round_trip(b"", b"abc", 4);
    assert_round_trip(b"abc", b"", 4);
}

#[test]
fn reconstructs_shifted_content() {
    assert_round_trip(b"abcdef", b"xabcdef", 3);
}

#[test]
fn computes_known_small_checksum() {
    let checksum = rolling_checksum(b"abc");
    let a = u32::from(b'a') + u32::from(b'b') + u32::from(b'c');
    let b = u32::from(b'a') + (u32::from(b'a') + u32::from(b'b')) + a;
    assert_eq!(checksum, (b << 16) | a);
}

#[test]
fn matches_rsync_signed_byte_checksum_for_binary_data() {
    let checksum = rolling_checksum(&[0x80, 0xff, 0x01]);
    let a = 65_408_u32;
    let b = 65_151_u32;
    assert_eq!(checksum, (b << 16) | a);
}

#[test]
fn rolling_update_matches_recomputed_window() {
    let data = b"abcdef";
    let mut rolling = RollingChecksum::from_block(&data[0..3]);

    rolling.roll(data[0], data[3]);
    assert_eq!(rolling.digest(), rolling_checksum(&data[1..4]));

    rolling.roll(data[1], data[4]);
    assert_eq!(rolling.digest(), rolling_checksum(&data[2..5]));

    rolling.roll(data[2], data[5]);
    assert_eq!(rolling.digest(), rolling_checksum(&data[3..6]));
}

#[test]
fn rejects_zero_block_size() {
    let err = generate_test_signatures(b"abc", 0).unwrap_err();
    assert_eq!(err, SignatureError::ZeroBlockSize);
}

#[test]
fn generates_full_and_partial_block_signatures() {
    let signatures = generate_test_signatures(b"abcdefg", 3).unwrap();

    assert_eq!(signatures.len(), 3);
    assert_eq!(signatures[0].offset, 0);
    assert_eq!(signatures[0].len, 3);
    assert_eq!(signatures[1].offset, 3);
    assert_eq!(signatures[1].len, 3);
    assert_eq!(signatures[2].offset, 6);
    assert_eq!(signatures[2].len, 1);
}

#[test]
fn empty_basis_has_no_signatures() {
    let signatures = generate_test_signatures(b"", 4).unwrap();
    assert!(signatures.is_empty());
}

#[test]
fn md4_strong_checksum_is_feature_gated() {
    assert_eq!(Md4StrongChecksum.digest(b"abc").len(), 16);
}

#[test]
fn md5_strong_checksum_is_feature_gated() {
    assert_eq!(Md5StrongChecksum.digest(b"abc").len(), 16);
}

#[test]
fn md4_and_md5_digests_match_the_published_test_vectors() {
    assert_eq!(
        Md4StrongChecksum.digest(b"abc"),
        vec![
            0xa4, 0x48, 0x01, 0x7a, 0xaf, 0x21, 0xd8, 0x52, 0x5f, 0xc1, 0x0a, 0xe8, 0x7a, 0xa6,
            0x72, 0x9d
        ]
    );
    assert_eq!(
        Md5StrongChecksum.digest(b"abc"),
        vec![
            0x90, 0x01, 0x50, 0x98, 0x3c, 0xd2, 0x4f, 0xb0, 0xd6, 0x96, 0x3f, 0x7d, 0x28, 0xe1,
            0x7f, 0x72
        ]
    );
}

#[test]
fn md5_signatures_round_trip_through_a_delta() {
    let basis = b"the quick brown fox jumps over the lazy dog";
    let target = b"the quick red fox jumps over the lazy dog!";
    let signatures = generate_signatures_with(basis, 5, &Md5StrongChecksum).unwrap();
    assert_eq!(signatures[0].strong, Md5StrongChecksum.digest(b"the q"));
    let tokens = rsync_win::delta::matcher::generate_delta_with(&signatures, target, &Md5StrongChecksum);
    assert_eq!(apply_delta(basis, &tokens).unwrap(), target);
}

#[test]
fn rolling_checksum_of_empty_block_is_zero() {
    assert_eq!(rolling_checksum(b""), 0);
    assert!(RollingChecksum::from_block(b"").is_empty());
    assert_eq!(RollingChecksum::from_block(b"abcd").len(), 4);
}

#[test]
fn delta_of_target_without_signatures_is_one_literal() {
    let tokens = generate_test_delta(&[], b"xyz");
    assert_eq!(tokens, vec![DeltaToken::Literal(b"xyz".to_vec())]);
    assert!(generate_test_delta(&[], b"").is_empty());
}

#[test]
fn copy_ending_past_basis_is_rejected_even_after_valid_tokens() {
    let tokens = vec![
        DeltaToken::Literal(b"ok".to_vec()),
        DeltaToken::Copy { offset: 3, len: 1 },
    ];
    assert_eq!(
        apply_delta(b"abc", &tokens).unwrap_err(),
        ApplyError::CopyOutOfBounds {
            offset: 3,
            len: 1,
            basis_len: 3
        }
    );
}
