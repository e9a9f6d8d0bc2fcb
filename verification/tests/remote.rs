use rsync_win::remote::auth::{
    daemon_auth_user_from_vars, daemon_password_from_vars, normalize_daemon_auth_user,
    normalize_daemon_password, password_from_file_text,
};
use rsync_win::remote::claims::{
    remote_entry_matches_single_file_sources, remote_single_file_source_basename,
};
use rsync_win::transfer::checksum::{
    normalize_checksum_choice, ChecksumChoiceError, RemoteChecksumAlgorithm, RemoteFileChecksum,
    RemoteFinalChecksum,
};

#[test]
fn daemon_user_and_password_normalization() {
    assert_eq!(normalize_daemon_auth_user("  alice "), Some("alice".to_string()));
    assert_eq!(normalize_daemon_auth_user("   "), None);
    assert_eq!(normalize_daemon_auth_user("a\0b"), None);
    assert_eq!(normalize_daemon_password(""), None);
    assert_eq!(normalize_daemon_password(" pw "), Some(" pw ".to_string()));
    assert_eq!(normalize_daemon_password("p\0w"), None);
}

#[test]
fn daemon_credentials_come_from_the_first_usable_variable() {
    let vars = [
        ("USER", None),
        ("LOGNAME", Some("  ".to_string())),
        ("USERNAME", Some("bob".to_string())),
    ];
    assert_eq!(daemon_auth_user_from_vars(&vars), Some("bob".to_string()));
    assert_eq!(daemon_auth_user_from_vars(&[]), None);
    let vars = [
        ("OTHER", Some("x".to_string())),
        ("RSYNC_PASSWORD", Some("secret".to_string())),
    ];
    assert_eq!(daemon_password_from_vars(&vars), Some("secret".to_string()));
    assert_eq!(
        daemon_password_from_vars(&[("RSYNC_PASSWORD", Some(String::new()))]),
        None
    );
    assert_eq!(password_from_file_text("pw\r\n\n"), "pw");
    assert_eq!(password_from_file_text("a\nb\n"), "a\nb");
    assert_eq!(password_from_file_text(""), "");
}

#[test]
fn single_file_source_names_and_claims() {
    assert_eq!(
        remote_single_file_source_basename("host/dir/file.txt"),
        Some("file.txt".to_string())
    );
    assert_eq!(
        remote_single_file_source_basename("dir\\file.tar.gz"),
        Some("file.tar.gz".to_string())
    );
    assert_eq!(remote_single_file_source_basename("a/ b.c "), Some("b.c".to_string()));
    assert_eq!(remote_single_file_source_basename("dir/"), None);
    assert_eq!(remote_single_file_source_basename("dir/README"), None);
    let allowed = vec!["file.txt".to_string()];
    assert!(remote_entry_matches_single_file_sources("anything", &[]));
    assert!(remote_entry_matches_single_file_sources("file.txt", &allowed));
    assert!(remote_entry_matches_single_file_sources("file.txt\\inner", &allowed));
    assert!(!remote_entry_matches_single_file_sources("file.txt2", &allowed));
    assert!(!remote_entry_matches_single_file_sources("dir/file.txt", &allowed));
}

#[test]
fn checksum_choices_select_algorithms() {
    assert_eq!(normalize_checksum_choice(" MD5 "), "md5");
    assert_eq!(
        RemoteChecksumAlgorithm::from_protocol31_choice(None),
        Ok(RemoteChecksumAlgorithm::Md4)
    );
    assert_eq!(
        RemoteChecksumAlgorithm::from_protocol31_choice(Some("MD4")),
        Ok(RemoteChecksumAlgorithm::Md4)
    );
    assert_eq!(
        RemoteChecksumAlgorithm::from_protocol31_choice(Some(" Sha1")),
        Err(ChecksumChoiceError::Unsupported("sha1".to_string()))
    );
    assert_eq!(
        RemoteFileChecksum::protocol31(Some("md5"), 0),
        Ok(RemoteFileChecksum::PlainMd5)
    );
    assert_eq!(
        RemoteFileChecksum::protocol31(Some("md5"), 7),
        Ok(RemoteFileChecksum::SeededMd5(7))
    );
    assert_eq!(
        RemoteFileChecksum::protocol31(None, 3),
        Ok(RemoteFileChecksum::SeededMd4(3))
    );
    assert_eq!(RemoteFileChecksum::md4_with_seed(0), RemoteFileChecksum::PlainMd4);
    assert_eq!(
        RemoteFileChecksum::SeededMd5(1).algorithm(),
        RemoteChecksumAlgorithm::Md5
    );
    assert_eq!(RemoteFinalChecksum::protocol27(0), RemoteFinalChecksum::PlainMd4);
    assert_eq!(
        RemoteFinalChecksum::protocol27(5),
        RemoteFinalChecksum::SeededMd4Prefix(5)
    );
    assert_eq!(
        RemoteFinalChecksum::protocol31(Some("md5")),
        Ok(RemoteFinalChecksum::PlainMd5)
    );
}
