use rsync_win::fs::sync_plan::receiver_is_newer;
use rsync_win::filter::matcher::EntryKind;
use rsync_win::fs::metadata::{
    default_permissions, path_looks_executable, posix_file_type_bits, FileType, MetadataAction,
    MetadataDegradation, MetadataFeature, MetadataReport, PortableMetadata,
    POSIX_DIRECTORY_DEFAULT_PERMS, POSIX_FILE_DEFAULT_PERMS, POSIX_FILE_EXECUTABLE_PERMS,
    POSIX_SYMLINK_DEFAULT_PERMS, POSIX_TYPE_DIRECTORY, POSIX_TYPE_REGULAR, POSIX_TYPE_SYMLINK,
};
use rsync_win::fs::sync::{
    action_len, entry_kind, handle_non_regular_entry, munge_symlink_target, DeleteMode,
    SyncAction, SyncOptions, SyncReport, SymlinkMode, UpdateMode,
};
use rsync_win::fs::walk::{
    local_os_path, logical_path_from_os_path, FileWriteMode, FileWriteOptions, FsError, WalkEntry,
};

#[test]
fn report_tracks_lossful_metadata_actions() {
    let mut report = MetadataReport::new();
    report.push(MetadataDegradation::new(
        MetadataFeature::Acl,
        MetadataAction::Ignored,
        "portable mode does not preserve ACLs",
    ));

    assert!(report.has_loss());
    assert_eq!(report.degradations().len(), 1);
}

#[test]
fn executability_infers_mode_from_windows_filename_conventions() {
    let metadata = PortableMetadata::file(12);

    for path in ["tool.exe", "run.bat", "run.cmd", "script.ps1"] {
        assert_eq!(
            metadata.posix_mode_for_path(Some(path), true),
            POSIX_TYPE_REGULAR | POSIX_FILE_EXECUTABLE_PERMS,
            "{path}"
        );
    }
    assert_eq!(
        metadata.posix_mode_for_path(Some("notes.txt"), true),
        POSIX_TYPE_REGULAR | POSIX_FILE_DEFAULT_PERMS
    );
}

#[test]
fn explicit_mode_overrides_default_permissions() {
    let metadata = PortableMetadata::file(12).with_mode(0o600);

    assert_eq!(
        metadata.posix_mode_for_path(Some("tool.exe"), false),
        POSIX_TYPE_REGULAR | 0o600
    );
}

#[test]
fn local_os_path_normalizes_forward_slashes_before_verbatim_prefix() {
    let text = local_os_path(r"C:/temp/rsync-win/source/");

    assert_eq!(text, r"\\?\C:\temp\rsync-win\source\");
}

#[test]
fn local_os_path_uses_unc_verbatim_prefix_for_unc_paths() {
    let backslash = local_os_path(r"\\server\share\rsync-win/source/");
    let forward = local_os_path("//server/share/rsync-win/source/");

    assert_eq!(backslash, r"\\?\UNC\server\share\rsync-win\source\");
    assert_eq!(forward, r"\\?\UNC\server\share\rsync-win\source\");
}

#[test]
fn local_os_path_keeps_verbatim_device_and_relative_paths() {
    assert_eq!(local_os_path(r"\\?\C:\x"), r"\\?\C:\x");
    assert_eq!(local_os_path(r"\\.\COM42"), r"\\.\COM42");
    assert_eq!(local_os_path("relative/dir"), "relative/dir");
    assert_eq!(local_os_path("C:relative"), "C:relative");
    assert_eq!(local_os_path(r"\\server"), r"\\server");
}

#[test]
fn logical_path_takes_the_verbatim_prefix_off() {
    assert_eq!(logical_path_from_os_path(r"\\?\UNC\server\share\x"), r"\\server\share\x");
    assert_eq!(logical_path_from_os_path(r"\\?\C:\temp"), r"C:\temp");
    assert_eq!(logical_path_from_os_path(r"C:\temp"), r"C:\temp");
    let original = r"C:\data\file.txt";
    assert_eq!(logical_path_from_os_path(&local_os_path(original)), original);
}

#[test]
fn executable_extensions_are_case_insensitive_and_need_a_real_extension() {
    assert!(path_looks_executable("TOOL.EXE"));
    assert!(path_looks_executable("dir\\Setup.Cmd"));
    assert!(path_looks_executable("bin/run.com/"));
    assert!(path_looks_executable("bin/run.ps1/."));
    assert!(!path_looks_executable(".exe"));
    assert!(!path_looks_executable("exe"));
    assert!(!path_looks_executable("tool.exe.txt"));
    assert!(!path_looks_executable("tools.exe/.."));
    assert!(!path_looks_executable(""));
}

#[test]
fn posix_type_bits_and_default_permissions() {
    assert_eq!(posix_file_type_bits(FileType::Directory), POSIX_TYPE_DIRECTORY);
    assert_eq!(posix_file_type_bits(FileType::Symlink), POSIX_TYPE_SYMLINK);
    assert_eq!(posix_file_type_bits(FileType::Device), POSIX_TYPE_REGULAR);
    assert_eq!(default_permissions(FileType::Directory), POSIX_DIRECTORY_DEFAULT_PERMS);
    assert_eq!(default_permissions(FileType::Symlink), POSIX_SYMLINK_DEFAULT_PERMS);
    assert_eq!(default_permissions(FileType::Special), POSIX_FILE_DEFAULT_PERMS);
    assert_eq!(
        PortableMetadata::directory().posix_mode_for_path(Some("x.exe"), true),
        POSIX_TYPE_DIRECTORY | POSIX_DIRECTORY_DEFAULT_PERMS
    );
    assert_eq!(
        PortableMetadata::file(1).with_mode(0o170644).posix_mode_for_path(None, true),
        POSIX_TYPE_REGULAR | 0o644
    );
}

#[test]
fn metadata_constructors_set_their_kind() {
    let link = PortableMetadata::symlink("target.txt");
    assert_eq!(link.file_type, FileType::Symlink);
    assert_eq!(link.symlink_target.as_deref(), Some("target.txt"));
    assert_eq!(PortableMetadata::device().file_type, FileType::Device);
    assert_eq!(PortableMetadata::special().file_type, FileType::Special);
    let file = PortableMetadata::file(7).with_modified(std::time::UNIX_EPOCH);
    assert_eq!(file.len, 7);
    assert_eq!(file.modified, Some(std::time::UNIX_EPOCH));
}

#[test]
fn metadata_report_without_loss() {
    let mut report = MetadataReport::default();
    assert!(!report.has_loss());
    report.warn_loss(MetadataFeature::Mode, MetadataAction::Applied, "mode applied");
    assert!(!report.has_loss());
    assert!(!report.degradations()[0].is_loss());
    report.warn_loss(MetadataFeature::Owner, MetadataAction::Degraded, "owner dropped");
    assert!(report.has_loss());
}

#[test]
fn sync_defaults_and_delete_mode() {
    let options = SyncOptions::default();
    assert!(options.recursive);
    assert!(options.dry_run);
    assert_eq!(options.backup_suffix, "~");
    assert_eq!(options.update_mode, UpdateMode::QuickCheck);
    assert_eq!(options.symlink_mode, SymlinkMode::Skip);
    assert_eq!(options.effective_delete_mode(), DeleteMode::Disabled);
    let delete = SyncOptions {
        delete: true,
        ..SyncOptions::default()
    };
    assert_eq!(delete.effective_delete_mode(), DeleteMode::During);
    let after = SyncOptions {
        delete: true,
        delete_mode: DeleteMode::After,
        ..SyncOptions::default()
    };
    assert_eq!(after.effective_delete_mode(), DeleteMode::After);
    assert_eq!(DeleteMode::default(), DeleteMode::Disabled);
    let write = FileWriteOptions::default();
    assert_eq!(write.mode, FileWriteMode::Atomic);
    assert!(!write.sparse);
}

#[test]
fn non_regular_entries_warn_or_fail() {
    let device = WalkEntry {
        path: "dev/null".to_string(),
        metadata: PortableMetadata::device(),
    };
    let mut report = SyncReport::default();
    handle_non_regular_entry(&device, &SyncOptions::default(), &mut report).unwrap();
    assert_eq!(
        report.actions(),
        &[SyncAction::Warn {
            path: "dev/null".to_string(),
            message: "skipping device; preservation was not requested".to_string(),
        }]
    );

    let requested = SyncOptions {
        preserve_specials: true,
        ..SyncOptions::default()
    };
    let special = WalkEntry {
        path: "sock".to_string(),
        metadata: PortableMetadata::special(),
    };
    handle_non_regular_entry(&special, &requested, &mut report).unwrap();
    assert_eq!(report.warnings().len(), 2);
    assert_eq!(
        report.actions()[1],
        SyncAction::Warn {
            path: "sock".to_string(),
            message: "special file metadata cannot be preserved by portable sync".to_string(),
        }
    );

    let fatal = SyncOptions {
        preserve_devices: true,
        fail_on_metadata_loss: true,
        ..SyncOptions::default()
    };
    match handle_non_regular_entry(&device, &fatal, &mut report) {
        Err(FsError::Unsupported(message)) => {
            assert_eq!(message, "device metadata cannot be preserved by portable sync")
        }
        other => panic!("unexpected {other:?}"),
    }
    assert_eq!(report.actions().len(), 2);

    let other = WalkEntry {
        path: "x".to_string(),
        metadata: PortableMetadata::file(1),
    };
    handle_non_regular_entry(&other, &fatal, &mut report).unwrap();
    assert_eq!(
        report.actions()[2],
        SyncAction::Warn {
            path: "x".to_string(),
            message: "File is not copied by portable ordinary-file sync".to_string(),
        }
    );
}

#[test]
fn sync_report_warnings_skip_other_actions() {
    let mut report = SyncReport::default();
    report.push(SyncAction::CreateDir("a".to_string()));
    report.push(SyncAction::Warn {
        path: "b".to_string(),
        message: "m".to_string(),
    });
    report.push(SyncAction::DeleteFile("c".to_string()));
    assert_eq!(report.actions().len(), 3);
    let warnings = report.warnings();
    assert_eq!(warnings.len(), 1);
    assert!(matches!(warnings[0], SyncAction::Warn { .. }));
}

#[test]
fn small_sync_helpers() {
    assert_eq!(entry_kind(FileType::Directory), EntryKind::Directory);
    assert_eq!(entry_kind(FileType::Symlink), EntryKind::File);
    assert_eq!(action_len(42).unwrap(), 42);
    assert_eq!(munge_symlink_target("../secret.txt"), "/rsyncd-munged/../secret.txt");
}

#[test]
fn receiver_is_newer_compares_known_times() {
    let earlier = std::time::UNIX_EPOCH + std::time::Duration::from_secs(100);
    let later = std::time::UNIX_EPOCH + std::time::Duration::from_secs(200);
    let mut source = PortableMetadata::file(1);
    let mut target = PortableMetadata::file(1);
    source.modified = Some(earlier);
    target.modified = Some(later);
    assert!(receiver_is_newer(&source, &target));
    assert!(!receiver_is_newer(&target, &source));
    target.modified = Some(earlier);
    assert!(!receiver_is_newer(&source, &target));
    target.modified = None;
    assert!(!receiver_is_newer(&source, &target));
}
