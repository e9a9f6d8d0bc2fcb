use std::time::{Duration, SystemTime, UNIX_EPOCH};

use rsync_win::filter::matcher::RuleSet;
use rsync_win::filter::rule::Rule;
use rsync_win::fs::memory_fs::MemoryFileSystem;
use rsync_win::fs::metadata::{FileType, PortableMetadata};
use rsync_win::fs::sync::{
    DeleteMode, SourceSelectionOptions, SymlinkMode, SyncAction, SyncOptions, UpdateMode,
};
use rsync_win::fs::sync_plan::EntryMap;
use rsync_win::fs::sync_engine::{
    merge_selected_paths, sync_walked,
    delete_is_protected, selected_source_paths, sender_path_is_filtered, sync_sources, sync_tree,
    sync_tree_checked, DestinationCheck,
};
use rsync_win::fs::tree::walk_tree;
use rsync_win::fs::walk::{FileWriteMode, FileWriteOptions, FsError, PortableFileSystem, WalkEntry};

fn s(text: &str) -> String {
    text.to_string()
}

struct FailingCopyFileSystem {
    inner: MemoryFileSystem,
    fail_source: String,
}

impl FailingCopyFileSystem {
    fn new(fail_source: &str) -> Self {
        Self { inner: MemoryFileSystem::new(), fail_source: fail_source.to_string() }
    }
}

impl PortableFileSystem for FailingCopyFileSystem {
    fn metadata(&self, path: &str) -> Result<PortableMetadata, FsError> {
        self.inner.metadata(path)
    }
    fn metadata_follow(&self, path: &str) -> Result<PortableMetadata, FsError> {
        self.inner.metadata_follow(path)
    }
    fn resolve_path_for_prefix_check(&self, path: &str) -> Result<String, FsError> {
        self.inner.resolve_path_for_prefix_check(path)
    }
    fn read_file(&self, path: &str) -> Result<Vec<u8>, FsError> {
        self.inner.read_file(path)
    }
    fn write_file_atomic(&mut self, path: &str, bytes: &[u8]) -> Result<(), FsError> {
        self.inner.write_file_atomic(path, bytes)
    }
    fn write_file_direct(&mut self, path: &str, bytes: &[u8]) -> Result<(), FsError> {
        self.inner.write_file_direct(path, bytes)
    }
    fn write_file_with_options(
        &mut self,
        path: &str,
        bytes: &[u8],
        options: &FileWriteOptions,
    ) -> Result<(), FsError> {
        self.inner.write_file_with_options(path, bytes, options)
    }
    fn append_file(&mut self, path: &str, bytes: &[u8]) -> Result<(), FsError> {
        self.inner.append_file(path, bytes)
    }
    fn copy_file_with_options(
        &mut self,
        source: &str,
        dest: &str,
        options: &FileWriteOptions,
    ) -> Result<u64, FsError> {
        if source == self.fail_source {
            return Err(FsError::Unsupported("injected copy failure"));
        }
        self.inner.copy_file_with_options(source, dest, options)
    }
    fn append_file_from(&mut self, path: &str, source: &str, offset: u64) -> Result<u64, FsError> {
        self.inner.append_file_from(path, source, offset)
    }
    fn files_equal(&self, left: &str, right: &str) -> Result<bool, FsError> {
        self.inner.files_equal(left, right)
    }
    fn file_prefix_matches(&self, path: &str, prefix: &str) -> Result<bool, FsError> {
        self.inner.file_prefix_matches(path, prefix)
    }
    fn create_dir_all(&mut self, path: &str) -> Result<(), FsError> {
        self.inner.create_dir_all(path)
    }
    fn remove_file(&mut self, path: &str) -> Result<(), FsError> {
        self.inner.remove_file(path)
    }
    fn remove_dir_all(&mut self, path: &str) -> Result<(), FsError> {
        self.inner.remove_dir_all(path)
    }
    fn list(&self, path: &str) -> Result<Vec<WalkEntry>, FsError> {
        self.inner.list(path)
    }
    fn set_mtime(&mut self, path: &str, modified: SystemTime) -> Result<(), FsError> {
        self.inner.set_mtime(path, modified)
    }
}

struct BoundaryFileSystem {
    inner: MemoryFileSystem,
    other_file_system_roots: Vec<String>,
}

fn starts_with_path(path: &str, prefix: &str) -> bool {
    path == prefix || path.starts_with(&format!("{prefix}/"))
}

impl PortableFileSystem for BoundaryFileSystem {
    fn metadata(&self, path: &str) -> Result<PortableMetadata, FsError> {
        self.inner.metadata(path)
    }
    fn metadata_follow(&self, path: &str) -> Result<PortableMetadata, FsError> {
        self.inner.metadata_follow(path)
    }
    fn resolve_path_for_prefix_check(&self, path: &str) -> Result<String, FsError> {
        self.inner.resolve_path_for_prefix_check(path)
    }
    fn read_file(&self, path: &str) -> Result<Vec<u8>, FsError> {
        self.inner.read_file(path)
    }
    fn write_file_atomic(&mut self, path: &str, bytes: &[u8]) -> Result<(), FsError> {
        self.inner.write_file_atomic(path, bytes)
    }
    fn copy_file_with_options(
        &mut self,
        source: &str,
        dest: &str,
        options: &FileWriteOptions,
    ) -> Result<u64, FsError> {
        self.inner.copy_file_with_options(source, dest, options)
    }
    fn create_dir_all(&mut self, path: &str) -> Result<(), FsError> {
        self.inner.create_dir_all(path)
    }
    fn remove_file(&mut self, path: &str) -> Result<(), FsError> {
        self.inner.remove_file(path)
    }
    fn remove_dir_all(&mut self, path: &str) -> Result<(), FsError> {
        self.inner.remove_dir_all(path)
    }
    fn list(&self, path: &str) -> Result<Vec<WalkEntry>, FsError> {
        self.inner.list(path)
    }
    fn set_mtime(&mut self, path: &str, modified: SystemTime) -> Result<(), FsError> {
        self.inner.set_mtime(path, modified)
    }
    fn same_file_system(&self, root: &str, path: &str) -> Result<bool, FsError> {
        let root_is_other =
            self.other_file_system_roots.iter().any(|other| starts_with_path(root, other));
        let path_is_other =
            self.other_file_system_roots.iter().any(|other| starts_with_path(path, other));
        Ok(root_is_other == path_is_other)
    }
}

#[test]
fn dry_run_reports_copy_without_mutating_destination() {
    let mut fs = MemoryFileSystem::new();
    fs.add_file("src/a.txt", b"a").unwrap();
    fs.add_dir("dst").unwrap();

    let report =
        sync_tree(&mut fs, "src", "dst", SyncOptions { dry_run: true, ..SyncOptions::default() })
            .unwrap();

    assert!(report.actions().contains(&SyncAction::WriteFile { path: s("dst/a.txt"), len: 1 }));
    assert!(!fs.path_exists("dst/a.txt"));
}

#[test]
fn memory_sync_copies_files_and_deletes_extra_entries() {
    let mut fs = MemoryFileSystem::new();
    fs.add_file("src/a.txt", b"a").unwrap();
    fs.add_file("dst/old.txt", b"old").unwrap();

    sync_tree(
        &mut fs,
        "src",
        "dst",
        SyncOptions {
            recursive: true,
            delete: true,
            dry_run: false,
            preserve_mtime: false,
            ..SyncOptions::default()
        },
    )
    .unwrap();

    assert_eq!(fs.read_file("dst/a.txt").unwrap(), b"a");
    assert!(!fs.path_exists("dst/old.txt"));
}

#[test]
fn syncs_single_file_to_destination_file() {
    let mut fs = MemoryFileSystem::new();
    fs.add_file("source.txt", b"file").unwrap();

    let report = sync_tree(
        &mut fs,
        "source.txt",
        "dest.txt",
        SyncOptions { dry_run: false, preserve_mtime: false, ..SyncOptions::default() },
    )
    .unwrap();

    assert_eq!(fs.read_file("dest.txt").unwrap(), b"file");
    assert!(report.actions().contains(&SyncAction::WriteFile { path: s("dest.txt"), len: 4 }));
}

#[test]
fn syncs_single_file_into_existing_destination_directory() {
    let mut fs = MemoryFileSystem::new();
    fs.add_file("source.txt", b"file").unwrap();
    fs.add_dir("dest").unwrap();

    sync_tree(
        &mut fs,
        "source.txt",
        "dest",
        SyncOptions { dry_run: false, preserve_mtime: false, ..SyncOptions::default() },
    )
    .unwrap();

    assert_eq!(fs.read_file("dest/source.txt").unwrap(), b"file");
}

#[test]
fn non_recursive_sync_skips_source_directories() {
    let mut fs = MemoryFileSystem::new();
    fs.add_file("src/top.txt", b"top").unwrap();
    fs.add_file("src/nested/file.txt", b"nested").unwrap();
    fs.add_dir("dst").unwrap();

    let report = sync_tree(
        &mut fs,
        "src",
        "dst",
        SyncOptions {
            recursive: false,
            dry_run: false,
            preserve_mtime: false,
            ..SyncOptions::default()
        },
    )
    .unwrap();

    assert_eq!(fs.read_file("dst/top.txt").unwrap(), b"top");
    assert!(!fs.path_exists("dst/nested/file.txt"));
    assert!(report
        .warnings()
        .iter()
        .any(|action| matches!(action, SyncAction::Warn { path, .. } if path == "src/nested")));
}

#[test]
fn quick_check_skips_files_with_matching_size_and_mtime() {
    let modified = UNIX_EPOCH + Duration::from_secs(1_700_000_100);
    let mut fs = MemoryFileSystem::new();
    fs.add_file("src/a.txt", b"same").unwrap();
    fs.add_file("dst/a.txt", b"same").unwrap();
    fs.set_mtime("src/a.txt", modified).unwrap();
    fs.set_mtime("dst/a.txt", modified).unwrap();

    let report = sync_tree(
        &mut fs,
        "src",
        "dst",
        SyncOptions { dry_run: false, preserve_mtime: true, ..SyncOptions::default() },
    )
    .unwrap();

    assert!(!report.actions().iter().any(|action| matches!(action, SyncAction::WriteFile { .. })));
}

#[test]
fn checksum_mode_updates_same_size_different_content() {
    let modified = UNIX_EPOCH + Duration::from_secs(1_700_000_101);
    let mut fs = MemoryFileSystem::new();
    fs.add_file("src/a.txt", b"new!").unwrap();
    fs.add_file("dst/a.txt", b"old!").unwrap();
    fs.set_mtime("src/a.txt", modified).unwrap();
    fs.set_mtime("dst/a.txt", modified).unwrap();

    sync_tree(
        &mut fs,
        "src",
        "dst",
        SyncOptions {
            dry_run: false,
            preserve_mtime: false,
            update_mode: UpdateMode::Checksum,
            ..SyncOptions::default()
        },
    )
    .unwrap();

    assert_eq!(fs.read_file("dst/a.txt").unwrap(), b"new!");
}

#[test]
fn checksum_mode_preserves_mtime_when_content_is_unchanged() {
    let source_mtime = UNIX_EPOCH + Duration::from_secs(1_700_000_102);
    let old_dest_mtime = UNIX_EPOCH + Duration::from_secs(1_600_000_000);
    let mut fs = MemoryFileSystem::new();
    fs.add_file("src/a.txt", b"same").unwrap();
    fs.add_file("dst/a.txt", b"same").unwrap();
    fs.set_mtime("src/a.txt", source_mtime).unwrap();
    fs.set_mtime("dst/a.txt", old_dest_mtime).unwrap();

    let report = sync_tree(
        &mut fs,
        "src",
        "dst",
        SyncOptions {
            dry_run: false,
            preserve_mtime: true,
            update_mode: UpdateMode::Checksum,
            ..SyncOptions::default()
        },
    )
    .unwrap();

    assert!(report.actions().contains(&SyncAction::PreserveMtime(s("dst/a.txt"))));
    assert_eq!(fs.metadata("dst/a.txt").unwrap().modified, Some(source_mtime));
}

#[test]
fn omit_dir_times_preserves_file_mtimes_but_not_directory_mtimes() {
    let source_file_mtime = UNIX_EPOCH + Duration::from_secs(1_700_000_200);
    let source_dir_mtime = UNIX_EPOCH + Duration::from_secs(1_700_000_300);
    let old_dest_dir_mtime = UNIX_EPOCH + Duration::from_secs(1_600_000_000);
    let mut fs = MemoryFileSystem::new();
    fs.add_dir("src/sub").unwrap();
    fs.add_file("src/sub/file.txt", b"content").unwrap();
    fs.add_dir("dst/sub").unwrap();
    fs.set_mtime("src/sub", source_dir_mtime).unwrap();
    fs.set_mtime("src/sub/file.txt", source_file_mtime).unwrap();
    fs.set_mtime("dst/sub", old_dest_dir_mtime).unwrap();

    let report = sync_tree(
        &mut fs,
        "src",
        "dst",
        SyncOptions {
            dry_run: false,
            preserve_mtime: true,
            omit_dir_times: true,
            update_mode: UpdateMode::IgnoreTimes,
            ..SyncOptions::default()
        },
    )
    .unwrap();

    assert!(report.actions().contains(&SyncAction::PreserveMtime(s("dst/sub/file.txt"))));
    assert!(!report.actions().contains(&SyncAction::PreserveMtime(s("dst/sub"))));
    assert_eq!(fs.metadata("dst/sub/file.txt").unwrap().modified, Some(source_file_mtime));
    assert_ne!(fs.metadata("dst/sub").unwrap().modified, Some(source_dir_mtime));
}

#[test]
fn append_verify_appends_when_destination_is_source_prefix() {
    let mut fs = MemoryFileSystem::new();
    fs.add_file("src/a.txt", b"abcdef").unwrap();
    fs.add_file("dst/a.txt", b"abc").unwrap();

    let report = sync_tree(
        &mut fs,
        "src",
        "dst",
        SyncOptions {
            dry_run: false,
            preserve_mtime: false,
            append_verify: true,
            ..SyncOptions::default()
        },
    )
    .unwrap();

    assert_eq!(fs.read_file("dst/a.txt").unwrap(), b"abcdef");
    assert!(report.actions().contains(&SyncAction::AppendFile { path: s("dst/a.txt"), len: 3 }));
    assert!(!report.actions().iter().any(|action| matches!(action, SyncAction::WriteFile { .. })));
}

#[test]
fn inplace_mode_reports_inplace_write() {
    let mut fs = MemoryFileSystem::new();
    fs.add_file("src/a.txt", b"new").unwrap();
    fs.add_file("dst/a.txt", b"old").unwrap();

    let report = sync_tree(
        &mut fs,
        "src",
        "dst",
        SyncOptions {
            dry_run: false,
            preserve_mtime: false,
            file_write_mode: FileWriteMode::InPlace,
            update_mode: UpdateMode::IgnoreTimes,
            ..SyncOptions::default()
        },
    )
    .unwrap();

    assert_eq!(fs.read_file("dst/a.txt").unwrap(), b"new");
    assert!(report.actions().iter().any(|action| matches!(action,
        SyncAction::WriteFileInPlace { path, len } if path == "dst/a.txt" && *len == 3)));
}

#[test]
fn copy_links_copies_file_symlink_referent() {
    let mut fs = MemoryFileSystem::new();
    fs.add_file("src/target.txt", b"target").unwrap();
    fs.add_symlink("src/link.txt", "target.txt").unwrap();

    sync_tree(
        &mut fs,
        "src",
        "dst",
        SyncOptions {
            dry_run: false,
            preserve_mtime: false,
            symlink_mode: SymlinkMode::CopyAll,
            ..SyncOptions::default()
        },
    )
    .unwrap();

    assert_eq!(fs.read_file("dst/link.txt").unwrap(), b"target");
}

#[test]
fn copy_links_copies_directory_symlink_referent_under_link_name() {
    let mut fs = MemoryFileSystem::new();
    fs.add_file("src/real/file.txt", b"target").unwrap();
    fs.add_symlink("src/linkdir", "real").unwrap();

    sync_tree(
        &mut fs,
        "src",
        "dst",
        SyncOptions {
            recursive: true,
            dry_run: false,
            preserve_mtime: false,
            symlink_mode: SymlinkMode::CopyAll,
            ..SyncOptions::default()
        },
    )
    .unwrap();

    assert_eq!(fs.read_file("dst/linkdir/file.txt").unwrap(), b"target");
}

#[test]
fn safe_links_skips_unsafe_sender_symlinks() {
    let mut fs = MemoryFileSystem::new();
    fs.add_file("secret.txt", b"secret").unwrap();
    fs.add_symlink("src/unsafe.txt", "../secret.txt").unwrap();

    sync_tree(
        &mut fs,
        "src",
        "dst",
        SyncOptions {
            dry_run: false,
            preserve_mtime: false,
            symlink_mode: SymlinkMode::SafeOnly,
            ..SyncOptions::default()
        },
    )
    .unwrap();

    assert!(!fs.path_exists("dst/unsafe.txt"));
}

#[test]
fn default_mode_skips_sender_symlinks() {
    let mut fs = MemoryFileSystem::new();
    fs.add_file("src/target.txt", b"target").unwrap();
    fs.add_symlink("src/link.txt", "target.txt").unwrap();

    sync_tree(
        &mut fs,
        "src",
        "dst",
        SyncOptions { dry_run: false, preserve_mtime: false, ..SyncOptions::default() },
    )
    .unwrap();

    assert!(!fs.path_exists("dst/link.txt"));
    assert_eq!(fs.read_file("dst/target.txt").unwrap(), b"target");
}

#[test]
fn links_mode_preserves_symlink_targets() {
    let mut fs = MemoryFileSystem::new();
    fs.add_file("src/target.txt", b"target").unwrap();
    fs.add_symlink("src/link.txt", "target.txt").unwrap();

    let report = sync_tree(
        &mut fs,
        "src",
        "dst",
        SyncOptions {
            dry_run: false,
            preserve_mtime: false,
            symlink_mode: SymlinkMode::Preserve,
            ..SyncOptions::default()
        },
    )
    .unwrap();

    let metadata = fs.metadata("dst/link.txt").unwrap();
    assert_eq!(metadata.file_type, FileType::Symlink);
    assert_eq!(metadata.symlink_target.as_deref(), Some("target.txt"));
    assert!(report.actions().iter().any(|action| matches!(
        action,
        SyncAction::CreateSymlink { path, target } if path == "dst/link.txt" && target == "target.txt"
    )));
}

#[test]
fn links_mode_reports_filesystem_symlink_capability_errors() {
    let mut fs = FailingCopyFileSystem::new("__copy_never_fails__");
    fs.inner.add_file("src/target.txt", b"target").unwrap();
    fs.inner.add_symlink("src/link.txt", "target.txt").unwrap();

    let err = sync_tree(
        &mut fs,
        "src",
        "dst",
        SyncOptions {
            dry_run: false,
            preserve_mtime: false,
            symlink_mode: SymlinkMode::Preserve,
            ..SyncOptions::default()
        },
    )
    .unwrap_err();

    assert!(err.message().contains("creating symlinks is unsupported by this filesystem"));
}

#[test]
fn munge_links_preserves_link_as_safe_munged_target() {
    let mut fs = MemoryFileSystem::new();
    fs.add_file("secret.txt", b"secret").unwrap();
    fs.add_symlink("src/link.txt", "../secret.txt").unwrap();

    sync_tree(
        &mut fs,
        "src",
        "dst",
        SyncOptions {
            dry_run: false,
            preserve_mtime: false,
            symlink_mode: SymlinkMode::Munge,
            ..SyncOptions::default()
        },
    )
    .unwrap();

    let metadata = fs.metadata("dst/link.txt").unwrap();
    assert_eq!(metadata.file_type, FileType::Symlink);
    assert_eq!(metadata.symlink_target.as_deref(), Some("/rsyncd-munged/../secret.txt"));
}

#[test]
fn copy_dirlinks_only_follows_directory_symlinks() {
    let mut fs = MemoryFileSystem::new();
    fs.add_file("src/real-dir/file.txt", b"dir").unwrap();
    fs.add_file("src/file-target.txt", b"file").unwrap();
    fs.add_symlink("src/linkdir", "real-dir").unwrap();
    fs.add_symlink("src/linkfile.txt", "file-target.txt").unwrap();

    sync_tree(
        &mut fs,
        "src",
        "dst",
        SyncOptions {
            recursive: true,
            dry_run: false,
            preserve_mtime: false,
            symlink_mode: SymlinkMode::CopyDirLinks,
            ..SyncOptions::default()
        },
    )
    .unwrap();

    assert_eq!(fs.read_file("dst/linkdir/file.txt").unwrap(), b"dir");
    assert_eq!(fs.metadata("dst/linkfile.txt").unwrap().file_type, FileType::Symlink);
}

#[test]
fn keep_dirlinks_reuses_receiver_directory_symlink() {
    let mut fs = MemoryFileSystem::new();
    fs.add_file("src/linkdir/file.txt", b"new").unwrap();
    fs.add_dir("dst/real").unwrap();
    fs.add_symlink("dst/linkdir", "real").unwrap();

    sync_tree(
        &mut fs,
        "src",
        "dst",
        SyncOptions {
            recursive: true,
            dry_run: false,
            preserve_mtime: false,
            keep_dirlinks: true,
            ..SyncOptions::default()
        },
    )
    .unwrap();

    assert_eq!(fs.metadata("dst/linkdir").unwrap().file_type, FileType::Symlink);
    assert_eq!(fs.read_file("dst/real/file.txt").unwrap(), b"new");
}

#[test]
fn hard_links_mode_preserves_memory_hardlink_groups() {
    let mut fs = MemoryFileSystem::new();
    fs.add_file("src/original.txt", b"same").unwrap();
    fs.add_hardlink("src/original.txt", "src/alias.txt").unwrap();

    let report = sync_tree(
        &mut fs,
        "src",
        "dst",
        SyncOptions {
            dry_run: false,
            preserve_mtime: false,
            preserve_hard_links: true,
            ..SyncOptions::default()
        },
    )
    .unwrap();

    let original = fs.metadata("dst/original.txt").unwrap();
    let alias = fs.metadata("dst/alias.txt").unwrap();
    assert_eq!(original.hardlink_id, alias.hardlink_id);
    assert!(report.actions().iter().any(|action| matches!(
        action,
        SyncAction::CreateHardLink { from, to }
            if (from == "dst/original.txt" && to == "dst/alias.txt")
                || (from == "dst/alias.txt" && to == "dst/original.txt")
    )));
}

#[test]
fn hard_links_mode_falls_back_to_file_copy_when_link_creation_fails() {
    let mut fs = FailingCopyFileSystem::new("__copy_never_fails__");
    fs.inner.add_file("src/original.txt", b"same").unwrap();
    fs.inner.add_hardlink("src/original.txt", "src/alias.txt").unwrap();

    let report = sync_tree(
        &mut fs,
        "src",
        "dst",
        SyncOptions {
            dry_run: false,
            preserve_mtime: false,
            preserve_hard_links: true,
            ..SyncOptions::default()
        },
    )
    .unwrap();

    assert_eq!(fs.inner.read_file("dst/original.txt").unwrap(), b"same");
    assert_eq!(fs.inner.read_file("dst/alias.txt").unwrap(), b"same");
    assert!(report.actions().iter().any(|action| matches!(
        action,
        SyncAction::Warn { message, .. }
            if message.contains("hard link preservation fell back to file copy")
    )));
}

#[test]
fn device_and_special_file_options_warn_or_error_in_portable_sync() {
    let mut fs = MemoryFileSystem::new();
    fs.add_device("src/null").unwrap();
    fs.add_special("src/socket").unwrap();

    let warn_report = sync_tree(
        &mut fs,
        "src",
        "dst-warn",
        SyncOptions {
            dry_run: false,
            preserve_mtime: false,
            preserve_devices: true,
            preserve_specials: true,
            fail_on_metadata_loss: false,
            ..SyncOptions::default()
        },
    )
    .unwrap();
    assert_eq!(warn_report.warnings().len(), 2);

    let err = sync_tree(
        &mut fs,
        "src",
        "dst-error",
        SyncOptions {
            dry_run: false,
            preserve_mtime: false,
            preserve_devices: true,
            preserve_specials: true,
            fail_on_metadata_loss: true,
            ..SyncOptions::default()
        },
    )
    .unwrap_err();
    assert!(matches!(err, FsError::Unsupported(message) if message.contains("device")));
}

#[test]
fn files_from_limits_sender_entries_and_protects_other_deletes() {
    let mut fs = MemoryFileSystem::new();
    fs.add_file("src/keep.txt", b"keep").unwrap();
    fs.add_file("src/skip.txt", b"skip").unwrap();
    fs.add_file("dst/old.txt", b"old").unwrap();

    let report = sync_tree(
        &mut fs,
        "src",
        "dst",
        SyncOptions {
            delete: true,
            dry_run: false,
            preserve_mtime: false,
            files_from: Some(vec![s("keep.txt")]),
            ..SyncOptions::default()
        },
    )
    .unwrap();

    assert_eq!(fs.read_file("dst/keep.txt").unwrap(), b"keep");
    assert!(!fs.path_exists("dst/skip.txt"));
    assert_eq!(fs.read_file("dst/old.txt").unwrap(), b"old");
    assert!(report.actions().contains(&SyncAction::ProtectDelete(s("dst/old.txt"))));
}

#[test]
fn sync_sources_batches_multiple_sources_under_destination() {
    let mut fs = MemoryFileSystem::new();
    fs.add_file("src/one.txt", b"one").unwrap();
    fs.add_file("src/dir/two.txt", b"two").unwrap();

    let report = sync_sources(
        &mut fs,
        &[s("src/one.txt"), s("src/dir")],
        "dst",
        SyncOptions { dry_run: false, preserve_mtime: false, ..SyncOptions::default() },
    )
    .unwrap();

    assert_eq!(fs.read_file("dst/one.txt").unwrap(), b"one");
    assert_eq!(fs.read_file("dst/dir/two.txt").unwrap(), b"two");
    assert!(report.actions().contains(&SyncAction::CreateDir(s("dst"))));
}

#[test]
fn filters_sender_entries_and_protects_receiver_deletes() {
    let mut fs = MemoryFileSystem::new();
    fs.add_file("src/keep.txt", b"keep").unwrap();
    fs.add_file("src/cache.tmp", b"cache").unwrap();
    fs.add_file("src/sent.bak", b"new-backup").unwrap();
    fs.add_file("dst/cache.tmp", b"old-cache").unwrap();
    fs.add_file("dst/protected.bak", b"backup").unwrap();
    fs.add_file("dst/delete.me", b"delete").unwrap();

    let report = sync_tree(
        &mut fs,
        "src",
        "dst",
        SyncOptions {
            recursive: true,
            delete: true,
            dry_run: false,
            preserve_mtime: false,
            filter_rules: RuleSet::new(vec![
                Rule::exclude("*.tmp").unwrap(),
                Rule::protect("*.bak").unwrap(),
            ]),
            update_mode: UpdateMode::QuickCheck,
            files_from: None,
            ..SyncOptions::default()
        },
    )
    .unwrap();

    assert_eq!(fs.read_file("dst/keep.txt").unwrap(), b"keep");
    assert_eq!(fs.read_file("dst/sent.bak").unwrap(), b"new-backup");
    assert!(!fs.path_exists("dst/delete.me"));
    assert_eq!(fs.read_file("dst/cache.tmp").unwrap(), b"old-cache");
    assert_eq!(fs.read_file("dst/protected.bak").unwrap(), b"backup");
    assert!(report.actions().contains(&SyncAction::ProtectDelete(s("dst/cache.tmp"))));
    assert!(report.actions().contains(&SyncAction::ProtectDelete(s("dst/protected.bak"))));
}

#[test]
fn dir_merge_filter_files_apply_to_directory_descendants() {
    let mut fs = MemoryFileSystem::new();
    fs.add_file("src/.rsync-filter", b"- *.tmp\n").unwrap();
    fs.add_file("src/keep.txt", b"keep").unwrap();
    fs.add_file("src/drop.tmp", b"drop").unwrap();
    fs.add_file("src/nested/.rsync-filter", b"- secret.*\n").unwrap();
    fs.add_file("src/nested/visible.txt", b"visible").unwrap();
    fs.add_file("src/nested/secret.txt", b"secret").unwrap();

    sync_tree(
        &mut fs,
        "src",
        "dst",
        SyncOptions {
            dry_run: false,
            preserve_mtime: false,
            filter_rules: RuleSet::new(vec![Rule::parse_filter(": .rsync-filter").unwrap()]),
            ..SyncOptions::default()
        },
    )
    .unwrap();

    assert_eq!(fs.read_file("dst/keep.txt").unwrap(), b"keep");
    assert!(!fs.path_exists("dst/drop.tmp"));
    assert_eq!(fs.read_file("dst/nested/visible.txt").unwrap(), b"visible");
    assert!(!fs.path_exists("dst/nested/secret.txt"));
}

#[test]
fn selected_source_paths_match_filter_and_files_from_selection() {
    let mut fs = MemoryFileSystem::new();
    fs.add_file("src/keep.txt", b"keep").unwrap();
    fs.add_file("src/drop.tmp", b"drop").unwrap();
    fs.add_file("src/dir/keep.dat", b"nested").unwrap();
    fs.add_file("src/dir/drop.tmp", b"nested-drop").unwrap();
    let files_from = vec![s("dir/keep.dat")];
    let rules = RuleSet::new(vec![Rule::exclude("*.tmp").unwrap()]);

    let paths = selected_source_paths(
        &fs,
        &[s("src")],
        SourceSelectionOptions {
            recursive: true,
            filter_rules: &rules,
            files_from: Some(&files_from),
            symlink_mode: SymlinkMode::Preserve,
            one_file_system: false,
        },
    )
    .unwrap();

    assert_eq!(paths, vec![s("src"), s("src/dir"), s("src/dir/keep.dat")]);
}

#[test]
fn selected_source_paths_skip_nonrecursive_child_directories() {
    let mut fs = MemoryFileSystem::new();
    fs.add_file("src/top.txt", b"top").unwrap();
    fs.add_file("src/nested/file.txt", b"nested").unwrap();
    let rules = RuleSet::empty();

    let paths = selected_source_paths(
        &fs,
        &[s("src")],
        SourceSelectionOptions {
            recursive: false,
            filter_rules: &rules,
            files_from: None,
            symlink_mode: SymlinkMode::Preserve,
            one_file_system: false,
        },
    )
    .unwrap();

    assert_eq!(paths, vec![s("src"), s("src/top.txt")]);
}

#[test]
fn directory_filter_protects_receiver_delete_descendants() {
    let mut fs = MemoryFileSystem::new();
    fs.add_file("src/keep.txt", b"keep").unwrap();
    fs.add_file("dst/cache/old.txt", b"old").unwrap();

    let report = sync_tree(
        &mut fs,
        "src",
        "dst",
        SyncOptions {
            recursive: true,
            delete: true,
            dry_run: false,
            preserve_mtime: false,
            filter_rules: RuleSet::new(vec![Rule::exclude("cache/").unwrap()]),
            ..SyncOptions::default()
        },
    )
    .unwrap();

    assert_eq!(fs.read_file("dst/cache/old.txt").unwrap(), b"old");
    assert!(report.actions().contains(&SyncAction::ProtectDelete(s("dst/cache/old.txt"))));
}

#[test]
fn replaces_destination_directory_with_source_file() {
    let mut fs = MemoryFileSystem::new();
    fs.add_file("src/item", b"file").unwrap();
    fs.add_file("dst/item/old.txt", b"old").unwrap();

    let report = sync_tree(
        &mut fs,
        "src",
        "dst",
        SyncOptions {
            delete: true,
            dry_run: false,
            preserve_mtime: false,
            ..SyncOptions::default()
        },
    )
    .unwrap();

    assert_eq!(fs.read_file("dst/item").unwrap(), b"file");
    assert!(!fs.path_exists("dst/item/old.txt"));
    assert!(report.actions().contains(&SyncAction::DeleteDir(s("dst/item"))));
}

#[test]
fn dirs_mode_creates_top_level_directories_without_recursing() {
    let mut fs = MemoryFileSystem::new();
    fs.add_file("src/top.txt", b"top").unwrap();
    fs.add_file("src/nested/file.txt", b"nested").unwrap();

    let report = sync_tree(
        &mut fs,
        "src",
        "dst",
        SyncOptions {
            recursive: false,
            transfer_dirs: true,
            dry_run: false,
            preserve_mtime: false,
            ..SyncOptions::default()
        },
    )
    .unwrap();

    assert_eq!(fs.read_file("dst/top.txt").unwrap(), b"top");
    assert!(fs.metadata("dst/nested").unwrap().file_type == FileType::Directory);
    assert!(!fs.path_exists("dst/nested/file.txt"));
    assert!(report.actions().contains(&SyncAction::CreateDir(s("dst/nested"))));
}

#[test]
fn relative_mode_preserves_operand_path_under_destination() {
    let mut fs = MemoryFileSystem::new();
    fs.add_file("src/nested/file.txt", b"data").unwrap();

    sync_sources(
        &mut fs,
        &[s("src/nested/file.txt")],
        "dst",
        SyncOptions {
            dry_run: false,
            preserve_mtime: false,
            relative_paths: true,
            ..SyncOptions::default()
        },
    )
    .unwrap();

    assert_eq!(fs.read_file("dst/src/nested/file.txt").unwrap(), b"data");
}

#[test]
fn no_implied_dirs_preserves_receiver_path_elements() {
    let mut implied_fs = MemoryFileSystem::new();
    implied_fs.add_file("src/nested/file.txt", b"data").unwrap();
    implied_fs.add_dir("dst/elsewhere").unwrap();
    implied_fs.add_symlink("dst/src/nested", "../elsewhere").unwrap();

    sync_sources(
        &mut implied_fs,
        &[s("src/nested/file.txt")],
        "dst",
        SyncOptions {
            dry_run: false,
            preserve_mtime: false,
            relative_paths: true,
            implied_dirs: true,
            ..SyncOptions::default()
        },
    )
    .unwrap();

    assert_eq!(implied_fs.metadata("dst/src/nested").unwrap().file_type, FileType::Directory);

    let mut no_implied_fs = MemoryFileSystem::new();
    no_implied_fs.add_file("src/nested/file.txt", b"data").unwrap();
    no_implied_fs.add_dir("dst/elsewhere").unwrap();
    no_implied_fs.add_symlink("dst/src/nested", "../elsewhere").unwrap();

    sync_sources(
        &mut no_implied_fs,
        &[s("src/nested/file.txt")],
        "dst",
        SyncOptions {
            dry_run: false,
            preserve_mtime: false,
            relative_paths: true,
            implied_dirs: false,
            ..SyncOptions::default()
        },
    )
    .unwrap();

    assert_eq!(no_implied_fs.metadata("dst/src/nested").unwrap().file_type, FileType::Symlink);
}

#[test]
fn update_predicates_skip_newer_existing_and_size_excluded_files() {
    let older = UNIX_EPOCH + Duration::from_secs(1_700_000_000);
    let newer = older + Duration::from_secs(60);
    let mut fs = MemoryFileSystem::new();
    fs.add_file("src/newer-on-dest.txt", b"sender").unwrap();
    fs.add_file("dst/newer-on-dest.txt", b"receiver").unwrap();
    fs.set_mtime("src/newer-on-dest.txt", older).unwrap();
    fs.set_mtime("dst/newer-on-dest.txt", newer).unwrap();
    fs.add_file("src/create-me.txt", b"new").unwrap();
    fs.add_file("src/existing.txt", b"sender").unwrap();
    fs.add_file("dst/existing.txt", b"receiver").unwrap();
    fs.add_file("src/too-large.bin", b"12345").unwrap();
    fs.add_file("src/too-small.bin", b"1").unwrap();

    sync_tree(
        &mut fs,
        "src",
        "dst",
        SyncOptions {
            dry_run: false,
            preserve_mtime: false,
            skip_newer_receiver: true,
            ignore_existing: true,
            max_size: Some(4),
            min_size: Some(2),
            ..SyncOptions::default()
        },
    )
    .unwrap();

    assert_eq!(fs.read_file("dst/newer-on-dest.txt").unwrap(), b"receiver");
    assert_eq!(fs.read_file("dst/existing.txt").unwrap(), b"receiver");
    assert_eq!(fs.read_file("dst/create-me.txt").unwrap(), b"new");
    assert!(!fs.path_exists("dst/too-large.bin"));
    assert!(!fs.path_exists("dst/too-small.bin"));
}

#[test]
fn one_file_system_skips_entries_on_other_boundaries() {
    let mut fs = BoundaryFileSystem {
        inner: MemoryFileSystem::new(),
        other_file_system_roots: vec![s("src/mounted")],
    };
    fs.inner.add_file("src/keep.txt", b"keep").unwrap();
    fs.inner.add_file("src/mounted/skip.txt", b"skip").unwrap();

    sync_tree(
        &mut fs,
        "src",
        "dst",
        SyncOptions {
            dry_run: false,
            preserve_mtime: false,
            one_file_system: true,
            ..SyncOptions::default()
        },
    )
    .unwrap();

    assert_eq!(fs.inner.read_file("dst/keep.txt").unwrap(), b"keep");
    assert!(!fs.inner.path_exists("dst/mounted"));
}

#[test]
fn modify_window_treats_close_mtimes_as_equal() {
    let source_mtime = UNIX_EPOCH + Duration::from_secs(1_700_000_100);
    let dest_mtime = source_mtime + Duration::from_secs(1);
    let mut fs = MemoryFileSystem::new();
    fs.add_file("src/a.txt", b"same-size").unwrap();
    fs.add_file("dst/a.txt", b"old-bytes").unwrap();
    fs.set_mtime("src/a.txt", source_mtime).unwrap();
    fs.set_mtime("dst/a.txt", dest_mtime).unwrap();

    let report = sync_tree(
        &mut fs,
        "src",
        "dst",
        SyncOptions {
            dry_run: false,
            preserve_mtime: false,
            modify_window: 1,
            ..SyncOptions::default()
        },
    )
    .unwrap();

    assert_eq!(fs.read_file("dst/a.txt").unwrap(), b"old-bytes");
    assert!(!report.actions().iter().any(|action| matches!(action, SyncAction::WriteFile { .. })));
}

#[test]
fn existing_skips_receiver_missing_files() {
    let mut fs = MemoryFileSystem::new();
    fs.add_file("src/create-me.txt", b"new").unwrap();
    fs.add_file("src/update-me.txt", b"new").unwrap();
    fs.add_file("dst/update-me.txt", b"old").unwrap();

    sync_tree(
        &mut fs,
        "src",
        "dst",
        SyncOptions {
            dry_run: false,
            preserve_mtime: false,
            existing_only: true,
            update_mode: UpdateMode::IgnoreTimes,
            ..SyncOptions::default()
        },
    )
    .unwrap();

    assert!(!fs.path_exists("dst/create-me.txt"));
    assert_eq!(fs.read_file("dst/update-me.txt").unwrap(), b"new");
}

#[test]
fn missing_arg_options_ignore_or_delete_receiver_paths() {
    let mut ignore_fs = MemoryFileSystem::new();
    ignore_fs.add_file("src/present.txt", b"new").unwrap();
    ignore_fs.add_file("dst/missing.txt", b"old").unwrap();

    sync_sources(
        &mut ignore_fs,
        &[s("src/missing.txt"), s("src/present.txt")],
        "dst",
        SyncOptions {
            dry_run: false,
            preserve_mtime: false,
            ignore_missing_args: true,
            ..SyncOptions::default()
        },
    )
    .unwrap();

    assert_eq!(ignore_fs.read_file("dst/present.txt").unwrap(), b"new");
    assert_eq!(ignore_fs.read_file("dst/missing.txt").unwrap(), b"old");

    let mut delete_fs = MemoryFileSystem::new();
    delete_fs.add_file("dst/missing.txt", b"old").unwrap();

    let report = sync_sources(
        &mut delete_fs,
        &[s("src/missing.txt")],
        "dst",
        SyncOptions {
            dry_run: false,
            preserve_mtime: false,
            delete_missing_args: true,
            ..SyncOptions::default()
        },
    )
    .unwrap();

    assert!(!delete_fs.path_exists("dst/missing.txt"));
    assert!(report.actions().contains(&SyncAction::DeleteFile(s("dst/missing.txt"))));
}

#[test]
fn delete_missing_args_requires_force_or_delete_for_nonempty_dirs() {
    let mut protected_fs = MemoryFileSystem::new();
    protected_fs.add_file("dst/missing/nested.txt", b"old").unwrap();

    sync_sources(
        &mut protected_fs,
        &[s("src/missing")],
        "dst",
        SyncOptions {
            dry_run: false,
            preserve_mtime: false,
            delete_missing_args: true,
            ..SyncOptions::default()
        },
    )
    .unwrap();

    assert!(protected_fs.path_exists("dst/missing/nested.txt"));

    let mut force_fs = MemoryFileSystem::new();
    force_fs.add_file("dst/missing/nested.txt", b"old").unwrap();

    sync_sources(
        &mut force_fs,
        &[s("src/missing")],
        "dst",
        SyncOptions {
            dry_run: false,
            preserve_mtime: false,
            delete_missing_args: true,
            force_delete: true,
            ..SyncOptions::default()
        },
    )
    .unwrap();

    assert!(!force_fs.path_exists("dst/missing"));
}

#[test]
fn force_delete_controls_nonempty_dir_replacement() {
    let mut protected_fs = MemoryFileSystem::new();
    protected_fs.add_file("src/conflict", b"new").unwrap();
    protected_fs.add_file("dst/conflict/nested.txt", b"old").unwrap();

    let report = sync_sources(
        &mut protected_fs,
        &[s("src/conflict")],
        "dst",
        SyncOptions { dry_run: false, preserve_mtime: false, ..SyncOptions::default() },
    )
    .unwrap();

    assert!(report.actions().contains(&SyncAction::ProtectDelete(s("dst/conflict"))));
    assert!(protected_fs.path_exists("dst/conflict/nested.txt"));

    let mut force_fs = MemoryFileSystem::new();
    force_fs.add_file("src/conflict", b"new").unwrap();
    force_fs.add_file("dst/conflict/nested.txt", b"old").unwrap();

    sync_sources(
        &mut force_fs,
        &[s("src/conflict")],
        "dst",
        SyncOptions {
            dry_run: false,
            preserve_mtime: false,
            force_delete: true,
            ..SyncOptions::default()
        },
    )
    .unwrap();

    assert_eq!(force_fs.read_file("dst/conflict").unwrap(), b"new");
    assert!(!force_fs.path_exists("dst/conflict/nested.txt"));
}

#[test]
fn delete_modes_order_deletions_and_delete_excluded_controls_filter_protection() {
    let mut before_fs = MemoryFileSystem::new();
    before_fs.add_file("src/new.txt", b"new").unwrap();
    before_fs.add_file("dst/old.txt", b"old").unwrap();

    let before = sync_tree(
        &mut before_fs,
        "src",
        "dst",
        SyncOptions {
            dry_run: false,
            preserve_mtime: false,
            delete_mode: DeleteMode::Before,
            ..SyncOptions::default()
        },
    )
    .unwrap();

    assert!(matches!(before.actions()[0], SyncAction::DeleteFile(_)));

    let mut after_fs = MemoryFileSystem::new();
    after_fs.add_file("src/new.txt", b"new").unwrap();
    after_fs.add_file("dst/old.txt", b"old").unwrap();
    let after = sync_tree(
        &mut after_fs,
        "src",
        "dst",
        SyncOptions {
            dry_run: false,
            preserve_mtime: false,
            delete_mode: DeleteMode::After,
            ..SyncOptions::default()
        },
    )
    .unwrap();
    assert!(matches!(after.actions().last().unwrap(), SyncAction::DeleteFile(_)));

    let mut protected_fs = MemoryFileSystem::new();
    protected_fs.add_file("src/keep.txt", b"keep").unwrap();
    protected_fs.add_file("dst/cache.tmp", b"old").unwrap();
    sync_tree(
        &mut protected_fs,
        "src",
        "dst",
        SyncOptions {
            dry_run: false,
            preserve_mtime: false,
            delete_mode: DeleteMode::After,
            filter_rules: RuleSet::new(vec![Rule::exclude("*.tmp").unwrap()]),
            ..SyncOptions::default()
        },
    )
    .unwrap();
    assert!(protected_fs.path_exists("dst/cache.tmp"));

    let mut delete_excluded_fs = MemoryFileSystem::new();
    delete_excluded_fs.add_file("src/keep.txt", b"keep").unwrap();
    delete_excluded_fs.add_file("dst/cache.tmp", b"old").unwrap();
    sync_tree(
        &mut delete_excluded_fs,
        "src",
        "dst",
        SyncOptions {
            dry_run: false,
            preserve_mtime: false,
            delete_mode: DeleteMode::After,
            delete_excluded: true,
            filter_rules: RuleSet::new(vec![Rule::exclude("*.tmp").unwrap()]),
            ..SyncOptions::default()
        },
    )
    .unwrap();
    assert!(!delete_excluded_fs.path_exists("dst/cache.tmp"));
}

#[test]
fn max_delete_stops_after_the_configured_limit() {
    let mut fs = MemoryFileSystem::new();
    fs.add_file("src/keep.txt", b"keep").unwrap();
    fs.add_file("dst/one.txt", b"1").unwrap();
    fs.add_file("dst/two.txt", b"2").unwrap();

    let err = sync_tree(
        &mut fs,
        "src",
        "dst",
        SyncOptions {
            dry_run: false,
            preserve_mtime: false,
            delete_mode: DeleteMode::Before,
            max_delete: Some(1),
            ..SyncOptions::default()
        },
    )
    .unwrap_err();

    assert!(matches!(err, FsError::MaxDeleteExceeded { limit: 1 }));
    let remaining =
        ["dst/one.txt", "dst/two.txt"].into_iter().filter(|path| fs.path_exists(path)).count();
    assert_eq!(remaining, 1);
}

#[test]
fn ignore_errors_still_applies_delete_after_when_transfer_fails() {
    let mut fs = FailingCopyFileSystem::new("src/fail.txt");
    fs.inner.add_file("src/fail.txt", b"new").unwrap();
    fs.inner.add_file("dst/fail.txt", b"old").unwrap();
    fs.inner.add_file("dst/remove.txt", b"extra").unwrap();

    let err = sync_tree(
        &mut fs,
        "src",
        "dst",
        SyncOptions {
            dry_run: false,
            preserve_mtime: false,
            update_mode: UpdateMode::IgnoreTimes,
            delete_mode: DeleteMode::After,
            ignore_errors: true,
            ..SyncOptions::default()
        },
    )
    .unwrap_err();

    assert!(matches!(err, FsError::Unsupported("injected copy failure")));
    assert_eq!(fs.inner.read_file("dst/fail.txt").unwrap(), b"old");
    assert!(!fs.inner.path_exists("dst/remove.txt"));
}

#[test]
fn backup_options_save_updated_and_deleted_receiver_files() {
    let mut fs = MemoryFileSystem::new();
    fs.add_file("src/update.txt", b"new").unwrap();
    fs.add_file("dst/update.txt", b"old").unwrap();
    fs.add_file("dst/remove.txt", b"gone").unwrap();

    let report = sync_tree(
        &mut fs,
        "src",
        "dst",
        SyncOptions {
            dry_run: false,
            preserve_mtime: false,
            update_mode: UpdateMode::IgnoreTimes,
            delete_mode: DeleteMode::After,
            backup: true,
            backup_dir: Some(s("backups")),
            backup_suffix: ".bak".to_string(),
            ..SyncOptions::default()
        },
    )
    .unwrap();

    assert_eq!(fs.read_file("dst/backups/update.txt.bak").unwrap(), b"old");
    assert_eq!(fs.read_file("dst/backups/remove.txt.bak").unwrap(), b"gone");
    assert!(report.actions().iter().any(|action| matches!(
        action,
        SyncAction::BackupFile { from, to }
            if from == "dst/update.txt" && to == "dst/backups/update.txt.bak"
    )));
}

#[test]
fn mkpath_controls_creation_of_missing_destination_parents() {
    let mut without_mkpath = MemoryFileSystem::new();
    without_mkpath.add_file("src/file.txt", b"data").unwrap();

    let err = sync_sources(
        &mut without_mkpath,
        &[s("src")],
        "missing/parent/dst",
        SyncOptions { dry_run: false, preserve_mtime: false, ..SyncOptions::default() },
    )
    .unwrap_err();

    assert!(matches!(err, FsError::NotFound(path) if path == "missing/parent"));
    assert!(!without_mkpath.path_exists("missing/parent/dst"));

    let mut with_mkpath = MemoryFileSystem::new();
    with_mkpath.add_file("src/file.txt", b"data").unwrap();
    sync_sources(
        &mut with_mkpath,
        &[s("src")],
        "missing/parent/dst",
        SyncOptions {
            dry_run: false,
            preserve_mtime: false,
            mkpath: true,
            ..SyncOptions::default()
        },
    )
    .unwrap();

    assert_eq!(with_mkpath.read_file("missing/parent/dst/file.txt").unwrap(), b"data");
}

#[test]
fn delay_updates_keeps_receiver_files_unchanged_until_all_transfers_stage() {
    let mut fs = FailingCopyFileSystem::new("src/b.txt");
    fs.inner.add_file("src/a.txt", b"new-a").unwrap();
    fs.inner.add_file("src/b.txt", b"new-b").unwrap();
    fs.inner.add_file("dst/a.txt", b"old-a").unwrap();
    fs.inner.add_file("dst/b.txt", b"old-b").unwrap();

    let err = sync_tree(
        &mut fs,
        "src",
        "dst",
        SyncOptions {
            dry_run: false,
            preserve_mtime: false,
            update_mode: UpdateMode::IgnoreTimes,
            delay_updates: true,
            ..SyncOptions::default()
        },
    )
    .unwrap_err();

    assert!(matches!(err, FsError::Unsupported("injected copy failure")));
    assert_eq!(fs.inner.read_file("dst/a.txt").unwrap(), b"old-a");
    assert_eq!(fs.inner.read_file("dst/b.txt").unwrap(), b"old-b");
    assert!(!fs.inner.path_exists("dst/.~tmp~/a.txt"));
}

#[test]
fn replaces_destination_file_with_source_directory() {
    let mut fs = MemoryFileSystem::new();
    fs.add_file("src/item/nested.txt", b"nested").unwrap();
    fs.add_file("dst/item", b"old-file").unwrap();

    let report = sync_tree(
        &mut fs,
        "src",
        "dst",
        SyncOptions {
            delete: true,
            dry_run: false,
            preserve_mtime: false,
            ..SyncOptions::default()
        },
    )
    .unwrap();

    assert_eq!(fs.read_file("dst/item/nested.txt").unwrap(), b"nested");
    assert!(report.actions().contains(&SyncAction::DeleteFile(s("dst/item"))));
}

#[test]
fn refuses_destination_inside_source() {
    let mut fs = MemoryFileSystem::new();
    fs.add_file("src/a.txt", b"a").unwrap();

    let err = sync_tree(&mut fs, "src", "src/dst", SyncOptions::default()).unwrap_err();

    assert!(matches!(err, FsError::DestinationInsideSource));
}

#[test]
fn memory_filesystem_walks_sorted_tree() {
    let mut fs = MemoryFileSystem::new();
    fs.add_file("src/b.txt", b"b").unwrap();
    fs.add_file("src/a.txt", b"a").unwrap();

    let paths: Vec<String> =
        walk_tree(&fs, "src").unwrap().into_iter().map(|entry| entry.path).collect();

    assert_eq!(paths, vec![s("src/a.txt"), s("src/b.txt")]);
}

#[test]
fn memory_filesystem_rejects_parent_escape() {
    let mut fs = MemoryFileSystem::new();
    let err = fs.add_file("../escape.txt", b"x").unwrap_err();
    assert!(matches!(err, FsError::InvalidPortablePath(_)));
}

struct RejectNulComponent;

impl DestinationCheck for RejectNulComponent {
    fn check(&self, paths: &[String]) -> Result<(), FsError> {
        if paths.iter().any(|path| path.split(['/', '\\']).any(|name| name == "NUL")) {
            Err(FsError::DestinationPathPreflight("reserved name".to_string()))
        } else {
            Ok(())
        }
    }
}

struct RejectCasefoldCollisions;

impl DestinationCheck for RejectCasefoldCollisions {
    fn check(&self, paths: &[String]) -> Result<(), FsError> {
        let mut seen: Vec<(String, String)> = Vec::new();
        for path in paths {
            let key = path.to_lowercase();
            if let Some((_, first)) = seen.iter().find(|(k, _)| *k == key) {
                return Err(FsError::DestinationPathPreflight(format!(
                    "collision between {} and {}",
                    first, path
                )));
            }
            seen.push((key, path.clone()));
        }
        Ok(())
    }
}

#[test]
fn single_file_sync_runs_destination_preflight_before_write() {
    let mut fs = MemoryFileSystem::new();
    fs.add_file("source.txt", b"file").unwrap();

    let err = sync_tree_checked(
        &mut fs,
        "source.txt",
        "NUL",
        SyncOptions { dry_run: false, ..SyncOptions::default() },
        &RejectNulComponent,
    )
    .unwrap_err();

    assert!(matches!(err, FsError::DestinationPathPreflight(_)));
    assert!(!fs.path_exists("NUL"));
}

#[test]
fn destination_preflight_fails_before_mutating_sync() {
    let mut fs = MemoryFileSystem::new();
    fs.add_file("src/Foo.txt", b"upper").unwrap();
    fs.add_file("src/foo.txt", b"lower").unwrap();
    fs.add_file("dst/existing.txt", b"existing").unwrap();

    let err = sync_tree_checked(
        &mut fs,
        "src",
        "dst",
        SyncOptions { dry_run: false, ..SyncOptions::default() },
        &RejectCasefoldCollisions,
    )
    .unwrap_err();

    assert!(matches!(err, FsError::DestinationPathPreflight(_)));
    assert!(!fs.path_exists("dst/Foo.txt"));
    assert!(!fs.path_exists("dst/foo.txt"));
    assert_eq!(fs.read_file("dst/existing.txt").unwrap(), b"existing");
}

#[test]
fn filters_apply_to_every_leading_directory() {
    let rules = RuleSet::new(vec![Rule::exclude("cache/").unwrap(), Rule::protect("*.bak").unwrap()]);
    assert!(sender_path_is_filtered(&rules, "cache/a.txt", FileType::File));
    assert!(!sender_path_is_filtered(&rules, "keep/a.txt", FileType::File));
    assert!(sender_path_is_filtered(&rules, "../a.txt", FileType::File));
    assert!(delete_is_protected(&rules, "cache/old.txt", FileType::File, false));
    assert!(!delete_is_protected(&rules, "cache/old.txt", FileType::File, true));
    assert!(delete_is_protected(&rules, "dir/x.bak", FileType::File, true));
    assert!(!delete_is_protected(&rules, "dir/x.txt", FileType::File, false));
}

#[test]
fn dry_run_leaves_every_node_in_place() {
    let mut fs = MemoryFileSystem::new();
    fs.add_file("src/a.txt", b"new").unwrap();
    fs.add_file("dst/a.txt", b"old").unwrap();
    fs.add_file("dst/extra.txt", b"x").unwrap();
    let before = fs.paths();
    let report = sync_tree(
        &mut fs,
        "src",
        "dst",
        SyncOptions { delete: true, update_mode: UpdateMode::IgnoreTimes, ..SyncOptions::default() },
    )
    .unwrap();
    assert_eq!(fs.paths(), before);
    assert_eq!(fs.read_file("dst/a.txt").unwrap(), b"old");
    assert!(report.actions().contains(&SyncAction::DeleteFile(s("dst/extra.txt"))));
}

fn walked(entries: &[(&[&str], &str, FileType)]) -> EntryMap {
    let mut map = EntryMap::new();
    for (key, path, file_type) in entries {
        let mut metadata = PortableMetadata::file(1);
        metadata.file_type = *file_type;
        map.insert(key.iter().map(|k| k.to_string()).collect(), WalkEntry { path: path.to_string(), metadata });
    }
    map
}

#[test]
fn walked_sync_deletes_unprotected_receiver_extras() {
    let mut fs = MemoryFileSystem::new();
    fs.add_file("src/a.txt", b"a").unwrap();
    fs.add_file("dst/a.txt", b"a").unwrap();
    fs.add_file("dst/old.txt", b"old").unwrap();
    fs.add_file("dst/keep.log", b"log").unwrap();
    let source = walked(&[(&["a.txt"], "src/a.txt", FileType::File)]);
    let dest = walked(&[
        (&["a.txt"], "dst/a.txt", FileType::File),
        (&["keep.log"], "dst/keep.log", FileType::File),
        (&["old.txt"], "dst/old.txt", FileType::File),
    ]);
    let options = SyncOptions {
        dry_run: true,
        delete: true,
        filter_rules: RuleSet::new(vec![Rule::protect("*.log").unwrap()]),
        ..SyncOptions::default()
    };
    let report = sync_walked(&mut fs, "dst", &source, &dest, &options).unwrap();
    let actions = report.actions();
    assert!(actions.contains(&SyncAction::DeleteFile(s("dst/old.txt"))));
    assert!(actions.contains(&SyncAction::ProtectDelete(s("dst/keep.log"))));
    assert!(!actions.contains(&SyncAction::DeleteFile(s("dst/keep.log"))));
    assert!(!actions.contains(&SyncAction::DeleteFile(s("dst/a.txt"))));
    assert!(fs.path_exists("dst/old.txt"));
}

#[test]
fn walked_sync_creates_missing_destination_first() {
    let mut fs = MemoryFileSystem::new();
    fs.add_file("src/a.txt", b"a").unwrap();
    let source = walked(&[(&["a.txt"], "src/a.txt", FileType::File)]);
    let dest = EntryMap::new();
    let options = SyncOptions { dry_run: true, ..SyncOptions::default() };
    let report = sync_walked(&mut fs, "out", &source, &dest, &options).unwrap();
    assert_eq!(report.actions()[0], SyncAction::CreateDir(s("out")));
    assert!(report.actions().contains(&SyncAction::WriteFile { path: s("out/a.txt"), len: 1 }));
    assert!(!fs.path_exists("out"));
}

#[test]
fn merged_selected_paths_are_sorted_and_first_kept() {
    let paths = vec![s("b/x"), s("a"), s("./a"), s("b"), s("a")];
    let merged = merge_selected_paths(&paths);
    assert_eq!(merged, vec![s("a"), s("b"), s("b/x")]);
}
