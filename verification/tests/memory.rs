use std::time::{Duration, UNIX_EPOCH};

use rsync_win::fs::local::{
    classify_local_file_type, file_index, next_chunk_len, permission_bits, temp_file_name,
    temp_path_for, windows_permissions, LOCAL_COPY_BUFFER_SIZE,
};
use rsync_win::fs::memory_fs::{normalize_portable_path, MemoryFileSystem};
use rsync_win::fs::metadata::FileType;
use rsync_win::fs::sync_engine::{batch_target_path, destination_inside_source};
use rsync_win::fs::sync_paths::{
    append_suffix, destination_preflight_path, file_name, filter_path, files_from_matches,
    is_unsafe_symlink_target, join_paths, parent_path, relative_operand_path,
    resolve_symlink_target,
};
use rsync_win::fs::walk::{FileWriteOptions, FsError, PortableFileSystem};

#[test]
fn written_file_reads_back() {
    let mut fs = MemoryFileSystem::new();
    fs.write_file_atomic("a/b/c.txt", b"hello").unwrap();
    assert_eq!(fs.read_file("a/b/c.txt").unwrap(), b"hello");
    assert_eq!(fs.metadata("a/b").unwrap().file_type, FileType::Directory);
    assert_eq!(fs.metadata("a/b/c.txt").unwrap().len, 5);
}

#[test]
fn write_keeps_other_files() {
    let mut fs = MemoryFileSystem::new();
    fs.add_file("keep.txt", b"keep").unwrap();
    fs.write_file_direct("other.txt", b"x").unwrap();
    assert_eq!(fs.read_file("keep.txt").unwrap(), b"keep");
}

#[test]
fn appended_bytes_follow_old_content() {
    let mut fs = MemoryFileSystem::new();
    fs.add_file("log.txt", b"abc").unwrap();
    fs.append_file("log.txt", b"def").unwrap();
    assert_eq!(fs.read_file("log.txt").unwrap(), b"abcdef");
    assert_eq!(fs.metadata("log.txt").unwrap().len, 6);
    assert!(matches!(fs.append_file("missing.txt", b"x"), Err(FsError::NotFound(p)) if p == "missing.txt"));
}

#[test]
fn removed_file_is_gone() {
    let mut fs = MemoryFileSystem::new();
    fs.add_file("a.txt", b"a").unwrap();
    fs.remove_file("a.txt").unwrap();
    assert!(matches!(fs.metadata("a.txt"), Err(FsError::NotFound(p)) if p == "a.txt"));
    assert!(matches!(fs.read_file("a.txt"), Err(FsError::NotFound(_))));
    assert!(!fs.path_exists("a.txt"));
}

#[test]
fn remove_file_refuses_directories() {
    let mut fs = MemoryFileSystem::new();
    fs.add_dir("d").unwrap();
    assert!(matches!(fs.remove_file("d"), Err(FsError::Unsupported("remove_file on directory"))));
}

#[test]
fn create_dir_all_makes_every_prefix() {
    let mut fs = MemoryFileSystem::new();
    fs.create_dir_all("x/y/z").unwrap();
    assert_eq!(fs.paths(), vec!["".to_string(), "x".to_string(), "x/y".to_string(), "x/y/z".to_string()]);
}

#[test]
fn rename_moves_the_node() {
    let mut fs = MemoryFileSystem::new();
    fs.add_file("from.txt", b"data").unwrap();
    fs.rename_file("from.txt", "to/dir/into.txt").unwrap();
    assert!(!fs.path_exists("from.txt"));
    assert_eq!(fs.read_file("to/dir/into.txt").unwrap(), b"data");
    assert!(matches!(fs.rename_file("nope.txt", "x.txt"), Err(FsError::NotFound(p)) if p == "nope.txt"));
}

#[test]
fn copy_returns_length_copied() {
    let mut fs = MemoryFileSystem::new();
    fs.add_file("a.txt", b"12345").unwrap();
    let copied = fs.copy_file_with_options("a.txt", "b.txt", &FileWriteOptions::default()).unwrap();
    assert_eq!(copied, 5);
    assert_eq!(fs.read_file("b.txt").unwrap(), b"12345");
}

#[test]
fn remove_dir_all_removes_subtree_only() {
    let mut fs = MemoryFileSystem::new();
    fs.add_file("d/a.txt", b"a").unwrap();
    fs.add_file("d/sub/b.txt", b"b").unwrap();
    fs.add_file("dx.txt", b"c").unwrap();
    fs.remove_dir_all("d").unwrap();
    assert_eq!(fs.paths(), vec!["".to_string(), "dx.txt".to_string()]);
    assert!(matches!(fs.remove_dir_all(""), Err(FsError::Unsupported("remove root directory"))));
    assert!(matches!(fs.remove_dir_all("d"), Err(FsError::NotFound(p)) if p == "d"));
}

#[test]
fn list_gives_direct_children() {
    let mut fs = MemoryFileSystem::new();
    fs.add_file("d/a.txt", b"a").unwrap();
    fs.add_file("d/sub/b.txt", b"b").unwrap();
    let names: Vec<String> = fs.list("d").unwrap().into_iter().map(|e| e.path).collect();
    assert_eq!(names, vec!["d/a.txt".to_string(), "d/sub".to_string()]);
    assert!(matches!(fs.list("d/a.txt"), Err(FsError::NotDirectory(p)) if p == "d/a.txt"));
}

#[test]
fn symlinks_are_followed_on_read() {
    let mut fs = MemoryFileSystem::new();
    fs.add_file("dir/target.txt", b"t").unwrap();
    fs.add_symlink("dir/link.txt", "target.txt").unwrap();
    assert_eq!(fs.read_file("dir/link.txt").unwrap(), b"t");
    assert_eq!(fs.metadata("dir/link.txt").unwrap().file_type, FileType::Symlink);
    assert_eq!(fs.metadata_follow("dir/link.txt").unwrap().file_type, FileType::File);
    fs.add_symlink("escape", "../../x").unwrap();
    assert!(matches!(fs.read_file("escape"), Err(FsError::InvalidPortablePath(_))));
}

#[test]
fn writes_through_a_linked_directory_land_in_its_target() {
    let mut fs = MemoryFileSystem::new();
    fs.add_dir("real").unwrap();
    fs.add_symlink("link", "real").unwrap();
    fs.write_file_atomic("link/a.txt", b"x").unwrap();
    assert_eq!(fs.read_file("real/a.txt").unwrap(), b"x");
}

#[test]
fn symlink_cycles_are_refused() {
    let mut fs = MemoryFileSystem::new();
    fs.add_symlink("a", "b").unwrap();
    fs.add_symlink("b", "a").unwrap();
    assert!(fs.read_file("a").is_err());
}

#[test]
fn hard_links_share_a_group_and_count() {
    let mut fs = MemoryFileSystem::new();
    fs.add_file("one.txt", b"x").unwrap();
    fs.add_hardlink("one.txt", "two.txt").unwrap();
    let one = fs.metadata("one.txt").unwrap();
    let two = fs.metadata("two.txt").unwrap();
    assert_eq!(one.hardlink_id, two.hardlink_id);
    assert_eq!(one.hardlink_count, Some(2));
    assert_eq!(two.hardlink_count, Some(2));
    assert_eq!(fs.read_file("two.txt").unwrap(), b"x");
    assert!(matches!(fs.add_hardlink("missing", "x"), Err(FsError::NotFound(_))));
}

#[test]
fn set_mtime_records_the_time() {
    let mut fs = MemoryFileSystem::new();
    fs.add_file("a.txt", b"a").unwrap();
    let t = UNIX_EPOCH + Duration::from_secs(1_000);
    fs.set_mtime("a.txt", t).unwrap();
    assert_eq!(fs.metadata("a.txt").unwrap().modified, Some(t));
}

#[test]
fn portable_paths_refuse_roots_and_parents() {
    assert!(matches!(normalize_portable_path("/abs"), Err(FsError::InvalidPortablePath(_))));
    assert!(matches!(normalize_portable_path("C:x"), Err(FsError::InvalidPortablePath(_))));
    assert_eq!(normalize_portable_path("./a//b/.").unwrap(), vec!["a".to_string(), "b".to_string()]);
    let fs = MemoryFileSystem::new();
    assert_eq!(fs.resolve_path_for_prefix_check("a\\b").unwrap(), "a/b");
}

#[test]
fn path_helpers_follow_path_rules() {
    assert_eq!(join_paths("dst", "a.txt"), "dst/a.txt");
    assert_eq!(join_paths("", "a.txt"), "a.txt");
    assert_eq!(join_paths("dst/", "a.txt"), "dst/a.txt");
    assert_eq!(join_paths("dst", "/abs"), "/abs");
    assert_eq!(file_name("a/b.txt"), Some("b.txt".to_string()));
    assert_eq!(file_name("a/.."), None);
    assert_eq!(parent_path("a/b/c"), Some("a/b".to_string()));
    assert_eq!(parent_path("a"), Some("".to_string()));
    assert_eq!(parent_path(""), None);
    assert_eq!(relative_operand_path("/x/../y").unwrap(), "x/y");
    assert!(matches!(relative_operand_path(".."), Err(FsError::InvalidPortablePath(_))));
    assert_eq!(destination_preflight_path("/"), "/");
    assert_eq!(filter_path("./a/b"), "a/b");
    assert!(is_unsafe_symlink_target("../x"));
    assert!(is_unsafe_symlink_target("/x"));
    assert!(!is_unsafe_symlink_target("x/y"));
    assert_eq!(resolve_symlink_target("dir/link", "target"), "dir/target");
    assert_eq!(append_suffix("dst/a.txt", "~"), "dst/a.txt~");
    assert_eq!(append_suffix("dst/a.txt", ""), "dst/a.txt");
    assert!(files_from_matches("dir/keep.dat", &["dir".to_string()]));
    assert!(files_from_matches("dir", &["dir/keep.dat".to_string()]));
    assert!(!files_from_matches("other", &["dir".to_string()]));
    assert_eq!(batch_target_path("src/one.txt", "dst").unwrap(), "dst/one.txt");
    assert!(destination_inside_source("src", "src/dst"));
    assert!(destination_inside_source("src", "src"));
    assert!(!destination_inside_source("src", "srcdst"));
}

#[test]
fn local_helpers_compute_names_and_modes() {
    assert_eq!(temp_file_name("a.txt", 42, 7), ".a.txt.42.7.tmp");
    assert_eq!(temp_path_for("dir/a.txt", None, 1, 2), "dir/.a.txt.1.2.tmp");
    assert_eq!(temp_path_for("dir/a.txt", Some("partial"), 1, 2), "dir/partial/.a.txt.1.2.tmp");
    assert_eq!(temp_path_for("dir/a.txt", Some("/tmp"), 1, 2), "/tmp/.a.txt.1.2.tmp");
    assert_eq!(classify_local_file_type(true, false, true, false, false, false), FileType::Other);
    assert_eq!(classify_local_file_type(false, true, false, false, false, false), FileType::Symlink);
    assert_eq!(classify_local_file_type(false, false, false, false, true, false), FileType::Device);
    assert_eq!(windows_permissions(FileType::File, true), 0o444);
    assert_eq!(windows_permissions(FileType::Directory, true), 0o755);
    assert_eq!(permission_bits(0o100644), 0o644);
    assert_eq!(file_index(1, 2), (1u64 << 32) | 2);
    assert_eq!(next_chunk_len(10), 10);
    assert_eq!(next_chunk_len(u64::MAX), LOCAL_COPY_BUFFER_SIZE);
}

#[test]
fn fs_errors_have_their_texts() {
    assert_eq!(FsError::NotFound("x".to_string()).message(), "path does not exist: x");
    assert_eq!(
        FsError::MaxDeleteExceeded { limit: 12 }.message(),
        "deleting would exceed --max-delete=12"
    );
    assert_eq!(
        FsError::InvalidPortablePath("../a".to_string()).message(),
        "invalid portable path `../a`"
    );
}
