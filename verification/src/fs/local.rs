use vstd::prelude::*;

use crate::decimal::{decimal_of, decimal_text};
use crate::fs::metadata::{default_permission_bits, default_permissions, FileType};
use crate::fs::paths::{is_rooted_or_prefixed, rooted_or_prefixed};
use crate::fs::sync_paths::{file_name, file_name_of, join_paths, parent_of_path, parent_path, path_join};
use crate::text::{chars_of, join3};

verus! {

/// How many bytes a local copy reads or compares at a time.
pub const LOCAL_COPY_BUFFER_SIZE: usize = 65536;

/// The name of the temporary file that an atomic write of `file_name` goes through:
/// `.NAME.PID.NANOS.tmp`.
pub open spec fn temp_name_of(file_name: Seq<char>, pid: u32, nanos: u128) -> Seq<char> {
    seq!['.'] + file_name + seq!['.'] + decimal_of(pid as nat) + seq!['.'] + decimal_of(nanos as nat)
        + ".tmp"@
}

pub fn temp_file_name(file_name: &str, pid: u32, nanos: u128) -> (r: String)
    ensures
        r@ == temp_name_of(file_name@, pid, nanos),
{
    let p = decimal_text(pid as u128);
    let t = decimal_text(nanos);
    let head = join3(".", file_name, ".");
    let mid = join3(head.as_str(), p.as_str(), ".");
    let r = join3(mid.as_str(), t.as_str(), ".tmp");
    proof {
        reveal_strlit(".");
        reveal_strlit(".tmp");
    }
    assert(r@ =~= temp_name_of(file_name@, pid, nanos));
    r
}

/// `path` with its last name replaced by `name` (or `name` pushed when it has none).
pub open spec fn with_file_name(path: Seq<char>, name: Seq<char>) -> Seq<char> {
    match file_name_of(path) {
        Some(_) => path_join(parent_of_path(path)->Some_0, name),
        None => path_join(path, name),
    }
}

/// Where the temporary file for an atomic write of `path` goes: in the partial directory (taken
/// from the file's directory when relative), or beside the file.
pub open spec fn temp_path_of(path: Seq<char>, partial_dir: Option<Seq<char>>, temp_name: Seq<char>) -> Seq<char> {
    match partial_dir {
        Some(dir) => if rooted_or_prefixed(dir) {
            path_join(dir, temp_name)
        } else {
            match parent_of_path(path) {
                Some(parent) => path_join(path_join(parent, dir), temp_name),
                None => path_join(dir, temp_name),
            }
        },
        None => with_file_name(path, temp_name),
    }
}

/// The temporary path of an atomic write of `path`, for process `pid` at `nanos` nanoseconds
/// after the epoch; a path with no file name uses `rsync-win`.
pub fn temp_path_for(path: &str, partial_dir: Option<&str>, pid: u32, nanos: u128) -> (r: String)
    ensures
        r@ == temp_path_of(
            path@,
            match partial_dir {
                Some(d) => Some(d@),
                None => None,
            },
            temp_name_of(
                match file_name_of(path@) {
                    Some(n) => n,
                    None => "rsync-win"@,
                },
                pid,
                nanos,
            ),
        ),
{
    proof {
        reveal_strlit("rsync-win");
    }
    let name = match file_name(path) {
        Some(n) => n,
        None => String::from_str("rsync-win"),
    };
    let temp_name = temp_file_name(name.as_str(), pid, nanos);
    match partial_dir {
        Some(dir) => {
            if is_rooted_or_prefixed(chars_of(dir).as_slice()) {
                join_paths(dir, temp_name.as_str())
            } else {
                match parent_path(path) {
                    Some(parent) => {
                        let base = join_paths(parent.as_str(), dir);
                        join_paths(base.as_str(), temp_name.as_str())
                    },
                    None => join_paths(dir, temp_name.as_str()),
                }
            }
        },
        None => match file_name(path) {
            Some(_) => {
                let parent = match parent_path(path) {
                    Some(p) => p,
                    None => {
                        assert(false);
                        String::new()
                    },
                };
                join_paths(parent.as_str(), temp_name.as_str())
            },
            None => join_paths(path, temp_name.as_str()),
        },
    }
}

/// The name of the temporary file a receiver writes `file_name` into, for process `pid` at
/// `nanos` nanoseconds after the epoch.
pub open spec fn receive_temp_name(file_name: Seq<char>, pid: u32, nanos: u128) -> Seq<char> {
    seq!['.'] + file_name + seq!['.'] + decimal_of(pid as nat) + seq!['.'] + decimal_of(nanos as nat)
        + ".recv"@
}

/// The temporary path a receiver writes `target` through: beside it, named after it (after
/// `rsync-win` when it has no file name).
pub open spec fn receive_temp_path_of(target: Seq<char>, pid: u32, nanos: u128) -> Seq<char> {
    let name = receive_temp_name(
        match file_name_of(target) {
            Some(n) => n,
            None => "rsync-win"@,
        },
        pid,
        nanos,
    );
    match parent_of_path(target) {
        Some(parent) => path_join(parent, name),
        None => name,
    }
}

/// The temporary path a receiver writes `target` through, for process `pid` at `nanos`
/// nanoseconds after the epoch.
pub fn receive_temp_path(target: &str, pid: u32, nanos: u128) -> (r: String)
    ensures
        r@ == receive_temp_path_of(target@, pid, nanos),
{
    let name = match file_name(target) {
        Some(n) => n,
        None => String::from_str("rsync-win"),
    };
    let mut temp_name = String::new();
    temp_name.push('.');
    temp_name.append(name.as_str());
    temp_name.push('.');
    temp_name.append(decimal_text(pid as u128).as_str());
    temp_name.push('.');
    temp_name.append(decimal_text(nanos).as_str());
    temp_name.append(".recv");
    assert(temp_name@ =~= receive_temp_name(name@, pid, nanos));
    match parent_path(target) {
        Some(parent) => join_paths(parent.as_str(), temp_name.as_str()),
        None => temp_name,
    }
}

/// The kind of a local entry, from what the platform reports of it: a reparse point that is not
/// a link is `Other`.
pub open spec fn local_file_type(
    is_reparse_point: bool,
    is_symlink: bool,
    is_dir: bool,
    is_file: bool,
    is_device: bool,
    is_special: bool,
) -> FileType {
    if is_reparse_point && !is_symlink {
        FileType::Other
    } else if is_symlink {
        FileType::Symlink
    } else if is_dir {
        FileType::Directory
    } else if is_file {
        FileType::File
    } else if is_device {
        FileType::Device
    } else if is_special {
        FileType::Special
    } else {
        FileType::Other
    }
}

pub fn classify_local_file_type(
    is_reparse_point: bool,
    is_symlink: bool,
    is_dir: bool,
    is_file: bool,
    is_device: bool,
    is_special: bool,
) -> (r: FileType)
    ensures
        r == local_file_type(is_reparse_point, is_symlink, is_dir, is_file, is_device, is_special),
{
    if is_reparse_point && !is_symlink {
        FileType::Other
    } else if is_symlink {
        FileType::Symlink
    } else if is_dir {
        FileType::Directory
    } else if is_file {
        FileType::File
    } else if is_device {
        FileType::Device
    } else if is_special {
        FileType::Special
    } else {
        FileType::Other
    }
}

/// The permission bits a Windows entry reports: the defaults of its kind, without the write bits
/// for a read-only file.
pub fn windows_permissions(file_type: FileType, readonly: bool) -> (r: u32)
    ensures
        r == if readonly && file_type == FileType::File {
            default_permission_bits(file_type) & !0o222u32
        } else {
            default_permission_bits(file_type)
        },
{
    let permissions = default_permissions(file_type);
    if readonly && matches!(file_type, FileType::File) {
        permissions & !0o222u32
    } else {
        permissions
    }
}

/// The permission bits of a Unix mode.
pub fn permission_bits(mode: u32) -> (r: u32)
    ensures
        r == mode & 0o7777u32,
{
    mode & 0o7777u32
}

/// The file index of a Windows file: its high and low halves joined.
pub fn file_index(high: u32, low: u32) -> (r: u64)
    ensures
        r == (high as u64) * 0x1_0000_0000 + low as u64,
{
    let h = high as u64;
    let l = low as u64;
    assert((h << 32u64) | l == h * 0x1_0000_0000 + l) by (bit_vector)
        requires
            h < 0x1_0000_0000,
            l < 0x1_0000_0000,
    ;
    (h << 32u64) | l
}

/// How many bytes the next step of a bounded copy or comparison handles.
pub fn next_chunk_len(remaining: u64) -> (r: usize)
    ensures
        r as int == if remaining > LOCAL_COPY_BUFFER_SIZE as u64 {
            LOCAL_COPY_BUFFER_SIZE as int
        } else {
            remaining as int
        },
{
    if remaining > LOCAL_COPY_BUFFER_SIZE as u64 {
        LOCAL_COPY_BUFFER_SIZE
    } else {
        remaining as usize
    }
}

} // verus!
