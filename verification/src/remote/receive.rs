use vstd::prelude::*;
use vstd::string::StringExecFns;

use crate::filter::matcher::{EntryKind, RuleSet};
use crate::filter::rule::{RuleModel, RuleSide};
use crate::fs::metadata::FileType;
use crate::fs::sync::{entry_kind, entry_kind_of};
use crate::fs::sync_engine::{delete_is_protected, path_stopped, sender_path_is_filtered};
use crate::fs::sync_paths::{files_from_matches, files_from_selects};
use crate::remote::wire::{is_top_dir, remote_entry_is_top_dir, RemoteEntry, WireFileType};

verus! {

/// The file index a sender gives the first incremental file list under a directory: the
/// list for the directory at index `i` is announced as this value minus `i`.
pub const RSYNC_INDEX_FLIST_OFFSET: i32 = -101;

/// Why an index a peer sent does not name an entry of the file list.
#[derive(Debug, Clone, PartialEq, Eq)]
pub enum RemoteIndexError {
    /// The index lies outside the file list.
    InvalidFileIndex { index: i32, file_count: usize },
    /// A local index does not fit the 32-bit wire index.
    IndexOutOfRange { index: usize },
    /// Adding the list's offset to an index overflowed.
    IndexOverflow { index: usize, offset: i32 },
    /// The incremental file-list marker overflowed when turned into a parent index.
    MarkerOverflow { index: i32 },
    /// The incremental file-list marker names no parent.
    InvalidMarker { index: i32 },
    /// The parent index lies beyond the file list.
    ParentOutOfRange { parent_index: usize, entries: usize },
    /// The parent of an incremental file list is not a directory.
    NonDirectoryParent { path: String },
}

/// The kind of file system entry a wire entry stands for.
pub open spec fn fs_type_of(file_type: WireFileType) -> FileType {
    match file_type {
        WireFileType::File => FileType::File,
        WireFileType::Directory => FileType::Directory,
        WireFileType::Symlink => FileType::Symlink,
    }
}

fn fs_type_of_wire(file_type: WireFileType) -> (r: FileType)
    ensures
        r == fs_type_of(file_type),
{
    match file_type {
        WireFileType::File => FileType::File,
        WireFileType::Directory => FileType::Directory,
        WireFileType::Symlink => FileType::Symlink,
    }
}

/// The filter kind of a wire entry: a directory, or a file for anything else.
pub open spec fn wire_kind(file_type: WireFileType) -> EntryKind {
    if file_type == WireFileType::Directory {
        EntryKind::Directory
    } else {
        EntryKind::File
    }
}

/// The filter kind of a wire entry.
pub fn entry_kind_from_wire(file_type: WireFileType) -> (r: EntryKind)
    ensures
        r == wire_kind(file_type),
{
    if file_type == WireFileType::Directory {
        EntryKind::Directory
    } else {
        EntryKind::File
    }
}

/// The filter kind of a local entry.
pub fn entry_kind_from_fs(file_type: FileType) -> (r: EntryKind)
    ensures
        r == entry_kind_of(file_type),
{
    entry_kind(file_type)
}

/// Whether the sender's rules leave out `relative`: it is rooted or starts with `.`, or some
/// name along it is excluded or hidden for the sender (a leading directory as a directory, the
/// path itself as its own kind).
pub fn remote_source_path_is_filtered(
    rules: &RuleSet,
    relative: &str,
    file_type: WireFileType,
) -> (r: bool)
    ensures
        r == path_stopped(rules@, relative@, fs_type_of(file_type), RuleSide::Sender, false),
{
    sender_path_is_filtered(rules, relative, fs_type_of_wire(file_type))
}

/// Whether the receiver's rules keep `relative` out: it is rooted or starts with `.`, or some
/// name along it is excluded or protected for the receiver.
pub fn remote_receiver_path_is_filtered(
    rules: &RuleSet,
    relative: &str,
    file_type: WireFileType,
) -> (r: bool)
    ensures
        r == path_stopped(rules@, relative@, fs_type_of(file_type), RuleSide::Receiver, false),
{
    delete_is_protected(rules, relative, fs_type_of_wire(file_type), false)
}

/// The paths of a `--files-from` list.
pub open spec fn files_from_view(files_from: Option<&[String]>) -> Option<Seq<Seq<char>>> {
    match files_from {
        Some(f) => Some(f@.map_values(|s: String| s@)),
        None => None,
    }
}

/// Whether the receiver takes an entry of a remote file list: the top directory always;
/// another entry when the sender's rules do not leave it out and a `--files-from` list, if
/// any, selects it.
pub open spec fn entry_selected(
    e: RemoteEntry,
    rules: Seq<RuleModel>,
    files_from: Option<Seq<Seq<char>>>,
) -> bool {
    is_top_dir(e) || (!path_stopped(rules, e.path@, fs_type_of(e.file_type), RuleSide::Sender, false)
        && match files_from {
        None => true,
        Some(f) => files_from_selects(e.path@, f),
    })
}

/// The indexes below `n` of the entries the receiver takes, in increasing order.
pub open spec fn selection(
    entries: Seq<RemoteEntry>,
    rules: Seq<RuleModel>,
    files_from: Option<Seq<Seq<char>>>,
    n: int,
) -> Seq<int>
    decreases n,
{
    if n <= 0 {
        Seq::empty()
    } else if entry_selected(entries[n - 1], rules, files_from) {
        selection(entries, rules, files_from, n - 1).push(n - 1)
    } else {
        selection(entries, rules, files_from, n - 1)
    }
}

/// The indexes of the entries of a remote file list that the receiver takes, in increasing
/// order.
pub fn selected_remote_entry_indexes(
    entries: &[RemoteEntry],
    filter_rules: &RuleSet,
    files_from: Option<&[String]>,
) -> (r: Vec<usize>)
    ensures
        r@.map_values(|i: usize| i as int) == selection(
            entries@,
            filter_rules@,
            files_from_view(files_from),
            entries@.len() as int,
        ),
{
    let ghost ffv = files_from_view(files_from);
    let mut out: Vec<usize> = Vec::new();
    let mut i: usize = 0;
    while i < entries.len()
        invariant
            i <= entries@.len(),
            ffv == files_from_view(files_from),
            out@.map_values(|x: usize| x as int) == selection(
                entries@,
                filter_rules@,
                ffv,
                i as int,
            ),
        decreases entries.len() - i,
    {
        let entry = &entries[i];
        let top = remote_entry_is_top_dir(entry);
        let take = if top {
            true
        } else if remote_source_path_is_filtered(filter_rules, entry.path.as_str(), entry.file_type) {
            false
        } else {
            match files_from {
                None => true,
                Some(list) => files_from_matches(entry.path.as_str(), list),
            }
        };
        assert(take == entry_selected(entries@[i as int], filter_rules@, ffv));
        if take {
            let ghost before = out@.map_values(|x: usize| x as int);
            out.push(i);
            assert(out@.map_values(|x: usize| x as int) =~= before.push(i as int));
        }
        i = i + 1;
    }
    out
}

/// The entries below `n` whose index is listed in `selected`, in their order.
pub open spec fn picked(entries: Seq<RemoteEntry>, selected: Seq<usize>, n: int) -> Seq<
    RemoteEntry,
>
    decreases n,
{
    if n <= 0 {
        Seq::empty()
    } else if selected.contains((n - 1) as usize) {
        picked(entries, selected, n - 1).push(entries[n - 1])
    } else {
        picked(entries, selected, n - 1)
    }
}

fn index_listed(selected: &[usize], index: usize) -> (r: bool)
    ensures
        r == selected@.contains(index),
{
    let mut i: usize = 0;
    while i < selected.len()
        invariant
            i <= selected@.len(),
            forall|j: int| 0 <= j < i ==> selected@[j] != index,
        decreases selected.len() - i,
    {
        if selected[i] == index {
            return true;
        }
        i = i + 1;
    }
    false
}

/// The entries whose index is listed in `selected_indexes`, in file-list order.
pub fn selected_remote_entries(entries: &[RemoteEntry], selected_indexes: &[usize]) -> (r: Vec<
    RemoteEntry,
>)
    ensures
        r@ == picked(entries@, selected_indexes@, entries@.len() as int),
{
    let mut out: Vec<RemoteEntry> = Vec::new();
    let mut i: usize = 0;
    while i < entries.len()
        invariant
            i <= entries@.len(),
            out@ == picked(entries@, selected_indexes@, i as int),
        decreases entries.len() - i,
    {
        assert(((i + 1) - 1) as usize == i);
        if index_listed(selected_indexes, i) {
            out.push(entries[i].clone());
        }
        i = i + 1;
    }
    out
}

/// The index into a file list of `file_count` entries that a peer's `index` names.
pub fn checked_file_index(index: i32, file_count: usize) -> (r: Result<usize, RemoteIndexError>)
    ensures
        r == if 0 <= index < file_count {
            Ok::<usize, RemoteIndexError>(index as usize)
        } else {
            Err(RemoteIndexError::InvalidFileIndex { index, file_count })
        },
{
    if index < 0 || index as usize >= file_count {
        return Err(RemoteIndexError::InvalidFileIndex { index, file_count });
    }
    Ok(index as usize)
}

/// The index into a file list of `file_count` entries numbered from `offset` that a peer's
/// `index` names.
pub fn checked_remote_file_index(index: i32, file_count: usize, offset: i32) -> (r: Result<
    usize,
    RemoteIndexError,
>)
    ensures
        r == if index - offset < i32::MIN || index - offset > i32::MAX {
            Err::<usize, RemoteIndexError>(RemoteIndexError::InvalidFileIndex { index, file_count })
        } else if 0 <= index - offset < file_count {
            Ok((index - offset) as usize)
        } else {
            Err(
                RemoteIndexError::InvalidFileIndex {
                    index: (index - offset) as i32,
                    file_count,
                },
            )
        },
{
    match index.checked_sub(offset) {
        None => Err(RemoteIndexError::InvalidFileIndex { index, file_count }),
        Some(local_index) => checked_file_index(local_index, file_count),
    }
}

/// The wire index of the entry at `index` in a list numbered from `offset`.
pub fn remote_wire_index(index: usize, offset: i32) -> (r: Result<i32, RemoteIndexError>)
    ensures
        r == if index > i32::MAX {
            Err::<i32, RemoteIndexError>(RemoteIndexError::IndexOutOfRange { index })
        } else if index + offset > i32::MAX {
            Err(RemoteIndexError::IndexOverflow { index, offset })
        } else {
            Ok((index + offset) as i32)
        },
{
    if index > 2147483647usize {
        return Err(RemoteIndexError::IndexOutOfRange { index });
    }
    let wide = index as i32;
    match wide.checked_add(offset) {
        None => Err(RemoteIndexError::IndexOverflow { index, offset }),
        Some(v) => Ok(v),
    }
}

/// The index of the directory under which an incremental file list announced by the marker
/// `index` lies: `RSYNC_INDEX_FLIST_OFFSET - index`, which must name a directory entry.
pub fn incremental_parent_index(index: i32, entries: &[RemoteEntry]) -> (r: Result<
    usize,
    RemoteIndexError,
>)
    ensures
        r == if RSYNC_INDEX_FLIST_OFFSET - index < i32::MIN {
            Err::<usize, RemoteIndexError>(RemoteIndexError::MarkerOverflow { index })
        } else if RSYNC_INDEX_FLIST_OFFSET - index < 0 {
            Err(RemoteIndexError::InvalidMarker { index })
        } else if RSYNC_INDEX_FLIST_OFFSET - index >= entries@.len() {
            Err(
                RemoteIndexError::ParentOutOfRange {
                    parent_index: (RSYNC_INDEX_FLIST_OFFSET - index) as usize,
                    entries: entries@.len() as usize,
                },
            )
        } else if entries@[RSYNC_INDEX_FLIST_OFFSET - index].file_type
            != WireFileType::Directory {
            Err(
                RemoteIndexError::NonDirectoryParent {
                    path: entries@[RSYNC_INDEX_FLIST_OFFSET - index].path,
                },
            )
        } else {
            Ok((RSYNC_INDEX_FLIST_OFFSET - index) as usize)
        },
{
    let parent = match RSYNC_INDEX_FLIST_OFFSET.checked_sub(index) {
        None => {
            return Err(RemoteIndexError::MarkerOverflow { index });
        },
        Some(p) => p,
    };
    if parent < 0 {
        return Err(RemoteIndexError::InvalidMarker { index });
    }
    let parent_index = parent as usize;
    if parent_index >= entries.len() {
        return Err(RemoteIndexError::ParentOutOfRange { parent_index, entries: entries.len() });
    }
    if entries[parent_index].file_type != WireFileType::Directory {
        return Err(
            RemoteIndexError::NonDirectoryParent { path: entries[parent_index].path.clone() },
        );
    }
    Ok(parent_index)
}

/// The index offset of a file list: lists are numbered from zero.
pub fn remote_file_index_offset(entries: &[RemoteEntry]) -> (r: i32)
    ensures
        r == 0,
{
    0
}

/// The text a report gives the messages a remote peer sent: nothing when there are none, else
/// a heading and one line for each.
pub open spec fn remote_messages_text(messages: Seq<Seq<char>>) -> Seq<char> {
    if messages.len() == 0 {
        Seq::empty()
    } else {
        "remote messages:\n"@ + message_lines(messages)
    }
}

/// Each message as a `- ` line.
pub open spec fn message_lines(messages: Seq<Seq<char>>) -> Seq<char>
    decreases messages.len(),
{
    if messages.len() == 0 {
        Seq::empty()
    } else {
        message_lines(messages.drop_last()) + "- "@ + messages.last() + "\n"@
    }
}

/// Appends the messages a remote peer sent to a report.
pub fn append_remote_messages(output: &mut String, messages: &[String])
    ensures
        final(output)@ == old(output)@ + remote_messages_text(
            messages@.map_values(|m: String| m@),
        ),
{
    let ghost mv = messages@.map_values(|m: String| m@);
    if messages.len() == 0 {
        assert(old(output)@ + remote_messages_text(mv) =~= old(output)@);
        return;
    }
    let ghost start = output@;
    output.append("remote messages:\n");
    let ghost head = output@;
    let mut i: usize = 0;
    assert(mv.take(0) =~= Seq::<Seq<char>>::empty());
    while i < messages.len()
        invariant
            i <= messages@.len(),
            mv == messages@.map_values(|m: String| m@),
            output@ == head + message_lines(mv.take(i as int)),
        decreases messages.len() - i,
    {
        output.append("- ");
        output.append(messages[i].as_str());
        output.append("\n");
        assert(mv.take(i + 1).drop_last() =~= mv.take(i as int));
        assert(output@ =~= head + message_lines(mv.take(i + 1)));
        i = i + 1;
    }
    assert(mv.take(mv.len() as int) =~= mv);
    assert(output@ =~= start + remote_messages_text(mv));
}

} // verus!
