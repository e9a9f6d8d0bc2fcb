use vstd::prelude::*;

use crate::remote::batch::RemoteSourceEntry;
use crate::remote::receive::{checked_file_index, checked_remote_file_index, RemoteIndexError};
use crate::remote::wire::WireFileType;
use crate::transfer::sum_head::{described_len, remote_sum_head_file_len, RemoteSumHead, TransferError};

verus! {

/// The index that marks the end of a phase on the wire.
pub const RSYNC_INDEX_DONE: i32 = -1;

/// Why a remote session stops.
#[derive(Debug, Clone, PartialEq, Eq)]
pub enum RemoteSessionError {
    /// The peer answered the end of the transfer phase with something other than the done index.
    InvalidPhaseAck(i32),
    /// The peer answered a closing step with something other than the done index.
    InvalidFinalAck(i32),
    /// The sender reported an I/O error of its own.
    SenderIoError(i32),
    /// A file index of the peer names no entry.
    BadIndex(RemoteIndexError),
    /// More file-list entries arrived than can be counted.
    FileListTooLong,
    /// The peer sent something the session does not expect at this point.
    UnexpectedEvent,
    /// The peer asked for more than the number of phase markers a session has.
    TooManyPhaseMarkers,
    /// An append basis is longer than the sender's file.
    AppendBasisTooLong { basis_len: u64, file_len: u64 },
    /// Blocks were asked for an entry that is not a regular file.
    NotAFile(usize),
    /// A transfer request came without its checksum header.
    MissingSumHead,
    /// A checksum header was refused.
    SumHead(TransferError),
}

/// Where a protocol 31 pull stands: receiving files, then the closing exchange of done indexes
/// and statistics.
#[derive(Debug, Clone, Copy, PartialEq, Eq, Structural)]
pub enum PullPhase {
    Receiving,
    AwaitPhaseAck,
    AwaitSenderDone,
    AwaitStats,
    AwaitGoodbye,
    Finished,
}

/// The state of a protocol 31 pull: its phase, how many file-list entries are known, and
/// whether receiver extras are deleted when the transfer ends.
#[derive(Debug, Clone, Copy, PartialEq, Eq, Structural)]
pub struct PullState {
    pub phase: PullPhase,
    pub entry_count: usize,
    pub delete: bool,
}

/// What the sender's side of a pull delivered.
#[derive(Debug, Clone, Copy, PartialEq, Eq, Structural)]
pub enum PullEvent {
    /// The sender is done sending files.
    Done,
    /// The end of an incremental file list.
    FileListEof,
    /// An incremental file list with this many more entries.
    ExtraFileList(usize),
    /// A file response for this wire index.
    File(i32),
    /// An index read during the closing exchange.
    Index(i32),
    /// The sender's statistics were read.
    StatsRead,
}

/// What the receiving side does next.
#[derive(Debug, Clone, Copy, PartialEq, Eq, Structural)]
pub enum PullAction {
    /// Read the next response.
    Continue,
    /// Check and request the entries from `start` on, then send the done index.
    RequestBatch { start: usize },
    /// Receive the file at this entry index.
    ReceiveFile(usize),
    /// Delete receiver extras when asked, send the done index and read the phase ack.
    EndTransfer { delete_extras: bool },
    /// Send the done index and read the next index.
    WriteDone,
    /// Read the sender's statistics.
    ReadStats,
    /// Send the last done index; the session is over.
    Finish,
}

/// The next state and action of a protocol 31 pull on `e`: files are received while the sender
/// sends them, incremental file lists grow the list, and the close needs the done index at each
/// step, the first one being the phase ack.
pub open spec fn pull_step(s: PullState, e: PullEvent) -> Result<
    (PullState, PullAction),
    RemoteSessionError,
> {
    match (s.phase, e) {
        (PullPhase::Receiving, PullEvent::Done) => Ok(
            (
                PullState { phase: PullPhase::AwaitPhaseAck, ..s },
                PullAction::EndTransfer { delete_extras: s.delete },
            ),
        ),
        (PullPhase::Receiving, PullEvent::FileListEof) => Ok((s, PullAction::Continue)),
        (PullPhase::Receiving, PullEvent::ExtraFileList(n)) => if s.entry_count + n > usize::MAX {
            Err(RemoteSessionError::FileListTooLong)
        } else {
            Ok(
                (
                    PullState { entry_count: (s.entry_count + n) as usize, ..s },
                    PullAction::RequestBatch { start: s.entry_count },
                ),
            )
        },
        (PullPhase::Receiving, PullEvent::File(index)) => if 0 <= index < s.entry_count {
            Ok((s, PullAction::ReceiveFile(index as usize)))
        } else {
            Err(
                RemoteSessionError::BadIndex(
                    RemoteIndexError::InvalidFileIndex { index, file_count: s.entry_count },
                ),
            )
        },
        (PullPhase::AwaitPhaseAck, PullEvent::Index(v)) => if v == RSYNC_INDEX_DONE {
            Ok((PullState { phase: PullPhase::AwaitSenderDone, ..s }, PullAction::WriteDone))
        } else {
            Err(RemoteSessionError::InvalidPhaseAck(v))
        },
        (PullPhase::AwaitSenderDone, PullEvent::Index(v)) => if v == RSYNC_INDEX_DONE {
            Ok((PullState { phase: PullPhase::AwaitStats, ..s }, PullAction::ReadStats))
        } else {
            Err(RemoteSessionError::InvalidFinalAck(v))
        },
        (PullPhase::AwaitStats, PullEvent::StatsRead) => Ok(
            (PullState { phase: PullPhase::AwaitGoodbye, ..s }, PullAction::WriteDone),
        ),
        (PullPhase::AwaitGoodbye, PullEvent::Index(v)) => if v == RSYNC_INDEX_DONE {
            Ok((PullState { phase: PullPhase::Finished, ..s }, PullAction::Finish))
        } else {
            Err(RemoteSessionError::InvalidFinalAck(v))
        },
        _ => Err(RemoteSessionError::UnexpectedEvent),
    }
}

/// One step of a protocol 31 pull (incremental or not; a non-incremental pull enters at the
/// end of its file transfers with `Done`).
pub fn incremental_pull_step(s: PullState, e: PullEvent) -> (r: Result<
    (PullState, PullAction),
    RemoteSessionError,
>)
    ensures
        r == pull_step(s, e),
{
    match (s.phase, e) {
        (PullPhase::Receiving, PullEvent::Done) => Ok(
            (
                PullState { phase: PullPhase::AwaitPhaseAck, ..s },
                PullAction::EndTransfer { delete_extras: s.delete },
            ),
        ),
        (PullPhase::Receiving, PullEvent::FileListEof) => Ok((s, PullAction::Continue)),
        (PullPhase::Receiving, PullEvent::ExtraFileList(n)) => match s.entry_count.checked_add(n) {
            None => Err(RemoteSessionError::FileListTooLong),
            Some(count) => Ok(
                (PullState { entry_count: count, ..s }, PullAction::RequestBatch { start: s.entry_count }),
            ),
        },
        (PullPhase::Receiving, PullEvent::File(index)) => match checked_remote_file_index(
            index,
            s.entry_count,
            0,
        ) {
            Ok(i) => Ok((s, PullAction::ReceiveFile(i))),
            Err(err) => Err(RemoteSessionError::BadIndex(err)),
        },
        (PullPhase::AwaitPhaseAck, PullEvent::Index(v)) => if v == RSYNC_INDEX_DONE {
            Ok((PullState { phase: PullPhase::AwaitSenderDone, ..s }, PullAction::WriteDone))
        } else {
            Err(RemoteSessionError::InvalidPhaseAck(v))
        },
        (PullPhase::AwaitSenderDone, PullEvent::Index(v)) => if v == RSYNC_INDEX_DONE {
            Ok((PullState { phase: PullPhase::AwaitStats, ..s }, PullAction::ReadStats))
        } else {
            Err(RemoteSessionError::InvalidFinalAck(v))
        },
        (PullPhase::AwaitStats, PullEvent::StatsRead) => Ok(
            (PullState { phase: PullPhase::AwaitGoodbye, ..s }, PullAction::WriteDone),
        ),
        (PullPhase::AwaitGoodbye, PullEvent::Index(v)) => if v == RSYNC_INDEX_DONE {
            Ok((PullState { phase: PullPhase::Finished, ..s }, PullAction::Finish))
        } else {
            Err(RemoteSessionError::InvalidFinalAck(v))
        },
        _ => Err(RemoteSessionError::UnexpectedEvent),
    }
}

/// A request a receiver sends to the sending side of a protocol 31 transfer: the done index, or
/// an entry's wire index, whether its data is wanted, and the checksum header that came with it.
#[derive(Debug, Clone, Copy, PartialEq, Eq, Structural)]
pub enum ServeRequest {
    Done,
    Item { index: i32, transfer: bool, sum_head: Option<RemoteSumHead> },
}

/// What the sending side does with a request.
#[derive(Debug, Clone, Copy, PartialEq, Eq, Structural)]
pub enum ServeAction {
    /// Answer the done marker with the done index.
    WriteDone,
    /// The receiver is done: stop serving.
    Stop,
    /// Echo the request back without data.
    Echo { entry_index: usize },
    /// Send the entry's data: its tokens after `prefix_len` bytes the receiver already holds,
    /// `total` bytes in all.
    Send { entry_index: usize, prefix_len: usize, total: u64 },
}

/// The length of the basis an append-mode checksum header describes.
pub open spec fn append_basis_len(h: RemoteSumHead) -> Result<usize, TransferError> {
    if h.block_count == 0 {
        Ok(0)
    } else if h.block_len == 0 {
        Err(TransferError::AppendZeroBlockLength)
    } else if h.remainder > h.block_len {
        Err(TransferError::AppendRemainderTooLarge)
    } else if h.block_count * h.block_len > usize::MAX {
        Err(TransferError::AppendLengthOverflow)
    } else {
        Ok(described_len(h) as usize)
    }
}

/// How the sending side answers `req`, having seen `markers` done markers, for the file list
/// `entries`: the third done marker ends the session, the others are answered; an entry must
/// exist, and only a regular file can have its data asked for; a dry run and a request without
/// data are echoed; an append needs a basis no longer than the file.
pub open spec fn serve_step(
    markers: usize,
    req: ServeRequest,
    entries: Seq<RemoteSourceEntry>,
    dry_run: bool,
    append_verify: bool,
) -> Result<(usize, ServeAction), RemoteSessionError> {
    match req {
        ServeRequest::Done => if markers + 1 > 2 {
            Ok(((markers + 1) as usize, ServeAction::Stop))
        } else {
            Ok(((markers + 1) as usize, ServeAction::WriteDone))
        },
        ServeRequest::Item { index, transfer, sum_head } => if !(0 <= index < entries.len()) {
            Err(
                RemoteSessionError::BadIndex(
                    RemoteIndexError::InvalidFileIndex { index, file_count: entries.len() as usize },
                ),
            )
        } else if !transfer {
            Ok((markers, ServeAction::Echo { entry_index: index as usize }))
        } else if entries[index as int].wire.file_type != WireFileType::File {
            Err(RemoteSessionError::NotAFile(index as usize))
        } else if dry_run {
            Ok((markers, ServeAction::Echo { entry_index: index as usize }))
        } else {
            match sum_head {
                None => Err(RemoteSessionError::MissingSumHead),
                Some(h) => {
                    let file_len = entries[index as int].wire.len;
                    if !append_verify {
                        Ok(
                            (
                                markers,
                                ServeAction::Send { entry_index: index as usize, prefix_len: 0, total: file_len },
                            ),
                        )
                    } else {
                        match append_basis_len(h) {
                            Err(e) => Err(RemoteSessionError::SumHead(e)),
                            Ok(prefix) => if prefix > file_len {
                                Err(
                                    RemoteSessionError::AppendBasisTooLong {
                                        basis_len: prefix as u64,
                                        file_len,
                                    },
                                )
                            } else {
                                Ok(
                                    (
                                        markers,
                                        ServeAction::Send {
                                            entry_index: index as usize,
                                            prefix_len: prefix,
                                            total: (file_len - prefix) as u64,
                                        },
                                    ),
                                )
                            },
                        }
                    }
                },
            }
        },
    }
}

/// One step of serving a receiver's requests: the new count of done markers and what to do.
pub fn serve_request_step(
    markers: usize,
    req: ServeRequest,
    entries: &[RemoteSourceEntry],
    dry_run: bool,
    append_verify: bool,
) -> (r: Result<(usize, ServeAction), RemoteSessionError>)
    requires
        markers < usize::MAX,
    ensures
        r == serve_step(markers, req, entries@, dry_run, append_verify),
{
    match req {
        ServeRequest::Done => {
            let seen = markers + 1;
            if seen > 2 {
                Ok((seen, ServeAction::Stop))
            } else {
                Ok((seen, ServeAction::WriteDone))
            }
        },
        ServeRequest::Item { index, transfer, sum_head } => {
            let entry_index = match checked_file_index(index, entries.len()) {
                Ok(i) => i,
                Err(e) => {
                    return Err(RemoteSessionError::BadIndex(e));
                },
            };
            if !transfer {
                return Ok((markers, ServeAction::Echo { entry_index }));
            }
            let entry = &entries[entry_index];
            if entry.wire.file_type != WireFileType::File {
                return Err(RemoteSessionError::NotAFile(entry_index));
            }
            if dry_run {
                return Ok((markers, ServeAction::Echo { entry_index }));
            }
            let h = match sum_head {
                Some(h) => h,
                None => {
                    return Err(RemoteSessionError::MissingSumHead);
                },
            };
            let file_len = entry.wire.len;
            if !append_verify {
                return Ok((markers, ServeAction::Send { entry_index, prefix_len: 0, total: file_len }));
            }
            let prefix = match remote_sum_head_file_len(h) {
                Ok(p) => p,
                Err(e) => {
                    return Err(RemoteSessionError::SumHead(e));
                },
            };
            if prefix as u64 > file_len {
                return Err(RemoteSessionError::AppendBasisTooLong { basis_len: prefix as u64, file_len });
            }
            Ok((markers, ServeAction::Send { entry_index, prefix_len: prefix, total: file_len - prefix as u64 }))
        },
    }
}

/// Where a protocol 27 pull stands.
#[derive(Debug, Clone, Copy, PartialEq, Eq, Structural)]
pub enum Pull27Phase {
    AwaitIoError,
    Transferring,
    AwaitPhaseAck,
    AwaitStats,
    Finished,
}

/// What a protocol 27 pull reads from the sender.
#[derive(Debug, Clone, Copy, PartialEq, Eq, Structural)]
pub enum Pull27Event {
    /// An integer of the stream: the sender's I/O error count, or the phase ack.
    Int(i32),
    /// The requested files were received.
    FilesReceived,
    /// The sender's three statistics were read.
    StatsRead,
}

/// What a protocol 27 pull does next.
#[derive(Debug, Clone, Copy, PartialEq, Eq, Structural)]
pub enum Pull27Action {
    /// Request and receive the selected files.
    RequestFiles,
    /// Send the end-of-phase marker `-1` and read the ack.
    EndPhase,
    /// Read the sender's statistics.
    ReadStats,
    /// Send the final `-1`; the session is over.
    Finish,
}

/// The next phase and action of a protocol 27 pull: the sender's I/O error count must be zero,
/// the phase ack must be `-1`.
pub open spec fn pull27_step(p: Pull27Phase, e: Pull27Event) -> Result<
    (Pull27Phase, Pull27Action),
    RemoteSessionError,
> {
    match (p, e) {
        (Pull27Phase::AwaitIoError, Pull27Event::Int(v)) => if v == 0 {
            Ok((Pull27Phase::Transferring, Pull27Action::RequestFiles))
        } else {
            Err(RemoteSessionError::SenderIoError(v))
        },
        (Pull27Phase::Transferring, Pull27Event::FilesReceived) => Ok(
            (Pull27Phase::AwaitPhaseAck, Pull27Action::EndPhase),
        ),
        (Pull27Phase::AwaitPhaseAck, Pull27Event::Int(v)) => if v == RSYNC_INDEX_DONE {
            Ok((Pull27Phase::AwaitStats, Pull27Action::ReadStats))
        } else {
            Err(RemoteSessionError::InvalidPhaseAck(v))
        },
        (Pull27Phase::AwaitStats, Pull27Event::StatsRead) => Ok(
            (Pull27Phase::Finished, Pull27Action::Finish),
        ),
        _ => Err(RemoteSessionError::UnexpectedEvent),
    }
}

/// One step of a protocol 27 pull.
pub fn protocol27_pull_step(p: Pull27Phase, e: Pull27Event) -> (r: Result<
    (Pull27Phase, Pull27Action),
    RemoteSessionError,
>)
    ensures
        r == pull27_step(p, e),
{
    match (p, e) {
        (Pull27Phase::AwaitIoError, Pull27Event::Int(v)) => if v == 0 {
            Ok((Pull27Phase::Transferring, Pull27Action::RequestFiles))
        } else {
            Err(RemoteSessionError::SenderIoError(v))
        },
        (Pull27Phase::Transferring, Pull27Event::FilesReceived) => Ok(
            (Pull27Phase::AwaitPhaseAck, Pull27Action::EndPhase),
        ),
        (Pull27Phase::AwaitPhaseAck, Pull27Event::Int(v)) => if v == RSYNC_INDEX_DONE {
            Ok((Pull27Phase::AwaitStats, Pull27Action::ReadStats))
        } else {
            Err(RemoteSessionError::InvalidPhaseAck(v))
        },
        (Pull27Phase::AwaitStats, Pull27Event::StatsRead) => Ok(
            (Pull27Phase::Finished, Pull27Action::Finish),
        ),
        _ => Err(RemoteSessionError::UnexpectedEvent),
    }
}

/// How a protocol 31 push starts: the marker that announces deletion is sent when deleting,
/// and a remote-shell push (not a daemon push) sorts its entries in the sender's order.
#[derive(Debug, Clone, Copy, PartialEq, Eq, Structural)]
pub struct PushSetup {
    pub send_delete_marker: bool,
    pub sort_entries: bool,
}

pub fn push_setup(delete: bool, daemon: bool) -> (r: PushSetup)
    ensures
        r == (PushSetup { send_delete_marker: delete, sort_entries: !daemon }),
{
    PushSetup { send_delete_marker: delete, sort_entries: !daemon }
}

} // verus!
