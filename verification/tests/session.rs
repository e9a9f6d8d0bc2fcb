use rsync_win::diagnostics::Report;
use rsync_win::remote::batch::RemoteSourceEntry;
use rsync_win::remote::receive::RemoteIndexError;
use rsync_win::remote::session::{
    incremental_pull_step, protocol27_pull_step, push_setup, serve_request_step, Pull27Action,
    Pull27Event, Pull27Phase, PullAction, PullEvent, PullPhase, PullState, RemoteSessionError,
    ServeAction, ServeRequest, RSYNC_INDEX_DONE,
};
use rsync_win::remote::wire::{RemoteEntry, WireFileType};
use rsync_win::transfer::sum_head::{RemoteSumHead, TransferError};

fn state(phase: PullPhase, count: usize) -> PullState {
    PullState { phase, entry_count: count, delete: true }
}

fn entry(path: &str, file_type: WireFileType, len: u64) -> RemoteSourceEntry {
    RemoteSourceEntry {
        wire: RemoteEntry { path: path.to_string(), file_type, len, mtime_unix: 0 },
        local_path: format!("/local/{path}"),
    }
}

#[test]
fn incremental_pull_grows_the_list_and_receives_files() {
    let s = state(PullPhase::Receiving, 2);
    assert_eq!(
        incremental_pull_step(s, PullEvent::ExtraFileList(3)),
        Ok((state(PullPhase::Receiving, 5), PullAction::RequestBatch { start: 2 }))
    );
    assert_eq!(incremental_pull_step(s, PullEvent::File(1)), Ok((s, PullAction::ReceiveFile(1))));
    assert_eq!(
        incremental_pull_step(s, PullEvent::File(2)),
        Err(RemoteSessionError::BadIndex(RemoteIndexError::InvalidFileIndex {
            index: 2,
            file_count: 2
        }))
    );
    assert_eq!(incremental_pull_step(s, PullEvent::FileListEof), Ok((s, PullAction::Continue)));
    assert_eq!(
        incremental_pull_step(state(PullPhase::Receiving, usize::MAX), PullEvent::ExtraFileList(1)),
        Err(RemoteSessionError::FileListTooLong)
    );
}

#[test]
fn pull_close_needs_done_indexes() {
    let s = state(PullPhase::Receiving, 2);
    let (s, a) = incremental_pull_step(s, PullEvent::Done).unwrap();
    assert_eq!(a, PullAction::EndTransfer { delete_extras: true });
    assert_eq!(
        incremental_pull_step(s, PullEvent::Index(4)),
        Err(RemoteSessionError::InvalidPhaseAck(4))
    );
    let (s, a) = incremental_pull_step(s, PullEvent::Index(RSYNC_INDEX_DONE)).unwrap();
    assert_eq!(a, PullAction::WriteDone);
    assert_eq!(
        incremental_pull_step(s, PullEvent::Index(0)),
        Err(RemoteSessionError::InvalidFinalAck(0))
    );
    let (s, a) = incremental_pull_step(s, PullEvent::Index(-1)).unwrap();
    assert_eq!(a, PullAction::ReadStats);
    let (s, a) = incremental_pull_step(s, PullEvent::StatsRead).unwrap();
    assert_eq!(a, PullAction::WriteDone);
    let (s, a) = incremental_pull_step(s, PullEvent::Index(-1)).unwrap();
    assert_eq!(a, PullAction::Finish);
    assert_eq!(s.phase, PullPhase::Finished);
    assert_eq!(incremental_pull_step(s, PullEvent::Done), Err(RemoteSessionError::UnexpectedEvent));
}

#[test]
fn protocol27_pull_checks_io_error_and_phase_ack() {
    assert_eq!(
        protocol27_pull_step(Pull27Phase::AwaitIoError, Pull27Event::Int(3)),
        Err(RemoteSessionError::SenderIoError(3))
    );
    assert_eq!(
        protocol27_pull_step(Pull27Phase::AwaitIoError, Pull27Event::Int(0)),
        Ok((Pull27Phase::Transferring, Pull27Action::RequestFiles))
    );
    assert_eq!(
        protocol27_pull_step(Pull27Phase::Transferring, Pull27Event::FilesReceived),
        Ok((Pull27Phase::AwaitPhaseAck, Pull27Action::EndPhase))
    );
    assert_eq!(
        protocol27_pull_step(Pull27Phase::AwaitPhaseAck, Pull27Event::Int(7)),
        Err(RemoteSessionError::InvalidPhaseAck(7))
    );
    assert_eq!(
        protocol27_pull_step(Pull27Phase::AwaitStats, Pull27Event::StatsRead),
        Ok((Pull27Phase::Finished, Pull27Action::Finish))
    );
}

#[test]
fn serving_stops_after_more_than_two_done_markers() {
    let entries = vec![entry("a", WireFileType::File, 10)];
    assert_eq!(serve_request_step(0, ServeRequest::Done, &entries, false, false), Ok((1, ServeAction::WriteDone)));
    assert_eq!(serve_request_step(1, ServeRequest::Done, &entries, false, false), Ok((2, ServeAction::WriteDone)));
    assert_eq!(serve_request_step(2, ServeRequest::Done, &entries, false, false), Ok((3, ServeAction::Stop)));
}

#[test]
fn serving_checks_requests() {
    let entries = vec![entry("a", WireFileType::File, 10), entry("d", WireFileType::Directory, 0)];
    let head = RemoteSumHead { block_count: 2, block_len: 4, checksum_len: 16, remainder: 0 };
    let item = |index: i32, transfer: bool, sum_head: Option<RemoteSumHead>| ServeRequest::Item {
        index,
        transfer,
        sum_head,
    };
    assert_eq!(
        serve_request_step(0, item(1, true, Some(head)), &entries, false, false),
        Err(RemoteSessionError::NotAFile(1))
    );
    assert_eq!(
        serve_request_step(0, item(1, false, None), &entries, false, false),
        Ok((0, ServeAction::Echo { entry_index: 1 }))
    );
    assert_eq!(
        serve_request_step(0, item(0, true, Some(head)), &entries, true, false),
        Ok((0, ServeAction::Echo { entry_index: 0 }))
    );
    assert_eq!(
        serve_request_step(0, item(0, true, Some(head)), &entries, false, false),
        Ok((0, ServeAction::Send { entry_index: 0, prefix_len: 0, total: 10 }))
    );
    assert_eq!(
        serve_request_step(0, item(0, true, Some(head)), &entries, false, true),
        Ok((0, ServeAction::Send { entry_index: 0, prefix_len: 8, total: 2 }))
    );
    let long = RemoteSumHead { block_count: 3, block_len: 4, checksum_len: 16, remainder: 0 };
    assert_eq!(
        serve_request_step(0, item(0, true, Some(long)), &entries, false, true),
        Err(RemoteSessionError::AppendBasisTooLong { basis_len: 12, file_len: 10 })
    );
    let bad = RemoteSumHead { block_count: 3, block_len: 0, checksum_len: 16, remainder: 0 };
    assert_eq!(
        serve_request_step(0, item(0, true, Some(bad)), &entries, false, true),
        Err(RemoteSessionError::SumHead(TransferError::AppendZeroBlockLength))
    );
    assert_eq!(
        serve_request_step(0, item(0, true, None), &entries, false, false),
        Err(RemoteSessionError::MissingSumHead)
    );
    assert_eq!(
        serve_request_step(0, item(5, true, None), &entries, false, false),
        Err(RemoteSessionError::BadIndex(RemoteIndexError::InvalidFileIndex {
            index: 5,
            file_count: 2
        }))
    );
}

#[test]
fn push_setup_follows_delete_and_daemon() {
    let s = push_setup(true, false);
    assert!(s.send_delete_marker && s.sort_entries);
    let s = push_setup(false, true);
    assert!(!s.send_delete_marker && !s.sort_entries);
}

#[test]
fn a_recorded_error_stays_recorded() {
    let mut report = Report::new();
    report.info("I_A", "a");
    assert!(!report.has_errors());
    report.error("E_B", "b");
    assert!(report.has_errors());
    report.warn("W_C", "c");
    report.info("I_D", "d");
    report.extend(Vec::new());
    assert!(report.has_errors());
}
