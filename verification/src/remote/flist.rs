use vstd::prelude::*;
use vstd::string::StringExecFns;

use crate::chmod::{apply_chmod, ChmodFileKind, ChmodRules};
use crate::decimal::{decimal_of, decimal_text};
use crate::fs::metadata::{posix_mode, FileType, PortableMetadata};
use crate::fs::sync::{SymlinkMode, UpdateMode};
use crate::fs::sync_paths::{
    is_unsafe_symlink_target, resolve_symlink_target, symlink_destination, unsafe_symlink_target,
};
use crate::remote::wire::WireFileType;

verus! {

/// Which way a remote transfer goes.
#[derive(Debug, Clone, Copy, PartialEq, Eq, Structural)]
pub enum TransferDirection {
    Push,
    Pull,
}

/// A remote-shell operand, `host:path`.
#[derive(Debug, PartialEq, Eq)]
pub struct RemoteShellOperand {
    pub host: String,
    pub path: String,
}

impl Clone for RemoteShellOperand {
    fn clone(&self) -> (r: Self)
        ensures
            r == *self,
    {
        RemoteShellOperand { host: self.host.clone(), path: self.path.clone() }
    }
}

/// A daemon operand, `host::module/path`.
#[derive(Debug, Clone, PartialEq, Eq)]
pub struct DaemonOperand {
    pub host: String,
    pub module: Option<String>,
    pub path: Option<String>,
}

/// Why a transfer summary could not be written.
#[derive(Debug, Clone, Copy, PartialEq, Eq, Structural)]
pub enum SummaryError {
    /// A daemon push names no module.
    PushWithoutModule,
    /// A daemon pull names no module.
    PullWithoutModule,
    /// No remote operand was planned.
    NoRemoteOperand,
}

/// The text of a `SummaryError`.
pub open spec fn summary_error_text(e: SummaryError) -> Seq<char> {
    match e {
        SummaryError::PushWithoutModule => "daemon push requires a module"@,
        SummaryError::PullWithoutModule => "daemon pull requires a module"@,
        SummaryError::NoRemoteOperand => "remote operand was not planned"@,
    }
}

impl SummaryError {
    /// The error as a message.
    pub fn message(&self) -> (r: &'static str)
        ensures
            r@ == summary_error_text(*self),
    {
        match self {
            SummaryError::PushWithoutModule => "daemon push requires a module",
            SummaryError::PullWithoutModule => "daemon pull requires a module",
            SummaryError::NoRemoteOperand => "remote operand was not planned",
        }
    }
}

/// How a remote session is named in reports.
pub open spec fn session_label(
    remote: Option<RemoteShellOperand>,
    remote_operand_count: nat,
    direction: TransferDirection,
) -> Seq<char> {
    match remote {
        None => "remote"@,
        Some(r) => if direction == TransferDirection::Pull && remote_operand_count > 1 {
            decimal_of(remote_operand_count) + " sources from "@ + r.host@
        } else if direction == TransferDirection::Push {
            "to "@ + r.host@ + ":"@ + r.path@
        } else {
            "from "@ + r.host@ + ":"@ + r.path@
        },
    }
}

/// How a remote session is named in reports: by its direction and operand, or by how many
/// sources a pull takes from one host.
pub fn remote_session_label(
    remote: Option<&RemoteShellOperand>,
    remote_operand_count: usize,
    direction: TransferDirection,
) -> (r: String)
    ensures
        r@ == session_label(
            match remote {
                Some(x) => Some(*x),
                None => None,
            },
            remote_operand_count as nat,
            direction,
        ),
{
    let remote = match remote {
        None => {
            return String::from_str("remote");
        },
        Some(x) => x,
    };
    let mut out: String;
    if direction == TransferDirection::Pull && remote_operand_count > 1 {
        out = decimal_text(remote_operand_count as u128);
        out.append(" sources from ");
        out.append(remote.host.as_str());
        return out;
    }
    if direction == TransferDirection::Push {
        out = String::from_str("to ");
    } else {
        out = String::from_str("from ");
    }
    out.append(remote.host.as_str());
    out.append(":");
    out.append(remote.path.as_str());
    out
}

/// One `- source` line for each of `sources`.
pub open spec fn source_lines(sources: Seq<Seq<char>>) -> Seq<char>
    decreases sources.len(),
{
    if sources.len() == 0 {
        Seq::empty()
    } else {
        source_lines(sources.drop_last()) + "- source "@ + sources.last() + "\n"@
    }
}

/// The summary of local sources: the one source, or their count and a line for each.
pub open spec fn sources_summary(sources: Seq<Seq<char>>) -> Seq<char> {
    if sources.len() == 1 {
        "source: "@ + sources[0] + "\n"@
    } else {
        "sources: "@ + decimal_of(sources.len()) + "\n"@ + source_lines(sources)
    }
}

/// Appends the summary of local sources to a report.
pub fn append_sources_summary(output: &mut String, sources: &[String])
    ensures
        final(output)@ == old(output)@ + sources_summary(sources@.map_values(|s: String| s@)),
{
    let ghost sv = sources@.map_values(|s: String| s@);
    let ghost start = output@;
    if sources.len() == 1 {
        output.append("source: ");
        output.append(sources[0].as_str());
        output.append("\n");
        return;
    }
    let count = decimal_text(sources.len() as u128);
    output.append("sources: ");
    output.append(count.as_str());
    output.append("\n");
    let ghost head = output@;
    let mut i: usize = 0;
    assert(sv.take(0) =~= Seq::<Seq<char>>::empty());
    while i < sources.len()
        invariant
            i <= sources@.len(),
            sv == sources@.map_values(|s: String| s@),
            output@ == head + source_lines(sv.take(i as int)),
        decreases sources.len() - i,
    {
        output.append("- source ");
        output.append(sources[i].as_str());
        output.append("\n");
        assert(sv.take(i + 1).drop_last() =~= sv.take(i as int));
        assert(output@ =~= head + source_lines(sv.take(i + 1)));
        i = i + 1;
    }
    assert(sv.take(sv.len() as int) =~= sv);
    assert(output@ =~= start + sources_summary(sv));
}

/// A daemon operand written out: `host::module` and `/path` when it has a path.
pub open spec fn daemon_text(host: Seq<char>, module: Seq<char>, path: Option<String>) -> Seq<
    char,
> {
    host + "::"@ + module + match path {
        Some(p) => "/"@ + p@,
        None => Seq::empty(),
    }
}

fn push_daemon_text(output: &mut String, daemon: &DaemonOperand, module: &String)
    ensures
        final(output)@ == old(output)@ + daemon_text(daemon.host@, module@, daemon.path),
{
    output.append(daemon.host.as_str());
    output.append("::");
    output.append(module.as_str());
    match &daemon.path {
        Some(p) => {
            output.append("/");
            output.append(p.as_str());
        },
        None => {},
    }
}

/// The destination line of a push summary, or why there is none.
pub open spec fn push_destination_line(
    daemon: Option<DaemonOperand>,
    remote: Option<RemoteShellOperand>,
) -> Result<Seq<char>, SummaryError> {
    match daemon {
        Some(d) => match d.module {
            None => Err(SummaryError::PushWithoutModule),
            Some(m) => Ok("destination: "@ + daemon_text(d.host@, m@, d.path) + "\n"@),
        },
        None => match remote {
            None => Err(SummaryError::NoRemoteOperand),
            Some(r) => Ok("destination: "@ + r.host@ + ":"@ + r.path@ + "\n"@),
        },
    }
}

/// Appends the destination of a push to a report: the daemon operand when there is one, else
/// the remote-shell operand.
pub fn append_push_destination_summary(
    output: &mut String,
    daemon: Option<&DaemonOperand>,
    remote: Option<&RemoteShellOperand>,
) -> (r: Result<(), SummaryError>)
    ensures
        match push_destination_line(
            match daemon {
                Some(d) => Some(*d),
                None => None,
            },
            match remote {
                Some(x) => Some(*x),
                None => None,
            },
        ) {
            Ok(line) => r is Ok && final(output)@ == old(output)@ + line,
            Err(e) => r == Err::<(), SummaryError>(e) && final(output)@ == old(output)@,
        },
{
    if let Some(d) = daemon {
        let module = match &d.module {
            None => {
                return Err(SummaryError::PushWithoutModule);
            },
            Some(m) => m,
        };
        let ghost start = output@;
        output.append("destination: ");
        push_daemon_text(output, d, module);
        output.append("\n");
        assert(output@ =~= start + ("destination: "@ + daemon_text(d.host@, module@, d.path)
            + "\n"@));
        return Ok(());
    }
    let remote = match remote {
        None => {
            return Err(SummaryError::NoRemoteOperand);
        },
        Some(x) => x,
    };
    let ghost start = output@;
    output.append("destination: ");
    output.append(remote.host.as_str());
    output.append(":");
    output.append(remote.path.as_str());
    output.append("\n");
    assert(output@ =~= start + ("destination: "@ + remote.host@ + ":"@ + remote.path@ + "\n"@));
    Ok(())
}

/// One `- source host:path` line for each remote source.
pub open spec fn remote_source_lines(sources: Seq<RemoteShellOperand>) -> Seq<char>
    decreases sources.len(),
{
    if sources.len() == 0 {
        Seq::empty()
    } else {
        remote_source_lines(sources.drop_last()) + "- source "@ + sources.last().host@ + ":"@
            + sources.last().path@ + "\n"@
    }
}

/// The summary of remote sources: the one source, or their count and a line for each.
pub open spec fn remote_sources_text(sources: Seq<RemoteShellOperand>) -> Seq<char> {
    if sources.len() == 1 {
        "source: "@ + sources[0].host@ + ":"@ + sources[0].path@ + "\n"@
    } else {
        "sources: "@ + decimal_of(sources.len()) + "\n"@ + remote_source_lines(sources)
    }
}

/// The source summary of a pull, or why there is none: the daemon operand when there is one,
/// else the remote sources (the planned operand when no list was planned).
pub open spec fn pull_sources_text(
    daemon: Option<DaemonOperand>,
    remote: Option<RemoteShellOperand>,
    remote_operands: Seq<RemoteShellOperand>,
) -> Result<Seq<char>, SummaryError> {
    match daemon {
        Some(d) => match d.module {
            None => Err(SummaryError::PullWithoutModule),
            Some(m) => Ok("source: "@ + daemon_text(d.host@, m@, d.path) + "\n"@),
        },
        None => match remote {
            None => Err(SummaryError::NoRemoteOperand),
            Some(r) => Ok(
                remote_sources_text(
                    if remote_operands.len() == 0 {
                        seq![r]
                    } else {
                        remote_operands
                    },
                ),
            ),
        },
    }
}

fn append_remote_sources(output: &mut String, sources: &[RemoteShellOperand])
    ensures
        final(output)@ == old(output)@ + remote_sources_text(sources@),
{
    let ghost start = output@;
    if sources.len() == 1 {
        output.append("source: ");
        output.append(sources[0].host.as_str());
        output.append(":");
        output.append(sources[0].path.as_str());
        output.append("\n");
        return;
    }
    let count = decimal_text(sources.len() as u128);
    output.append("sources: ");
    output.append(count.as_str());
    output.append("\n");
    let ghost head = output@;
    let mut i: usize = 0;
    assert(sources@.take(0) =~= Seq::<RemoteShellOperand>::empty());
    while i < sources.len()
        invariant
            i <= sources@.len(),
            output@ == head + remote_source_lines(sources@.take(i as int)),
        decreases sources.len() - i,
    {
        output.append("- source ");
        output.append(sources[i].host.as_str());
        output.append(":");
        output.append(sources[i].path.as_str());
        output.append("\n");
        assert(sources@.take(i + 1).drop_last() =~= sources@.take(i as int));
        assert(output@ =~= head + remote_source_lines(sources@.take(i + 1)));
        i = i + 1;
    }
    assert(sources@.take(sources@.len() as int) =~= sources@);
    assert(output@ =~= start + remote_sources_text(sources@));
}

/// Appends the sources of a pull to a report.
pub fn append_pull_sources_summary(
    output: &mut String,
    daemon: Option<&DaemonOperand>,
    remote: Option<&RemoteShellOperand>,
    remote_operands: &[RemoteShellOperand],
) -> (r: Result<(), SummaryError>)
    ensures
        match pull_sources_text(
            match daemon {
                Some(d) => Some(*d),
                None => None,
            },
            match remote {
                Some(x) => Some(*x),
                None => None,
            },
            remote_operands@,
        ) {
            Ok(text) => r is Ok && final(output)@ == old(output)@ + text,
            Err(e) => r == Err::<(), SummaryError>(e) && final(output)@ == old(output)@,
        },
{
    if let Some(d) = daemon {
        let module = match &d.module {
            None => {
                return Err(SummaryError::PullWithoutModule);
            },
            Some(m) => m,
        };
        let ghost start = output@;
        output.append("source: ");
        push_daemon_text(output, d, module);
        output.append("\n");
        assert(output@ =~= start + ("source: "@ + daemon_text(d.host@, module@, d.path) + "\n"@));
        return Ok(());
    }
    let fallback = match remote {
        None => {
            return Err(SummaryError::NoRemoteOperand);
        },
        Some(x) => x,
    };
    if remote_operands.len() == 0 {
        let one = vec![fallback.clone()];
        assert(one@ =~= seq![*fallback]);
        append_remote_sources(output, one.as_slice());
    } else {
        append_remote_sources(output, remote_operands);
    }
    Ok(())
}

/// Whether a push report warns that no file data was sent although files were listed: a
/// quick-check push, not a dry run, that listed files with data and sent none.
pub open spec fn quick_check_note_due(
    dry_run: bool,
    update_mode: UpdateMode,
    file_count: nat,
    total_file_bytes: nat,
    sent_files: nat,
    sent_bytes: nat,
) -> bool {
    !dry_run && update_mode == UpdateMode::QuickCheck && file_count != 0 && total_file_bytes != 0
        && sent_files == 0 && sent_bytes == 0
}

/// The note a push report gives when quick-check sent no data.
pub open spec fn quick_check_note() -> Seq<char> {
    "transfer note: no file data was sent; remote quick-check treated the destination as up-to-date by size and mtime\n"@
        + "hint: if the remote file may be corrupt, rerun with -c/--checksum or --ignore-times to force content verification or retransmission\n"@
}

/// Appends the quick-check note to a push report when it is due.
pub fn append_remote_push_quick_check_note(
    output: &mut String,
    dry_run: bool,
    update_mode: UpdateMode,
    file_count: usize,
    total_file_bytes: u64,
    sent_files: usize,
    sent_bytes: u64,
)
    ensures
        final(output)@ == old(output)@ + if quick_check_note_due(
            dry_run,
            update_mode,
            file_count as nat,
            total_file_bytes as nat,
            sent_files as nat,
            sent_bytes as nat,
        ) {
            quick_check_note()
        } else {
            Seq::empty()
        },
{
    if dry_run || update_mode != UpdateMode::QuickCheck || file_count == 0 || total_file_bytes == 0
        || sent_files != 0 || sent_bytes != 0 {
        assert(old(output)@ + Seq::<char>::empty() =~= old(output)@);
        return;
    }
    let ghost start = output@;
    output.append(
        "transfer note: no file data was sent; remote quick-check treated the destination as up-to-date by size and mtime\n",
    );
    output.append(
        "hint: if the remote file may be corrupt, rerun with -c/--checksum or --ignore-times to force content verification or retransmission\n",
    );
    assert(output@ =~= start + quick_check_note());
}

/// The mode a sender puts on the wire for an entry: its POSIX mode, then the chmod rules for
/// files and directories when there are any.
pub open spec fn wire_mode(
    metadata: PortableMetadata,
    file_type: WireFileType,
    path: Seq<char>,
    preserve_executability: bool,
    chmod_rules: Option<Seq<crate::chmod::ChmodRule>>,
) -> u32 {
    let mode = posix_mode(metadata, Some(path), preserve_executability);
    match chmod_rules {
        Some(rules) => match file_type {
            WireFileType::File => apply_chmod(rules, mode, ChmodFileKind::File),
            WireFileType::Directory => apply_chmod(rules, mode, ChmodFileKind::Directory),
            WireFileType::Symlink => mode,
        },
        None => mode,
    }
}

/// The mode a sender puts on the wire for an entry.
pub fn remote_wire_mode(
    metadata: &PortableMetadata,
    file_type: WireFileType,
    path: &str,
    preserve_executability: bool,
    chmod_rules: Option<&ChmodRules>,
) -> (r: u32)
    ensures
        r == wire_mode(
            *metadata,
            file_type,
            path@,
            preserve_executability,
            match chmod_rules {
                Some(rules) => Some(rules@),
                None => None,
            },
        ),
{
    let mode = metadata.posix_mode_for_path(Some(path), preserve_executability);
    match chmod_rules {
        Some(rules) => match file_type {
            WireFileType::File => rules.apply(mode, ChmodFileKind::File),
            WireFileType::Directory => rules.apply(mode, ChmodFileKind::Directory),
            WireFileType::Symlink => mode,
        },
        None => mode,
    }
}

/// A group of hard-linked files as the wire names it: the volume and the file index.
#[derive(Debug, Clone, Copy, PartialEq, Eq, Structural)]
pub struct RemoteHardLinkGroup {
    pub device: u64,
    pub inode: u64,
}

/// The hard-link group a sender announces for an entry: only for a regular file with more
/// than one link and a known identity, when hard links are preserved.
pub fn remote_hardlink_group(metadata: &PortableMetadata, preserve_hard_links: bool) -> (r: Option<
    RemoteHardLinkGroup,
>)
    ensures
        r == if !preserve_hard_links || metadata.file_type != FileType::File || match metadata.hardlink_count {
            Some(c) => c <= 1,
            None => true,
        } {
            None::<RemoteHardLinkGroup>
        } else {
            match metadata.hardlink_id {
                Some(id) => Some(RemoteHardLinkGroup { device: id.volume, inode: id.file }),
                None => None,
            }
        },
{
    if !preserve_hard_links || metadata.file_type != FileType::File {
        return None;
    }
    let count = match metadata.hardlink_count {
        Some(c) => c,
        None => 1,
    };
    if count <= 1 {
        return None;
    }
    match metadata.hardlink_id {
        Some(id) => Some(RemoteHardLinkGroup { device: id.volume, inode: id.file }),
        None => None,
    }
}

/// Whether a symlink mode follows a directory link whose target is `target`.
pub open spec fn follows_link(symlink_mode: SymlinkMode, target: Seq<char>) -> bool {
    match symlink_mode {
        SymlinkMode::CopyAll | SymlinkMode::CopyDirLinks => true,
        SymlinkMode::CopyUnsafe => unsafe_symlink_target(target),
        _ => false,
    }
}

/// Where a sender reads a followed directory link from: for a link whose copy is a directory,
/// its target taken from the link, when the symlink mode follows it.
pub fn remote_followed_directory_path(
    link_path: &str,
    original_metadata: &PortableMetadata,
    copied_metadata: &PortableMetadata,
    symlink_mode: SymlinkMode,
) -> (r: Option<String>)
    ensures
        match original_metadata.symlink_target {
            Some(t) => if original_metadata.file_type == FileType::Symlink
                && copied_metadata.file_type == FileType::Directory && follows_link(
                symlink_mode,
                t@,
            ) {
                r matches Some(p) && p@ == symlink_destination(link_path@, t@)
            } else {
                r is None
            },
            None => r is None,
        },
{
    if original_metadata.file_type != FileType::Symlink || copied_metadata.file_type
        != FileType::Directory {
        return None;
    }
    let target = match &original_metadata.symlink_target {
        Some(t) => t,
        None => {
            return None;
        },
    };
    let should_follow = match symlink_mode {
        SymlinkMode::CopyAll | SymlinkMode::CopyDirLinks => true,
        SymlinkMode::CopyUnsafe => is_unsafe_symlink_target(target.as_str()),
        _ => false,
    };
    if should_follow {
        Some(resolve_symlink_target(link_path, target.as_str()))
    } else {
        None
    }
}

} // verus!
