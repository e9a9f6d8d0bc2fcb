use vstd::prelude::*;
use vstd::string::StringExecFns;

use crate::decimal::{decimal_of, decimal_text};
use crate::diagnostics::{Report, Severity};
use crate::filter::records::split_on;
use crate::fs::metadata::{ascii_lower, to_ascii_lower};
use crate::fs::paths::components_view;
use crate::fs::sync::{DeleteMode, SymlinkMode, UpdateMode};
use crate::plan::options::{note_when, push_note_when, CliOptions};
use crate::remote::flist::TransferDirection;
use crate::text::{is_whitespace, trim};

verus! {

/// The protocol number of the compatibility wire protocol.
pub const REMOTE_SHELL_MVP_PROTOCOL: u32 = 27;

/// The protocol number of the modern wire protocol.
pub const REMOTE_SHELL_MODERN_PROTOCOL: u32 = 31;

/// The wire protocol a remote-shell transfer speaks.
#[derive(Debug, Clone, Copy, PartialEq, Eq, Structural)]
pub enum RemoteWireProtocol {
    Compat27,
    Modern31,
}

/// The label of a wire protocol.
pub open spec fn protocol_label(p: RemoteWireProtocol) -> Seq<char> {
    match p {
        RemoteWireProtocol::Compat27 => "protocol 27 compatibility mode"@,
        RemoteWireProtocol::Modern31 => "protocol 31 ordinary-file MVP"@,
    }
}

impl RemoteWireProtocol {
    /// The protocol number.
    pub fn protocol_number(self) -> (r: u32)
        ensures
            r == match self {
                RemoteWireProtocol::Compat27 => REMOTE_SHELL_MVP_PROTOCOL,
                RemoteWireProtocol::Modern31 => REMOTE_SHELL_MODERN_PROTOCOL,
            },
    {
        match self {
            RemoteWireProtocol::Compat27 => REMOTE_SHELL_MVP_PROTOCOL,
            RemoteWireProtocol::Modern31 => REMOTE_SHELL_MODERN_PROTOCOL,
        }
    }

    /// How the protocol is named in reports.
    pub fn label(self) -> (r: &'static str)
        ensures
            r@ == protocol_label(self),
    {
        match self {
            RemoteWireProtocol::Compat27 => "protocol 27 compatibility mode",
            RemoteWireProtocol::Modern31 => "protocol 31 ordinary-file MVP",
        }
    }
}

/// The wire protocol `--protocol` asks for: 27 for the compatibility protocol, the modern one
/// otherwise, with an error for a number other than 27 and 31.
pub open spec fn requested_protocol(protocol_version: Option<u32>) -> (
    RemoteWireProtocol,
    Seq<(Severity, Seq<char>, Seq<char>, Option<Seq<char>>)>,
) {
    match protocol_version {
        Some(v) => if v == 27 {
            (RemoteWireProtocol::Compat27, Seq::empty())
        } else if v == 31 {
            (RemoteWireProtocol::Modern31, Seq::empty())
        } else {
            (
                RemoteWireProtocol::Modern31,
                seq![
                    (
                        Severity::Error,
                        "E_UNSUPPORTED_PROTOCOL"@,
                        "--protocol="@ + decimal_of(v as nat)
                            + " is not supported by this build; supported execution protocols are 27 and 31"@,
                        None,
                    ),
                ],
            )
        },
        None => (RemoteWireProtocol::Modern31, Seq::empty()),
    }
}

/// The wire protocol `--protocol` asks for, reporting a number this build does not speak.
pub fn remote_wire_protocol_from_cli(protocol_version: Option<u32>, report: &mut Report) -> (r:
    RemoteWireProtocol)
    ensures
        r == requested_protocol(protocol_version).0,
        final(report)@ == old(report)@ + requested_protocol(protocol_version).1,
{
    match protocol_version {
        Some(v) => {
            if v == 27 {
                assert(old(report)@ + Seq::empty() =~= old(report)@);
                RemoteWireProtocol::Compat27
            } else if v == 31 {
                assert(old(report)@ + Seq::empty() =~= old(report)@);
                RemoteWireProtocol::Modern31
            } else {
                let mut message = String::from_str("--protocol=");
                let digits = decimal_text(v as u128);
                message.append(digits.as_str());
                message.append(
                    " is not supported by this build; supported execution protocols are 27 and 31",
                );
                report.error("E_UNSUPPORTED_PROTOCOL", message.as_str());
                assert(report@ =~= old(report)@ + requested_protocol(protocol_version).1);
                RemoteWireProtocol::Modern31
            }
        },
        None => {
            assert(old(report)@ + Seq::empty() =~= old(report)@);
            RemoteWireProtocol::Modern31
        },
    }
}

/// The note a remote-shell plan gives on its wire protocol.
pub open spec fn protocol_note(p: RemoteWireProtocol) -> (
    Severity,
    Seq<char>,
    Seq<char>,
    Option<Seq<char>>,
) {
    match p {
        RemoteWireProtocol::Modern31 => (
            Severity::Info,
            "I_REMOTE_PROTOCOL31_MVP"@,
            "remote-shell execution tries protocol "@ + decimal_of(REMOTE_SHELL_MODERN_PROTOCOL as nat)
                + " first for the ordinary-file MVP"@,
            None,
        ),
        RemoteWireProtocol::Compat27 => (
            Severity::Info,
            "I_REMOTE_PROTOCOL"@,
            "remote-shell execution uses "@ + protocol_label(p),
            None,
        ),
    }
}

/// Notes the wire protocol of a remote-shell plan.
pub fn add_remote_protocol_diagnostic(report: &mut Report, protocol: RemoteWireProtocol)
    ensures
        final(report)@ == old(report)@.push(protocol_note(protocol)),
{
    match protocol {
        RemoteWireProtocol::Modern31 => {
            let mut message = String::from_str("remote-shell execution tries protocol ");
            let digits = decimal_text(REMOTE_SHELL_MODERN_PROTOCOL as u128);
            message.append(digits.as_str());
            message.append(" first for the ordinary-file MVP");
            report.info("I_REMOTE_PROTOCOL31_MVP", message.as_str());
        },
        RemoteWireProtocol::Compat27 => {
            let mut message = String::from_str("remote-shell execution uses ");
            message.append(protocol.label());
            report.info("I_REMOTE_PROTOCOL", message.as_str());
        },
    }
}

/// How a transfer runs.
#[derive(Debug, Clone, Copy, PartialEq, Eq, Structural)]
pub enum TransferMode {
    Local,
    RemoteShell,
    DaemonClient,
    DaemonServer,
    InternalServer,
}

/// The label of a transfer mode.
pub open spec fn mode_label(m: TransferMode) -> Seq<char> {
    match m {
        TransferMode::Local => "local"@,
        TransferMode::RemoteShell => "remote-shell"@,
        TransferMode::DaemonClient => "daemon-client"@,
        TransferMode::DaemonServer => "daemon-server"@,
        TransferMode::InternalServer => "internal-server"@,
    }
}

impl TransferMode {
    /// How the mode is named in reports.
    pub fn label(self) -> (r: &'static str)
        ensures
            r@ == mode_label(self),
    {
        match self {
            TransferMode::Local => "local",
            TransferMode::RemoteShell => "remote-shell",
            TransferMode::DaemonClient => "daemon-client",
            TransferMode::DaemonServer => "daemon-server",
            TransferMode::InternalServer => "internal-server",
        }
    }
}

/// How a transfer direction is named in reports.
pub fn transfer_direction_label(direction: TransferDirection) -> (r: &'static str)
    ensures
        r@ == match direction {
            TransferDirection::Push => "upload"@,
            TransferDirection::Pull => "download"@,
        },
{
    match direction {
        TransferDirection::Push => "upload",
        TransferDirection::Pull => "download",
    }
}

/// The mode of a transfer: a daemon server, an internal server, a daemon client, a remote-shell
/// transfer when one was planned, else local.
pub open spec fn mode_of(
    o: CliOptions,
    has_daemon_operand: bool,
    remote_direction: Option<TransferDirection>,
) -> TransferMode {
    if o.daemon_server {
        TransferMode::DaemonServer
    } else if o.internal_server {
        TransferMode::InternalServer
    } else if has_daemon_operand {
        TransferMode::DaemonClient
    } else if remote_direction is Some {
        TransferMode::RemoteShell
    } else {
        TransferMode::Local
    }
}

/// The mode of a transfer.
pub fn transfer_mode_from_cli(
    o: &CliOptions,
    has_daemon_operand: bool,
    remote_direction: Option<TransferDirection>,
) -> (r: TransferMode)
    ensures
        r == mode_of(*o, has_daemon_operand, remote_direction),
{
    if o.daemon_server {
        TransferMode::DaemonServer
    } else if o.internal_server {
        TransferMode::InternalServer
    } else if has_daemon_operand {
        TransferMode::DaemonClient
    } else if remote_direction.is_some() {
        TransferMode::RemoteShell
    } else {
        TransferMode::Local
    }
}

/// Whether a recursive transfer asks for incremental recursion.
pub fn incremental_recursion_from_cli(o: &CliOptions, recursive: bool) -> (r: bool)
    ensures
        r == (recursive && o.inc_recursive && !o.no_inc_recursive),
{
    recursive && o.inc_recursive && !o.no_inc_recursive
}

/// Whether permissions are preserved: asked for or implied by archive mode, and not turned off.
pub fn cli_preserve_permissions(o: &CliOptions) -> (r: bool)
    ensures
        r == ((o.preserve_permissions || o.archive) && !o.no_permissions),
{
    (o.preserve_permissions || o.archive) && !o.no_permissions
}

/// Whether owners are preserved: asked for, or implied by archive mode when not turned off.
pub fn cli_preserve_owner(o: &CliOptions) -> (r: bool)
    ensures
        r == (o.preserve_owner || (o.archive && !o.no_owner)),
{
    o.preserve_owner || (o.archive && !o.no_owner)
}

/// Whether groups are preserved: asked for, or implied by archive mode when not turned off.
pub fn cli_preserve_group(o: &CliOptions) -> (r: bool)
    ensures
        r == (o.preserve_group || (o.archive && !o.no_group)),
{
    o.preserve_group || (o.archive && !o.no_group)
}

/// When the receiver deletes, as the peer is told.
#[derive(Debug, Clone, Copy, PartialEq, Eq, Structural)]
pub enum RemoteDeleteMode {
    Disabled,
    Before,
    During,
    Delay,
    After,
}

/// The delete mode a peer is told: the mode asked for, else during the transfer when `--delete`
/// is given, else none.
pub open spec fn delete_mode_for_peer(delete: bool, delete_mode: DeleteMode) -> RemoteDeleteMode {
    let mode = if delete_mode != DeleteMode::Disabled {
        delete_mode
    } else if delete {
        DeleteMode::During
    } else {
        DeleteMode::Disabled
    };
    match mode {
        DeleteMode::Disabled => RemoteDeleteMode::Disabled,
        DeleteMode::Before => RemoteDeleteMode::Before,
        DeleteMode::During => RemoteDeleteMode::During,
        DeleteMode::Delay => RemoteDeleteMode::Delay,
        DeleteMode::After => RemoteDeleteMode::After,
    }
}

/// The delete mode a peer is told.
pub fn remote_delete_mode(delete: bool, delete_mode: DeleteMode) -> (r: RemoteDeleteMode)
    ensures
        r == delete_mode_for_peer(delete, delete_mode),
{
    let mode = if delete_mode != DeleteMode::Disabled {
        delete_mode
    } else if delete {
        DeleteMode::During
    } else {
        DeleteMode::Disabled
    };
    match mode {
        DeleteMode::Disabled => RemoteDeleteMode::Disabled,
        DeleteMode::Before => RemoteDeleteMode::Before,
        DeleteMode::During => RemoteDeleteMode::During,
        DeleteMode::Delay => RemoteDeleteMode::Delay,
        DeleteMode::After => RemoteDeleteMode::After,
    }
}

/// The delete mode a peer is told for these options.
pub fn remote_delete_mode_from_cli(o: &CliOptions) -> (r: RemoteDeleteMode)
    ensures
        r == delete_mode_for_peer(o.delete, o.delete_mode),
{
    remote_delete_mode(o.delete, o.delete_mode)
}

/// Whether a character separates the items of an option list: a comma or ASCII whitespace.
pub open spec fn is_list_separator(c: char) -> bool {
    c == ',' || c == ' ' || c == '\t' || c == '\n' || c == '\r' || c == '\u{c}'
}

/// The pieces of an option list, each trimmed, empty ones left out, in ASCII lower case.
pub open spec fn items_of(pieces: Seq<Seq<char>>) -> Seq<Seq<char>>
    decreases pieces.len(),
{
    if pieces.len() == 0 {
        Seq::empty()
    } else {
        let t = trim(pieces.last());
        items_of(pieces.drop_last()) + if t.len() > 0 {
            seq![t.map_values(|c: char| ascii_lower(c))]
        } else {
            Seq::empty()
        }
    }
}

/// An option list with every separator turned into a comma.
pub open spec fn commas(value: Seq<char>) -> Seq<char> {
    value.map_values(|c: char| if is_list_separator(c) { ',' } else { c })
}

/// The items of an option list: the pieces between separators, trimmed, empty ones left out,
/// in ASCII lower case.
pub open spec fn option_items(value: Seq<char>) -> Seq<Seq<char>> {
    items_of(split_on(commas(value), ','))
}

fn lower_text(chars: &[char]) -> (r: String)
    ensures
        r@ == chars@.map_values(|c: char| ascii_lower(c)),
{
    let mut out = String::new();
    let mut i: usize = 0;
    while i < chars.len()
        invariant
            i <= chars@.len(),
            out@ == chars@.take(i as int).map_values(|c: char| ascii_lower(c)),
        decreases chars.len() - i,
    {
        out.push(to_ascii_lower(chars[i]));
        assert(chars@.take(i + 1) =~= chars@.take(i as int).push(chars@[i as int]));
        i = i + 1;
        assert(out@ =~= chars@.take(i as int).map_values(|c: char| ascii_lower(c)));
    }
    assert(chars@.take(chars@.len() as int) =~= chars@);
    out
}

fn push_item(out: &mut Vec<String>, piece: &[char])
    ensures
        components_view(final(out)@) == components_view(old(out)@) + if trim(piece@).len() > 0 {
            seq![trim(piece@).map_values(|c: char| ascii_lower(c))]
        } else {
            Seq::empty()
        },
{
    let trimmed = crate::text::trim_chars(piece);
    if trimmed.len() > 0 {
        let item = lower_text(trimmed.as_slice());
        let ghost before = components_view(out@);
        out.push(item);
        assert(components_view(out@) =~= before.push(item@));
        assert(components_view(out@) =~= before + seq![trim(piece@).map_values(|c: char| ascii_lower(c))]);
    } else {
        assert(components_view(out@) =~= components_view(old(out)@) + Seq::<Seq<char>>::empty());
    }
}

/// The items of an option list such as `--checksum-choice=md5,md4`.
pub fn split_option_list(value: &str) -> (r: Vec<String>)
    ensures
        components_view(r@) == option_items(value@),
{
    let chars = crate::text::chars_of(value);
    let ghost mapped = commas(chars@);
    let mut out: Vec<String> = Vec::new();
    let mut current: Vec<char> = Vec::new();
    let ghost mut done: Seq<Seq<char>> = Seq::empty();
    let mut i: usize = 0;
    assert(mapped.take(0) =~= Seq::<char>::empty());
    assert(split_on(mapped.take(0), ',') =~= done.push(current@));
    while i < chars.len()
        invariant
            i <= chars@.len(),
            mapped == commas(chars@),
            split_on(mapped.take(i as int), ',') == done.push(current@),
            components_view(out@) == items_of(done),
        decreases chars.len() - i,
    {
        let c = chars[i];
        assert(mapped.take(i + 1) =~= mapped.take(i as int).push(mapped[i as int]));
        assert(mapped.take(i + 1).drop_last() =~= mapped.take(i as int));
        if c == ',' || c == ' ' || c == '\t' || c == '\n' || c == '\r' || c == '\u{c}' {
            push_item(&mut out, current.as_slice());
            proof {
                assert(items_of(done.push(current@)).len() >= 0);
                assert(done.push(current@).drop_last() =~= done);
                done = done.push(current@);
            }
            current = Vec::new();
            assert(split_on(mapped.take(i + 1), ',') =~= done.push(current@));
        } else {
            let ghost before = current@;
            current.push(c);
            assert(split_on(mapped.take(i + 1), ',') =~= done.push(current@));
        }
        i = i + 1;
    }
    push_item(&mut out, current.as_slice());
    proof {
        assert(done.push(current@).drop_last() =~= done);
    }
    assert(mapped.take(chars@.len() as int) =~= mapped);
    out
}

/// What a protocol 31 setup offers the peer: the checksum choices and the checksum seed.
pub struct Protocol31SetupOptions {
    pub checksum_choices: Vec<String>,
    pub checksum_seed: Option<i32>,
}

/// The setup a protocol 31 transfer offers: the items of `--checksum-choice`, or `md4` alone,
/// and the checksum seed.
pub fn protocol31_setup_options_from_plan(
    checksum_choice: Option<&str>,
    checksum_seed: Option<i32>,
) -> (r: Protocol31SetupOptions)
    ensures
        components_view(r.checksum_choices@) == match checksum_choice {
            Some(c) => option_items(c@),
            None => seq!["md4"@],
        },
        r.checksum_seed == checksum_seed,
{
    let checksum_choices = match checksum_choice {
        Some(c) => split_option_list(c),
        None => {
            let v = vec![String::from_str("md4")];
            assert(components_view(v@) =~= seq!["md4"@]);
            v
        },
    };
    Protocol31SetupOptions { checksum_choices, checksum_seed }
}

/// Whether any operand is written in daemon syntax.
pub open spec fn any_daemon_syntax(paths: Seq<Seq<char>>) -> bool {
    exists|i: int| 0 <= i < paths.len() && crate::plan::options::daemon_syntax(#[trigger] paths[i])
}

/// The diagnostics on options that do not fit the transfer mode, in the order they are checked.
/// `has_remote_shell_syntax` says whether any operand reads as a remote-shell operand.
#[verifier::opaque]
pub open spec fn mode_gating_notes(
    o: CliOptions,
    mode: TransferMode,
    has_daemon_operand: bool,
    has_remote_shell_syntax: bool,
) -> Seq<(Severity, Seq<char>, Seq<char>, Option<Seq<char>>)> {
    let daemon_syntax = has_daemon_operand || any_daemon_syntax(components_view(o.paths@));
    note_when(
        o.daemon_server && o.internal_server,
        Severity::Error,
        "E_MODE_CONFLICT"@,
        "--daemon and --server select different rsync execution modes"@,
    ) + note_when(
        o.internal_sender && !o.internal_server,
        Severity::Warning,
        "W_MODE_SCOPED_OPTION"@,
        "--sender is an internal --server modifier and has no standalone client behavior"@,
    ) + note_when(
        daemon_syntax && has_remote_shell_syntax,
        Severity::Error,
        "E_MODE_CONFLICT"@,
        "daemon operands cannot be mixed with remote-shell operands"@,
    ) + match mode {
        TransferMode::DaemonServer => note_when(
            has_remote_shell_syntax || daemon_syntax || o.paths@.len() > 0,
            Severity::Error,
            "E_MODE_CONFLICT"@,
            "--daemon server mode does not accept transfer operands"@,
        ),
        TransferMode::InternalServer => note_when(
            true,
            Severity::Error,
            "E_UNSUPPORTED_MODE"@,
            "internal --server mode is reserved for rsync peer execution and is not a public entrypoint in this build"@,
        ) + note_when(
            o.daemon_server,
            Severity::Error,
            "E_MODE_CONFLICT"@,
            "internal --server mode cannot be combined with daemon server mode"@,
        ),
        TransferMode::DaemonClient => note_when(
            o.remote_shell is Some,
            Severity::Error,
            "E_MODE_CONFLICT"@,
            "daemon client mode does not use --rsh/-e"@,
        ),
        TransferMode::RemoteShell => note_when(
            o.password_file is Some,
            Severity::Warning,
            "W_MODE_SCOPED_OPTION"@,
            "--password-file applies to rsync daemon authentication, not remote-shell mode"@,
        ) + note_when(
            o.daemon_no_motd,
            Severity::Warning,
            "W_MODE_SCOPED_OPTION"@,
            "--no-motd applies to rsync daemon module listing, not remote-shell mode"@,
        ),
        TransferMode::Local => note_when(
            o.password_file is Some,
            Severity::Warning,
            "W_MODE_SCOPED_OPTION"@,
            "--password-file applies to rsync daemon authentication, not local mode"@,
        ) + note_when(
            o.daemon_no_motd,
            Severity::Warning,
            "W_MODE_SCOPED_OPTION"@,
            "--no-motd applies to rsync daemon module listing, not local mode"@,
        ),
    }
}

pub(crate) fn any_daemon_operand_syntax(paths: &Vec<String>) -> (r: bool)
    ensures
        r == any_daemon_syntax(components_view(paths@)),
{
    let ghost pv = components_view(paths@);
    let mut i: usize = 0;
    while i < paths.len()
        invariant
            i <= paths@.len(),
            pv == components_view(paths@),
            forall|j: int| 0 <= j < i ==> !crate::plan::options::daemon_syntax(#[trigger] pv[j]),
        decreases paths.len() - i,
    {
        assert(pv[i as int] == paths@[i as int]@);
        if crate::plan::options::is_daemon_operand_syntax(paths[i].as_str()) {
            return true;
        }
        i = i + 1;
    }
    false
}

/// Reports the options that do not fit the transfer mode. `has_remote_shell_syntax` says
/// whether any operand reads as a remote-shell operand.
#[verifier::rlimit(60)]
pub fn add_mode_gating_diagnostics(
    o: &CliOptions,
    transfer_mode: TransferMode,
    has_daemon_operand: bool,
    has_remote_shell_syntax: bool,
    report: &mut Report,
)
    ensures
        final(report)@ == old(report)@ + mode_gating_notes(
            *o,
            transfer_mode,
            has_daemon_operand,
            has_remote_shell_syntax,
        ),
{
    let ghost start = report@;
    let has_daemon_syntax = has_daemon_operand || any_daemon_operand_syntax(&o.paths);
    let ghost mut acc: Seq<(Severity, Seq<char>, Seq<char>, Option<Seq<char>>)> = Seq::empty();
    assert(report@ =~= start + acc);
    push_note_when(report, o.daemon_server && o.internal_server, Severity::Error, "E_MODE_CONFLICT", "--daemon and --server select different rsync execution modes");
    proof {
        let piece = note_when(o.daemon_server && o.internal_server, Severity::Error, "E_MODE_CONFLICT"@, "--daemon and --server select different rsync execution modes"@);
        assert(report@ =~= start + (acc + piece));
        acc = acc + piece;
    }
    push_note_when(report, o.internal_sender && !o.internal_server, Severity::Warning, "W_MODE_SCOPED_OPTION", "--sender is an internal --server modifier and has no standalone client behavior");
    proof {
        let piece = note_when(o.internal_sender && !o.internal_server, Severity::Warning, "W_MODE_SCOPED_OPTION"@, "--sender is an internal --server modifier and has no standalone client behavior"@);
        assert(report@ =~= start + (acc + piece));
        acc = acc + piece;
    }
    push_note_when(report, has_daemon_syntax && has_remote_shell_syntax, Severity::Error, "E_MODE_CONFLICT", "daemon operands cannot be mixed with remote-shell operands");
    proof {
        let piece = note_when(has_daemon_syntax && has_remote_shell_syntax, Severity::Error, "E_MODE_CONFLICT"@, "daemon operands cannot be mixed with remote-shell operands"@);
        assert(report@ =~= start + (acc + piece));
        acc = acc + piece;
    }
    let ghost head = report@;
    match transfer_mode {
        TransferMode::DaemonServer => {
            push_note_when(report, has_remote_shell_syntax || has_daemon_syntax || o.paths.len() > 0, Severity::Error, "E_MODE_CONFLICT", "--daemon server mode does not accept transfer operands");
        },
        TransferMode::InternalServer => {
            push_note_when(report, true, Severity::Error, "E_UNSUPPORTED_MODE", "internal --server mode is reserved for rsync peer execution and is not a public entrypoint in this build");
            push_note_when(report, o.daemon_server, Severity::Error, "E_MODE_CONFLICT", "internal --server mode cannot be combined with daemon server mode");
        },
        TransferMode::DaemonClient => {
            push_note_when(report, o.remote_shell.is_some(), Severity::Error, "E_MODE_CONFLICT", "daemon client mode does not use --rsh/-e");
        },
        TransferMode::RemoteShell => {
            push_note_when(report, o.password_file.is_some(), Severity::Warning, "W_MODE_SCOPED_OPTION", "--password-file applies to rsync daemon authentication, not remote-shell mode");
            push_note_when(report, o.daemon_no_motd, Severity::Warning, "W_MODE_SCOPED_OPTION", "--no-motd applies to rsync daemon module listing, not remote-shell mode");
        },
        TransferMode::Local => {
            push_note_when(report, o.password_file.is_some(), Severity::Warning, "W_MODE_SCOPED_OPTION", "--password-file applies to rsync daemon authentication, not local mode");
            push_note_when(report, o.daemon_no_motd, Severity::Warning, "W_MODE_SCOPED_OPTION", "--no-motd applies to rsync daemon module listing, not local mode");
        },
    }
    reveal(mode_gating_notes);
    assert(report@ =~= start + mode_gating_notes(*o, transfer_mode, has_daemon_operand, has_remote_shell_syntax));
}

/// How a transfer decides that a file needs an update.
pub open spec fn update_mode_of(o: CliOptions) -> UpdateMode {
    if o.ignore_times {
        UpdateMode::IgnoreTimes
    } else if o.checksum {
        UpdateMode::Checksum
    } else if o.size_only {
        UpdateMode::SizeOnly
    } else {
        UpdateMode::QuickCheck
    }
}

/// How a transfer decides that a file needs an update: `--ignore-times`, then `--checksum`,
/// then `--size-only`, else the quick check.
pub fn update_mode_from_cli(o: &CliOptions) -> (r: UpdateMode)
    ensures
        r == update_mode_of(*o),
{
    if o.ignore_times {
        UpdateMode::IgnoreTimes
    } else if o.checksum {
        UpdateMode::Checksum
    } else if o.size_only {
        UpdateMode::SizeOnly
    } else {
        UpdateMode::QuickCheck
    }
}

/// What a transfer does with symbolic links.
pub open spec fn symlink_mode_of(o: CliOptions) -> SymlinkMode {
    if o.no_links {
        SymlinkMode::Skip
    } else if o.copy_links {
        SymlinkMode::CopyAll
    } else if o.copy_dirlinks {
        SymlinkMode::CopyDirLinks
    } else if o.copy_unsafe_links {
        SymlinkMode::CopyUnsafe
    } else if o.safe_links {
        SymlinkMode::SafeOnly
    } else if o.munge_links {
        SymlinkMode::Munge
    } else if o.links || o.archive {
        SymlinkMode::Preserve
    } else {
        SymlinkMode::Skip
    }
}

/// What a transfer does with symbolic links: the first link option that applies, in the order
/// `--no-links`, `--copy-links`, `--copy-dirlinks`, `--copy-unsafe-links`, `--safe-links`,
/// `--munge-links`, then `--links` or archive mode; skipped otherwise.
pub fn symlink_mode_from_cli(o: &CliOptions) -> (r: SymlinkMode)
    ensures
        r == symlink_mode_of(*o),
{
    if o.no_links {
        SymlinkMode::Skip
    } else if o.copy_links {
        SymlinkMode::CopyAll
    } else if o.copy_dirlinks {
        SymlinkMode::CopyDirLinks
    } else if o.copy_unsafe_links {
        SymlinkMode::CopyUnsafe
    } else if o.safe_links {
        SymlinkMode::SafeOnly
    } else if o.munge_links {
        SymlinkMode::Munge
    } else if o.links || o.archive {
        SymlinkMode::Preserve
    } else {
        SymlinkMode::Skip
    }
}

} // verus!
