use vstd::prelude::*;
use vstd::string::StringExecFns;

use crate::fs::paths::components_view;
use crate::fs::sync::{effective_delete_mode, DeleteMode};
use crate::fs::walk::FileWriteMode;
use crate::plan::modes::{
    any_daemon_operand_syntax, any_daemon_syntax, incremental_recursion_from_cli, mode_of,
    transfer_mode_from_cli, TransferMode,
};
use crate::plan::options::CliOptions;
use crate::remote::flist::{RemoteShellOperand, TransferDirection};
use crate::text::str_eq;

verus! {

/// What an operand of the command line turned out to be: a local path, or `host:path` on a
/// remote shell.
pub enum OperandKind {
    Local,
    Remote(RemoteShellOperand),
}

/// Why a transfer with remote-shell operands cannot go ahead.
#[derive(Debug, Clone, Copy, PartialEq, Eq, Structural)]
pub enum RemotePlanError {
    /// Both a source and the destination are remote.
    RemoteBoth,
    /// Some sources are remote and some are local.
    MixedSources,
    /// The remote sources name different hosts.
    HostMismatch,
}

/// The diagnostic code of a refused remote plan.
pub open spec fn plan_error_code(e: RemotePlanError) -> Seq<char> {
    match e {
        RemotePlanError::RemoteBoth => "E_REMOTE_BOTH"@,
        RemotePlanError::MixedSources => "E_REMOTE_MIXED_SOURCES"@,
        RemotePlanError::HostMismatch => "E_REMOTE_HOST_MISMATCH"@,
    }
}

/// The diagnostic message of a refused remote plan.
pub open spec fn plan_error_message(e: RemotePlanError) -> Seq<char> {
    match e {
        RemotePlanError::RemoteBoth => "remote-to-remote transfers are not supported by this development build"@,
        RemotePlanError::MixedSources => "remote-shell pull sources must all be remote operands from the same host"@,
        RemotePlanError::HostMismatch => "remote-shell pull sources must use the same remote host"@,
    }
}

impl RemotePlanError {
    /// The diagnostic code the plan reports.
    pub fn code(&self) -> (r: &'static str)
        ensures
            r@ == plan_error_code(*self),
    {
        match self {
            RemotePlanError::RemoteBoth => "E_REMOTE_BOTH",
            RemotePlanError::MixedSources => "E_REMOTE_MIXED_SOURCES",
            RemotePlanError::HostMismatch => "E_REMOTE_HOST_MISMATCH",
        }
    }

    /// The diagnostic message the plan reports.
    pub fn message(&self) -> (r: &'static str)
        ensures
            r@ == plan_error_message(*self),
    {
        match self {
            RemotePlanError::RemoteBoth => "remote-to-remote transfers are not supported by this development build",
            RemotePlanError::MixedSources => "remote-shell pull sources must all be remote operands from the same host",
            RemotePlanError::HostMismatch => "remote-shell pull sources must use the same remote host",
        }
    }
}

/// The decisions of a transfer plan that follow from the options and the operands.
pub struct PlanCore {
    pub recursive: bool,
    pub preserve_times: bool,
    pub incremental_recursion: bool,
    /// Whether to warn that incremental recursion is kept off for a remote-shell push.
    pub inc_recursive_push_warning: bool,
    pub remote_direction: Option<TransferDirection>,
    pub remote_operands: Vec<RemoteShellOperand>,
    pub remote_error: Option<RemotePlanError>,
    pub transfer_mode: TransferMode,
    pub delete: bool,
    pub delete_mode: DeleteMode,
    pub backup_suffix: String,
    pub preserve_devices: bool,
    pub preserve_specials: bool,
    pub file_write_mode: FileWriteMode,
}

/// The view of an operand: `None` for a local one, else its host and path.
pub open spec fn operand_view(k: OperandKind) -> Option<(Seq<char>, Seq<char>)> {
    match k {
        OperandKind::Local => None,
        OperandKind::Remote(op) => Some((op.host@, op.path@)),
    }
}

/// The views of remote operands.
pub open spec fn operands_view(ops: Seq<RemoteShellOperand>) -> Seq<(Seq<char>, Seq<char>)> {
    ops.map_values(|op: RemoteShellOperand| (op.host@, op.path@))
}

/// Recursion as planned: archive mode turns it on, `--no-recursive` off.
pub open spec fn planned_recursive(o: CliOptions) -> bool {
    !o.no_recursive && (o.recursive || o.archive)
}

/// Time preservation as planned: archive mode turns it on, `--no-times` off.
pub open spec fn planned_times(o: CliOptions) -> bool {
    !o.no_times && (o.preserve_times || o.archive)
}

/// Whether a command line has a daemon operand.
pub open spec fn has_daemon_operand(o: CliOptions) -> bool {
    !(o.daemon_server || o.internal_server) && any_daemon_syntax(components_view(o.paths@))
}

/// The remote-shell side of a plan: the direction, the remote operands, and the refusal, if any.
/// Remote operands are considered only without a server mode or a daemon operand, and with at
/// least a source and a destination. A pull takes remote sources that all name one host; a push
/// takes a remote destination.
pub open spec fn remote_plan(
    o: CliOptions,
    sources: Seq<OperandKind>,
    dest: OperandKind,
) -> (Option<TransferDirection>, Seq<(Seq<char>, Seq<char>)>, Option<RemotePlanError>) {
    let any_remote_source = exists|i: int| 0 <= i < sources.len() && #[trigger] operand_view(sources[i]) is Some;
    let all_remote_sources = forall|i: int| 0 <= i < sources.len() ==> #[trigger] operand_view(sources[i]) is Some;
    let views = sources.map_values(|k: OperandKind| operand_view(k)->Some_0);
    if o.daemon_server || o.internal_server || has_daemon_operand(o) || o.paths@.len() < 2 {
        (None, Seq::empty(), None)
    } else if !any_remote_source && operand_view(dest) is None {
        (None, Seq::empty(), None)
    } else if any_remote_source && operand_view(dest) is Some {
        (None, Seq::empty(), Some(RemotePlanError::RemoteBoth))
    } else if any_remote_source {
        if !all_remote_sources {
            (None, Seq::empty(), Some(RemotePlanError::MixedSources))
        } else if exists|i: int| 0 <= i < views.len() && #[trigger] views[i].0 != views[0].0 {
            (None, Seq::empty(), Some(RemotePlanError::HostMismatch))
        } else {
            (Some(TransferDirection::Pull), views, None)
        }
    } else {
        (Some(TransferDirection::Push), seq![operand_view(dest)->Some_0], None)
    }
}

/// The backup suffix as planned: the one given, else none with a backup directory and `~`
/// without.
pub open spec fn planned_suffix(o: CliOptions) -> Seq<char> {
    match o.suffix {
        Some(s) => s@,
        None => if o.backup_dir is Some {
            Seq::empty()
        } else {
            "~"@
        },
    }
}

/// Whether `p` is the plan for the options `o` with the parsed `sources` and `dest`.
pub open spec fn plan_matches(
    p: PlanCore,
    o: CliOptions,
    sources: Seq<OperandKind>,
    dest: OperandKind,
) -> bool {
    let remote = remote_plan(o, sources, dest);
    let requested_inc = planned_recursive(o) && o.inc_recursive && !o.no_inc_recursive;
    &&& p.recursive == planned_recursive(o)
    &&& p.preserve_times == planned_times(o)
    &&& p.remote_direction == remote.0
    &&& operands_view(p.remote_operands@) == remote.1
    &&& p.remote_error == remote.2
    &&& p.incremental_recursion == (requested_inc && remote.0 == Some(TransferDirection::Pull))
    &&& p.inc_recursive_push_warning == (requested_inc && remote.0 == Some(TransferDirection::Push))
    &&& p.transfer_mode == mode_of(o, has_daemon_operand(o), remote.0)
    &&& p.delete == (o.delete || o.delete_mode != DeleteMode::Disabled)
    &&& p.delete_mode == effective_delete_mode(o.delete_mode, o.delete)
    &&& p.backup_suffix@ == planned_suffix(o)
    &&& p.preserve_devices == ((o.devices || o.archive || o.copy_devices || o.write_devices)
        && !o.no_devices)
    &&& p.preserve_specials == ((o.specials || o.archive) && !o.no_specials)
    &&& p.file_write_mode == if o.inplace {
        FileWriteMode::InPlace
    } else {
        FileWriteMode::Atomic
    }
}

/// The remote-shell side of a plan from the parsed operands.
fn plan_remote(
    o: &CliOptions,
    daemon: bool,
    sources: &[OperandKind],
    dest: &OperandKind,
) -> (r: (Option<TransferDirection>, Vec<RemoteShellOperand>, Option<RemotePlanError>))
    requires
        daemon == has_daemon_operand(*o),
    ensures
        ({
            let spec = remote_plan(*o, sources@, *dest);
            r.0 == spec.0 && operands_view(r.1@) == spec.1 && r.2 == spec.2
        }),
{
    let ghost spec = remote_plan(*o, sources@, *dest);
    let none: Vec<RemoteShellOperand> = Vec::new();
    assert(operands_view(none@) =~= Seq::<(Seq<char>, Seq<char>)>::empty());
    if o.daemon_server || o.internal_server || daemon || o.paths.len() < 2 {
        return (None, none, None);
    }
    let mut any_remote = false;
    let mut all_remote = true;
    let mut i: usize = 0;
    while i < sources.len()
        invariant
            i <= sources@.len(),
            any_remote == exists|k: int| 0 <= k < i && #[trigger] operand_view(sources@[k]) is Some,
            all_remote == forall|k: int| 0 <= k < i ==> #[trigger] operand_view(sources@[k]) is Some,
        decreases sources.len() - i,
    {
        match &sources[i] {
            OperandKind::Local => {
                all_remote = false;
                assert(operand_view(sources@[i as int]) is None);
            },
            OperandKind::Remote(_) => {
                any_remote = true;
                assert(operand_view(sources@[i as int]) is Some);
            },
        }
        i = i + 1;
    }
    let dest_remote = match dest {
        OperandKind::Remote(_) => true,
        OperandKind::Local => false,
    };
    if !any_remote && !dest_remote {
        return (None, none, None);
    }
    if any_remote && dest_remote {
        return (None, none, Some(RemotePlanError::RemoteBoth));
    }
    if any_remote {
        if !all_remote {
            return (None, none, Some(RemotePlanError::MixedSources));
        }
        let ghost views = sources@.map_values(|k: OperandKind| operand_view(k)->Some_0);
        assert(operand_view(*dest) is None);
        let mut remotes: Vec<RemoteShellOperand> = Vec::new();
        let mut j: usize = 0;
        while j < sources.len()
            invariant
                j <= sources@.len(),
                views == sources@.map_values(|k: OperandKind| operand_view(k)->Some_0),
                forall|k: int| 0 <= k < sources@.len() ==> #[trigger] operand_view(sources@[k]) is Some,
                operands_view(remotes@) == views.take(j as int),
            decreases sources.len() - j,
        {
            let ghost before = remotes@;
            match &sources[j] {
                OperandKind::Remote(op) => {
                    let c = op.clone();
                    assert(views[j as int] == (c.host@, c.path@));
                    remotes.push(c);
                    assert(remotes@ == before.push(c));
                    assert(operands_view(remotes@) =~= operands_view(before).push((c.host@, c.path@)));
                },
                OperandKind::Local => {
                    assert(operand_view(sources@[j as int]) is Some);
                },
            }
            assert(operands_view(remotes@) =~= views.take(j as int + 1));
            j = j + 1;
        }
        assert(views.take(sources@.len() as int) =~= views);
        let mut k: usize = 1;
        while k < remotes.len()
            invariant
                1 <= k,
                !(o.daemon_server || o.internal_server || has_daemon_operand(*o) || o.paths@.len() < 2),
                exists|m: int| 0 <= m < sources@.len() && #[trigger] operand_view(sources@[m]) is Some,
                forall|m: int| 0 <= m < sources@.len() ==> #[trigger] operand_view(sources@[m]) is Some,
                operand_view(*dest) is None,
                operands_view(none@) == Seq::<(Seq<char>, Seq<char>)>::empty(),
                views == sources@.map_values(|k: OperandKind| operand_view(k)->Some_0),
                remotes@.len() == views.len(),
                views.len() > 0,
                operands_view(remotes@) == views,
                forall|m: int| 0 <= m < k && m < views.len() ==> #[trigger] views[m].0 == views[0].0,
            decreases remotes.len() - k,
        {
            assert(operands_view(remotes@)[k as int] == views[k as int]);
            assert(operands_view(remotes@)[0] == views[0]);
            if !str_eq(remotes[k].host.as_str(), remotes[0].host.as_str()) {
                assert(views[k as int].0 != views[0].0);
                return (None, none, Some(RemotePlanError::HostMismatch));
            }
            k = k + 1;
        }
        return (Some(TransferDirection::Pull), remotes, None);
    }
    match dest {
        OperandKind::Remote(op) => {
            let mut remotes: Vec<RemoteShellOperand> = Vec::new();
            remotes.push(op.clone());
            assert(operands_view(remotes@) =~= seq![operand_view(*dest)->Some_0]);
            (Some(TransferDirection::Push), remotes, None)
        },
        OperandKind::Local => (None, none, None),
    }
}

/// The decisions of a transfer plan, from the options and the already parsed source and
/// destination operands.
pub fn plan_transfer(o: &CliOptions, sources: &[OperandKind], dest: OperandKind) -> (r: PlanCore)
    ensures
        plan_matches(r, *o, sources@, dest),
{
    let recursive = !o.no_recursive && (o.recursive || o.archive);
    let preserve_times = !o.no_times && (o.preserve_times || o.archive);
    let daemon = !(o.daemon_server || o.internal_server) && any_daemon_operand_syntax(&o.paths);
    let (remote_direction, remote_operands, remote_error) = plan_remote(o, daemon, sources, &dest);
    let requested_inc = incremental_recursion_from_cli(o, recursive);
    let pull = match remote_direction {
        Some(TransferDirection::Pull) => true,
        _ => false,
    };
    let push = match remote_direction {
        Some(TransferDirection::Push) => true,
        _ => false,
    };
    let transfer_mode = transfer_mode_from_cli(o, daemon, remote_direction);
    let delete_mode = if o.delete_mode != DeleteMode::Disabled {
        o.delete_mode
    } else if o.delete {
        DeleteMode::During
    } else {
        DeleteMode::Disabled
    };
    let backup_suffix = match &o.suffix {
        Some(s) => s.clone(),
        None => if o.backup_dir.is_some() {
            String::new()
        } else {
            String::from_str("~")
        },
    };
    proof {
        reveal_strlit("~");
    }
    PlanCore {
        recursive,
        preserve_times,
        incremental_recursion: requested_inc && pull,
        inc_recursive_push_warning: requested_inc && push,
        remote_direction,
        remote_operands,
        remote_error,
        transfer_mode,
        delete: o.delete || o.delete_mode != DeleteMode::Disabled,
        delete_mode,
        backup_suffix,
        preserve_devices: (o.devices || o.archive || o.copy_devices || o.write_devices)
            && !o.no_devices,
        preserve_specials: (o.specials || o.archive) && !o.no_specials,
        file_write_mode: if o.inplace {
            FileWriteMode::InPlace
        } else {
            FileWriteMode::Atomic
        },
    }
}

} // verus!
