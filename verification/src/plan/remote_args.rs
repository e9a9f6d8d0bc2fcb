use vstd::prelude::*;

use crate::fs::paths::components_view;
use crate::fs::sync::{clone_text, SymlinkMode};
use crate::plan::filters::{clone_strings, remote_filter_args, remote_receiver_filter_args_from_cli};
use crate::plan::modes::{
    cli_preserve_group, cli_preserve_owner, cli_preserve_permissions, delete_mode_for_peer,
    incremental_recursion_from_cli, remote_delete_mode_from_cli, RemoteDeleteMode,
};
use crate::plan::options::CliOptions;
use crate::remote::flist::TransferDirection;

verus! {

/// What a local client hands the peer it starts over a remote shell: the remote program, the
/// direction, and the options the peer applies.
pub struct RemoteShellOptions {
    pub rsync_path: String,
    pub direction: TransferDirection,
    pub secluded_args: bool,
    pub recursive: bool,
    pub incremental_recursion: bool,
    pub preserve_times: bool,
    pub delete_mode: RemoteDeleteMode,
    pub dry_run: bool,
    pub whole_file: bool,
    pub verbosity: u8,
    pub preserve_permissions: bool,
    pub checksum: bool,
    pub checksum_choice: Option<String>,
    pub checksum_seed: Option<i32>,
    pub size_only: bool,
    pub ignore_times: bool,
    pub partial: bool,
    pub partial_dir: Option<String>,
    pub inplace: bool,
    pub append_verify: bool,
    pub executability: bool,
    pub preserve_owner: bool,
    pub preserve_group: bool,
    pub numeric_ids: bool,
    pub user_maps: Vec<String>,
    pub group_maps: Vec<String>,
    pub chown: Option<String>,
    pub chmod: Option<String>,
    pub acls: bool,
    pub xattrs: bool,
    pub fake_super: bool,
    pub atimes: bool,
    pub crtimes: bool,
    pub omit_dir_times: bool,
    pub omit_link_times: bool,
    pub preserve_links: bool,
    pub copy_links: bool,
    pub copy_dirlinks: bool,
    pub keep_dirlinks: bool,
    pub safe_links: bool,
    pub copy_unsafe_links: bool,
    pub munge_links: bool,
    pub hard_links: bool,
    pub preserve_devices: bool,
    pub preserve_specials: bool,
    pub copy_devices: bool,
    pub write_devices: bool,
    pub block_size: Option<u64>,
    pub compress: bool,
    pub compress_choice: Option<String>,
    pub compress_level: Option<u32>,
    pub compress_threads: Option<usize>,
    pub skip_compress: Vec<String>,
    pub outbuf: Option<String>,
    pub remote_options: Vec<String>,
    pub includes: Vec<String>,
    pub excludes: Vec<String>,
    pub filters: Vec<String>,
}

/// The view of an optional string.
pub open spec fn opt_text(v: Option<String>) -> Option<Seq<char>> {
    match v {
        Some(s) => Some(s@),
        None => None,
    }
}

/// The options a peer gets for a transfer in `direction`. Write-path and update options travel
/// only on a push, where the peer receives; the metadata options travel on a push, and on a
/// pull too for a daemon peer, which also gets xattrs whenever fake-super is asked for; the
/// links options go to the side that applies them. `compress_choice` is the compression choice
/// as the peer's argument list names it.
pub open spec fn peer_options_match(
    r: RemoteShellOptions,
    o: CliOptions,
    direction: TransferDirection,
    recursive: bool,
    preserve_times: bool,
    symlink_mode: SymlinkMode,
    compress_choice: Option<String>,
    daemon: bool,
) -> bool {
    &&& peer_transfer_match(r, o, direction, recursive, preserve_times)
    &&& peer_metadata_match(r, o, direction, daemon)
    &&& peer_links_match(r, o, direction, symlink_mode, compress_choice)
}

/// The program, direction, recursion, deletion and update options a peer gets.
#[verifier::opaque]
pub open spec fn peer_transfer_match(
    r: RemoteShellOptions,
    o: CliOptions,
    direction: TransferDirection,
    recursive: bool,
    preserve_times: bool,
) -> bool {
    let push = direction == TransferDirection::Push;
    let pull = direction == TransferDirection::Pull;
    &&& r.rsync_path@ == match o.rsync_path {
        Some(p) => p@,
        None => "rsync"@,
    }
    &&& r.direction == direction
    &&& r.secluded_args == o.secluded_args
    &&& r.recursive == recursive
    &&& r.incremental_recursion == (pull && recursive && o.inc_recursive && !o.no_inc_recursive)
    &&& r.preserve_times == preserve_times
    &&& r.delete_mode == delete_mode_for_peer(o.delete, o.delete_mode)
    &&& r.dry_run == o.dry_run
    &&& r.whole_file == (o.whole_file && !(push && o.append_verify))
    &&& r.verbosity == o.verbosity
    &&& r.preserve_permissions == ((o.preserve_permissions || o.archive) && !o.no_permissions)
    &&& r.checksum == o.checksum
    &&& opt_text(r.checksum_choice) == opt_text(o.checksum_choice)
    &&& r.checksum_seed == o.checksum_seed
    &&& r.size_only == (push && o.size_only)
    &&& r.ignore_times == (push && o.ignore_times)
    &&& r.partial == (push && o.partial)
    &&& opt_text(r.partial_dir) == if push {
        opt_text(o.partial_dir)
    } else {
        None
    }
    &&& r.inplace == (push && o.inplace)
    &&& r.append_verify == (push && o.append_verify)
}

/// The metadata options a peer gets: on a push, and on a pull too for a daemon peer, which
/// also gets xattrs whenever fake-super is asked for.
#[verifier::opaque]
pub open spec fn peer_metadata_match(
    r: RemoteShellOptions,
    o: CliOptions,
    direction: TransferDirection,
    daemon: bool,
) -> bool {
    let meta = direction == TransferDirection::Push || daemon;
    &&& r.executability == (meta && o.executability)
    &&& r.preserve_owner == (meta && (o.preserve_owner || (o.archive && !o.no_owner)))
    &&& r.preserve_group == (meta && (o.preserve_group || (o.archive && !o.no_group)))
    &&& r.numeric_ids == (meta && o.numeric_ids)
    &&& components_view(r.user_maps@) == if meta {
        components_view(o.user_maps@)
    } else {
        Seq::empty()
    }
    &&& components_view(r.group_maps@) == if meta {
        components_view(o.group_maps@)
    } else {
        Seq::empty()
    }
    &&& opt_text(r.chown) == if meta {
        opt_text(o.chown)
    } else {
        None
    }
    &&& opt_text(r.chmod) == if meta {
        opt_text(o.chmod)
    } else {
        None
    }
    &&& r.acls == (meta && o.acls)
    &&& r.xattrs == (meta && (o.xattrs || (daemon && o.fake_super)))
    &&& r.fake_super == (meta && o.fake_super)
    &&& r.atimes == (meta && o.atimes)
    &&& r.crtimes == (meta && o.crtimes)
}

/// The links, devices, compression and filter options a peer gets.
#[verifier::opaque]
pub open spec fn peer_links_match(
    r: RemoteShellOptions,
    o: CliOptions,
    direction: TransferDirection,
    symlink_mode: SymlinkMode,
    compress_choice: Option<String>,
) -> bool {
    let push = direction == TransferDirection::Push;
    let pull = direction == TransferDirection::Pull;
    let args = remote_filter_args(o.filter_options);
    &&& r.omit_dir_times == o.omit_dir_times
    &&& r.omit_link_times == o.omit_link_times
    &&& r.preserve_links == (push && symlink_mode == SymlinkMode::Preserve && (o.links
        || o.archive))
    &&& r.copy_links == (pull && symlink_mode == SymlinkMode::CopyAll)
    &&& r.copy_dirlinks == (symlink_mode == SymlinkMode::CopyDirLinks)
    &&& r.keep_dirlinks == o.keep_dirlinks
    &&& r.safe_links == (push && symlink_mode == SymlinkMode::SafeOnly)
    &&& r.copy_unsafe_links == (pull && symlink_mode == SymlinkMode::CopyUnsafe)
    &&& r.munge_links == (symlink_mode == SymlinkMode::Munge)
    &&& r.hard_links == o.hard_links
    &&& r.preserve_devices == ((o.devices || o.archive || o.copy_devices || o.write_devices)
        && !o.no_devices)
    &&& r.preserve_specials == ((o.specials || o.archive) && !o.no_specials)
    &&& r.copy_devices == o.copy_devices
    &&& r.write_devices == o.write_devices
    &&& r.block_size == o.block_size
    &&& r.compress == o.compress
    &&& opt_text(r.compress_choice) == opt_text(compress_choice)
    &&& r.compress_level == o.compress_level
    &&& r.compress_threads == o.compress_threads
    &&& components_view(r.skip_compress@) == components_view(o.skip_compress@)
    &&& opt_text(r.outbuf) == opt_text(o.outbuf)
    &&& components_view(r.remote_options@) == components_view(o.remote_options@)
    &&& components_view(r.includes@) == args.0
    &&& components_view(r.excludes@) == args.1
    &&& components_view(r.filters@) == args.2
}

/// The options a remote-shell peer gets: the metadata options travel only on a push.
pub open spec fn remote_shell_options_match(
    r: RemoteShellOptions,
    o: CliOptions,
    direction: TransferDirection,
    recursive: bool,
    preserve_times: bool,
    symlink_mode: SymlinkMode,
    compress_choice: Option<String>,
) -> bool {
    peer_options_match(r, o, direction, recursive, preserve_times, symlink_mode, compress_choice, false)
}

/// The options a daemon peer gets: the metadata options travel both ways, and xattrs go along
/// with fake-super.
pub open spec fn daemon_options_match(
    r: RemoteShellOptions,
    o: CliOptions,
    direction: TransferDirection,
    recursive: bool,
    preserve_times: bool,
    symlink_mode: SymlinkMode,
    compress_choice: Option<String>,
) -> bool {
    peer_options_match(r, o, direction, recursive, preserve_times, symlink_mode, compress_choice, true)
}

/// A copy of `items` where `carry` holds, else nothing.
fn carried_strings(items: &Vec<String>, carry: bool) -> (r: Vec<String>)
    ensures
        components_view(r@) == if carry {
            components_view(items@)
        } else {
            Seq::empty()
        },
{
    if carry {
        clone_strings(items)
    } else {
        let r: Vec<String> = Vec::new();
        assert(components_view(r@) =~= Seq::<Seq<char>>::empty());
        r
    }
}

/// A copy of `t` where `carry` holds, else `None`.
fn carried_text(t: &Option<String>, carry: bool) -> (r: Option<String>)
    ensures
        opt_text(r) == if carry {
            opt_text(*t)
        } else {
            None
        },
{
    if carry {
        clone_text(t)
    } else {
        None
    }
}

/// The options a peer gets for a transfer in `direction`; `daemon` tells a daemon peer from
/// one started over a remote shell.
fn peer_options(
    o: &CliOptions,
    direction: TransferDirection,
    recursive: bool,
    preserve_times: bool,
    symlink_mode: SymlinkMode,
    compress_choice: Option<String>,
    daemon: bool,
) -> (r: RemoteShellOptions)
    ensures
        peer_transfer_match(r, *o, direction, recursive, preserve_times),
        peer_metadata_match(r, *o, direction, daemon),
        peer_links_match(r, *o, direction, symlink_mode, compress_choice),
{
    let (includes, excludes, filters) = remote_receiver_filter_args_from_cli(
        &o.filter_options,
        direction,
    );
    let push = direction == TransferDirection::Push;
    let pull = direction == TransferDirection::Pull;
    let meta = push || daemon;
    let rsync_path = match &o.rsync_path {
        Some(p) => p.clone(),
        None => String::from_str("rsync"),
    };
    let incremental_recursion = pull && incremental_recursion_from_cli(o, recursive);
    let delete_mode = remote_delete_mode_from_cli(o);
    let preserve_permissions = cli_preserve_permissions(o);
    let checksum_choice = clone_text(&o.checksum_choice);
    let partial_dir = carried_text(&o.partial_dir, push);
    let preserve_owner = meta && cli_preserve_owner(o);
    let preserve_group = meta && cli_preserve_group(o);
    let user_maps = carried_strings(&o.user_maps, meta);
    let group_maps = carried_strings(&o.group_maps, meta);
    let chown = carried_text(&o.chown, meta);
    let chmod = carried_text(&o.chmod, meta);
    let skip_compress = clone_strings(&o.skip_compress);
    let outbuf = clone_text(&o.outbuf);
    let remote_options = clone_strings(&o.remote_options);
    let r = RemoteShellOptions {
        rsync_path,
        direction,
        secluded_args: o.secluded_args,
        recursive,
        incremental_recursion,
        preserve_times,
        delete_mode,
        dry_run: o.dry_run,
        whole_file: o.whole_file && !(push && o.append_verify),
        verbosity: o.verbosity,
        preserve_permissions,
        checksum: o.checksum,
        checksum_choice,
        checksum_seed: o.checksum_seed,
        size_only: push && o.size_only,
        ignore_times: push && o.ignore_times,
        partial: push && o.partial,
        partial_dir,
        inplace: push && o.inplace,
        append_verify: push && o.append_verify,
        executability: meta && o.executability,
        preserve_owner,
        preserve_group,
        numeric_ids: meta && o.numeric_ids,
        user_maps,
        group_maps,
        chown,
        chmod,
        acls: meta && o.acls,
        xattrs: meta && (o.xattrs || (daemon && o.fake_super)),
        fake_super: meta && o.fake_super,
        atimes: meta && o.atimes,
        crtimes: meta && o.crtimes,
        omit_dir_times: o.omit_dir_times,
        omit_link_times: o.omit_link_times,
        preserve_links: push && symlink_mode == SymlinkMode::Preserve && (o.links || o.archive),
        copy_links: pull && symlink_mode == SymlinkMode::CopyAll,
        copy_dirlinks: symlink_mode == SymlinkMode::CopyDirLinks,
        keep_dirlinks: o.keep_dirlinks,
        safe_links: push && symlink_mode == SymlinkMode::SafeOnly,
        copy_unsafe_links: pull && symlink_mode == SymlinkMode::CopyUnsafe,
        munge_links: symlink_mode == SymlinkMode::Munge,
        hard_links: o.hard_links,
        preserve_devices: (o.devices || o.archive || o.copy_devices || o.write_devices)
            && !o.no_devices,
        preserve_specials: (o.specials || o.archive) && !o.no_specials,
        copy_devices: o.copy_devices,
        write_devices: o.write_devices,
        block_size: o.block_size,
        compress: o.compress,
        compress_choice,
        compress_level: o.compress_level,
        compress_threads: o.compress_threads,
        skip_compress,
        outbuf,
        remote_options,
        includes,
        excludes,
        filters,
    };
    assert(peer_transfer_match(r, *o, direction, recursive, preserve_times)) by {
        reveal(peer_transfer_match);
    }
    assert(peer_metadata_match(r, *o, direction, daemon)) by {
        reveal(peer_metadata_match);
    }
    assert(peer_links_match(r, *o, direction, symlink_mode, compress_choice)) by {
        reveal(peer_links_match);
    }
    r
}

/// The options a remote-shell peer gets for a transfer in `direction`, with `compress_choice`
/// the compression choice as the peer's argument list names it.
pub fn remote_shell_options_from_cli(
    o: &CliOptions,
    direction: TransferDirection,
    recursive: bool,
    preserve_times: bool,
    symlink_mode: SymlinkMode,
    compress_choice: Option<String>,
) -> (r: RemoteShellOptions)
    ensures
        remote_shell_options_match(
            r,
            *o,
            direction,
            recursive,
            preserve_times,
            symlink_mode,
            compress_choice,
        ),
{
    peer_options(o, direction, recursive, preserve_times, symlink_mode, compress_choice, false)
}

/// The options a daemon peer gets: the remote-shell options, with the metadata options
/// travelling both ways and xattrs carried along with fake-super.
pub fn daemon_remote_shell_options_from_cli(
    o: &CliOptions,
    direction: TransferDirection,
    recursive: bool,
    preserve_times: bool,
    symlink_mode: SymlinkMode,
    compress_choice: Option<String>,
) -> (r: RemoteShellOptions)
    ensures
        daemon_options_match(
            r,
            *o,
            direction,
            recursive,
            preserve_times,
            symlink_mode,
            compress_choice,
        ),
{
    peer_options(o, direction, recursive, preserve_times, symlink_mode, compress_choice, true)
}

} // verus!
