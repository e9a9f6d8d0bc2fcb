use vstd::prelude::*;
use vstd::string::StringExecFns;

use crate::filter::matcher::{EntryKind, RuleSet};
use crate::filter::rule::{Rule, RuleAction, RuleSide};
use crate::fs::metadata::{FileType, PortableMetadata};
use crate::fs::paths::{join_path, path_text, rooted_or_prefixed};
use crate::fs::sync::{
    appends, entry_kind, handle_non_regular_entry, munge_symlink_target, action_len, DeleteMode,
    SourceSelectionOptions, SymlinkMode, SyncAction, SyncOptions, SyncReport,
};
use crate::fs::memory::lookup;
use crate::fs::sync_paths::{file_name_of,
    destination_preflight_path, file_name, files_from_matches, filter_path, is_unsafe_symlink_target,
    join_paths, names_start_with, non_empty_parent, parent_path, path_names, path_names_of,
    relative_operand_path, resolve_symlink_target, root_of, unsafe_symlink_target,
};
use crate::fs::sync_plan::{
    backup_path_for, delayed_file_write_options, delayed_update_path, file_write_options,
    mtimes_match, receiver_is_newer, update_check, EntryMap, HardlinkTargets, UpdateCheck,
};
use crate::fs::walk::{FileWriteMode, FileWriteOptions, FsError, PortableFileSystem, WalkEntry};
use crate::text::chars_of;

verus! {

/// A check of the destination paths a sync is about to write, run before anything is written
/// (to refuse names the destination cannot hold, say).
pub trait DestinationCheck {
    fn check(&self, paths: &[String]) -> Result<(), FsError>;
}

/// No destination check: every destination is accepted.
pub struct NoDestinationCheck;

impl DestinationCheck for NoDestinationCheck {
    fn check(&self, paths: &[String]) -> (r: Result<(), FsError>)
        ensures
            r is Ok,
    {
        Ok(())
    }
}

/// How deep below its root a tree is walked; a deeper tree is refused.
pub const MAX_TREE_DEPTH: usize = 4096;

/// Whether a destination lies inside (or is) a source: its root is the same and its names start
/// with the source's.
pub open spec fn inside(source_root: Seq<char>, dest_root: Seq<char>) -> bool {
    root_of(source_root) == root_of(dest_root) && names_start_with(
        path_names(dest_root),
        path_names(source_root),
    )
}

fn same_root(a: &str, b: &str) -> (r: bool)
    ensures
        r == (root_of(a@) == root_of(b@)),
{
    let x = chars_of(a);
    let y = chars_of(b);
    let ra = x.len() > 0 && (x[0] == '/' || x[0] == '\\');
    let rb = y.len() > 0 && (y[0] == '/' || y[0] == '\\');
    assert(ra ==> root_of(a@) == seq!['/']);
    assert(!ra ==> root_of(a@) == Seq::<char>::empty());
    assert(rb ==> root_of(b@) == seq!['/']);
    assert(!rb ==> root_of(b@) == Seq::<char>::empty());
    assert(seq!['/'].len() == 1);
    ra == rb
}

fn names_prefix_of(a: &[String], b: &[String]) -> (r: bool)
    ensures
        r == names_start_with(crate::fs::paths::components_view(a@), crate::fs::paths::components_view(b@)),
{
    let ghost av = crate::fs::paths::components_view(a@);
    let ghost bv = crate::fs::paths::components_view(b@);
    if b.len() > a.len() {
        return false;
    }
    let mut i: usize = 0;
    while i < b.len()
        invariant
            i <= b@.len() <= a@.len(),
            av == crate::fs::paths::components_view(a@),
            bv == crate::fs::paths::components_view(b@),
            forall|k: int| 0 <= k < i ==> av[k] == bv[k],
        decreases b.len() - i,
    {
        if !crate::text::str_eq(a[i].as_str(), b[i].as_str()) {
            assert(av.take(bv.len() as int)[i as int] != bv[i as int]);
            return false;
        }
        i = i + 1;
    }
    assert(av.take(bv.len() as int) =~= bv);
    true
}

/// Whether a sync from `source_root` to `dest_root` would write inside its own source.
pub fn destination_inside_source(source_root: &str, dest_root: &str) -> (r: bool)
    ensures
        r == inside(source_root@, dest_root@),
{
    let s = path_names_of(source_root, true);
    let d = path_names_of(dest_root, true);
    same_root(source_root, dest_root) && names_prefix_of(d.as_slice(), s.as_slice())
}

/// What is known of a path on the receiver.
fn metadata_if_present<F: PortableFileSystem>(fs: &F, path: &str) -> (r: Option<PortableMetadata>)
    ensures
        r == fs.metadata_of(path@),
{
    match fs.metadata(path) {
        Ok(m) => Some(m),
        Err(_) => None,
    }
}

/// Syncs the tree (or file) at `source` to `dest`: creates what is missing, updates what differs,
/// and (as asked) deletes receiver entries the sender does not have.
pub fn sync_tree<F: PortableFileSystem>(
    fs: &mut F,
    source: &str,
    dest: &str,
    options: SyncOptions,
) -> (r: Result<SyncReport, FsError>)
    ensures
        options.dry_run ==> *final(fs) == *old(fs),
{
    sync_tree_checked(fs, source, dest, options, &NoDestinationCheck)
}

/// `sync_tree`, with `check` run on the destination paths before anything is written.
pub fn sync_tree_checked<F: PortableFileSystem, C: DestinationCheck>(
    fs: &mut F,
    source: &str,
    dest: &str,
    options: SyncOptions,
    check: &C,
) -> (r: Result<SyncReport, FsError>)
    ensures
        options.dry_run ==> *final(fs) == *old(fs),
        options.dry_run && r is Ok && (old(fs).metadata_of(source@) matches Some(m)
            && m.file_type != FileType::File) && old(fs).metadata_of(dest@) is None ==> r->Ok_0@.len()
            > 0 && is_create_dir(r->Ok_0@[0], dest@),
{
    let source_root = fs.resolve_path_for_prefix_check(source)?;
    let dest_root = fs.resolve_path_for_prefix_check(dest)?;
    if destination_inside_source(source_root.as_str(), dest_root.as_str()) {
        return Err(FsError::DestinationInsideSource);
    }

    let source_metadata = fs.metadata(source)?;
    if matches!(source_metadata.file_type, FileType::File) {
        return sync_single_file(fs, source, source_metadata, dest, &options, check);
    }

    let mut source_entries = relative_entries(
        fs,
        source,
        Some(&options.filter_rules),
        options.recursive,
        options.symlink_mode,
        options.one_file_system,
    )?;
    if let Some(files_from) = &options.files_from {
        source_entries.retain_files_from(files_from.as_slice());
    }
    check.check(source_entries.key_texts().as_slice())?;

    let dest_entries = if fs.path_exists(dest) {
        relative_entries(fs, dest, None, options.recursive, SymlinkMode::Preserve, options.one_file_system)?
    } else {
        EntryMap::new()
    };
    sync_walked(fs, dest, &source_entries, &dest_entries, &options)
}


/// The path an action deletes, if it deletes one.
pub open spec fn deleted_path(a: SyncAction) -> Option<Seq<char>> {
    match a {
        SyncAction::DeleteDir(p) => Some(p@),
        SyncAction::DeleteFile(p) => Some(p@),
        _ => None,
    }
}

/// Whether the actions `after` adds to `before` delete nothing.
pub open spec fn adds_no_deletes(before: Seq<SyncAction>, after: Seq<SyncAction>) -> bool {
    forall|k: int| before.len() <= k < after.len() ==> #[trigger] deleted_path(after[k]) is None
}

/// Whether the actions `after` adds to `before` delete nothing but `path`.
pub open spec fn deletes_only_at(before: Seq<SyncAction>, after: Seq<SyncAction>, path: Seq<char>) -> bool {
    forall|k: int|
        before.len() <= k < after.len() ==> (#[trigger] deleted_path(after[k]) is None || deleted_path(
            after[k],
        ) == Some(path))
}

/// Whether a sync to `dest` may delete `p`: a receiver extra that may be deleted, when the delete
/// mode deletes, or a destination that a source entry is written to (what is there is replaced).
pub open spec fn deletion_justified(
    p: Seq<char>,
    dest: Seq<char>,
    source: Seq<(Seq<Seq<char>>, WalkEntry)>,
    dest_entries: Seq<(Seq<Seq<char>>, WalkEntry)>,
    o: SyncOptions,
) -> bool {
    ||| (crate::fs::sync::effective_delete_mode(o.delete_mode, o.delete) != DeleteMode::Disabled
        && exists|j: int|
        crate::fs::sync_order::extra_entry(source, dest_entries, j) && delete_allowed(o, dest_entries[j])
            && #[trigger] dest_entries[j].1.path@ == p)
    ||| exists|i: int| 0 <= i < source.len() && p == crate::fs::sync_paths::path_join(dest, path_text(#[trigger] source[i].0))
}

/// Whether every deletion among `acts` is one a sync to `dest` may make.
pub open spec fn deletions_justified(
    acts: Seq<SyncAction>,
    dest: Seq<char>,
    source: Seq<(Seq<Seq<char>>, WalkEntry)>,
    dest_entries: Seq<(Seq<Seq<char>>, WalkEntry)>,
    o: SyncOptions,
) -> bool {
    forall|k: int|
        0 <= k < acts.len() ==> match #[trigger] deleted_path(acts[k]) {
            Some(p) => deletion_justified(p, dest, source, dest_entries, o),
            None => true,
        }
}

proof fn lemma_justified_after_deletes(
    before: Seq<SyncAction>,
    after: Seq<SyncAction>,
    dest: Seq<char>,
    source: Seq<(Seq<Seq<char>>, WalkEntry)>,
    dest_entries: Seq<(Seq<Seq<char>>, WalkEntry)>,
    o: SyncOptions,
)
    requires
        deletions_justified(before, dest, source, dest_entries, o),
        only_delete_actions(before, after, source, dest_entries, o),
        crate::fs::sync::effective_delete_mode(o.delete_mode, o.delete) == DeleteMode::Disabled
            ==> after == before,
    ensures
        deletions_justified(after, dest, source, dest_entries, o),
        appends(before, after),
{
    assert forall|k: int| 0 <= k < before.len() implies #[trigger] after[k] == before[k] by {
        assert(after.take(before.len() as int)[k] == after[k]);
    }
    assert forall|k: int| 0 <= k < after.len() implies match #[trigger] deleted_path(after[k]) {
        Some(p) => deletion_justified(p, dest, source, dest_entries, o),
        None => true,
    } by {
        if k >= before.len() && deleted_path(after[k]) is Some {
            assert(delete_phase_action(after[k], source, dest_entries, o));
            let j = choose|j: int|
                crate::fs::sync_order::extra_entry(source, dest_entries, j) && #[trigger] delete_action_for(
                    after[k],
                    o,
                    dest_entries[j],
                );
            assert(dest_entries[j].1.path@ == deleted_path(after[k])->Some_0);
        }
    }
}

proof fn lemma_justified_extend(
    before: Seq<SyncAction>,
    after: Seq<SyncAction>,
    dest: Seq<char>,
    source: Seq<(Seq<Seq<char>>, WalkEntry)>,
    dest_entries: Seq<(Seq<Seq<char>>, WalkEntry)>,
    o: SyncOptions,
    target: Seq<char>,
)
    requires
        deletions_justified(before, dest, source, dest_entries, o),
        appends(before, after),
        deletes_only_at(before, after, target),
        deletion_justified(target, dest, source, dest_entries, o),
    ensures
        deletions_justified(after, dest, source, dest_entries, o),
{
    assert forall|k: int| 0 <= k < after.len() implies match #[trigger] deleted_path(after[k]) {
        Some(p) => deletion_justified(p, dest, source, dest_entries, o),
        None => true,
    } by {
        if k < before.len() {
            assert(after[k] == before[k]);
        }
    }
}

proof fn lemma_justified_no_deletes(
    before: Seq<SyncAction>,
    after: Seq<SyncAction>,
    dest: Seq<char>,
    source: Seq<(Seq<Seq<char>>, WalkEntry)>,
    dest_entries: Seq<(Seq<Seq<char>>, WalkEntry)>,
    o: SyncOptions,
)
    requires
        deletions_justified(before, dest, source, dest_entries, o),
        appends(before, after),
        adds_no_deletes(before, after),
    ensures
        deletions_justified(after, dest, source, dest_entries, o),
{
    assert forall|k: int| 0 <= k < after.len() implies match #[trigger] deleted_path(after[k]) {
        Some(p) => deletion_justified(p, dest, source, dest_entries, o),
        None => true,
    } by {
        if k < before.len() {
            assert(after[k] == before[k]);
        }
    }
}

/// Where a sync to `dest` writes the source entry with relative names `key`.
pub open spec fn target_of(dest: Seq<char>, key: Seq<Seq<char>>) -> Seq<char> {
    crate::fs::sync_paths::path_join(dest, path_text(key))
}

/// Whether some action of `acts` writes `len` bytes to `path` in the write mode `mode`.
pub open spec fn write_reported(acts: Seq<SyncAction>, path: Seq<char>, len: int, mode: FileWriteMode) -> bool {
    exists|k: int| 0 <= k < acts.len() && #[trigger] is_write_action(acts[k], path, len, mode)
}

/// Whether a sync owes the source file `x` a plain copy to `dest`, given what the file system
/// `fs` reports at the destination: there is no file there, or a file the update check finds
/// out of date (by the update check, and by its contents where the check compares them), and
/// neither appending nor hard-linking applies.
pub open spec fn copy_owed<F: PortableFileSystem>(
    fs: F,
    o: SyncOptions,
    dest: Seq<char>,
    x: (Seq<Seq<char>>, WalkEntry),
) -> bool {
    let t = fs.metadata_of(target_of(dest, x.0));
    &&& x.1.metadata.file_type == FileType::File
    &&& !o.append_verify
    &&& !(o.preserve_hard_links && x.1.metadata.hardlink_id is Some)
    &&& (t is None || t->Some_0.file_type == FileType::File)
    &&& (update_decision(o, x.1.metadata, t) == UpdateCheck::Transfer || (update_decision(
        o,
        x.1.metadata,
        t,
    ) == UpdateCheck::CompareContents && same_contents(fs, x.1.path@, target_of(dest, x.0))
        == Some(false)))
}

proof fn lemma_writes_kept<F: PortableFileSystem>(
    a: Seq<SyncAction>,
    b: Seq<SyncAction>,
    fs: F,
    o: SyncOptions,
    dest: Seq<char>,
    sv: Seq<(Seq<Seq<char>>, WalkEntry)>,
    n: int,
)
    requires
        0 <= n < sv.len(),
        forall|q: int|
            0 <= q < n && copy_owed(fs, o, dest, sv[q]) ==> write_reported(
                a,
                target_of(dest, #[trigger] sv[q].0),
                sv[q].1.metadata.len as int,
                o.file_write_mode,
            ),
        appends(a, b),
        copy_owed(fs, o, dest, sv[n]) ==> write_reported(
            b,
            target_of(dest, sv[n].0),
            sv[n].1.metadata.len as int,
            o.file_write_mode,
        ),
    ensures
        forall|q: int|
            0 <= q < n + 1 && copy_owed(fs, o, dest, sv[q]) ==> write_reported(
                b,
                target_of(dest, #[trigger] sv[q].0),
                sv[q].1.metadata.len as int,
                o.file_write_mode,
            ),
{
    assert forall|q: int|
        0 <= q < n + 1 && copy_owed(fs, o, dest, sv[q]) implies write_reported(
        b,
        target_of(dest, #[trigger] sv[q].0),
        sv[q].1.metadata.len as int,
        o.file_write_mode,
    ) by {
        if q < n {
            let k = choose|k: int|
                0 <= k < a.len() && #[trigger] is_write_action(
                    a[k],
                    target_of(dest, sv[q].0),
                    sv[q].1.metadata.len as int,
                    o.file_write_mode,
                );
            assert(b[k] == a[k]);
        }
    }
}

/// Whether `a` creates the directory `path`.
pub open spec fn is_create_dir(a: SyncAction, path: Seq<char>) -> bool {
    match a {
        SyncAction::CreateDir(p) => p@ == path,
        _ => false,
    }
}

/// A sync to `dest` once both sides are walked: `source_entries` are the sender's entries that
/// the options select and `dest_entries` the receiver's. It creates the destination when it is
/// missing, deletes receiver extras as the delete mode says (before, during, or after the
/// transfers), transfers each source entry, and sets directory times last. It deletes nothing
/// but receiver extras that may be deleted and destinations it replaces; a dry run reports the
/// creation of a missing destination first, the deletion of every present extra that may be
/// deleted (and keeps the others), and a write for every file owed a plain copy.
pub fn sync_walked<F: PortableFileSystem>(
    fs: &mut F,
    dest: &str,
    source_entries: &EntryMap,
    dest_entries: &EntryMap,
    options: &SyncOptions,
) -> (r: Result<SyncReport, FsError>)
    ensures
        options.dry_run ==> *final(fs) == *old(fs),
        r is Ok ==> deletions_justified(r->Ok_0@, dest@, source_entries@, dest_entries@, *options),
        options.dry_run && r is Ok && old(fs).metadata_of(dest@) is None ==> r->Ok_0@.len()
            > 0 && is_create_dir(r->Ok_0@[0], dest@),
        options.dry_run && r is Ok ==> forall|q: int|
            0 <= q < source_entries@.len() && copy_owed(*old(fs), *options, dest@, source_entries@[q])
                ==> write_reported(
                r->Ok_0@,
                target_of(dest@, #[trigger] source_entries@[q].0),
                source_entries@[q].1.metadata.len as int,
                options.file_write_mode,
            ),
        options.dry_run && r is Ok && crate::fs::sync::effective_delete_mode(
            options.delete_mode,
            options.delete,
        ) != DeleteMode::Disabled ==> forall|j: int|
            crate::fs::sync_order::extra_entry(source_entries@, dest_entries@, j)
                && old(fs).metadata_of(dest_entries@[j].1.path@) is Some ==> delete_reported(
                Seq::empty(),
                r->Ok_0@,
                *options,
                #[trigger] dest_entries@[j],
            ),
{
    let mut report = SyncReport::default();

    ensure_missing_destination_parent_allowed(fs, dest, options.mkpath)?;

    if !fs.path_exists(dest) {
        report.push(SyncAction::CreateDir(dest.to_owned()));
        if !options.dry_run {
            fs.create_dir_all(dest)?;
        }
    }
    let ghost created = report@;
    let ghost sv = source_entries@;
    let ghost dv = dest_entries@;
    proof {
        assert forall|k: int| 0 <= k < created.len() implies #[trigger] deleted_path(created[k]) is None by {
            assert(is_create_dir(created[k], dest@));
        }
        assert(deletions_justified(created, dest@, sv, dv, *options));
    }

    let delete_mode = options.effective_delete_mode();
    if matches!(delete_mode, DeleteMode::Before | DeleteMode::During) {
        apply_receiver_deletes(fs, dest, source_entries, dest_entries, options, &mut report)?;
        proof {
            lemma_justified_after_deletes(created, report@, dest@, sv, dv, *options);
        }
    }
    let ghost deleted_early = report@;
    proof {
        assert(appends(created, deleted_early));
    }

    let mut delayed_transfers: Vec<DelayedTransfer> = Vec::new();
    let mut hardlink_targets = HardlinkTargets::new();
    let mut directory_mtimes: Vec<(String, WalkEntry)> = Vec::new();
    let n = source_entries.len();
    let mut i: usize = 0;
    while i < n
        invariant
            n == source_entries@.len(),
            i <= n,
            options.dry_run ==> *fs == *old(fs),
            options.dry_run ==> delayed_transfers@.len() == 0,
            appends(created, deleted_early),
            appends(deleted_early, report@),
            sv == source_entries@,
            dv == dest_entries@,
            deletions_justified(report@, dest@, sv, dv, *options),
            options.dry_run ==> forall|q: int|
                0 <= q < i && copy_owed(*old(fs), *options, dest@, sv[q]) ==> write_reported(
                    report@,
                    target_of(dest@, #[trigger] sv[q].0),
                    sv[q].1.metadata.len as int,
                    options.file_write_mode,
                ),
            delete_mode == crate::fs::sync::effective_delete_mode(options.delete_mode, options.delete),
        decreases n - i,
    {
        let relative = join_path(source_entries.key_at(i));
        let entry = source_entries.entry_at(i);
        let target = join_paths(dest, relative.as_str());
        let ghost before_entry = report@;
        proof {
            assert(target@ == crate::fs::sync_paths::path_join(dest@, path_text(sv[i as int].0)));
            assert(deletion_justified(target@, dest@, sv, dv, *options));
            assert(target@ == target_of(dest@, sv[i as int].0));
            assert(*entry == sv[i as int].1);
        }
        let ghost i0 = i as int;
        i = i + 1;
        let result = match entry.metadata.file_type {
            FileType::Directory => {
                if !options.recursive && !options.transfer_dirs {
                    report.push(
                        SyncAction::Warn {
                            path: entry.path.clone(),
                            message: String::from_str(
                                "skipping directory because recursive mode is disabled",
                            ),
                        },
                    );
                    proof {
                        lemma_justified_no_deletes(before_entry, report@, dest@, sv, dv, *options);
                    }
                    proof {
                        if options.dry_run {
                            lemma_writes_kept(before_entry, report@, *old(fs), *options, dest@, sv, i0);
                        }
                    }
                    continue;
                }
                let replaced = remove_conflicting_target(
                    fs,
                    dest,
                    target.as_str(),
                    relative.as_str(),
                    FileType::Directory,
                    options,
                    &mut report,
                )?;
                proof {
                    lemma_justified_extend(before_entry, report@, dest@, sv, dv, *options, target@);
                }
                if !replaced {
                    proof {
                        if options.dry_run {
                            lemma_writes_kept(before_entry, report@, *old(fs), *options, dest@, sv, i0);
                        }
                    }
                    continue;
                }
                let ghost before_create = report@;
                report.push(SyncAction::CreateDir(target.clone()));
                proof {
                    lemma_justified_no_deletes(before_create, report@, dest@, sv, dv, *options);
                }
                if !options.dry_run {
                    fs.create_dir_all(target.as_str())?;
                }
                directory_mtimes.push((target, entry.clone()));
                Ok(())
            },
            FileType::File => {
                let replaced = remove_conflicting_target(
                    fs,
                    dest,
                    target.as_str(),
                    relative.as_str(),
                    FileType::File,
                    options,
                    &mut report,
                )?;
                proof {
                    lemma_justified_extend(before_entry, report@, dest@, sv, dv, *options, target@);
                }
                if !replaced {
                    proof {
                        if options.dry_run {
                            lemma_writes_kept(before_entry, report@, *old(fs), *options, dest@, sv, i0);
                        }
                    }
                    continue;
                }
                let ghost before_update = report@;
                if !file_needs_update(fs, entry, target.as_str(), options)? {
                    remember_hardlink_target(
                        entry,
                        target.as_str(),
                        options.preserve_hard_links,
                        &mut hardlink_targets,
                    );
                    preserve_existing_file_mtime(fs, target.as_str(), entry, options, &mut report)?;
                    proof {
                        lemma_justified_no_deletes(before_update, report@, dest@, sv, dv, *options);
                    }
                    proof {
                        if options.dry_run {
                            lemma_writes_kept(before_entry, report@, *old(fs), *options, dest@, sv, i0);
                        }
                    }
                    continue;
                }
                let ghost before_transfer = report@;
                let transferred = transfer_file(
                    fs,
                    entry,
                    target.as_str(),
                    relative.as_str(),
                    &mut report,
                    dest,
                    options,
                    &mut delayed_transfers,
                    &mut hardlink_targets,
                );
                proof {
                    lemma_justified_no_deletes(before_transfer, report@, dest@, sv, dv, *options);
                }
                transferred
            },
            FileType::Symlink => {
                let linked = transfer_symlink(
                    fs,
                    entry,
                    dest,
                    target.as_str(),
                    relative.as_str(),
                    options,
                    &mut report,
                );
                proof {
                    lemma_justified_extend(before_entry, report@, dest@, sv, dv, *options, target@);
                }
                linked
            },
            _ => {
                let handled = handle_non_regular_entry(entry, options, &mut report);
                proof {
                    assert forall|k: int| before_entry.len() <= k < report@.len() implies #[trigger] deleted_path(
                        report@[k],
                    ) is None by {
                        assert(report@[k] == report@.last());
                    }
                    lemma_justified_no_deletes(before_entry, report@, dest@, sv, dv, *options);
                }
                handled
            },
        };
        if result.is_ok() {
            proof {
                if options.dry_run {
                    lemma_writes_kept(before_entry, report@, *old(fs), *options, dest@, sv, i0);
                }
            }
        }
        if let Err(err) = result {
            cleanup_delayed_updates(fs, delayed_transfers.as_slice(), options);
            if options.ignore_errors && matches!(delete_mode, DeleteMode::Delay | DeleteMode::After) {
                apply_receiver_deletes(fs, dest, source_entries, dest_entries, options, &mut report)?;
            }
            return Err(err);
        }
    }

    let ghost before_finish = report@;
    if let Err(err) = finish_delayed_updates(fs, dest, delayed_transfers.as_slice(), options, &mut report) {
        cleanup_delayed_updates(fs, delayed_transfers.as_slice(), options);
        return Err(err);
    }

    let ghost before_late = report@;
    proof {
        lemma_justified_no_deletes(before_finish, before_late, dest@, sv, dv, *options);
    }
    if matches!(delete_mode, DeleteMode::Delay | DeleteMode::After) {
        apply_receiver_deletes(fs, dest, source_entries, dest_entries, options, &mut report)?;
        proof {
            lemma_justified_after_deletes(before_late, report@, dest@, sv, dv, *options);
        }
    }
    let ghost after_late = report@;

    preserve_directory_mtimes(fs, directory_mtimes.as_slice(), options, &mut report)?;
    proof {
        lemma_justified_no_deletes(after_late, report@, dest@, sv, dv, *options);
    }

    proof {
        if options.dry_run && delete_mode != DeleteMode::Disabled {
            assert forall|j: int|
                crate::fs::sync_order::extra_entry(source_entries@, dest_entries@, j)
                    && old(fs).metadata_of(dest_entries@[j].1.path@) is Some implies delete_reported(
                Seq::empty(),
                report@,
                *options,
                #[trigger] dest_entries@[j],
            ) by {
                if delete_mode == DeleteMode::Before || delete_mode == DeleteMode::During {
                    lemma_delete_reported_kept(created, deleted_early, report@, *options, dest_entries@[j]);
                } else {
                    lemma_delete_reported_kept(before_late, after_late, report@, *options, dest_entries@[j]);
                }
            }
        }
        if options.dry_run && old(fs).metadata_of(dest@) is None {
            assert(created.len() > 0 && is_create_dir(created[0], dest@));
            assert(report@[0] == deleted_early[0]);
        }
    }
    Ok(report)
}

/// A deletion reported after `start` stays reported as more actions follow.
proof fn lemma_delete_reported_kept(
    start: Seq<SyncAction>,
    a: Seq<SyncAction>,
    b: Seq<SyncAction>,
    o: SyncOptions,
    x: (Seq<Seq<char>>, WalkEntry),
)
    requires
        delete_reported(start, a, o, x),
        appends(a, b),
    ensures
        delete_reported(Seq::empty(), b, o, x),
{
    let k = choose|k: int|
        start.len() <= k < a.len() && if delete_allowed(o, x) {
            is_delete_action(#[trigger] a[k], x.1.path@, x.1.metadata.file_type == FileType::Directory)
        } else {
            is_protect_action(a[k], x.1.path@)
        };
    assert(b[k] == a[k]);
}

/// Syncs several source operands to `dest`; missing operands are skipped or deleted on the
/// receiver as the options ask.
pub fn sync_sources<F: PortableFileSystem>(
    fs: &mut F,
    sources: &[String],
    dest: &str,
    options: SyncOptions,
) -> (r: Result<SyncReport, FsError>)
    ensures
        sources@.len() == 0 ==> (r matches Err(FsError::Unsupported(m)) && m@
            == "sync requires at least one source"@),
        options.dry_run ==> *final(fs) == *old(fs),
{
    sync_sources_checked(fs, sources, dest, options, &NoDestinationCheck)
}

/// `sync_sources`, with `check` run on the destination paths before anything is written.
pub fn sync_sources_checked<F: PortableFileSystem, C: DestinationCheck>(
    fs: &mut F,
    sources: &[String],
    dest: &str,
    options: SyncOptions,
    check: &C,
) -> (r: Result<SyncReport, FsError>)
    ensures
        sources@.len() == 0 ==> (r matches Err(FsError::Unsupported(m)) && m@
            == "sync requires at least one source"@),
        options.dry_run ==> *final(fs) == *old(fs),
{
    if sources.len() == 0 {
        return Err(FsError::Unsupported("sync requires at least one source"));
    }

    let mut report = SyncReport::default();
    let mut present_sources: Vec<String> = Vec::new();
    let mut i: usize = 0;
    while i < sources.len()
        invariant
            i <= sources@.len(),
            sources@.len() > 0,
            options.dry_run ==> *fs == *old(fs),
        decreases sources.len() - i,
    {
        let source = sources[i].as_str();
        match fs.metadata(source) {
            Ok(_) => present_sources.push(sources[i].clone()),
            Err(err) => {
                let not_found = matches!(err, FsError::NotFound(_));
                if not_found && options.delete_missing_args {
                    delete_missing_arg(fs, source, dest, sources.len(), &options, &mut report)?;
                } else if !(not_found && options.ignore_missing_args) {
                    return Err(err);
                }
            },
        }
        i = i + 1;
    }

    if present_sources.len() == 0 {
        return Ok(report);
    }

    if options.relative_paths && options.implied_dirs {
        let mut j: usize = 0;
        while j < present_sources.len()
            invariant
                j <= present_sources@.len(),
                sources@.len() > 0,
                options.dry_run ==> *fs == *old(fs),
            decreases present_sources.len() - j,
        {
            ensure_implied_relative_dirs(fs, present_sources[j].as_str(), dest, &options, &mut report)?;
            j = j + 1;
        }
    }

    let child = if present_sources.len() == 1 && options.relative_paths {
        ensure_missing_destination_parent_allowed(fs, dest, options.mkpath)?;
        let mut child_options = options;
        child_options.mkpath = true;
        let relative = relative_operand_path(present_sources[0].as_str())?;
        let target = join_paths(dest, relative.as_str());
        sync_tree_checked(fs, present_sources[0].as_str(), target.as_str(), child_options, check)
    } else if present_sources.len() == 1 {
        sync_tree_checked(fs, present_sources[0].as_str(), dest, options, check)
    } else {
        sync_multiple_sources(fs, present_sources.as_slice(), dest, options, check)
    }?;
    report.append(child);
    Ok(report)
}

fn ensure_implied_relative_dirs<F: PortableFileSystem>(
    fs: &mut F,
    source: &str,
    dest: &str,
    options: &SyncOptions,
    report: &mut SyncReport,
) -> (r: Result<(), FsError>)
    ensures
        options.dry_run ==> *final(fs) == *old(fs),
        crate::fs::sync_paths::normal_names(source@).len() == 0 ==> (r matches Err(
            FsError::InvalidPortablePath(s),
        ) && s@ == source@),
        crate::fs::sync_paths::normal_names(source@).len() == 0 ==> final(report)@ == old(report)@
            && *final(fs) == *old(fs),
{
    let relative = relative_operand_path(source)?;
    let names = path_names_of(relative.as_str(), false);
    if names.len() == 0 {
        return Ok(());
    }
    let mut prefix: Vec<String> = Vec::new();
    let mut k: usize = 0;
    while k + 1 < names.len()
        invariant
            k < names@.len(),
            options.dry_run ==> *fs == *old(fs),
            crate::fs::sync_paths::normal_names(source@).len() > 0,
        decreases names.len() - k,
    {
        prefix.push(names[k].clone());
        k = k + 1;
        let prefix_text = join_path(prefix.as_slice());
        let target = join_paths(dest, prefix_text.as_str());
        match fs.metadata(target.as_str()) {
            Ok(metadata) => {
                if !matches!(metadata.file_type, FileType::Directory) {
                    if remove_conflicting_target(
                        fs,
                        dest,
                        target.as_str(),
                        prefix_text.as_str(),
                        FileType::Directory,
                        options,
                        report,
                    )? {
                        report.push(SyncAction::CreateDir(target.clone()));
                        if !options.dry_run {
                            fs.create_dir_all(target.as_str())?;
                        }
                    }
                }
            },
            Err(FsError::NotFound(_)) => {
                report.push(SyncAction::CreateDir(target.clone()));
                if !options.dry_run {
                    fs.create_dir_all(target.as_str())?;
                }
            },
            Err(err) => {
                return Err(err);
            },
        }
    }
    Ok(())
}

fn sync_multiple_sources<F: PortableFileSystem, C: DestinationCheck>(
    fs: &mut F,
    sources: &[String],
    dest: &str,
    options: SyncOptions,
    check: &C,
) -> (r: Result<SyncReport, FsError>)
    ensures
        options.dry_run ==> *final(fs) == *old(fs),
{
    if let Ok(metadata) = fs.metadata(dest) {
        if !matches!(metadata.file_type, FileType::Directory) {
            return Err(FsError::NotDirectory(dest.to_owned()));
        }
    }

    let mut targets: Vec<String> = Vec::new();
    let mut i: usize = 0;
    while i < sources.len()
        invariant
            i <= sources@.len(),
            targets@.len() == i,
        decreases sources.len() - i,
    {
        let source = sources[i].as_str();
        let target = if options.relative_paths {
            let relative = relative_operand_path(source)?;
            join_paths(dest, relative.as_str())
        } else {
            batch_target_path(source, dest)?
        };
        let source_root = fs.resolve_path_for_prefix_check(source)?;
        let target_root = fs.resolve_path_for_prefix_check(target.as_str())?;
        if destination_inside_source(source_root.as_str(), target_root.as_str()) {
            return Err(FsError::DestinationInsideSource);
        }
        targets.push(target);
        i = i + 1;
    }

    let mut roots: Vec<String> = Vec::new();
    let mut k: usize = 0;
    while k < targets.len()
        invariant
            k <= targets@.len(),
        decreases targets.len() - k,
    {
        roots.push(destination_preflight_path(targets[k].as_str()));
        k = k + 1;
    }
    check.check(roots.as_slice())?;

    let mut report = SyncReport::default();
    ensure_missing_destination_parent_allowed(fs, dest, options.mkpath)?;
    if !fs.path_exists(dest) {
        report.push(SyncAction::CreateDir(dest.to_owned()));
        if !options.dry_run {
            fs.create_dir_all(dest)?;
        }
    }

    let mut j: usize = 0;
    while j < sources.len()
        invariant
            j <= sources@.len(),
            targets@.len() == sources@.len(),
            options.dry_run ==> *fs == *old(fs),
        decreases sources.len() - j,
    {
        let mut child_options = options.clone();
        if child_options.relative_paths {
            child_options.mkpath = true;
        }
        let child = sync_tree_checked(fs, sources[j].as_str(), targets[j].as_str(), child_options, check)?;
        report.append(child);
        j = j + 1;
    }

    Ok(report)
}

/// Where a source operand goes in a batch: its file name below `dest`.
pub fn batch_target_path(source: &str, dest: &str) -> (r: Result<String, FsError>)
    ensures
        match crate::fs::sync_paths::file_name_of(source@) {
            Some(name) => r matches Ok(t) && t@ == crate::fs::sync_paths::path_join(dest@, name),
            None => r matches Err(FsError::InvalidPortablePath(p)) && p@ == source@,
        },
{
    match file_name(source) {
        Some(name) => Ok(join_paths(dest, name.as_str())),
        None => Err(FsError::InvalidPortablePath(source.to_owned())),
    }
}

fn ensure_missing_destination_parent_allowed<F: PortableFileSystem>(
    fs: &F,
    path: &str,
    mkpath: bool,
) -> (r: Result<(), FsError>)
    ensures
        mkpath ==> r is Ok,
        !(crate::fs::sync_paths::parent_of_path(path@) matches Some(q) && q.len() > 0) ==> r is Ok,
{
    if mkpath || fs.path_exists(path) {
        return Ok(());
    }
    let parent = match non_empty_parent(path) {
        Some(p) => p,
        None => {
            return Ok(());
        },
    };
    let metadata = fs.metadata(parent.as_str())?;
    if !matches!(metadata.file_type, FileType::Directory) {
        return Err(FsError::NotDirectory(parent));
    }
    Ok(())
}

fn sync_single_file<F: PortableFileSystem, C: DestinationCheck>(
    fs: &mut F,
    source: &str,
    source_metadata: PortableMetadata,
    dest: &str,
    options: &SyncOptions,
    check: &C,
) -> (r: Result<SyncReport, FsError>)
    ensures
        options.dry_run ==> *final(fs) == *old(fs),
{
    let dest_is_dir = match fs.metadata(dest) {
        Ok(metadata) => matches!(metadata.file_type, FileType::Directory),
        Err(_) => false,
    };
    let target = if dest_is_dir {
        match file_name(source) {
            Some(name) => join_paths(dest, name.as_str()),
            None => {
                return Err(FsError::InvalidPortablePath(source.to_owned()));
            },
        }
    } else {
        dest.to_owned()
    };

    let mut report = SyncReport::default();
    let entry = WalkEntry { path: source.to_owned(), metadata: source_metadata };
    ensure_missing_destination_parent_allowed(fs, target.as_str(), options.mkpath)?;
    let mut roots: Vec<String> = Vec::new();
    roots.push(destination_preflight_path(target.as_str()));
    check.check(roots.as_slice())?;
    let relative = match file_name(target.as_str()) {
        Some(name) => name,
        None => destination_preflight_path(target.as_str()),
    };
    let dest_root = match parent_path(target.as_str()) {
        Some(p) => p,
        None => String::new(),
    };
    if !remove_conflicting_target(
        fs,
        dest_root.as_str(),
        target.as_str(),
        relative.as_str(),
        FileType::File,
        options,
        &mut report,
    )? {
        return Ok(report);
    }
    if !file_needs_update(fs, &entry, target.as_str(), options)? {
        preserve_existing_file_mtime(fs, target.as_str(), &entry, options, &mut report)?;
        return Ok(report);
    }

    let mut delayed_transfers: Vec<DelayedTransfer> = Vec::new();
    let mut hardlink_targets = HardlinkTargets::new();
    transfer_file(
        fs,
        &entry,
        target.as_str(),
        relative.as_str(),
        &mut report,
        dest_root.as_str(),
        options,
        &mut delayed_transfers,
        &mut hardlink_targets,
    )?;
    finish_delayed_updates(fs, dest_root.as_str(), delayed_transfers.as_slice(), options, &mut report)?;

    Ok(report)
}

/// A file staged for a delayed update.
struct DelayedTransfer {
    temp: String,
    target: String,
    relative: String,
    entry: WalkEntry,
}

/// Whether `a` writes `len` bytes to `path` in the write mode `mode`.
pub open spec fn is_write_action(a: SyncAction, path: Seq<char>, len: int, mode: FileWriteMode) -> bool {
    match a {
        SyncAction::WriteFile { path: p, len: n } => mode == FileWriteMode::Atomic && p@ == path && n
            == len,
        SyncAction::WriteFileInPlace { path: p, len: n } => mode == FileWriteMode::InPlace && p@
            == path && n == len,
        _ => false,
    }
}

fn transfer_file<F: PortableFileSystem>(
    fs: &mut F,
    entry: &WalkEntry,
    target: &str,
    relative: &str,
    report: &mut SyncReport,
    dest_root: &str,
    options: &SyncOptions,
    delayed_transfers: &mut Vec<DelayedTransfer>,
    hardlink_targets: &mut HardlinkTargets,
) -> (r: Result<(), FsError>)
    ensures
        adds_no_deletes(old(report)@, final(report)@),
        appends(old(report)@, final(report)@),
        options.dry_run ==> *final(fs) == *old(fs),
        options.dry_run ==> final(delayed_transfers)@ == old(delayed_transfers)@,
        !options.append_verify && !(options.preserve_hard_links && entry.metadata.hardlink_id is Some)
            ==> (r is Ok ==> final(report)@.len() > old(report)@.len() && final(report)@.take(
            old(report)@.len() as int,
        ) == old(report)@ && is_write_action(
            final(report)@[old(report)@.len() as int],
            target@,
            entry.metadata.len as int,
            options.file_write_mode,
        )),
{
    let ghost start = report@;
    if options.preserve_hard_links {
        if let Some(id) = entry.metadata.hardlink_id {
            if let Some(existing) = hardlink_targets.get(id) {
                report.push(SyncAction::CreateHardLink { from: existing.clone(), to: target.to_owned() });
                if !options.dry_run {
                    backup_receiver_file(fs, dest_root, target, relative, options, report)?;
                    remove_existing_file_before_hardlink(fs, target)?;
                    match fs.create_hard_link(existing.as_str(), target) {
                        Ok(()) => {
                            preserve_transferred_mtime(fs, target, entry, options, report)?;
                            return Ok(());
                        },
                        Err(err) => {
                            let text = err.message();
                            let message = crate::text::join3(
                                "hard link preservation fell back to file copy: ",
                                text.as_str(),
                                "",
                            );
                            report.push(SyncAction::Warn { path: target.to_owned(), message });
                        },
                    }
                } else {
                    return Ok(());
                }
            }
        }
    }

    if options.append_verify {
        if let Some(offset) = append_verify_offset(fs, entry.path.as_str(), target, entry.metadata.len)? {
            let suffix_len = entry.metadata.len - offset;
            if suffix_len > 0 {
                let len = action_len(suffix_len)?;
                report.push(SyncAction::AppendFile { path: target.to_owned(), len });
                if !options.dry_run {
                    fs.append_file_from(target, entry.path.as_str(), offset)?;
                }
            }
            preserve_transferred_mtime(fs, target, entry, options, report)?;
            return Ok(());
        }
    }

    let len = action_len(entry.metadata.len)?;
    let action = match options.file_write_mode {
        FileWriteMode::Atomic => SyncAction::WriteFile { path: target.to_owned(), len },
        FileWriteMode::InPlace => SyncAction::WriteFileInPlace { path: target.to_owned(), len },
    };
    report.push(action);
    assert(report@.take(start.len() as int) =~= start);
    let ghost written = report@;
    if !options.dry_run {
        if options.delay_updates {
            let temp = delayed_update_path(dest_root, relative, options);
            fs.copy_file_with_options(
                entry.path.as_str(),
                temp.as_str(),
                &delayed_file_write_options(options),
            )?;
            delayed_transfers.push(
                DelayedTransfer {
                    temp,
                    target: target.to_owned(),
                    relative: relative.to_owned(),
                    entry: entry.clone(),
                },
            );
            return Ok(());
        }
        backup_receiver_file(fs, dest_root, target, relative, options, report)?;
        fs.copy_file_with_options(entry.path.as_str(), target, &file_write_options(options))?;
    }
    let ghost kept = report@;
    assert(kept.len() >= written.len() && kept.take(written.len() as int) == written) by {
        if kept != written {
            assert(kept.take(written.len() as int) =~= written);
        }
    }
    remember_hardlink_target(entry, target, options.preserve_hard_links, hardlink_targets);
    let res = preserve_transferred_mtime(fs, target, entry, options, report);
    proof {
        if report@ != kept {
            assert(report@.take(kept.len() as int) =~= kept);
        }
        assert(report@.take(written.len() as int) =~= written) by {
            assert(report@.take(kept.len() as int).take(written.len() as int) =~= report@.take(
                written.len() as int,
            ));
        }
        assert(report@[start.len() as int] == written[start.len() as int]);
        assert(report@.take(start.len() as int) =~= written.take(start.len() as int));
    }
    res
}

/// Records where a file of a hard link group was written, the first time the group is met.
fn remember_hardlink_target(
    entry: &WalkEntry,
    target: &str,
    preserve_hard_links: bool,
    hardlink_targets: &mut HardlinkTargets,
) {
    if preserve_hard_links {
        if let Some(id) = entry.metadata.hardlink_id {
            hardlink_targets.remember(id, target);
        }
    }
}

fn remove_existing_file_before_hardlink<F: PortableFileSystem>(fs: &mut F, target: &str) -> Result<
    (),
    FsError,
> {
    match fs.metadata(target) {
        Ok(metadata) => if !matches!(metadata.file_type, FileType::Directory) {
            fs.remove_file(target)
        } else {
            Ok(())
        },
        Err(FsError::NotFound(_)) => Ok(()),
        Err(err) => Err(err),
    }
}

/// Whether `a` warns about `path` with `message`.
pub open spec fn is_warn_action(a: SyncAction, path: Seq<char>, message: Seq<char>) -> bool {
    match a {
        SyncAction::Warn { path: p, message: m } => p@ == path && m@ == message,
        _ => false,
    }
}

fn transfer_symlink<F: PortableFileSystem>(
    fs: &mut F,
    entry: &WalkEntry,
    dest_root: &str,
    target: &str,
    relative: &str,
    options: &SyncOptions,
    report: &mut SyncReport,
) -> (r: Result<(), FsError>)
    ensures
        deletes_only_at(old(report)@, final(report)@, target@),
        appends(old(report)@, final(report)@),
        options.dry_run ==> *final(fs) == *old(fs),
        entry.metadata.symlink_target is None ==> r is Ok && *final(fs) == *old(fs)
            && final(report)@ == old(report)@.push(final(report)@.last()) && is_warn_action(
            final(report)@.last(),
            entry.path@,
            "symlink has no recorded target"@,
        ),
{
    let link_target = match &entry.metadata.symlink_target {
        Some(t) => t,
        None => {
            report.push(
                SyncAction::Warn {
                    path: entry.path.clone(),
                    message: String::from_str("symlink has no recorded target"),
                },
            );
            return Ok(());
        },
    };
    let target_kind = match fs.metadata_follow(entry.path.as_str()) {
        Ok(metadata) => metadata.file_type,
        Err(_) => FileType::File,
    };
    let link_target = match options.symlink_mode {
        SymlinkMode::Munge => munge_symlink_target(link_target.as_str()),
        _ => link_target.clone(),
    };

    if !remove_conflicting_target(
        fs,
        dest_root,
        target,
        relative,
        FileType::Symlink,
        options,
        report,
    )? {
        return Ok(());
    }

    report.push(SyncAction::CreateSymlink { path: target.to_owned(), target: link_target.clone() });
    if !options.dry_run {
        let replace = match fs.metadata(target) {
            Ok(metadata) => !matches!(metadata.file_type, FileType::Directory),
            Err(_) => false,
        };
        if replace {
            let _ = fs.remove_file(target);
        }
        fs.create_symlink(target, link_target.as_str(), target_kind)?;
    }
    preserve_transferred_mtime(fs, target, entry, options, report)
}

/// Where an append can resume: the receiver's length, when its file is a prefix of the sender's.
fn append_verify_offset<F: PortableFileSystem>(
    fs: &F,
    source: &str,
    target: &str,
    source_len: u64,
) -> (r: Result<Option<u64>, FsError>)
    ensures
        r matches Ok(Some(offset)) ==> offset <= source_len,
{
    let target_metadata = match fs.metadata(target) {
        Ok(m) => m,
        Err(_) => {
            return Ok(None);
        },
    };
    if !matches!(target_metadata.file_type, FileType::File) || target_metadata.len > source_len {
        return Ok(None);
    }
    if fs.file_prefix_matches(source, target)? {
        Ok(Some(target_metadata.len))
    } else {
        Ok(None)
    }
}

fn finish_delayed_updates<F: PortableFileSystem>(
    fs: &mut F,
    dest_root: &str,
    delayed_transfers: &[DelayedTransfer],
    options: &SyncOptions,
    report: &mut SyncReport,
) -> (r: Result<(), FsError>)
    requires
        options.dry_run ==> delayed_transfers@.len() == 0,
    ensures
        adds_no_deletes(old(report)@, final(report)@),
        appends(old(report)@, final(report)@),
        options.dry_run ==> *final(fs) == *old(fs),
        delayed_transfers@.len() == 0 ==> r is Ok && final(report)@ == old(report)@ && *final(fs)
            == *old(fs),
{
    let mut i: usize = 0;
    while i < delayed_transfers.len()
        invariant
            i <= delayed_transfers@.len(),
            options.dry_run ==> delayed_transfers@.len() == 0,
            options.dry_run ==> *fs == *old(fs),
            delayed_transfers@.len() == 0 ==> *fs == *old(fs) && report@ == old(report)@,
            appends(old(report)@, report@),
            adds_no_deletes(old(report)@, report@),
        decreases delayed_transfers.len() - i,
    {
        let transfer = &delayed_transfers[i];
        backup_receiver_file(
            fs,
            dest_root,
            transfer.target.as_str(),
            transfer.relative.as_str(),
            options,
            report,
        )?;
        fs.rename_file(transfer.temp.as_str(), transfer.target.as_str())?;
        preserve_transferred_mtime(fs, transfer.target.as_str(), &transfer.entry, options, report)?;
        i = i + 1;
    }
    Ok(())
}

fn cleanup_delayed_updates<F: PortableFileSystem>(
    fs: &mut F,
    delayed_transfers: &[DelayedTransfer],
    options: &SyncOptions,
)
    requires
        options.dry_run ==> delayed_transfers@.len() == 0,
    ensures
        options.dry_run ==> *final(fs) == *old(fs),
        options.keep_partial || options.partial_dir is Some ==> *final(fs) == *old(fs),
        delayed_transfers@.len() == 0 ==> *final(fs) == *old(fs),
{
    if options.keep_partial || options.partial_dir.is_some() {
        return;
    }
    let mut i: usize = 0;
    while i < delayed_transfers.len()
        invariant
            i <= delayed_transfers@.len(),
            options.dry_run ==> delayed_transfers@.len() == 0,
            options.dry_run ==> *fs == *old(fs),
            delayed_transfers@.len() == 0 ==> *fs == *old(fs),
        decreases delayed_transfers.len() - i,
    {
        let _ = fs.remove_file(delayed_transfers[i].temp.as_str());
        i = i + 1;
    }
}

/// Whether a transferred entry's modification time is carried over: times are preserved, the
/// entry has one, and it is not a directory while directory times are omitted.
pub open spec fn carries_mtime(options: SyncOptions, metadata: PortableMetadata) -> bool {
    options.preserve_mtime && !(options.omit_dir_times && metadata.file_type == FileType::Directory)
        && metadata.modified is Some
}

fn preserve_transferred_mtime<F: PortableFileSystem>(
    fs: &mut F,
    target: &str,
    source: &WalkEntry,
    options: &SyncOptions,
    report: &mut SyncReport,
) -> (r: Result<(), FsError>)
    ensures
        adds_no_deletes(old(report)@, final(report)@),
        appends(old(report)@, final(report)@),
        !carries_mtime(*options, source.metadata) ==> (r is Ok && final(report)@ == old(report)@),
        carries_mtime(*options, source.metadata) ==> final(report)@ == old(report)@.push(
            SyncAction::PreserveMtime(final(report)@.last()->PreserveMtime_0),
        ) && final(report)@.last()->PreserveMtime_0@ == target@,
        options.dry_run ==> *final(fs) == *old(fs),
        options.dry_run ==> r is Ok,
{
    if !options.preserve_mtime {
        return Ok(());
    }
    if options.omit_dir_times && matches!(source.metadata.file_type, FileType::Directory) {
        return Ok(());
    }
    let modified = match source.metadata.modified {
        Some(m) => m,
        None => {
            return Ok(());
        },
    };
    report.push(SyncAction::PreserveMtime(target.to_owned()));
    if !options.dry_run {
        fs.set_mtime(target, modified)?;
    }
    Ok(())
}

/// Whether `a` sets the modification time of `target`.
pub open spec fn is_mtime_action(a: SyncAction, target: Seq<char>) -> bool {
    match a {
        SyncAction::PreserveMtime(t) => t@ == target,
        _ => false,
    }
}

/// The directories from index `i` on whose times are carried over, last first.
pub open spec fn directory_mtime_targets(
    dirs: Seq<(String, WalkEntry)>,
    options: SyncOptions,
    i: int,
) -> Seq<Seq<char>>
    decreases dirs.len() - i,
{
    if i < 0 || i >= dirs.len() {
        Seq::empty()
    } else {
        directory_mtime_targets(dirs, options, i + 1) + if carries_mtime(options, dirs[i].1.metadata) {
            seq![dirs[i].0@]
        } else {
            Seq::empty()
        }
    }
}

/// Whether `after` is `before` followed by one time-setting action for each of `targets`.
pub open spec fn mtimes_reported(
    before: Seq<SyncAction>,
    after: Seq<SyncAction>,
    targets: Seq<Seq<char>>,
) -> bool {
    &&& after.len() == before.len() + targets.len()
    &&& after.take(before.len() as int) == before
    &&& forall|j: int|
        0 <= j < targets.len() ==> is_mtime_action(#[trigger] after[before.len() + j], targets[j])
}

fn preserve_directory_mtimes<F: PortableFileSystem>(
    fs: &mut F,
    directories: &[(String, WalkEntry)],
    options: &SyncOptions,
    report: &mut SyncReport,
) -> (r: Result<(), FsError>)
    ensures
        adds_no_deletes(old(report)@, final(report)@),
        appends(old(report)@, final(report)@),
        options.dry_run ==> *final(fs) == *old(fs),
        options.dry_run ==> r is Ok,
        r is Ok ==> mtimes_reported(
            old(report)@,
            final(report)@,
            directory_mtime_targets(directories@, *options, 0),
        ),
{
    let mut i = directories.len();
    let ghost start = report@;
    proof {
        assert(report@.take(start.len() as int) =~= start);
    }
    while i > 0
        invariant
            i <= directories@.len(),
            options.dry_run ==> *fs == *old(fs),
            start == old(report)@,
            mtimes_reported(start, report@, directory_mtime_targets(directories@, *options, i as int)),
            adds_no_deletes(start, report@),
            appends(start, report@),
        decreases i,
    {
        i = i - 1;
        let (target, entry) = &directories[i];
        let ghost before = report@;
        let ghost prev = directory_mtime_targets(directories@, *options, i + 1);
        let res = preserve_transferred_mtime(fs, target.as_str(), entry, options, report);
        proof {
            let now = directory_mtime_targets(directories@, *options, i as int);
            if carries_mtime(*options, entry.metadata) {
                assert(now =~= prev.push(target@));
                assert(is_mtime_action(report@[(start.len() + prev.len()) as int], target@));
                assert forall|j: int| 0 <= j < now.len() implies is_mtime_action(
                    #[trigger] report@[start.len() + j],
                    now[j],
                ) by {
                    if j < prev.len() {
                        assert(report@[start.len() + j] == before[start.len() + j]);
                    }
                }
                assert(report@.take(start.len() as int) =~= start);
            } else {
                assert(now =~= prev);
            }
        }
        match res {
            Ok(()) => {},
            Err(e) => {
                return Err(e);
            },
        }
    }
    Ok(())
}

/// Whether the files at `left` and `right` have the same contents, as `files_equal` finds from
/// what the file system `fs` reports; `None` where it fails.
pub open spec fn same_contents<F: PortableFileSystem>(fs: F, left: Seq<char>, right: Seq<char>) -> Option<bool> {
    match (fs.metadata_of(left), fs.metadata_of(right)) {
        (Some(lm), Some(rm)) => if lm.len != rm.len {
            Some(false)
        } else {
            match (fs.contents_of(left), fs.contents_of(right)) {
                (Some(a), Some(b)) => Some(a == b),
                _ => None,
            }
        },
        _ => None,
    }
}

/// What the update check decides for a source file with `source` metadata when the receiver
/// has `target` (the metadata its file system gives, if any).
pub open spec fn update_decision(
    o: SyncOptions,
    source: PortableMetadata,
    target: Option<PortableMetadata>,
) -> UpdateCheck {
    crate::fs::sync_plan::update_check_of(
        source,
        target,
        match target {
            Some(t) => crate::fs::sync_plan::receiver_newer_of(source, t),
            None => false,
        },
        match target {
            Some(t) => crate::fs::sync_plan::mtimes_match_of(source, t, o.modify_window),
            None => None,
        },
        o,
    )
}

fn file_needs_update<F: PortableFileSystem>(
    fs: &F,
    source: &WalkEntry,
    target: &str,
    options: &SyncOptions,
) -> (r: Result<bool, FsError>)
    ensures
        (options.max_size matches Some(max) && source.metadata.len > max) || (
        options.min_size matches Some(min) && source.metadata.len < min) ==> r == Ok::<
            bool,
            FsError,
        >(false),
        match update_decision(*options, source.metadata, fs.metadata_of(target@)) {
            UpdateCheck::Skip => r == Ok::<bool, FsError>(false),
            UpdateCheck::Transfer => r == Ok::<bool, FsError>(true),
            UpdateCheck::CompareContents => match same_contents(*fs, source.path@, target@) {
                Some(b) => r == Ok::<bool, FsError>(!b),
                None => r is Err,
            },
        },
{
    let target_metadata = metadata_if_present(fs, target);
    let (newer, same) = match &target_metadata {
        Some(t) => (
            receiver_is_newer(&source.metadata, t),
            mtimes_match(&source.metadata, t, options.modify_window),
        ),
        None => (false, None),
    };
    let check = update_check(
        &source.metadata,
        match &target_metadata {
            Some(t) => Some(t),
            None => None,
        },
        newer,
        same,
        options,
    );
    match check {
        UpdateCheck::Skip => Ok(false),
        UpdateCheck::Transfer => Ok(true),
        UpdateCheck::CompareContents => Ok(!fs.files_equal(source.path.as_str(), target)?),
    }
}

fn preserve_existing_file_mtime<F: PortableFileSystem>(
    fs: &mut F,
    target: &str,
    source: &WalkEntry,
    options: &SyncOptions,
    report: &mut SyncReport,
) -> (r: Result<(), FsError>)
    ensures
        adds_no_deletes(old(report)@, final(report)@),
        appends(old(report)@, final(report)@),
        options.dry_run ==> *final(fs) == *old(fs),
        options.dry_run ==> r is Ok,
        !options.preserve_mtime || source.metadata.modified is None ==> r is Ok && final(report)@
            == old(report)@,
        final(report)@ == old(report)@ || mtimes_reported(old(report)@, final(report)@, seq![target@]),
{
    if !options.preserve_mtime {
        return Ok(());
    }
    let source_mtime = match source.metadata.modified {
        Some(m) => m,
        None => {
            return Ok(());
        },
    };
    let target_metadata = match fs.metadata(target) {
        Ok(m) => m,
        Err(_) => {
            return Ok(());
        },
    };
    if let Some(t) = &target_metadata.modified {
        if crate::fs::sync_plan::same_instant(t, &source_mtime) {
            return Ok(());
        }
    }
    let ghost before = report@;
    report.push(SyncAction::PreserveMtime(target.to_owned()));
    assert(report@.take(before.len() as int) =~= before);
    assert(is_mtime_action(report@[before.len() as int], seq![target@][0]));
    if !options.dry_run {
        fs.set_mtime(target, source_mtime)?;
    }
    Ok(())
}

/// The paths below `source` (relative to it) that the filter rules keep, in path order.
pub fn source_relative_paths<F: PortableFileSystem>(
    fs: &F,
    source: &str,
    filter_rules: &RuleSet,
) -> (r: Result<Vec<String>, FsError>)
    ensures
        r matches Ok(v) ==> exists|keys: Seq<Seq<Seq<char>>>|
            #![trigger keys.len()]
            keys.len() == v@.len() && (forall|i: int, j: int|
                0 <= i < j < keys.len() ==> crate::fs::paths::path_less(
                    #[trigger] keys[i],
                    #[trigger] keys[j],
                )) && (forall|i: int|
                0 <= i < keys.len() ==> #[trigger] v@[i]@ == path_text(keys[i])),
{
    let entries = relative_entries(fs, source, Some(filter_rules), true, SymlinkMode::Preserve, false)?;
    entries.assert_sorted();
    let texts = entries.key_texts();
    let ghost keys = entries@.map_values(|x: (Seq<Seq<char>>, WalkEntry)| x.0);
    assert(keys.len() == texts@.len());
    assert forall|i: int| 0 <= i < keys.len() implies #[trigger] texts@[i]@ == path_text(keys[i]) by {
        assert(keys[i] == entries@[i].0);
    }
    assert forall|i: int, j: int| 0 <= i < j < keys.len() implies crate::fs::paths::path_less(
        #[trigger] keys[i],
        #[trigger] keys[j],
    ) by {
        assert(keys[i] == entries@[i].0 && keys[j] == entries@[j].0);
    }
    Ok(texts)
}

/// The texts of a list of strings.
pub open spec fn texts_view(s: Seq<String>) -> Seq<Seq<char>> {
    s.map_values(|p: String| p@)
}

/// Whether `paths[j]` is the first of `paths` with its names.
pub open spec fn first_with_names(paths: Seq<Seq<char>>, j: int) -> bool {
    forall|q: int| 0 <= q < j ==> path_names(#[trigger] paths[q]) != path_names(paths[j])
}

/// Whether `p` is the first of `paths` with its names.
pub open spec fn first_of_its_names(paths: Seq<Seq<char>>, p: Seq<char>) -> bool {
    exists|j: int| 0 <= j < paths.len() && paths[j] == p && #[trigger] first_with_names(paths, j)
}

/// Whether some path of `out` has the names `k`.
pub open spec fn names_listed(out: Seq<Seq<char>>, k: Seq<Seq<char>>) -> bool {
    exists|i: int| 0 <= i < out.len() && #[trigger] path_names(out[i]) == k
}

/// Whether `out` is `paths` in path order without repeats: for each distinct path (by its names)
/// the first of `paths` that has it.
pub open spec fn merged_paths(paths: Seq<Seq<char>>, out: Seq<Seq<char>>) -> bool {
    &&& forall|i: int, j: int|
        0 <= i < j < out.len() ==> crate::fs::paths::path_less(
            path_names(#[trigger] out[i]),
            path_names(#[trigger] out[j]),
        )
    &&& forall|i: int| 0 <= i < out.len() ==> first_of_its_names(paths, #[trigger] out[i])
    &&& forall|j: int| 0 <= j < paths.len() ==> names_listed(out, path_names(#[trigger] paths[j]))
}

/// The selected paths in path order without repeats, the first of equal paths kept.
pub fn merge_selected_paths(paths: &[String]) -> (r: Vec<String>)
    ensures
        merged_paths(texts_view(paths@), texts_view(r@)),
{
    let ghost pv = texts_view(paths@);
    let mut map = EntryMap::new();
    let mut n: usize = 0;
    while n < paths.len()
        invariant
            n <= paths@.len(),
            pv == texts_view(paths@),
            crate::fs::sync_plan::keyed_by_path(map@),
            forall|t: int|
                0 <= t < map@.len() ==> exists|j: int|
                    0 <= j < n && #[trigger] map@[t].1.path@ == pv[j] && first_with_names(pv, j),
            forall|j: int| 0 <= j < n ==> lookup(map@, path_names(#[trigger] pv[j])) is Some,
        decreases paths.len() - n,
    {
        let ghost before = map@;
        let p = paths[n].clone();
        let ghost key = path_names(pv[n as int]);
        assert(p@ == pv[n as int]);
        let entry = WalkEntry { path: p, metadata: PortableMetadata::file(0) };
        map.assert_sorted();
        map.add_by_path(entry);
        map.assert_sorted();
        proof {
            if lookup(before, key) is None {
                crate::fs::memory::lemma_insert_node(before, key, entry);
                crate::fs::memory::lemma_insert_node_elements(before, key, entry);
                assert forall|q: int| 0 <= q < n implies path_names(#[trigger] pv[q]) != key by {
                    assert(lookup(before, path_names(pv[q])) is Some);
                }
                assert forall|t: int| 0 <= t < map@.len() implies exists|j: int|
                    0 <= j < n + 1 && #[trigger] map@[t].1.path@ == pv[j] && first_with_names(pv, j) by {
                    if map@[t] == (key, entry) {
                        assert(map@[t].1.path@ == pv[n as int]);
                    } else {
                        let u = choose|u: int| 0 <= u < before.len() && map@[t] == before[u];
                        let j = choose|j: int|
                            0 <= j < n && #[trigger] before[u].1.path@ == pv[j] && first_with_names(pv, j);
                    }
                }
                assert forall|j: int| 0 <= j < n + 1 implies lookup(map@, path_names(#[trigger] pv[j])) is Some by {
                    if j < n {
                        assert(lookup(before, path_names(pv[j])) is Some);
                    }
                }
            } else {
                assert forall|t: int| 0 <= t < map@.len() implies exists|j: int|
                    0 <= j < n + 1 && #[trigger] map@[t].1.path@ == pv[j] && first_with_names(pv, j) by {
                    let j = choose|j: int|
                        0 <= j < n && #[trigger] before[t].1.path@ == pv[j] && first_with_names(pv, j);
                }
            }
        }
        n = n + 1;
    }
    let out = map.entry_paths();
    proof {
        let ov = texts_view(out@);
        assert forall|i: int| 0 <= i < ov.len() implies first_of_its_names(pv, #[trigger] ov[i]) by {
            assert(ov[i] == map@[i].1.path@);
            let j = choose|j: int|
                0 <= j < n && #[trigger] map@[i].1.path@ == pv[j] && first_with_names(pv, j);
            assert(0 <= j < pv.len() && pv[j] == ov[i] && first_with_names(pv, j));
        }
        assert forall|j: int| 0 <= j < pv.len() implies names_listed(ov, path_names(#[trigger] pv[j])) by {
            let k = path_names(pv[j]);
            assert(lookup(map@, k) is Some);
            crate::fs::memory::lemma_first_not_less(map@, k, 0);
            let i = crate::fs::memory::entry_index(map@, k)->Some_0;
            assert(0 <= i < map@.len());
            assert(map@[i].0 == k);
            assert(path_names(map@[i].1.path@) == map@[i].0);
            assert(ov[i] == map@[i].1.path@);
            assert(0 <= i < ov.len() && path_names(ov[i]) == path_names(pv[j]));
        }
        assert forall|i: int, j: int| 0 <= i < j < ov.len() implies crate::fs::paths::path_less(
            path_names(#[trigger] ov[i]),
            path_names(#[trigger] ov[j]),
        ) by {
            assert(ov[i] == out@[i]@ && ov[j] == out@[j]@);
        }
    }
    out
}



/// The sender paths that a sync of `sources` would select, sorted and without repeats: the
/// selections of the sources in turn, merged by `merge_selected_paths`.
pub fn selected_source_paths<F: PortableFileSystem>(
    fs: &F,
    sources: &[String],
    options: SourceSelectionOptions<'_>,
) -> (r: Result<Vec<String>, FsError>)
    ensures
        sources@.len() == 0 ==> (r matches Err(FsError::Unsupported(m)) && m@
            == "sync requires at least one source"@),
        r is Ok ==> exists|picked: Seq<String>|
            #[trigger] merged_paths(texts_view(picked), texts_view(r->Ok_0@)),
{
    if sources.len() == 0 {
        return Err(FsError::Unsupported("sync requires at least one source"));
    }
    let mut picked: Vec<String> = Vec::new();
    let mut i: usize = 0;
    while i < sources.len()
        invariant
            i <= sources@.len(),
            sources@.len() > 0,
        decreases sources.len() - i,
    {
        let mut selected = selected_single_source_paths(fs, sources[i].as_str(), options)?;
        picked.append(&mut selected);
        i = i + 1;
    }
    let merged = merge_selected_paths(picked.as_slice());
    let ghost picked_view = picked@;
    let result: Result<Vec<String>, FsError> = Ok(merged);
    assert(merged_paths(texts_view(picked_view), texts_view(result->Ok_0@)));
    result
}

fn selected_single_source_paths<F: PortableFileSystem>(
    fs: &F,
    source: &str,
    options: SourceSelectionOptions<'_>,
) -> (r: Result<Vec<String>, FsError>)
    ensures
        r matches Ok(v) ==> v@.len() == 0 || v@[0]@ == source@,
{
    let metadata = fs.metadata(source)?;
    let mut paths: Vec<String> = Vec::new();
    if matches!(metadata.file_type, FileType::File | FileType::Directory) {
        paths.push(source.to_owned());
    }
    if !matches!(metadata.file_type, FileType::Directory) {
        return Ok(paths);
    }

    let mut entries = relative_entries(
        fs,
        source,
        Some(options.filter_rules),
        options.recursive,
        options.symlink_mode,
        options.one_file_system,
    )?;
    if let Some(files_from) = options.files_from {
        entries.retain_files_from(files_from);
    }

    let n = entries.len();
    let mut i: usize = 0;
    let ghost first = paths@;
    while i < n
        invariant
            n == entries@.len(),
            i <= n,
            first.len() == 1 && first[0]@ == source@,
            paths@.len() >= 1 && paths@[0] == first[0],
        decreases n - i,
    {
        let entry = entries.entry_at(i);
        let selected = match entry.metadata.file_type {
            FileType::File => true,
            FileType::Directory => options.recursive,
            _ => false,
        };
        if selected {
            paths.push(entry.path.clone());
        }
        i = i + 1;
    }
    Ok(paths)
}

fn remove_conflicting_target<F: PortableFileSystem>(
    fs: &mut F,
    dest_root: &str,
    target: &str,
    relative: &str,
    source_type: FileType,
    options: &SyncOptions,
    report: &mut SyncReport,
) -> (r: Result<bool, FsError>)
    ensures
        deletes_only_at(old(report)@, final(report)@, target@),
        appends(old(report)@, final(report)@),
        options.dry_run ==> *final(fs) == *old(fs),
        old(fs).metadata_of(target@) is None ==> r == Ok::<bool, FsError>(true) && final(report)@
            == old(report)@ && *final(fs) == *old(fs),
        old(fs).metadata_of(target@) matches Some(m) && m.file_type == source_type
            && source_type != FileType::Directory ==> r == Ok::<bool, FsError>(true)
            && final(report)@ == old(report)@ && *final(fs) == *old(fs),
{
    let target_metadata = match fs.metadata(target) {
        Ok(m) => m,
        Err(_) => {
            return Ok(true);
        },
    };

    if options.keep_dirlinks && matches!(source_type, FileType::Directory) && matches!(
        target_metadata.file_type,
        FileType::Symlink
    ) {
        let followed_dir = match fs.metadata_follow(target) {
            Ok(m) => matches!(m.file_type, FileType::Directory),
            Err(_) => false,
        };
        if followed_dir {
            return Ok(true);
        }
    }

    if target_metadata.file_type == source_type {
        return Ok(true);
    }

    match target_metadata.file_type {
        FileType::Directory => {
            if !options.force_delete && matches!(options.effective_delete_mode(), DeleteMode::Disabled)
                && fs.list(target)?.len() > 0 {
                report.push(SyncAction::ProtectDelete(target.to_owned()));
                return Ok(false);
            }
            report.push(SyncAction::DeleteDir(target.to_owned()));
            if !options.dry_run {
                fs.remove_dir_all(target)?;
            }
        },
        _ => {
            backup_receiver_file(fs, dest_root, target, relative, options, report)?;
            report.push(SyncAction::DeleteFile(target.to_owned()));
            if !options.dry_run {
                fs.remove_file(target)?;
            }
        },
    }

    Ok(true)
}

/// What selects the entries of a walk.
#[derive(Clone, Copy)]
struct RelativeEntryOptions<'a> {
    filter_rules: Option<&'a RuleSet>,
    recursive: bool,
    symlink_mode: SymlinkMode,
    one_file_system: bool,
}

fn relative_entries<F: PortableFileSystem>(
    fs: &F,
    root: &str,
    filter_rules: Option<&RuleSet>,
    recursive: bool,
    symlink_mode: SymlinkMode,
    one_file_system: bool,
) -> (r: Result<EntryMap, FsError>)
    ensures
        r matches Ok(m) ==> forall|k: Seq<Seq<char>>|
            #[trigger] lookup(m@, k) is Some ==> walked_entry(Seq::empty(), k, lookup(m@, k)),
{
    let mut entries = EntryMap::new();
    let options = RelativeEntryOptions { filter_rules, recursive, symlink_mode, one_file_system };
    let start: Vec<String> = Vec::new();
    let ghost empty = entries@;
    assert(crate::fs::paths::components_view(start@) =~= Seq::<Seq<char>>::empty());
    collect_relative_entries(fs, root, root, start, options, &mut entries, MAX_TREE_DEPTH)?;
    assert forall|k: Seq<Seq<char>>| #[trigger] lookup(entries@, k) is Some implies walked_entry(
        Seq::empty(),
        k,
        lookup(entries@, k),
    ) by {
        assert(lookup(empty, k) is None);
        assert(lookup(entries@, k) != lookup(empty, k));
    }
    Ok(entries)
}

/// Whether the names `k` lie strictly below the names `root`.
pub open spec fn names_below(root: Seq<Seq<char>>, k: Seq<Seq<char>>) -> bool {
    root.len() < k.len() && k.take(root.len() as int) == root
}

/// Whether `after` differs from `before` only at keys below `root`, each then holding an entry
/// whose path ends in the key's last name.
pub open spec fn walk_changes(
    before: Seq<(Seq<Seq<char>>, WalkEntry)>,
    after: Seq<(Seq<Seq<char>>, WalkEntry)>,
    root: Seq<Seq<char>>,
) -> bool {
    forall|k: Seq<Seq<char>>|
        #[trigger] lookup(after, k) != lookup(before, k) ==> walked_entry(root, k, lookup(after, k))
}

/// Whether `k` lies below `root` and holds an entry whose path ends in the key's last name.
pub open spec fn walked_entry(root: Seq<Seq<char>>, k: Seq<Seq<char>>, v: Option<WalkEntry>) -> bool {
    names_below(root, k) && match v {
        Some(e) => file_name_of(e.path@) == Some(k.last()),
        None => false,
    }
}

proof fn lemma_walk_changes_none(s: Seq<(Seq<Seq<char>>, WalkEntry)>, root: Seq<Seq<char>>)
    ensures
        walk_changes(s, s, root),
{
}

proof fn lemma_walk_changes_insert(
    start: Seq<(Seq<Seq<char>>, WalkEntry)>,
    before: Seq<(Seq<Seq<char>>, WalkEntry)>,
    after: Seq<(Seq<Seq<char>>, WalkEntry)>,
    root: Seq<Seq<char>>,
    k: Seq<Seq<char>>,
    e: WalkEntry,
)
    requires
        walk_changes(start, before, root),
        forall|k2: Seq<Seq<char>>| #[trigger] lookup(after, k2) == if k2 == k {
            Some(e)
        } else {
            lookup(before, k2)
        },
        names_below(root, k),
        file_name_of(e.path@) == Some(k.last()),
    ensures
        walk_changes(start, after, root),
{
    assert forall|k2: Seq<Seq<char>>| #[trigger] lookup(after, k2) != lookup(start, k2) implies walked_entry(
        root,
        k2,
        lookup(after, k2),
    ) by {
        if k2 != k {
            assert(lookup(after, k2) == lookup(before, k2));
            assert(lookup(before, k2) != lookup(start, k2));
        }
    }
}

proof fn lemma_walk_changes_nested(
    start: Seq<(Seq<Seq<char>>, WalkEntry)>,
    mid: Seq<(Seq<Seq<char>>, WalkEntry)>,
    after: Seq<(Seq<Seq<char>>, WalkEntry)>,
    root: Seq<Seq<char>>,
    child: Seq<Seq<char>>,
)
    requires
        walk_changes(start, mid, root),
        walk_changes(mid, after, child),
        names_below(root, child),
    ensures
        walk_changes(start, after, root),
{
    assert forall|k: Seq<Seq<char>>| #[trigger] lookup(after, k) != lookup(start, k) implies walked_entry(
        root,
        k,
        lookup(after, k),
    ) by {
        if lookup(after, k) != lookup(mid, k) {
            assert(names_below(child, k));
            assert(k.take(root.len() as int) =~= k.take(child.len() as int).take(root.len() as int));
        } else {
            assert(lookup(mid, k) != lookup(start, k));
        }
    }
}

fn collect_relative_entries<F: PortableFileSystem>(
    fs: &F,
    root: &str,
    current: &str,
    relative_root: Vec<String>,
    options: RelativeEntryOptions<'_>,
    entries: &mut EntryMap,
    depth: usize,
) -> (r: Result<(), FsError>)
    ensures
        depth == 0 ==> r is Err && final(entries)@ == old(entries)@,
        walk_changes(
            old(entries)@,
            final(entries)@,
            crate::fs::paths::components_view(relative_root@),
        ),
    decreases depth,
{
    if depth == 0 {
        return Err(FsError::Unsupported("directory tree is too deep to walk"));
    }
    let directory_rules = load_dir_merge_rules(fs, current, options.filter_rules)?;
    let active_filter_rules = match &directory_rules {
        Some(rules) => Some(rules),
        None => options.filter_rules,
    };
    let listing = fs.list(current)?;
    let n = listing.len();
    let mut i: usize = 0;
    let ghost start = entries@;
    let ghost rr = crate::fs::paths::components_view(relative_root@);
    proof {
        lemma_walk_changes_none(start, rr);
    }
    while i < n
        invariant
            n == listing@.len(),
            i <= n,
            depth > 0,
            start == old(entries)@,
            rr == crate::fs::paths::components_view(relative_root@),
            walk_changes(start, entries@, rr),
        decreases n - i,
    {
        let original_entry = listing[i].clone();
        i = i + 1;
        let name = match file_name(original_entry.path.as_str()) {
            Some(name) => name,
            None => {
                return Err(FsError::InvalidPortablePath(original_entry.path.clone()));
            },
        };
        let ghost original_path = original_entry.path;
        let mut relative = crate::plan::filters::clone_strings(&relative_root);
        let ghost name_view = name@;
        relative.push(name);
        assert(crate::fs::paths::components_view(relative@) =~= rr.push(name_view));
        let entry = match apply_symlink_mode(fs, original_entry, options.symlink_mode)? {
            Some(e) => e,
            None => {
                continue;
            },
        };
        if options.one_file_system && !fs.same_file_system(root, entry.path.as_str())? {
            continue;
        }
        let relative_text = join_path(relative.as_slice());
        if let Some(rules) = active_filter_rules {
            if sender_path_is_filtered(rules, relative_text.as_str(), entry.metadata.file_type) {
                continue;
            }
        }
        let should_recurse = options.recursive && matches!(entry.metadata.file_type, FileType::Directory);
        let child_root = if should_recurse {
            match followed_directory_walk_path(&entry, options.symlink_mode) {
                Some(p) => Some(p),
                None => Some(entry.path.clone()),
            }
        } else {
            None
        };
        let child_relative = crate::plan::filters::clone_strings(&relative);
        let ghost before = entries@;
        let ghost kv = crate::fs::paths::components_view(relative@);
        let ghost e = entry;
        entries.assert_sorted();
        entries.insert(relative, entry);
        proof {
            crate::fs::memory::lemma_insert_node(before, kv, e);
            assert(kv.take(rr.len() as int) =~= rr);
            lemma_walk_changes_insert(start, before, entries@, rr, kv, e);
        }
        if let Some(child_root) = child_root {
            let child_options = RelativeEntryOptions {
                filter_rules: active_filter_rules,
                recursive: options.recursive,
                symlink_mode: options.symlink_mode,
                one_file_system: options.one_file_system,
            };
            let ghost mid = entries@;
            let nested = collect_relative_entries(
                fs,
                root,
                child_root.as_str(),
                child_relative,
                child_options,
                entries,
                depth - 1,
            );
            proof {
                lemma_walk_changes_nested(start, mid, entries@, rr, kv);
            }
            nested?;
        }
    }
    Ok(())
}

/// Whether some rule of `rules` merges per-directory filter files.
pub open spec fn has_dir_merge(rules: Seq<crate::filter::rule::RuleModel>) -> bool {
    exists|k: int| 0 <= k < rules.len() && #[trigger] rules[k].action == RuleAction::DirMerge
}

fn load_dir_merge_rules<F: PortableFileSystem>(
    fs: &F,
    current: &str,
    inherited: Option<&RuleSet>,
) -> (r: Result<Option<RuleSet>, FsError>)
    ensures
        inherited is None ==> r is Ok && r->Ok_0 is None,
        inherited matches Some(s) ==> (!has_dir_merge(s@) ==> r is Ok && r->Ok_0 is None),
{
    let set = match inherited {
        Some(r) => r,
        None => {
            return Ok(None);
        },
    };

    let mut merged = set.clone();
    let mut loaded_any = false;
    let rules = set.rules();
    let mut i: usize = 0;
    while i < rules.len()
        invariant
            i <= rules@.len(),
            rules@.map_values(|x: Rule| x@) == set@,
            inherited == Some(set),
            loaded_any ==> has_dir_merge(set@),
        decreases rules.len() - i,
    {
        let rule = &rules[i];
        i = i + 1;
        if !matches!(rule.action(), RuleAction::DirMerge) {
            continue;
        }
        assert(set@[i - 1].action == RuleAction::DirMerge) by {
            assert(rules@.map_values(|x: Rule| x@)[i - 1] == rules@[i - 1]@);
        }
        assert(has_dir_merge(set@));
        let raw = match rule.pattern_text() {
            Some(t) => t,
            None => {
                continue;
            },
        };
        let merge_file = join_paths(current, raw);
        let bytes = match fs.read_file(merge_file.as_str()) {
            Ok(bytes) => bytes,
            Err(FsError::NotFound(_)) => {
                continue;
            },
            Err(err) => {
                return Err(err);
            },
        };
        if bytes.len() == usize::MAX {
            return Err(FsError::Unsupported("invalid dir-merge filter file"));
        }
        let parsed = match Rule::parse_filter_file(bytes.as_slice(), false, RuleAction::Exclude) {
            Ok(p) => p,
            Err(_) => {
                return Err(FsError::Unsupported("invalid dir-merge filter file"));
            },
        };
        let mut parsed = parsed;
        while parsed.len() > 0
            decreases parsed.len(),
        {
            let rule = parsed.remove(0);
            merged.push(rule);
        }
        loaded_any = true;
    }

    if loaded_any {
        Ok(Some(merged))
    } else {
        Ok(None)
    }
}

/// Whether the walk keeps `entry` as it is under `symlink_mode`: it is no symlink, or the mode
/// keeps links (safe ones only, for `SafeOnly`), or it copies only unsafe links and this one is
/// safe.
pub open spec fn symlink_kept_as_is(entry: WalkEntry, symlink_mode: SymlinkMode) -> bool {
    let unsafe_target = match entry.metadata.symlink_target {
        Some(t) => unsafe_symlink_target(t@),
        None => false,
    };
    entry.metadata.file_type != FileType::Symlink || match symlink_mode {
        SymlinkMode::Preserve | SymlinkMode::Munge => true,
        SymlinkMode::SafeOnly | SymlinkMode::CopyUnsafe => !unsafe_target,
        _ => false,
    }
}

/// Whether the walk leaves the symlink `entry` out under `symlink_mode`: links are skipped, or
/// only safe ones are kept and this one is unsafe.
pub open spec fn symlink_skipped(entry: WalkEntry, symlink_mode: SymlinkMode) -> bool {
    entry.metadata.file_type == FileType::Symlink && match symlink_mode {
        SymlinkMode::Skip => true,
        SymlinkMode::SafeOnly => match entry.metadata.symlink_target {
            Some(t) => unsafe_symlink_target(t@),
            None => false,
        },
        _ => false,
    }
}

fn apply_symlink_mode<F: PortableFileSystem>(
    fs: &F,
    entry: WalkEntry,
    symlink_mode: SymlinkMode,
) -> (r: Result<Option<WalkEntry>, FsError>)
    ensures
        symlink_kept_as_is(entry, symlink_mode) ==> r == Ok::<Option<WalkEntry>, FsError>(
            Some(entry),
        ),
        symlink_skipped(entry, symlink_mode) ==> r == Ok::<Option<WalkEntry>, FsError>(None),
        r matches Ok(Some(e)) ==> e.path == entry.path && e.metadata.symlink_target
            == entry.metadata.symlink_target,
        r matches Ok(Some(e)) ==> (e != entry ==> entry.metadata.file_type == FileType::Symlink
            && e.metadata.file_type != FileType::Symlink && (symlink_mode
            != SymlinkMode::CopyDirLinks || e.metadata.file_type == FileType::Directory)),
{
    if !matches!(entry.metadata.file_type, FileType::Symlink) {
        return Ok(Some(entry));
    }
    let mut entry = entry;
    let target = entry.metadata.symlink_target.clone();
    let unsafe_target = match &target {
        Some(t) => is_unsafe_symlink_target(t.as_str()),
        None => false,
    };
    match symlink_mode {
        SymlinkMode::Skip => Ok(None),
        SymlinkMode::Preserve | SymlinkMode::Munge => Ok(Some(entry)),
        SymlinkMode::SafeOnly => if unsafe_target {
            Ok(None)
        } else {
            Ok(Some(entry))
        },
        SymlinkMode::CopyAll => {
            let mut followed = followed_file_metadata_or_other(fs, entry.path.as_str())?;
            followed.symlink_target = target;
            entry.metadata = followed;
            Ok(Some(entry))
        },
        SymlinkMode::CopyDirLinks => {
            let mut followed = followed_file_metadata_or_other(fs, entry.path.as_str())?;
            if matches!(followed.file_type, FileType::Directory) {
                followed.symlink_target = target;
                entry.metadata = followed;
            }
            Ok(Some(entry))
        },
        SymlinkMode::CopyUnsafe => {
            if unsafe_target {
                let mut followed = followed_file_metadata_or_other(fs, entry.path.as_str())?;
                followed.symlink_target = target;
                entry.metadata = followed;
            }
            Ok(Some(entry))
        },
    }
}

fn followed_file_metadata_or_other<F: PortableFileSystem>(fs: &F, path: &str) -> (r: Result<
    PortableMetadata,
    FsError,
>)
    ensures
        r matches Ok(m) ==> (m.file_type == FileType::File || m.file_type == FileType::Directory
            || m.file_type == FileType::Other) && m.symlink_target is None,
{
    let mut metadata = fs.metadata_follow(path)?;
    if !matches!(metadata.file_type, FileType::File | FileType::Directory) {
        metadata.file_type = FileType::Other;
    }
    metadata.symlink_target = None;
    Ok(metadata)
}

/// Where the walk goes on below a followed directory link: the link's target taken from the
/// link, when the symlink mode follows such links.
pub fn followed_directory_walk_path(entry: &WalkEntry, symlink_mode: SymlinkMode) -> (r: Option<String>)
    ensures
        match (entry.metadata.file_type, entry.metadata.symlink_target) {
            (FileType::Directory, Some(t)) => {
                let follow = match symlink_mode {
                    SymlinkMode::CopyAll | SymlinkMode::CopyDirLinks => true,
                    SymlinkMode::CopyUnsafe => crate::fs::sync_paths::unsafe_symlink_target(t@),
                    _ => false,
                };
                if follow {
                    r matches Some(p) && p@ == crate::fs::sync_paths::symlink_destination(
                        entry.path@,
                        t@,
                    )
                } else {
                    r is None
                }
            },
            _ => r is None,
        },
{
    if !matches!(entry.metadata.file_type, FileType::Directory) {
        return None;
    }
    let target = match &entry.metadata.symlink_target {
        Some(t) => t,
        None => {
            return None;
        },
    };
    let should_follow = match symlink_mode {
        SymlinkMode::CopyAll | SymlinkMode::CopyDirLinks => true,
        SymlinkMode::CopyUnsafe => is_unsafe_symlink_target(target.as_str()),
        _ => false,
    };
    if should_follow {
        Some(resolve_symlink_target(entry.path.as_str(), target.as_str()))
    } else {
        None
    }
}

/// How filter rules see the `k`-th name along a path: a leading name as a directory, the last
/// as the entry's own kind.
pub open spec fn name_kind(names: Seq<Seq<char>>, k: int, file_type: FileType) -> EntryKind {
    if k + 1 < names.len() {
        EntryKind::Directory
    } else {
        crate::fs::sync::entry_kind_of(file_type)
    }
}

/// What the rules decide for `side` at the path made of the first `k + 1` names.
pub open spec fn prefix_action(
    rules: Seq<crate::filter::rule::RuleModel>,
    names: Seq<Seq<char>>,
    k: int,
    file_type: FileType,
    side: RuleSide,
) -> RuleAction {
    crate::filter::matcher::spec_decide(
        rules,
        path_text(names.take(k + 1)),
        name_kind(names, k, file_type),
        Some(side),
    ).0
}

/// Whether the `k`-th name along a path stops the walk down it: it is `..`, or its path is too
/// long to match, or `stops` holds of what the rules decide there.
pub open spec fn stops_at(
    rules: Seq<crate::filter::rule::RuleModel>,
    names: Seq<Seq<char>>,
    k: int,
    file_type: FileType,
    side: RuleSide,
    delete_excluded: bool,
) -> bool {
    names[k] == seq!['.', '.'] || path_text(names.take(k + 1)).len() >= usize::MAX || {
        let action = prefix_action(rules, names, k, file_type, side);
        match side {
            RuleSide::Sender => action == RuleAction::Exclude || action == RuleAction::Hide,
            RuleSide::Receiver => action == RuleAction::Protect || (action == RuleAction::Exclude
                && !delete_excluded),
        }
    }
}

/// A path that starts with `.` as a piece of its own, as in `./a`.
pub open spec fn starts_with_dot_piece(p: Seq<char>) -> bool {
    crate::fs::paths::raw_pieces(p)[0] == seq!['.']
}

/// Whether the sender leaves `relative` out (for `Sender`), or a receiver delete of it is
/// protected (for `Receiver`): it is rooted or starts with `.`, or some name along it stops
/// the walk.
pub open spec fn path_stopped(
    rules: Seq<crate::filter::rule::RuleModel>,
    relative: Seq<char>,
    file_type: FileType,
    side: RuleSide,
    delete_excluded: bool,
) -> bool {
    rooted_or_prefixed(relative) || starts_with_dot_piece(relative) || exists|k: int|
        0 <= k < path_names(relative).len() && #[trigger] stops_at(
            rules,
            path_names(relative),
            k,
            file_type,
            side,
            delete_excluded,
        )
}

fn walk_stops(
    rules: &RuleSet,
    relative: &str,
    file_type: FileType,
    side: RuleSide,
    delete_excluded: bool,
) -> (r: bool)
    ensures
        r == path_stopped(rules@, relative@, file_type, side, delete_excluded),
{
    let chars = chars_of(relative);
    if crate::fs::paths::is_rooted_or_prefixed(chars.as_slice()) {
        return true;
    }
    let pieces = crate::fs::paths::path_pieces(chars.as_slice());
    proof {
        crate::filter::records::lemma_split_on_nonempty(crate::remote::claims::slashed(chars@), '/');
    }
    assert(pieces@.map_values(|v: Vec<char>| v@)[0] == pieces@[0]@);
    if crate::fs::paths::is_dot(pieces[0].as_slice()) {
        return true;
    }
    let names = path_names_of(relative, true);
    let ghost nv = path_names(relative@);
    let n = names.len();
    let mut current: Vec<String> = Vec::new();
    let mut k: usize = 0;
    while k < n
        invariant
            k <= n,
            n == names@.len(),
            crate::fs::paths::components_view(names@) == nv,
            nv == path_names(relative@),
            crate::fs::paths::components_view(current@) == nv.take(k as int),
            forall|j: int|
                0 <= j < k ==> !#[trigger] stops_at(rules@, nv, j, file_type, side, delete_excluded),
        decreases n - k,
    {
        let piece = chars_of(names[k].as_str());
        assert(nv[k as int] == piece@);
        if crate::fs::paths::is_dot_dot(piece.as_slice()) {
            assert(stops_at(rules@, nv, k as int, file_type, side, delete_excluded));
            return true;
        }
        let ghost before = crate::fs::paths::components_view(current@);
        current.push(names[k].clone());
        assert(crate::fs::paths::components_view(current@) =~= before.push(nv[k as int]));
        assert(nv.take(k + 1) =~= nv.take(k as int).push(nv[k as int]));
        let kind = if k + 1 < n {
            EntryKind::Directory
        } else {
            entry_kind(file_type)
        };
        let path = join_path(current.as_slice());
        if path.unicode_len() == usize::MAX {
            assert(stops_at(rules@, nv, k as int, file_type, side, delete_excluded));
            return true;
        }
        let action = rules.decide_for_side(path.as_str(), kind, side).action();
        let stop = match side {
            RuleSide::Sender => matches!(action, RuleAction::Exclude | RuleAction::Hide),
            RuleSide::Receiver => matches!(action, RuleAction::Protect) || (matches!(
                action,
                RuleAction::Exclude
            ) && !delete_excluded),
        };
        if stop {
            assert(stops_at(rules@, nv, k as int, file_type, side, delete_excluded));
            return true;
        }
        assert(!stops_at(rules@, nv, k as int, file_type, side, delete_excluded));
        k = k + 1;
    }
    false
}

/// Whether the sender leaves `relative` out: some name along it is excluded or hidden for the
/// sender (a leading directory as a directory, the path itself as its own kind).
pub fn sender_path_is_filtered(rules: &RuleSet, relative: &str, file_type: FileType) -> (r: bool)
    ensures
        r == path_stopped(rules@, relative@, file_type, RuleSide::Sender, false),
{
    walk_stops(rules, relative, file_type, RuleSide::Sender, false)
}

/// Whether a receiver delete of `relative` is protected: some name along it is protected, or
/// excluded while excluded entries are not deleted.
pub fn delete_is_protected(
    rules: &RuleSet,
    relative: &str,
    file_type: FileType,
    delete_excluded: bool,
) -> (r: bool)
    ensures
        r == path_stopped(rules@, relative@, file_type, RuleSide::Receiver, delete_excluded),
{
    walk_stops(rules, relative, file_type, RuleSide::Receiver, delete_excluded)
}

/// Whether `a` keeps `path` from being deleted.
pub open spec fn is_protect_action(a: SyncAction, path: Seq<char>) -> bool {
    match a {
        SyncAction::ProtectDelete(p) => p@ == path,
        _ => false,
    }
}

/// Whether `a` backs up `path`.
pub open spec fn is_backup_of(a: SyncAction, path: Seq<char>) -> bool {
    match a {
        SyncAction::BackupFile { from, to } => from@ == path,
        _ => false,
    }
}

/// Whether the receiver entry `x` may be deleted: a files-from list, when there is one, selects
/// it, and the filter rules do not protect it.
pub open spec fn delete_allowed(o: SyncOptions, x: (Seq<Seq<char>>, WalkEntry)) -> bool {
    &&& match o.files_from {
        Some(ff) => crate::fs::sync_paths::files_from_selects(path_text(x.0), ff@.map_values(|s: String| s@)),
        None => true,
    }
    &&& !path_stopped(
        o.filter_rules@,
        path_text(x.0),
        x.1.metadata.file_type,
        RuleSide::Receiver,
        o.delete_excluded,
    )
}

/// Whether `a` is what the delete phase may report for the receiver entry `x`: keeping it, or,
/// when it may be deleted, backing it up or deleting it.
pub open spec fn delete_action_for(a: SyncAction, o: SyncOptions, x: (Seq<Seq<char>>, WalkEntry)) -> bool {
    ||| is_protect_action(a, x.1.path@)
    ||| delete_allowed(o, x) && (is_backup_of(a, x.1.path@) || is_delete_action(
        a,
        x.1.path@,
        x.1.metadata.file_type == FileType::Directory,
    ))
}

/// Whether every action that `after` adds to `before` is one the delete phase may report for a
/// receiver entry of `dest` that the sender (`source`) does not have.
pub open spec fn only_delete_actions(
    before: Seq<SyncAction>,
    after: Seq<SyncAction>,
    source: Seq<(Seq<Seq<char>>, WalkEntry)>,
    dest: Seq<(Seq<Seq<char>>, WalkEntry)>,
    o: SyncOptions,
) -> bool {
    &&& before.len() <= after.len()
    &&& after.take(before.len() as int) == before
    &&& forall|k: int|
        before.len() <= k < after.len() ==> delete_phase_action(#[trigger] after[k], source, dest, o)
}

/// Whether `a` is what the delete phase may report for some receiver entry of `dest` that the
/// sender (`source`) does not have.
pub open spec fn delete_phase_action(
    a: SyncAction,
    source: Seq<(Seq<Seq<char>>, WalkEntry)>,
    dest: Seq<(Seq<Seq<char>>, WalkEntry)>,
    o: SyncOptions,
) -> bool {
    exists|j: int|
        crate::fs::sync_order::extra_entry(source, dest, j) && #[trigger] delete_action_for(
            a,
            o,
            dest[j],
        )
}

/// Whether the delete phase reported what it owes the receiver entry `x`: its deletion when it
/// may be deleted, else that it is kept.
pub open spec fn delete_reported(
    before: Seq<SyncAction>,
    after: Seq<SyncAction>,
    o: SyncOptions,
    x: (Seq<Seq<char>>, WalkEntry),
) -> bool {
    exists|k: int|
        before.len() <= k < after.len() && if delete_allowed(o, x) {
            is_delete_action(#[trigger] after[k], x.1.path@, x.1.metadata.file_type == FileType::Directory)
        } else {
            is_protect_action(after[k], x.1.path@)
        }
}

fn apply_receiver_deletes<F: PortableFileSystem>(
    fs: &mut F,
    dest_root: &str,
    source_entries: &EntryMap,
    dest_entries: &EntryMap,
    options: &SyncOptions,
    report: &mut SyncReport,
) -> (r: Result<(), FsError>)
    ensures
        appends(old(report)@, final(report)@),
        options.dry_run ==> *final(fs) == *old(fs),
        crate::fs::sync::effective_delete_mode(options.delete_mode, options.delete)
            == DeleteMode::Disabled ==> r is Ok && final(report)@ == old(report)@ && *final(fs)
            == *old(fs),
        only_delete_actions(old(report)@, final(report)@, source_entries@, dest_entries@, *options),
        options.dry_run ==> (r is Ok || r matches Err(FsError::MaxDeleteExceeded { .. })),
        options.dry_run && r is Ok && crate::fs::sync::effective_delete_mode(
            options.delete_mode,
            options.delete,
        ) != DeleteMode::Disabled ==> forall|j: int|
            crate::fs::sync_order::extra_entry(source_entries@, dest_entries@, j)
                && old(fs).metadata_of(dest_entries@[j].1.path@) is Some ==> delete_reported(
                old(report)@,
                final(report)@,
                *options,
                #[trigger] dest_entries@[j],
            ),
{
    let ghost start = report@;
    let ghost s_view = source_entries@;
    let ghost d_view = dest_entries@;
    proof {
        assert(report@.take(start.len() as int) =~= start);
    }
    if matches!(options.effective_delete_mode(), DeleteMode::Disabled) {
        return Ok(());
    }
    let order = crate::fs::sync_order::delete_order(source_entries, dest_entries);
    let mut deleted: usize = 0;
    let mut i: usize = 0;
    while i < order.len()
        invariant
            i <= order@.len(),
            deleted <= i,
            options.dry_run ==> *fs == *old(fs),
            crate::fs::sync::effective_delete_mode(options.delete_mode, options.delete)
                != DeleteMode::Disabled,
            start == old(report)@,
            s_view == source_entries@,
            d_view == dest_entries@,
            forall|k: int| 0 <= k < order@.len() ==> crate::fs::sync_order::from_dest(
                s_view,
                d_view,
                #[trigger] crate::fs::sync_order::item_view(order@[k]),
            ),
            only_delete_actions(start, report@, s_view, d_view, *options),
            options.dry_run ==> forall|q: int|
                0 <= q < i && old(fs).metadata_of(
                    crate::fs::sync_order::item_view(order@[q]).1.path@,
                ) is Some ==> delete_reported(
                    start,
                    report@,
                    *options,
                    #[trigger] crate::fs::sync_order::item_view(order@[q]),
                ),
        decreases order.len() - i,
    {
        let ghost x = crate::fs::sync_order::item_view(order@[i as int]);
        let ghost jx = choose|j: int| crate::fs::sync_order::extra_entry(s_view, d_view, j) && x == d_view[j];
        let ghost before = report@;
        let (relative, entry) = (join_path(order[i].0.as_slice()), &order[i].1);
        assert(relative@ == path_text(x.0) && *entry == x.1);
        let ghost i0 = i as int;
        i = i + 1;
        if !fs.path_exists(entry.path.as_str()) {
            continue;
        }
        let mut keep = false;
        if let Some(files_from) = &options.files_from {
            if !files_from_matches(relative.as_str(), files_from.as_slice()) {
                keep = true;
            }
        }
        if !keep && delete_is_protected(
            &options.filter_rules,
            relative.as_str(),
            entry.metadata.file_type,
            options.delete_excluded,
        ) {
            keep = true;
        }
        assert(keep == !delete_allowed(*options, x));
        if keep {
            report.push(SyncAction::ProtectDelete(entry.path.clone()));
            proof {
                let a = report@[before.len() as int];
                assert(is_protect_action(a, x.1.path@));
                assert(delete_action_for(a, *options, d_view[jx]));
                assert(report@.take(before.len() as int) =~= before);
                assert(report@.take(start.len() as int) =~= start) by {
                    assert(before.take(start.len() as int) == start);
                }
                assert forall|q: int|
                    0 <= q < i && old(fs).metadata_of(
                        crate::fs::sync_order::item_view(order@[q]).1.path@,
                    ) is Some && options.dry_run implies delete_reported(
                    start,
                    report@,
                    *options,
                    #[trigger] crate::fs::sync_order::item_view(order@[q]),
                ) by {
                    if q < i0 {
                        let k = choose|k: int|
                            start.len() <= k < before.len() && if delete_allowed(
                                *options,
                                crate::fs::sync_order::item_view(order@[q]),
                            ) {
                                is_delete_action(
                                    #[trigger] before[k],
                                    crate::fs::sync_order::item_view(order@[q]).1.path@,
                                    crate::fs::sync_order::item_view(order@[q]).1.metadata.file_type
                                        == FileType::Directory,
                                )
                            } else {
                                is_protect_action(
                                    before[k],
                                    crate::fs::sync_order::item_view(order@[q]).1.path@,
                                )
                            };
                        assert(report@[k] == before[k]);
                    } else {
                        assert(report@[before.len() as int] == a);
                    }
                }
                assert forall|k: int| start.len() <= k < report@.len() implies delete_phase_action(
                    #[trigger] report@[k],
                    s_view,
                    d_view,
                    *options,
                ) by {
                    if k < before.len() {
                        assert(report@[k] == before[k]);
                    } else {
                        assert(report@[k] == a);
                        assert(delete_action_for(report@[k], *options, d_view[jx]));
                    }
                }
            }
            continue;
        }
        if let Some(limit) = options.max_delete {
            if deleted >= limit {
                return Err(FsError::MaxDeleteExceeded { limit });
            }
        }
        let res = delete_receiver_entry(
            fs,
            dest_root,
            entry.path.as_str(),
            relative.as_str(),
            entry.metadata.file_type,
            options,
            report,
        );
        proof {
            assert(report@.take(before.len() as int) =~= before);
            assert(report@.take(start.len() as int) =~= start) by {
                assert(before.take(start.len() as int) == start);
            }
            assert forall|k: int| start.len() <= k < report@.len() implies delete_phase_action(
                #[trigger] report@[k],
                s_view,
                d_view,
                *options,
            ) by {
                if k < before.len() {
                    assert(report@[k] == before[k]);
                } else {
                    assert(delete_action_for(report@[k], *options, d_view[jx]));
                }
            }
            if options.dry_run {
                assert(res is Ok);
                let last = report@.len() - 1;
                assert(is_delete_action(report@[last], x.1.path@, x.1.metadata.file_type == FileType::Directory));
                assert forall|q: int|
                    0 <= q < i && old(fs).metadata_of(
                        crate::fs::sync_order::item_view(order@[q]).1.path@,
                    ) is Some implies delete_reported(
                    start,
                    report@,
                    *options,
                    #[trigger] crate::fs::sync_order::item_view(order@[q]),
                ) by {
                    if q < i0 {
                        let k = choose|k: int|
                            start.len() <= k < before.len() && if delete_allowed(
                                *options,
                                crate::fs::sync_order::item_view(order@[q]),
                            ) {
                                is_delete_action(
                                    #[trigger] before[k],
                                    crate::fs::sync_order::item_view(order@[q]).1.path@,
                                    crate::fs::sync_order::item_view(order@[q]).1.metadata.file_type
                                        == FileType::Directory,
                                )
                            } else {
                                is_protect_action(
                                    before[k],
                                    crate::fs::sync_order::item_view(order@[q]).1.path@,
                                )
                            };
                        assert(report@[k] == before[k]);
                    } else {
                        assert(report@[last] == report@[last]);
                    }
                }
            }
        }
        match res {
            Ok(()) => {},
            Err(e) => {
                return Err(e);
            },
        }
        deleted = deleted + 1;
    }
    proof {
        if options.dry_run {
            assert forall|j: int|
                crate::fs::sync_order::extra_entry(source_entries@, dest_entries@, j)
                    && old(fs).metadata_of(dest_entries@[j].1.path@) is Some implies delete_reported(
                start,
                report@,
                *options,
                #[trigger] dest_entries@[j],
            ) by {
                let k = choose|k: int| 0 <= k < order@.len() && #[trigger] crate::fs::sync_order::item_view(order@[k]) == d_view[j];
            }
        }
    }
    Ok(())
}

/// Whether `a` deletes `path`: the directory under it when `dir` holds, else the file.
pub open spec fn is_delete_action(a: SyncAction, path: Seq<char>, dir: bool) -> bool {
    match a {
        SyncAction::DeleteDir(p) => dir && p@ == path,
        SyncAction::DeleteFile(p) => !dir && p@ == path,
        _ => false,
    }
}

fn delete_receiver_entry<F: PortableFileSystem>(
    fs: &mut F,
    dest_root: &str,
    path: &str,
    relative: &str,
    file_type: FileType,
    options: &SyncOptions,
    report: &mut SyncReport,
) -> (r: Result<(), FsError>)
    ensures
        appends(old(report)@, final(report)@),
        options.dry_run ==> *final(fs) == *old(fs),
        options.dry_run ==> r is Ok,
        old(report)@.len() <= final(report)@.len(),
        final(report)@.take(old(report)@.len() as int) == old(report)@,
        forall|k: int|
            old(report)@.len() <= k < final(report)@.len() ==> is_backup_of(
                #[trigger] final(report)@[k],
                path@,
            ) || is_delete_action(final(report)@[k], path@, file_type == FileType::Directory),
        r is Ok && file_type == FileType::Directory ==> final(report)@ == old(report)@.push(
            final(report)@.last(),
        ) && is_delete_action(final(report)@.last(), path@, true),
        r is Ok && file_type != FileType::Directory ==> final(report)@.len() > 0
            && is_delete_action(final(report)@.last(), path@, false) && ({
            let mid = final(report)@.drop_last();
            mid == old(report)@ || (options.backup && backup_reported(
                old(report)@,
                mid,
                path@,
                crate::fs::sync_plan::backup_path(
                    dest_root@,
                    path@,
                    relative@,
                    match options.backup_dir {
                        Some(d) => Some(d@),
                        None => None,
                    },
                    options.backup_suffix@,
                ),
            ))
        }),
{
    match file_type {
        FileType::Directory => {
            report.push(SyncAction::DeleteDir(path.to_owned()));
            if !options.dry_run {
                fs.remove_dir_all(path)?;
            }
        },
        _ => {
            backup_receiver_file(fs, dest_root, path, relative, options, report)?;
            let ghost mid = report@;
            report.push(SyncAction::DeleteFile(path.to_owned()));
            assert(report@.drop_last() =~= mid);
            if !options.dry_run {
                fs.remove_file(path)?;
            }
        },
    }
    Ok(())
}

fn delete_missing_arg<F: PortableFileSystem>(
    fs: &mut F,
    source: &str,
    dest: &str,
    source_count: usize,
    options: &SyncOptions,
    report: &mut SyncReport,
) -> (r: Result<(), FsError>)
    ensures
        options.dry_run ==> *final(fs) == *old(fs),
{
    let dest_is_dir = match fs.metadata(dest) {
        Ok(meta) => matches!(meta.file_type, FileType::Directory),
        Err(_) => false,
    };
    let target = if source_count > 1 || dest_is_dir {
        batch_target_path(source, dest)?
    } else {
        dest.to_owned()
    };
    let metadata = match fs.metadata(target.as_str()) {
        Ok(m) => m,
        Err(_) => {
            return Ok(());
        },
    };
    let relative = match file_name(target.as_str()) {
        Some(name) => name,
        None => destination_preflight_path(target.as_str()),
    };
    if matches!(metadata.file_type, FileType::Directory) && !options.force_delete && matches!(
        options.effective_delete_mode(),
        DeleteMode::Disabled
    ) && fs.list(target.as_str())?.len() > 0 {
        report.push(SyncAction::ProtectDelete(target));
        return Ok(());
    }
    delete_receiver_entry(
        fs,
        dest,
        target.as_str(),
        relative.as_str(),
        metadata.file_type,
        options,
        report,
    )
}

/// Whether `after` is `before` with one more action: the backup of `target` to `to_path`.
pub open spec fn backup_reported(
    before: Seq<SyncAction>,
    after: Seq<SyncAction>,
    target: Seq<char>,
    to_path: Seq<char>,
) -> bool {
    &&& after == before.push(after.last())
    &&& after.last() matches SyncAction::BackupFile { from, to }
    &&& from@ == target
    &&& to@ == to_path
}

fn backup_receiver_file<F: PortableFileSystem>(
    fs: &mut F,
    dest_root: &str,
    target: &str,
    relative: &str,
    options: &SyncOptions,
    report: &mut SyncReport,
) -> (r: Result<(), FsError>)
    ensures
        adds_no_deletes(old(report)@, final(report)@),
        appends(old(report)@, final(report)@),
        !options.backup ==> (r is Ok && final(report)@ == old(report)@),
        options.dry_run ==> *final(fs) == *old(fs),
        options.dry_run ==> r is Ok,
        final(report)@ == old(report)@ || (options.backup && backup_reported(
            old(report)@,
            final(report)@,
            target@,
            crate::fs::sync_plan::backup_path(
                dest_root@,
                target@,
                relative@,
                match options.backup_dir {
                    Some(d) => Some(d@),
                    None => None,
                },
                options.backup_suffix@,
            ),
        )),
{
    if !options.backup {
        return Ok(());
    }
    let metadata = match fs.metadata(target) {
        Ok(m) => m,
        Err(_) => {
            return Ok(());
        },
    };
    if !matches!(metadata.file_type, FileType::File) {
        return Ok(());
    }

    let backup_path = backup_path_for(dest_root, target, relative, options);
    report.push(SyncAction::BackupFile { from: target.to_owned(), to: backup_path.clone() });
    if !options.dry_run {
        fs.copy_file_with_options(target, backup_path.as_str(), &FileWriteOptions::default())?;
    }
    Ok(())
}

/// Under quick check, a source file whose receiver copy has its size but a modification time
/// outside the window is owed a plain copy, so a dry run of `sync_walked` reports writing it.
pub proof fn lemma_changed_mtime_is_copied<F: PortableFileSystem>(
    fs: F,
    o: SyncOptions,
    dest: Seq<char>,
    x: (Seq<Seq<char>>, WalkEntry),
    t: PortableMetadata,
)
    requires
        x.1.metadata.file_type == FileType::File,
        !o.append_verify,
        !(o.preserve_hard_links && x.1.metadata.hardlink_id is Some),
        fs.metadata_of(target_of(dest, x.0)) == Some(t),
        o.update_mode == crate::fs::sync::UpdateMode::QuickCheck,
        !(o.max_size matches Some(max) && x.1.metadata.len > max),
        !(o.min_size matches Some(min) && x.1.metadata.len < min),
        t.file_type == FileType::File,
        !o.ignore_existing,
        !o.skip_newer_receiver,
        x.1.metadata.len == t.len,
        x.1.metadata.modified matches Some(a) && t.modified matches Some(b) && if o.modify_window
            < 0 {
            a != b
        } else {
            crate::fs::sync_plan::gap_seconds(a, b) > o.modify_window
        },
    ensures
        copy_owed(fs, o, dest, x),
{
    crate::fs::sync_plan::lemma_quick_check_transfers_changed_mtime(o, x.1.metadata, t);
}

} // verus!
