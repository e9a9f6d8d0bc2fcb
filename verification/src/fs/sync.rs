use vstd::prelude::*;
use vstd::string::StringExecFns;

use crate::filter::matcher::{EntryKind, RuleSet};
use crate::fs::metadata::FileType;
use crate::fs::walk::{FileWriteMode, FsError, WalkEntry};
use crate::text::join3;

verus! {

/// How a sync decides whether a file that exists on both sides needs a transfer.
#[derive(Debug, Clone, Copy, PartialEq, Eq, Structural)]
pub enum UpdateMode {
    QuickCheck,
    Checksum,
    SizeOnly,
    IgnoreTimes,
}

/// When a sync deletes receiver entries that the sender does not have.
#[derive(Debug, Clone, Copy, PartialEq, Eq, Structural)]
pub enum DeleteMode {
    Disabled,
    Before,
    During,
    Delay,
    After,
}

impl Default for DeleteMode {
    fn default() -> (r: Self)
        ensures
            r == DeleteMode::Disabled,
    {
        DeleteMode::Disabled
    }
}

/// What a sync does with symbolic links on the sender.
#[derive(Debug, Clone, Copy, PartialEq, Eq, Structural)]
pub enum SymlinkMode {
    Skip,
    Preserve,
    CopyAll,
    CopyDirLinks,
    CopyUnsafe,
    SafeOnly,
    Munge,
}

/// One step that a sync took, or would take in a dry run.
#[derive(Debug, Clone, PartialEq, Eq)]
pub enum SyncAction {
    CreateDir(String),
    WriteFile { path: String, len: usize },
    WriteFileInPlace { path: String, len: usize },
    AppendFile { path: String, len: usize },
    BackupFile { from: String, to: String },
    PreserveMtime(String),
    DeleteFile(String),
    DeleteDir(String),
    ProtectDelete(String),
    CreateSymlink { path: String, target: String },
    CreateHardLink { from: String, to: String },
    Warn { path: String, message: String },
}

/// The options of a local sync.
#[derive(Debug)]
pub struct SyncOptions {
    pub recursive: bool,
    pub delete: bool,
    pub delete_mode: DeleteMode,
    pub preserve_mtime: bool,
    pub omit_dir_times: bool,
    pub dry_run: bool,
    pub filter_rules: RuleSet,
    pub update_mode: UpdateMode,
    pub files_from: Option<Vec<String>>,
    pub file_write_mode: FileWriteMode,
    pub keep_partial: bool,
    pub partial_dir: Option<String>,
    pub temp_dir: Option<String>,
    pub delay_updates: bool,
    pub fsync: bool,
    pub append_verify: bool,
    pub symlink_mode: SymlinkMode,
    pub transfer_dirs: bool,
    pub mkpath: bool,
    pub relative_paths: bool,
    pub implied_dirs: bool,
    pub one_file_system: bool,
    pub skip_newer_receiver: bool,
    pub existing_only: bool,
    pub ignore_existing: bool,
    pub max_size: Option<u64>,
    pub min_size: Option<u64>,
    pub modify_window: i64,
    pub ignore_missing_args: bool,
    pub delete_missing_args: bool,
    pub delete_excluded: bool,
    pub ignore_errors: bool,
    pub force_delete: bool,
    pub max_delete: Option<usize>,
    pub backup: bool,
    pub backup_dir: Option<String>,
    pub backup_suffix: String,
    pub preserve_hard_links: bool,
    pub keep_dirlinks: bool,
    pub preserve_devices: bool,
    pub preserve_specials: bool,
    pub fail_on_metadata_loss: bool,
}

impl Default for SyncOptions {
    /// A recursive dry run with quick checks, no deletes, skipped symlinks and `~` backups.
    fn default() -> (r: Self)
        ensures
            r.recursive && !r.delete && r.delete_mode == DeleteMode::Disabled && r.preserve_mtime
                && !r.omit_dir_times && r.dry_run,
            r.filter_rules@.len() == 0,
            r.update_mode == UpdateMode::QuickCheck,
            r.files_from is None,
            r.file_write_mode == FileWriteMode::Atomic,
            !r.keep_partial && r.partial_dir is None && r.temp_dir is None,
            !r.delay_updates && !r.fsync && !r.append_verify,
            r.symlink_mode == SymlinkMode::Skip,
            !r.transfer_dirs && !r.mkpath && !r.relative_paths && r.implied_dirs,
            !r.one_file_system && !r.skip_newer_receiver && !r.existing_only && !r.ignore_existing,
            r.max_size is None && r.min_size is None && r.modify_window == 0,
            !r.ignore_missing_args && !r.delete_missing_args && !r.delete_excluded,
            !r.ignore_errors && !r.force_delete && r.max_delete is None,
            !r.backup && r.backup_dir is None && r.backup_suffix@ == "~"@,
            !r.preserve_hard_links && !r.keep_dirlinks && !r.preserve_devices
                && !r.preserve_specials && !r.fail_on_metadata_loss,
    {
        SyncOptions {
            recursive: true,
            delete: false,
            delete_mode: DeleteMode::Disabled,
            preserve_mtime: true,
            omit_dir_times: false,
            dry_run: true,
            filter_rules: RuleSet::empty(),
            update_mode: UpdateMode::QuickCheck,
            files_from: None,
            file_write_mode: FileWriteMode::Atomic,
            keep_partial: false,
            partial_dir: None,
            temp_dir: None,
            delay_updates: false,
            fsync: false,
            append_verify: false,
            symlink_mode: SymlinkMode::Skip,
            transfer_dirs: false,
            mkpath: false,
            relative_paths: false,
            implied_dirs: true,
            one_file_system: false,
            skip_newer_receiver: false,
            existing_only: false,
            ignore_existing: false,
            max_size: None,
            min_size: None,
            modify_window: 0,
            ignore_missing_args: false,
            delete_missing_args: false,
            delete_excluded: false,
            ignore_errors: false,
            force_delete: false,
            max_delete: None,
            backup: false,
            backup_dir: None,
            backup_suffix: String::from_str("~"),
            preserve_hard_links: false,
            keep_dirlinks: false,
            preserve_devices: false,
            preserve_specials: false,
            fail_on_metadata_loss: false,
        }
    }
}

impl Clone for SyncOptions {
    fn clone(&self) -> (r: Self)
        ensures
            r.recursive == self.recursive && r.delete == self.delete && r.delete_mode
                == self.delete_mode && r.preserve_mtime == self.preserve_mtime && r.omit_dir_times
                == self.omit_dir_times && r.dry_run == self.dry_run,
            r.update_mode == self.update_mode && strings_view(r.files_from) == strings_view(
                self.files_from,
            )
                && r.file_write_mode == self.file_write_mode && r.keep_partial == self.keep_partial
                && r.partial_dir == self.partial_dir && r.temp_dir == self.temp_dir,
            r.delay_updates == self.delay_updates && r.fsync == self.fsync && r.append_verify
                == self.append_verify && r.symlink_mode == self.symlink_mode && r.transfer_dirs
                == self.transfer_dirs && r.mkpath == self.mkpath,
            r.relative_paths == self.relative_paths && r.implied_dirs == self.implied_dirs
                && r.one_file_system == self.one_file_system && r.skip_newer_receiver
                == self.skip_newer_receiver && r.existing_only == self.existing_only
                && r.ignore_existing == self.ignore_existing,
            r.max_size == self.max_size && r.min_size == self.min_size && r.modify_window
                == self.modify_window && r.ignore_missing_args == self.ignore_missing_args
                && r.delete_missing_args == self.delete_missing_args && r.delete_excluded
                == self.delete_excluded,
            r.ignore_errors == self.ignore_errors && r.force_delete == self.force_delete
                && r.max_delete == self.max_delete && r.backup == self.backup && r.backup_dir
                == self.backup_dir && r.backup_suffix == self.backup_suffix,
            r.preserve_hard_links == self.preserve_hard_links && r.keep_dirlinks
                == self.keep_dirlinks && r.preserve_devices == self.preserve_devices
                && r.preserve_specials == self.preserve_specials && r.fail_on_metadata_loss
                == self.fail_on_metadata_loss,
    {
        SyncOptions {
            recursive: self.recursive,
            delete: self.delete,
            delete_mode: self.delete_mode,
            preserve_mtime: self.preserve_mtime,
            omit_dir_times: self.omit_dir_times,
            dry_run: self.dry_run,
            filter_rules: self.filter_rules.clone(),
            update_mode: self.update_mode,
            files_from: clone_strings(&self.files_from),
            file_write_mode: self.file_write_mode,
            keep_partial: self.keep_partial,
            partial_dir: clone_text(&self.partial_dir),
            temp_dir: clone_text(&self.temp_dir),
            delay_updates: self.delay_updates,
            fsync: self.fsync,
            append_verify: self.append_verify,
            symlink_mode: self.symlink_mode,
            transfer_dirs: self.transfer_dirs,
            mkpath: self.mkpath,
            relative_paths: self.relative_paths,
            implied_dirs: self.implied_dirs,
            one_file_system: self.one_file_system,
            skip_newer_receiver: self.skip_newer_receiver,
            existing_only: self.existing_only,
            ignore_existing: self.ignore_existing,
            max_size: self.max_size,
            min_size: self.min_size,
            modify_window: self.modify_window,
            ignore_missing_args: self.ignore_missing_args,
            delete_missing_args: self.delete_missing_args,
            delete_excluded: self.delete_excluded,
            ignore_errors: self.ignore_errors,
            force_delete: self.force_delete,
            max_delete: self.max_delete,
            backup: self.backup,
            backup_dir: clone_text(&self.backup_dir),
            backup_suffix: self.backup_suffix.clone(),
            preserve_hard_links: self.preserve_hard_links,
            keep_dirlinks: self.keep_dirlinks,
            preserve_devices: self.preserve_devices,
            preserve_specials: self.preserve_specials,
            fail_on_metadata_loss: self.fail_on_metadata_loss,
        }
    }
}

pub(crate) fn clone_text(t: &Option<String>) -> (r: Option<String>)
    ensures
        r == *t,
{
    match t {
        Some(s) => Some(s.clone()),
        None => None,
    }
}

/// The view of an optional list of strings.
pub open spec fn strings_view(t: Option<Vec<String>>) -> Option<Seq<String>> {
    match t {
        Some(v) => Some(v@),
        None => None,
    }
}

fn clone_strings(t: &Option<Vec<String>>) -> (r: Option<Vec<String>>)
    ensures
        strings_view(r) == strings_view(*t),
{
    match t {
        Some(v) => {
            let mut out: Vec<String> = Vec::new();
            let mut i: usize = 0;
            while i < v.len()
                invariant
                    i <= v@.len(),
                    out@ == v@.take(i as int),
                decreases v.len() - i,
            {
                out.push(v[i].clone());
                i = i + 1;
                assert(out@ =~= v@.take(i as int));
            }
            assert(v@.take(v@.len() as int) =~= v@);
            assert(out@ == v@);
            Some(out)
        },
        None => None,
    }
}

/// The delete mode a sync uses: the one asked for, `During` for a bare `--delete`, none otherwise.
pub open spec fn effective_delete_mode(delete_mode: DeleteMode, delete: bool) -> DeleteMode {
    if delete_mode != DeleteMode::Disabled {
        delete_mode
    } else if delete {
        DeleteMode::During
    } else {
        DeleteMode::Disabled
    }
}

impl SyncOptions {
    pub fn effective_delete_mode(&self) -> (r: DeleteMode)
        ensures
            r == effective_delete_mode(self.delete_mode, self.delete),
    {
        if !matches!(self.delete_mode, DeleteMode::Disabled) {
            self.delete_mode
        } else if self.delete {
            DeleteMode::During
        } else {
            DeleteMode::Disabled
        }
    }
}

/// What selects the source entries of a sync.
#[derive(Debug, Clone, Copy)]
pub struct SourceSelectionOptions<'a> {
    pub recursive: bool,
    pub filter_rules: &'a RuleSet,
    pub files_from: Option<&'a [String]>,
    pub symlink_mode: SymlinkMode,
    pub one_file_system: bool,
}

/// The steps a sync took, in order.
#[derive(Debug, Clone, PartialEq, Eq)]
pub struct SyncReport {
    actions: Vec<SyncAction>,
}

impl View for SyncReport {
    type V = Seq<SyncAction>;

    closed spec fn view(&self) -> Seq<SyncAction> {
        self.actions@
    }
}

impl Default for SyncReport {
    fn default() -> (r: Self)
        ensures
            r@ == Seq::<SyncAction>::empty(),
    {
        SyncReport { actions: Vec::new() }
    }
}

impl SyncReport {
    pub fn push(&mut self, action: SyncAction)
        ensures
            final(self)@ == old(self)@.push(action),
    {
        self.actions.push(action);
    }

    /// Adds the steps of `other` after these.
    pub fn append(&mut self, other: SyncReport)
        ensures
            final(self)@ == old(self)@ + other@,
    {
        let mut rest = other.actions;
        self.actions.append(&mut rest);
    }

    pub fn actions(&self) -> (r: &[SyncAction])
        ensures
            r@ == self@,
    {
        self.actions.as_slice()
    }

    /// The warnings among the steps, in order.
    pub fn warnings(&self) -> (r: Vec<&SyncAction>)
        ensures
            r@.map_values(|a: &SyncAction| *a) == self@.filter(|a: SyncAction| a is Warn),
    {
        let n = self.actions.len();
        let mut out: Vec<&SyncAction> = Vec::new();
        let mut i: usize = 0;
        while i < n
            invariant
                n == self.actions@.len(),
                i <= n,
                out@.map_values(|a: &SyncAction| *a) == self@.take(i as int).filter(
                    |a: SyncAction| a is Warn,
                ),
            decreases n - i,
        {
            let ghost before = self@.take(i as int);
            let a = &self.actions[i];
            if matches!(a, SyncAction::Warn { .. }) {
                out.push(a);
            }
            proof {
                let after = self@.take(i + 1);
                assert(after.drop_last() =~= before);
                reveal(Seq::filter);
                assert(out@.map_values(|a: &SyncAction| *a) =~= after.filter(
                    |a: SyncAction| a is Warn,
                ));
            }
            i = i + 1;
        }
        assert(self@.take(n as int) =~= self@);
        out
    }
}

/// How filter rules see an entry kind.
pub open spec fn entry_kind_of(file_type: FileType) -> EntryKind {
    if file_type == FileType::Directory {
        EntryKind::Directory
    } else {
        EntryKind::File
    }
}

pub fn entry_kind(file_type: FileType) -> (r: EntryKind)
    ensures
        r == entry_kind_of(file_type),
{
    if matches!(file_type, FileType::Directory) {
        EntryKind::Directory
    } else {
        EntryKind::File
    }
}

/// A file length as a step length, when it fits the address size of this platform.
pub fn action_len(len: u64) -> (r: Result<usize, FsError>)
    ensures
        len <= usize::MAX ==> (r matches Ok(n) && n == len),
        len > usize::MAX ==> (r matches Err(FsError::Unsupported(m)) && m@
            == "file length exceeds this platform's address size"@),
{
    if len <= usize::MAX as u64 {
        Ok(len as usize)
    } else {
        Err(FsError::Unsupported("file length exceeds this platform's address size"))
    }
}

/// The symlink target a munged link stores: the target under `/rsyncd-munged/`.
pub fn munge_symlink_target(target: &str) -> (r: String)
    ensures
        r@ == "/rsyncd-munged/"@ + target@,
{
    let mut out = String::from_str("/rsyncd-munged/");
    out.append(target);
    out
}

/// How an entry kind is printed in a warning.
pub open spec fn file_type_name(file_type: FileType) -> Seq<char> {
    match file_type {
        FileType::File => "File"@,
        FileType::Directory => "Directory"@,
        FileType::Symlink => "Symlink"@,
        FileType::Hardlink => "Hardlink"@,
        FileType::Device => "Device"@,
        FileType::Special => "Special"@,
        FileType::Other => "Other"@,
    }
}

fn file_type_name_str(file_type: FileType) -> (r: &'static str)
    ensures
        r@ == file_type_name(file_type),
{
    match file_type {
        FileType::File => "File",
        FileType::Directory => "Directory",
        FileType::Symlink => "Symlink",
        FileType::Hardlink => "Hardlink",
        FileType::Device => "Device",
        FileType::Special => "Special",
        FileType::Other => "Other",
    }
}

/// The outcome of meeting an entry that is neither a file, a directory nor a followed link: the
/// warning it adds, or the error that stops the sync.
pub open spec fn non_regular_outcome(
    file_type: FileType,
    preserve_devices: bool,
    preserve_specials: bool,
    fail_on_metadata_loss: bool,
) -> Result<Seq<char>, Seq<char>> {
    if file_type == FileType::Device || file_type == FileType::Special {
        let device = file_type == FileType::Device;
        let requested = if device {
            preserve_devices
        } else {
            preserve_specials
        };
        let label = if device {
            "device"@
        } else {
            "special file"@
        };
        if requested && fail_on_metadata_loss {
            Err(
                if device {
                    "device metadata cannot be preserved by portable sync"@
                } else {
                    "special file metadata cannot be preserved by portable sync"@
                },
            )
        } else if requested {
            Ok(label + " metadata cannot be preserved by portable sync"@)
        } else {
            Ok("skipping "@ + label + "; preservation was not requested"@)
        }
    } else {
        Ok(file_type_name(file_type) + " is not copied by portable ordinary-file sync"@)
    }
}

/// Reports an entry that portable sync does not copy: a warning, or an error when the metadata
/// of a requested device or special file would be lost and that loss is fatal.
/// Whether `after` holds the actions of `before`, in place, with more perhaps after them.
pub open spec fn appends(before: Seq<SyncAction>, after: Seq<SyncAction>) -> bool {
    &&& before.len() <= after.len()
    &&& forall|i: int| 0 <= i < before.len() ==> #[trigger] after[i] == before[i]
}

pub fn handle_non_regular_entry(
    entry: &WalkEntry,
    options: &SyncOptions,
    report: &mut SyncReport,
) -> (r: Result<(), FsError>)
    ensures
        match non_regular_outcome(
            entry.metadata.file_type,
            options.preserve_devices,
            options.preserve_specials,
            options.fail_on_metadata_loss,
        ) {
            Ok(message) => r is Ok && final(report)@.len() == old(report)@.len() + 1
                && final(report)@.drop_last() == old(report)@ && (final(report)@.last() matches SyncAction::Warn {
                path,
                message: m,
            } && path@ == entry.path@ && m@ == message),
            Err(message) => r matches Err(FsError::Unsupported(m)) && m@ == message
                && final(report)@ == old(report)@,
        },
        appends(old(report)@, final(report)@),
{
    let file_type = entry.metadata.file_type;
    let (device, requested, label) = match file_type {
        FileType::Device => (true, options.preserve_devices, "device"),
        FileType::Special => (false, options.preserve_specials, "special file"),
        _ => {
            let message = join3(
                file_type_name_str(file_type),
                " is not copied by portable ordinary-file sync",
                "",
            );
            proof {
                reveal_strlit("");
            }
            assert(message@ =~= file_type_name(file_type) + " is not copied by portable ordinary-file sync"@);
            report.push(SyncAction::Warn { path: entry.path.clone(), message });
            assert(report@.drop_last() =~= old(report)@);
            return Ok(());
        },
    };
    let message = if requested {
        join3(label, " metadata cannot be preserved by portable sync", "")
    } else {
        join3("skipping ", label, "; preservation was not requested")
    };
    proof {
        reveal_strlit("");
    }
    if requested && options.fail_on_metadata_loss {
        return Err(
            FsError::Unsupported(
                if device {
                    "device metadata cannot be preserved by portable sync"
                } else {
                    "special file metadata cannot be preserved by portable sync"
                },
            ),
        );
    }
    assert(requested ==> message@ =~= label@ + " metadata cannot be preserved by portable sync"@);
    report.push(SyncAction::Warn { path: entry.path.clone(), message });
    assert(report@.drop_last() =~= old(report)@);
    Ok(())
}

} // verus!
