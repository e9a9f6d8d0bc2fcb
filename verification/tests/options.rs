use rsync_win::diagnostics::{Report, Severity};
use rsync_win::filter::files_from::{FilesFromError, FilesFromPathError};
use rsync_win::fs::local::receive_temp_path;
use rsync_win::fs::sync::{DeleteMode, SymlinkMode, UpdateMode};
use rsync_win::transfer::compression::{remote_delta_block_size, RemoteCompressionConfig};
use rsync_win::transfer::sum_head::TransferError;
use rsync_win::plan::modes::{
    add_mode_gating_diagnostics, add_remote_protocol_diagnostic, cli_preserve_group,
    cli_preserve_owner, cli_preserve_permissions, incremental_recursion_from_cli,
    protocol31_setup_options_from_plan, remote_delete_mode, remote_delete_mode_from_cli,
    remote_wire_protocol_from_cli, split_option_list, symlink_mode_from_cli,
    transfer_direction_label, transfer_mode_from_cli, update_mode_from_cli, RemoteDeleteMode, RemoteWireProtocol, TransferMode,
};
use rsync_win::plan::filters::FilterOptions;
use rsync_win::plan::metadata::{
    archive_mode_degradations_for_cli, parse_chmod_rules, posix_metadata_degradations_for_plan,
    posix_metadata_request_from_cli, posix_metadata_summary, MetadataPlan,
};
use rsync_win::plan::options::{
    add_explicit_option_diagnostics, add_option_conflict_diagnostics,
    ensure_daemon_execution_options_supported, ensure_local_execution_options_supported,
    is_daemon_operand_syntax, CliOptions, ExecutionOptionError,
};
use rsync_win::chmod::ChmodFileKind;
use rsync_win::policy::{MetadataFeature, MetadataPolicy, PosixMetadataRequest, RsyncCoreError};
use rsync_win::remote::flist::{DaemonOperand, RemoteShellOperand, TransferDirection};
use rsync_win::plan::transfer_plan::{plan_transfer, OperandKind, RemotePlanError};
use rsync_win::plan::remote_args::{
    daemon_remote_shell_options_from_cli, remote_shell_options_from_cli,
};

fn base() -> CliOptions {
    CliOptions {
        paths: vec!["src".to_string(), "dest".to_string()],
        dry_run: false,
        list_only: false,
        numeric_ids: false,
        chmod: None,
        compress: false,
        partial: false,
        inplace: false,
        append_verify: false,
        links: false,
        no_links: false,
        copy_links: false,
        copy_dirlinks: false,
        keep_dirlinks: false,
        safe_links: false,
        copy_unsafe_links: false,
        munge_links: false,
        hard_links: false,
        devices: false,
        specials: false,
        copy_devices: false,
        write_devices: false,
        preserve_permissions: false,
        preserve_owner: false,
        preserve_group: false,
        executability: false,
        acls: false,
        xattrs: false,
        fake_super: false,
        atimes: false,
        crtimes: false,
        omit_dir_times: false,
        omit_link_times: false,
        vss: false,
        no_owner: false,
        no_group: false,
        user_maps: vec![],
        group_maps: vec![],
        chown: None,
        checksum_choice: None,
        checksum_seed: None,
        compress_choice: None,
        compress_level: None,
        compress_threads: None,
        skip_compress: vec![],
        remote_shell: None,
        rsync_path: None,
        blocking_io: false,
        old_args: false,
        secluded_args: false,
        trust_sender: false,
        ipv4: false,
        ipv6: false,
        partial_dir: None,
        temp_dir: None,
        delay_updates: false,
        accepted_unsupported_options: vec![],
        compare_dest: vec![],
        copy_dest: vec![],
        link_dest: vec![],
        sparse: false,
        preallocate: false,
        fuzzy: false,
        copy_as: None,
        super_flag: false,
        write_batch: None,
        only_write_batch: None,
        read_batch: None,
        bwlimit: None,
        timeout_secs: None,
        stop_after_minutes: None,
        time_limit_minutes: None,
        stop_at: None,
        max_alloc: None,
        early_input: None,
        outbuf: None,
        protocol_version: None,
        iconv: None,
        open_noatime: false,
        min_size: None,
        max_size: None,
        ignore_missing_args: false,
        delete_missing_args: false,
        existing: false,
        ignore_existing: false,
        metadata_policy: MetadataPolicy::Portable,
        daemon_server: false,
        internal_server: false,
        internal_sender: false,
        password_file: None,
        daemon_no_motd: false,
        archive: false,
        no_permissions: false,
        inc_recursive: false,
        no_inc_recursive: false,
        delete: false,
        delete_mode: DeleteMode::Disabled,
        no_devices: false,
        no_specials: false,
        ignore_times: false,
        checksum: false,
        size_only: false,
        whole_file: false,
        verbosity: 0,
        block_size: None,
        remote_options: vec![],
        filter_options: FilterOptions {
            cvs_exclude: false,
            includes: vec![],
            include_from: vec![],
            excludes: vec![],
            exclude_from: vec![],
            filters: vec![],
            from0: false,
        },
        recursive: false,
        no_recursive: false,
        preserve_times: false,
        no_times: false,
        backup: false,
        backup_dir: None,
        suffix: None,
    }
}

fn notes(report: &Report) -> Vec<(Severity, String, String)> {
    report
        .diagnostics()
        .iter()
        .map(|d| (d.severity(), d.code().to_string(), d.message().to_string()))
        .collect()
}

fn info(code: &str, message: &str) -> (Severity, String, String) {
    (Severity::Info, code.to_string(), message.to_string())
}

#[test]
fn plain_options_report_nothing() {
    let mut report = Report::new();
    add_explicit_option_diagnostics(&base(), &mut report);
    add_option_conflict_diagnostics(&base(), &mut report);
    assert!(report.is_empty());
}

#[test]
fn explicit_options_are_noted_in_order() {
    let mut o = base();
    o.numeric_ids = true;
    o.chmod = Some("0644".to_string());
    o.compress = true;
    o.no_group = true;
    o.user_maps = vec!["a:b".to_string()];
    o.checksum_seed = Some(-5);
    o.compress_level = Some(3);
    o.remote_shell = Some("ssh -p 22".to_string());
    o.ipv4 = true;
    o.ipv6 = true;
    o.accepted_unsupported_options = vec!["--foo".to_string()];
    o.sparse = true;
    o.write_batch = Some("batch".to_string());
    o.timeout_secs = Some(30);
    o.protocol_version = Some(31);
    o.iconv = Some("utf8".to_string());
    o.open_noatime = true;
    let mut report = Report::new();
    add_explicit_option_diagnostics(&o, &mut report);
    assert_eq!(
        notes(&report),
        vec![
            (
                Severity::Warning,
                "W_UNSUPPORTED_OPTION".to_string(),
                "--numeric-ids is parsed as an owner/group id mapping modifier; it has no local effect unless owner/group preservation is requested".to_string(),
            ),
            info(
                "I_OPTION_PARSED",
                "--chmod is applied to POSIX mode bits for remote uploads; local Windows destinations do not chmod files",
            ),
            info("I_OPTION_PARSED", "-z/--compress is represented in the execution plan"),
            info("I_OPTION_PARSED", "--no-g is represented in the execution plan"),
            info("I_OPTION_PARSED", "--usermap=a:b is represented in the execution plan"),
            info("I_OPTION_PARSED", "--checksum-seed=-5 is represented in the execution plan"),
            info("I_OPTION_PARSED", "--compress-level=3 is represented in the execution plan"),
            info("I_REMOTE_SHELL", "-e/--rsh remote shell command: ssh -p 22"),
            info("I_REMOTE_ADDRESS_FAMILY", "--ipv4 selects ssh -4 for remote-shell transport"),
            (
                Severity::Warning,
                "W_UNIMPLEMENTED_OPTION".to_string(),
                "--foo is accepted for rsync option compatibility but has no behavior in this build yet".to_string(),
            ),
            info(
                "I_OPTION_PARSED",
                "--sparse is represented in the execution plan; sparse file creation requested on Windows where FSCTL_SET_SPARSE_FILE is supported",
            ),
            info("I_OPTION_PARSED", "--write-batch=batch will record transfer metadata for replay"),
            info("I_OPTION_PARSED", "--timeout=30 sets I/O timeout in seconds during transfer"),
            info("I_OPTION_PARSED", "--protocol=31 constrains protocol version negotiation"),
            (
                Severity::Warning,
                "W_ICONV_UNAVAILABLE".to_string(),
                "--iconv=utf8 charset conversion is not available on this platform; filenames are transferred as-is".to_string(),
            ),
            info(
                "I_OPTION_PARSED",
                "--open-noatime requested; O_NOATIME is not available on Windows, files are opened with normal access time semantics",
            ),
        ]
    );
}

#[test]
fn an_unparsable_chmod_is_not_noted() {
    let mut o = base();
    o.chmod = Some("bogus".to_string());
    let mut report = Report::new();
    add_explicit_option_diagnostics(&o, &mut report);
    assert!(report.is_empty());
}

#[test]
fn conflicting_options_are_reported() {
    let mut o = base();
    o.min_size = Some(10);
    o.max_size = Some(5);
    o.inplace = true;
    o.partial_dir = Some("p".to_string());
    o.links = true;
    o.copy_links = true;
    o.read_batch = Some("b".to_string());
    o.dry_run = true;
    let mut report = Report::new();
    add_option_conflict_diagnostics(&o, &mut report);
    let codes: Vec<(Severity, String)> =
        notes(&report).into_iter().map(|(s, _, m)| (s, m)).collect();
    assert_eq!(
        codes,
        vec![
            (Severity::Error, "--min-size cannot be greater than --max-size".to_string()),
            (
                Severity::Error,
                "--inplace and --partial-dir cannot both control the same write path".to_string()
            ),
            (
                Severity::Warning,
                "multiple symlink transfer modes were requested; rsync-win applies its current precedence while preserving the diagnostic".to_string()
            ),
            (Severity::Warning, "--read-batch with --dry-run: replay will be a dry run".to_string()),
        ]
    );

    let mut quiet = base();
    quiet.links = true;
    quiet.copy_links = true;
    quiet.no_links = true;
    let mut report = Report::new();
    add_option_conflict_diagnostics(&quiet, &mut report);
    assert!(report.is_empty());
}

#[test]
fn local_execution_refuses_conflicting_write_paths() {
    assert_eq!(ensure_local_execution_options_supported(&base()), Ok(()));
    let mut o = base();
    o.inplace = true;
    o.partial_dir = Some("p".to_string());
    let err = ensure_local_execution_options_supported(&o).unwrap_err();
    assert_eq!(err, ExecutionOptionError::LocalInplacePartialDir);
    assert_eq!(
        err.message(),
        "--inplace and --partial-dir cannot both control the same local write path"
    );
    let mut o = base();
    o.read_batch = Some("b".to_string());
    o.paths = vec!["only".to_string()];
    assert_eq!(
        ensure_local_execution_options_supported(&o),
        Err(ExecutionOptionError::ReadBatchWithoutDestination)
    );
}

#[test]
fn daemon_execution_checks_operands_and_options() {
    let module = DaemonOperand { host: "h".to_string(), module: Some("m".to_string()), path: None };
    let listing = DaemonOperand { host: "h".to_string(), module: None, path: None };
    assert_eq!(
        ensure_daemon_execution_options_supported(&base(), None),
        Err(ExecutionOptionError::DaemonNotPlanned)
    );
    assert_eq!(ensure_daemon_execution_options_supported(&base(), Some(&module)), Ok(()));
    assert_eq!(
        ensure_daemon_execution_options_supported(&base(), Some(&listing)),
        Err(ExecutionOptionError::ModuleListingNeedsListOnly)
    );
    let mut list = base();
    list.list_only = true;
    list.paths = vec!["h::".to_string()];
    assert_eq!(ensure_daemon_execution_options_supported(&list, Some(&listing)), Ok(()));
    assert_eq!(
        ensure_daemon_execution_options_supported(&list, Some(&module)),
        Err(ExecutionOptionError::DaemonTransferOperands)
    );
    let mut rsh = base();
    rsh.remote_shell = Some("ssh".to_string());
    assert_eq!(
        ensure_daemon_execution_options_supported(&rsh, Some(&module)).unwrap_err().message(),
        "daemon client mode does not use --rsh/-e; omit the remote-shell option"
    );
    let mut ntfs = base();
    ntfs.metadata_policy = MetadataPolicy::NtfsNative;
    assert_eq!(
        ensure_daemon_execution_options_supported(&ntfs, Some(&module)),
        Err(ExecutionOptionError::DaemonMetadataPolicy)
    );
}

#[test]
fn daemon_syntax_is_rsync_urls_or_double_colons() {
    assert!(is_daemon_operand_syntax("rsync://host/module"));
    assert!(is_daemon_operand_syntax("host::module/path"));
    assert!(!is_daemon_operand_syntax("host:path"));
    assert!(!is_daemon_operand_syntax("C:\\dir"));
}

#[test]
fn wire_protocol_follows_the_protocol_option() {
    let mut report = Report::new();
    assert_eq!(remote_wire_protocol_from_cli(Some(27), &mut report), RemoteWireProtocol::Compat27);
    assert_eq!(remote_wire_protocol_from_cli(Some(31), &mut report), RemoteWireProtocol::Modern31);
    assert_eq!(remote_wire_protocol_from_cli(None, &mut report), RemoteWireProtocol::Modern31);
    assert!(report.is_empty());
    assert_eq!(remote_wire_protocol_from_cli(Some(30), &mut report), RemoteWireProtocol::Modern31);
    assert_eq!(
        notes(&report),
        vec![(
            Severity::Error,
            "E_UNSUPPORTED_PROTOCOL".to_string(),
            "--protocol=30 is not supported by this build; supported execution protocols are 27 and 31".to_string()
        )]
    );
    assert_eq!(RemoteWireProtocol::Compat27.protocol_number(), 27);
    assert_eq!(RemoteWireProtocol::Modern31.protocol_number(), 31);
}

#[test]
fn protocol_notes_name_the_protocol() {
    let mut report = Report::new();
    add_remote_protocol_diagnostic(&mut report, RemoteWireProtocol::Modern31);
    add_remote_protocol_diagnostic(&mut report, RemoteWireProtocol::Compat27);
    assert_eq!(
        notes(&report),
        vec![
            info(
                "I_REMOTE_PROTOCOL31_MVP",
                "remote-shell execution tries protocol 31 first for the ordinary-file MVP"
            ),
            info("I_REMOTE_PROTOCOL", "remote-shell execution uses protocol 27 compatibility mode"),
        ]
    );
}

#[test]
fn transfer_modes_and_labels() {
    let mut o = base();
    assert_eq!(transfer_mode_from_cli(&o, false, None), TransferMode::Local);
    assert_eq!(
        transfer_mode_from_cli(&o, false, Some(TransferDirection::Push)),
        TransferMode::RemoteShell
    );
    assert_eq!(transfer_mode_from_cli(&o, true, None), TransferMode::DaemonClient);
    o.internal_server = true;
    assert_eq!(transfer_mode_from_cli(&o, true, None), TransferMode::InternalServer);
    o.daemon_server = true;
    assert_eq!(transfer_mode_from_cli(&o, true, None), TransferMode::DaemonServer);
    assert_eq!(TransferMode::DaemonClient.label(), "daemon-client");
    assert_eq!(TransferMode::InternalServer.label(), "internal-server");
    assert_eq!(transfer_direction_label(TransferDirection::Push), "upload");
    assert_eq!(transfer_direction_label(TransferDirection::Pull), "download");
}

#[test]
fn preservation_follows_archive_mode_and_negations() {
    let mut o = base();
    assert!(!cli_preserve_permissions(&o));
    o.archive = true;
    assert!(cli_preserve_permissions(&o));
    assert!(cli_preserve_owner(&o));
    assert!(cli_preserve_group(&o));
    o.no_permissions = true;
    o.no_owner = true;
    assert!(!cli_preserve_permissions(&o));
    assert!(!cli_preserve_owner(&o));
    o.preserve_owner = true;
    assert!(cli_preserve_owner(&o));
    o.inc_recursive = true;
    assert!(incremental_recursion_from_cli(&o, true));
    assert!(!incremental_recursion_from_cli(&o, false));
    o.no_inc_recursive = true;
    assert!(!incremental_recursion_from_cli(&o, true));
}

#[test]
fn peers_are_told_when_to_delete() {
    assert_eq!(remote_delete_mode(false, DeleteMode::Disabled), RemoteDeleteMode::Disabled);
    assert_eq!(remote_delete_mode(true, DeleteMode::Disabled), RemoteDeleteMode::During);
    assert_eq!(remote_delete_mode(false, DeleteMode::After), RemoteDeleteMode::After);
    let mut o = base();
    o.delete = true;
    o.delete_mode = DeleteMode::Before;
    assert_eq!(remote_delete_mode_from_cli(&o), RemoteDeleteMode::Before);
}

#[test]
fn option_lists_split_trim_and_lowercase() {
    assert_eq!(
        split_option_list("MD5, xxh64\tmd4,,"),
        vec!["md5".to_string(), "xxh64".to_string(), "md4".to_string()]
    );
    assert!(split_option_list(" , ").is_empty());
    let setup = protocol31_setup_options_from_plan(None, Some(7));
    assert_eq!(setup.checksum_choices, vec!["md4".to_string()]);
    assert_eq!(setup.checksum_seed, Some(7));
    let chosen = protocol31_setup_options_from_plan(Some("XXH128 md5"), None);
    assert_eq!(chosen.checksum_choices, vec!["xxh128".to_string(), "md5".to_string()]);
}

#[test]
fn mode_gating_reports_options_outside_their_mode() {
    let mut o = base();
    o.password_file = Some("pw".to_string());
    o.daemon_no_motd = true;
    let mut report = Report::new();
    add_mode_gating_diagnostics(&o, TransferMode::Local, false, false, &mut report);
    let messages: Vec<String> = notes(&report).into_iter().map(|(_, _, m)| m).collect();
    assert_eq!(
        messages,
        vec![
            "--password-file applies to rsync daemon authentication, not local mode".to_string(),
            "--no-motd applies to rsync daemon module listing, not local mode".to_string(),
        ]
    );

    let mut mixed = base();
    mixed.paths = vec!["host::mod".to_string(), "other:path".to_string()];
    let mut report = Report::new();
    add_mode_gating_diagnostics(&mixed, TransferMode::DaemonClient, false, true, &mut report);
    assert_eq!(
        notes(&report),
        vec![(
            Severity::Error,
            "E_MODE_CONFLICT".to_string(),
            "daemon operands cannot be mixed with remote-shell operands".to_string()
        )]
    );

    let mut server = base();
    server.daemon_server = true;
    let mut report = Report::new();
    add_mode_gating_diagnostics(&server, TransferMode::DaemonServer, false, false, &mut report);
    assert_eq!(
        notes(&report),
        vec![(
            Severity::Error,
            "E_MODE_CONFLICT".to_string(),
            "--daemon server mode does not accept transfer operands".to_string()
        )]
    );
}

#[test]
fn chmod_rules_parse_or_are_reported() {
    let mut report = Report::new();
    assert!(parse_chmod_rules(&base(), &mut report).is_none());
    let mut o = base();
    o.chmod = Some("F600".to_string());
    let rules = parse_chmod_rules(&o, &mut report).unwrap();
    assert_eq!(rules.apply(0o100755, ChmodFileKind::File), 0o100600);
    assert!(report.is_empty());
    o.chmod = Some("bogus".to_string());
    assert!(parse_chmod_rules(&o, &mut report).is_none());
    let (severity, code, message) = notes(&report).pop().unwrap();
    assert_eq!(severity, Severity::Error);
    assert_eq!(code, "E_CHMOD");
    assert!(message.starts_with("invalid argument `chmod`: "));
    assert!(message.ends_with(": `bogus`"));
}

#[test]
fn archive_degradations_leave_out_what_is_turned_off() {
    let all = archive_mode_degradations_for_cli(&base(), MetadataPolicy::Portable);
    assert!(all.iter().any(|d| d.feature == MetadataFeature::Owner));
    let mut o = base();
    o.no_owner = true;
    o.no_devices = true;
    let kept = archive_mode_degradations_for_cli(&o, MetadataPolicy::Portable);
    assert!(kept.iter().all(|d| d.feature != MetadataFeature::Owner
        && d.feature != MetadataFeature::Device));
    assert_eq!(
        kept.len(),
        all.iter()
            .filter(|d| d.feature != MetadataFeature::Owner && d.feature != MetadataFeature::Device)
            .count()
    );
}

#[test]
fn posix_requests_follow_the_options_and_the_direction() {
    let mut o = base();
    o.archive = true;
    o.acls = true;
    o.user_maps = vec!["a:b".to_string()];
    let request = posix_metadata_request_from_cli(&o);
    assert!(request.permissions && request.owner && request.group && request.symlink_mtime);
    assert!(request.acls && request.user_map && !request.chown);

    let pull = posix_metadata_degradations_for_plan(
        &o,
        MetadataPolicy::Portable,
        Some(TransferDirection::Pull),
        None,
    );
    assert_eq!(pull, request.degradations(MetadataPolicy::Portable));
    let push = posix_metadata_degradations_for_plan(
        &o,
        MetadataPolicy::Portable,
        Some(TransferDirection::Push),
        None,
    );
    let pushed = PosixMetadataRequest {
        owner: false,
        group: false,
        acls: false,
        user_map: false,
        ..request
    };
    assert_eq!(push, pushed.degradations(MetadataPolicy::Portable));
}

#[test]
fn metadata_summary_names_the_choices() {
    let mut m = MetadataPlan {
        preserve_permissions: false,
        preserve_owner: false,
        preserve_group: false,
        preserve_executability: false,
        preserve_acls: false,
        preserve_xattrs: false,
        hard_links: false,
        fake_super: false,
        omit_dir_times: false,
        atimes: false,
        crtimes: false,
        omit_link_times: false,
        numeric_ids: false,
        chmod: None,
        user_maps: vec![],
        group_maps: vec![],
        chown: None,
    };
    assert_eq!(posix_metadata_summary(&m), "none");
    m.preserve_permissions = true;
    m.chmod = Some("u+x".to_string());
    m.user_maps = vec!["a:b".to_string()];
    assert_eq!(posix_metadata_summary(&m), "perms,chmod,usermap");
}

#[test]
fn update_and_symlink_modes_follow_option_precedence() {
    let mut o = base();
    assert_eq!(update_mode_from_cli(&o), UpdateMode::QuickCheck);
    o.size_only = true;
    assert_eq!(update_mode_from_cli(&o), UpdateMode::SizeOnly);
    o.checksum = true;
    assert_eq!(update_mode_from_cli(&o), UpdateMode::Checksum);
    o.ignore_times = true;
    assert_eq!(update_mode_from_cli(&o), UpdateMode::IgnoreTimes);

    let mut l = base();
    assert_eq!(symlink_mode_from_cli(&l), SymlinkMode::Skip);
    l.archive = true;
    assert_eq!(symlink_mode_from_cli(&l), SymlinkMode::Preserve);
    l.munge_links = true;
    assert_eq!(symlink_mode_from_cli(&l), SymlinkMode::Munge);
    l.safe_links = true;
    assert_eq!(symlink_mode_from_cli(&l), SymlinkMode::SafeOnly);
    l.copy_unsafe_links = true;
    assert_eq!(symlink_mode_from_cli(&l), SymlinkMode::CopyUnsafe);
    l.copy_dirlinks = true;
    assert_eq!(symlink_mode_from_cli(&l), SymlinkMode::CopyDirLinks);
    l.copy_links = true;
    assert_eq!(symlink_mode_from_cli(&l), SymlinkMode::CopyAll);
    l.no_links = true;
    assert_eq!(symlink_mode_from_cli(&l), SymlinkMode::Skip);
}

#[test]
fn skip_compress_suffixes_match_case_insensitively() {
    let config = RemoteCompressionConfig {
        level: 6,
        skip_suffixes: vec!["*.ZIP".to_string(), " .gz ".to_string(), "*.".to_string(), "..".to_string()],
    };
    assert!(config.should_skip_path("dir/archive.zip"));
    assert!(config.should_skip_path("DATA.TAR.GZ"));
    assert!(!config.should_skip_path("notes.txt"));
    assert!(!config.should_skip_path("zip"));
    assert_eq!(config.level_for_path("a.Zip"), 0);
    assert_eq!(config.level_for_path("a.txt"), 6);
}

#[test]
fn delta_block_size_defaults_and_must_be_positive() {
    assert_eq!(remote_delta_block_size(None), Ok(32768));
    assert_eq!(remote_delta_block_size(Some(700)), Ok(700));
    assert_eq!(remote_delta_block_size(Some(0)), Err(TransferError::InvalidDeltaBlockSize));
}

#[test]
fn receive_temp_paths_sit_beside_the_target() {
    assert_eq!(receive_temp_path("dir/file.txt", 7, 99), "dir/.file.txt.7.99.recv");
    assert_eq!(receive_temp_path("file.txt", 1, 2), ".file.txt.1.2.recv");
    assert_eq!(receive_temp_path("", 1, 2), ".rsync-win.1.2.recv");
}

#[test]
fn files_from_errors_read_as_messages() {
    assert_eq!(
        FilesFromError::InvalidUtf8 { offset: 3 }.message(),
        "files-from input is not valid UTF-8 at byte 3"
    );
    assert_eq!(
        FilesFromError::UnexpectedNul { offset: 4 }.message(),
        "files-from input contains NUL at byte 4; use --from0"
    );
    assert_eq!(FilesFromPathError::Empty.message(), "files-from record is empty");
    assert_eq!(
        FilesFromPathError::RootEscape { record: "../x".to_string() }.message(),
        "files-from record must stay within the transfer root: `../x`"
    );
    assert_eq!(
        RsyncCoreError::InvalidArgument { name: "chmod", reason: "bad".to_string() }.message(),
        "invalid argument `chmod`: bad"
    );
}

#[test]
fn remote_shell_peer_gets_metadata_options_only_on_push() {
    let mut o = base();
    o.archive = true;
    o.numeric_ids = true;
    o.fake_super = true;
    o.chmod = Some("u+x".to_string());
    o.rsync_path = None;
    let pull = remote_shell_options_from_cli(
        &o,
        TransferDirection::Pull,
        true,
        true,
        SymlinkMode::Preserve,
        None,
    );
    assert_eq!(pull.rsync_path, "rsync");
    assert!(!pull.preserve_owner);
    assert!(!pull.numeric_ids);
    assert!(!pull.xattrs);
    assert_eq!(pull.chmod, None);
    assert!(!pull.preserve_links);
    assert!(pull.preserve_permissions);
    let push = remote_shell_options_from_cli(
        &o,
        TransferDirection::Push,
        true,
        true,
        SymlinkMode::Preserve,
        Some("zlib".to_string()),
    );
    assert!(push.preserve_owner);
    assert!(push.numeric_ids);
    assert!(push.fake_super);
    assert!(!push.xattrs);
    assert_eq!(push.chmod, Some("u+x".to_string()));
    assert!(push.preserve_links);
    assert_eq!(push.compress_choice, Some("zlib".to_string()));
}

#[test]
fn daemon_peer_gets_metadata_options_both_ways() {
    let mut o = base();
    o.archive = true;
    o.numeric_ids = true;
    o.fake_super = true;
    o.user_maps = vec!["a:b".to_string()];
    o.rsync_path = Some("/usr/bin/rsync".to_string());
    let pull = daemon_remote_shell_options_from_cli(
        &o,
        TransferDirection::Pull,
        true,
        true,
        SymlinkMode::CopyAll,
        None,
    );
    assert_eq!(pull.rsync_path, "/usr/bin/rsync");
    assert!(pull.preserve_owner);
    assert!(pull.preserve_group);
    assert!(pull.numeric_ids);
    assert!(pull.fake_super);
    assert!(pull.xattrs);
    assert_eq!(pull.user_maps, vec!["a:b".to_string()]);
    assert!(pull.copy_links);
    assert!(!pull.size_only);
}

fn remote(host: &str, path: &str) -> OperandKind {
    OperandKind::Remote(RemoteShellOperand { host: host.to_string(), path: path.to_string() })
}

#[test]
fn plan_pulls_several_remote_sources_from_one_host() {
    let mut o = base();
    o.paths = vec!["h:a".to_string(), "h:b".to_string(), "dest".to_string()];
    let p = plan_transfer(&o, &[remote("h", "a"), remote("h", "b")], OperandKind::Local);
    assert_eq!(p.remote_direction, Some(TransferDirection::Pull));
    assert_eq!(p.remote_operands.len(), 2);
    assert_eq!(p.remote_operands[1].path, "b");
    assert_eq!(p.remote_error, None);
    assert_eq!(p.transfer_mode, TransferMode::RemoteShell);
}

#[test]
fn plan_refuses_remote_operand_mixes() {
    let mut o = base();
    o.paths = vec!["h:a".to_string(), "g:b".to_string(), "dest".to_string()];
    let p = plan_transfer(&o, &[remote("h", "a"), remote("g", "b")], OperandKind::Local);
    assert_eq!(p.remote_error, Some(RemotePlanError::HostMismatch));
    assert_eq!(p.remote_direction, None);
    assert_eq!(p.transfer_mode, TransferMode::Local);
    let p = plan_transfer(&o, &[remote("h", "a"), OperandKind::Local], OperandKind::Local);
    assert_eq!(p.remote_error, Some(RemotePlanError::MixedSources));
    let p = plan_transfer(&o, &[remote("h", "a"), remote("h", "b")], remote("h", "c"));
    assert_eq!(p.remote_error, Some(RemotePlanError::RemoteBoth));
    assert_eq!(RemotePlanError::RemoteBoth.code(), "E_REMOTE_BOTH");
    assert_eq!(
        RemotePlanError::HostMismatch.message(),
        "remote-shell pull sources must use the same remote host"
    );
}

#[test]
fn plan_push_warns_about_incremental_recursion() {
    let mut o = base();
    o.paths = vec!["src".to_string(), "h:dest".to_string()];
    o.archive = true;
    o.inc_recursive = true;
    let p = plan_transfer(&o, &[OperandKind::Local], remote("h", "dest"));
    assert_eq!(p.remote_direction, Some(TransferDirection::Push));
    assert!(p.recursive && p.preserve_times);
    assert!(!p.incremental_recursion);
    assert!(p.inc_recursive_push_warning);
    assert!(p.preserve_devices && p.preserve_specials);
    assert_eq!(p.backup_suffix, "~");
}

#[test]
fn plan_options_follow_negations_and_defaults() {
    let mut o = base();
    o.paths = vec!["src".to_string(), "dest".to_string()];
    o.archive = true;
    o.no_recursive = true;
    o.no_times = true;
    o.no_devices = true;
    o.delete = true;
    o.inplace = true;
    o.backup_dir = Some("old".to_string());
    let p = plan_transfer(&o, &[OperandKind::Local], OperandKind::Local);
    assert!(!p.recursive && !p.preserve_times);
    assert!(!p.preserve_devices && p.preserve_specials);
    assert!(p.delete);
    assert_eq!(p.delete_mode, DeleteMode::During);
    assert_eq!(p.backup_suffix, "");
    assert_eq!(p.file_write_mode, rsync_win::fs::walk::FileWriteMode::InPlace);
    assert_eq!(p.remote_direction, None);
    o.suffix = Some(".bak".to_string());
    let p = plan_transfer(&o, &[OperandKind::Local], OperandKind::Local);
    assert_eq!(p.backup_suffix, ".bak");
    o.paths = vec!["host::mod/x".to_string(), "dest".to_string()];
    let p = plan_transfer(&o, &[remote("host", ":mod/x")], OperandKind::Local);
    assert_eq!(p.transfer_mode, TransferMode::DaemonClient);
    assert_eq!(p.remote_direction, None);
}
