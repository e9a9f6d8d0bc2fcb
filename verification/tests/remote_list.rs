use std::cmp::Ordering;

use rsync_win::chmod::ChmodRules;
use rsync_win::diagnostics::{Report, Severity};
use rsync_win::filter::matcher::{EntryKind, RuleSet};
use rsync_win::filter::rule::{ParseRuleError, Rule, RuleAction};
use rsync_win::fs::metadata::{FileType, HardlinkId, PortableMetadata};
use rsync_win::fs::sync::{SymlinkMode, UpdateMode};
use rsync_win::plan::filters::{
    add_filter_file_rules, add_remote_filter_file_args, add_remote_filter_rule_arg,
    build_filter_rules, cvs_exclude_patterns, filter_rule_can_use_short_arg,
    format_remote_filter_rule, remote_receiver_filter_args_from_cli, FilterFile, FilterOptions,
};
use rsync_win::remote::batch::{
    remote_entries_file_summary, sort_remote_source_entries_for_sender_indexes, RemoteSourceEntry,
    RemoteSourceEntryBatchBuilder,
};
use rsync_win::remote::claims::{
    remote_single_file_source_basenames, validate_remote_sender_claims, RemoteClaimPlan,
    SenderClaimError,
};
use rsync_win::remote::flist::{
    append_pull_sources_summary, append_push_destination_summary,
    append_remote_push_quick_check_note, append_sources_summary, remote_followed_directory_path,
    remote_hardlink_group, remote_session_label, remote_wire_mode, DaemonOperand,
    RemoteHardLinkGroup, RemoteShellOperand, SummaryError, TransferDirection,
};
use rsync_win::remote::receive::{
    append_remote_messages, checked_file_index, checked_remote_file_index, entry_kind_from_fs,
    entry_kind_from_wire, incremental_parent_index, remote_file_index_offset,
    remote_receiver_path_is_filtered, remote_source_path_is_filtered, remote_wire_index,
    selected_remote_entries, selected_remote_entry_indexes, RemoteIndexError,
};
use rsync_win::remote::wire::{
    directory_paths_of, normal_path_components, path_from_components, remote_entry_is_top_dir,
    remote_sender_entry_cmp, sort_remote_entries_for_sender_indexes, RemoteEntry, WireFileType,
};
use rsync_win::transfer::sum_head::TransferError;

fn entry(path: &str, file_type: WireFileType, len: u64) -> RemoteEntry {
    RemoteEntry { path: path.to_string(), file_type, len, mtime_unix: 0 }
}

fn dir(path: &str) -> RemoteEntry {
    entry(path, WireFileType::Directory, 0)
}

fn file(path: &str, len: u64) -> RemoteEntry {
    entry(path, WireFileType::File, len)
}

fn rules(texts: &[&str]) -> RuleSet {
    RuleSet::new(texts.iter().map(|t| Rule::parse_filter(t).unwrap()).collect())
}

fn strings(items: &[&str]) -> Vec<String> {
    items.iter().map(|s| s.to_string()).collect()
}

#[test]
fn top_dir_is_the_dot_directory() {
    assert!(remote_entry_is_top_dir(&dir(".")));
    assert!(!remote_entry_is_top_dir(&file(".", 0)));
    assert!(!remote_entry_is_top_dir(&dir("a")));
}

#[test]
fn path_components_drop_dots_and_join_with_slashes() {
    assert_eq!(normal_path_components("a/./b/../c"), strings(&["a", "b", "c"]));
    assert_eq!(normal_path_components("a\\b"), strings(&["a", "b"]));
    assert_eq!(path_from_components(&strings(&["a", "b"])), "a/b");
    assert_eq!(path_from_components(&[]), "");
}

#[test]
fn sender_order_puts_top_dir_first_and_files_before_directories() {
    let dirs = strings(&["a"]);
    assert_eq!(remote_sender_entry_cmp(&dir("."), &file("a", 1), &dirs), Ordering::Less);
    assert_eq!(remote_sender_entry_cmp(&file("z.txt", 1), &dir("a"), &dirs), Ordering::Less);
    assert_eq!(remote_sender_entry_cmp(&dir("a"), &file("z.txt", 1), &dirs), Ordering::Greater);
    assert_eq!(remote_sender_entry_cmp(&file("a/x", 1), &file("a/y", 1), &dirs), Ordering::Less);
    assert_eq!(remote_sender_entry_cmp(&dir("a"), &file("a/b", 1), &dirs), Ordering::Less);
    assert_eq!(remote_sender_entry_cmp(&file("b", 1), &file("b", 2), &dirs), Ordering::Equal);
}

#[test]
fn sorting_a_file_list_follows_the_sender_order() {
    let mut entries =
        vec![dir("sub"), file("z.txt", 1), dir("."), file("sub/a", 2), file("a.txt", 3)];
    assert_eq!(directory_paths_of(&entries), strings(&["sub", "."]));
    sort_remote_entries_for_sender_indexes(&mut entries);
    let paths: Vec<&str> = entries.iter().map(|e| e.path.as_str()).collect();
    assert_eq!(paths, vec![".", "a.txt", "z.txt", "sub", "sub/a"]);
}

#[test]
fn wire_and_local_kinds_map_to_filter_kinds() {
    assert_eq!(entry_kind_from_wire(WireFileType::Directory), EntryKind::Directory);
    assert_eq!(entry_kind_from_wire(WireFileType::Symlink), EntryKind::File);
    assert_eq!(entry_kind_from_fs(FileType::Directory), EntryKind::Directory);
    assert_eq!(entry_kind_from_fs(FileType::Device), EntryKind::File);
}

#[test]
fn remote_filter_checks_walk_every_leading_directory() {
    let sender = rules(&["- *.tmp", "- build/"]);
    assert!(remote_source_path_is_filtered(&sender, "a/b.tmp", WireFileType::File));
    assert!(remote_source_path_is_filtered(&sender, "build/out.txt", WireFileType::File));
    assert!(!remote_source_path_is_filtered(&sender, "a/b.txt", WireFileType::File));
    assert!(remote_source_path_is_filtered(&sender, "./a", WireFileType::File));
    assert!(remote_source_path_is_filtered(&sender, "a/../b", WireFileType::File));

    let receiver = rules(&["P keep/"]);
    assert!(remote_receiver_path_is_filtered(&receiver, "keep/x", WireFileType::File));
    assert!(!remote_receiver_path_is_filtered(&receiver, "other/x", WireFileType::File));
}

#[test]
fn receiver_selects_top_dir_and_unfiltered_entries() {
    let entries = vec![dir("."), file("a.txt", 1), file("b.tmp", 1), dir("d"), file("d/c", 1)];
    let excluded = rules(&["- *.tmp"]);
    assert_eq!(selected_remote_entry_indexes(&entries, &excluded, None), vec![0, 1, 3, 4]);
    let only_d = strings(&["d"]);
    assert_eq!(selected_remote_entry_indexes(&entries, &excluded, Some(&only_d)), vec![0, 3, 4]);

    let picked = selected_remote_entries(&entries, &[0, 2]);
    let paths: Vec<&str> = picked.iter().map(|e| e.path.as_str()).collect();
    assert_eq!(paths, vec![".", "b.tmp"]);
}

#[test]
fn file_indexes_are_checked_against_the_list() {
    assert_eq!(checked_file_index(2, 3), Ok(2));
    assert_eq!(
        checked_file_index(3, 3),
        Err(RemoteIndexError::InvalidFileIndex { index: 3, file_count: 3 })
    );
    assert_eq!(
        checked_file_index(-1, 3),
        Err(RemoteIndexError::InvalidFileIndex { index: -1, file_count: 3 })
    );
    assert_eq!(checked_remote_file_index(5, 3, 3), Ok(2));
    assert_eq!(
        checked_remote_file_index(i32::MIN, 3, 1),
        Err(RemoteIndexError::InvalidFileIndex { index: i32::MIN, file_count: 3 })
    );
    assert_eq!(remote_file_index_offset(&[]), 0);
}

#[test]
fn wire_indexes_stay_within_i32() {
    assert_eq!(remote_wire_index(5, 10), Ok(15));
    assert_eq!(
        remote_wire_index(i32::MAX as usize, 1),
        Err(RemoteIndexError::IndexOverflow { index: i32::MAX as usize, offset: 1 })
    );
    assert_eq!(
        remote_wire_index(i32::MAX as usize + 1, 0),
        Err(RemoteIndexError::IndexOutOfRange { index: i32::MAX as usize + 1 })
    );
}

#[test]
fn incremental_markers_name_directory_parents() {
    let entries = vec![dir("."), file("a", 1), dir("d")];
    assert_eq!(incremental_parent_index(-101, &entries), Ok(0));
    assert_eq!(incremental_parent_index(-103, &entries), Ok(2));
    assert_eq!(
        incremental_parent_index(-102, &entries),
        Err(RemoteIndexError::NonDirectoryParent { path: "a".to_string() })
    );
    assert_eq!(incremental_parent_index(-100, &entries), Err(RemoteIndexError::InvalidMarker {
        index: -100,
    }));
    assert_eq!(
        incremental_parent_index(-200, &entries),
        Err(RemoteIndexError::ParentOutOfRange { parent_index: 99, entries: 3 })
    );
    assert_eq!(
        incremental_parent_index(i32::MAX, &entries),
        Err(RemoteIndexError::MarkerOverflow { index: i32::MAX })
    );
}

#[test]
fn remote_messages_are_listed_under_a_heading() {
    let mut out = "x\n".to_string();
    append_remote_messages(&mut out, &[]);
    assert_eq!(out, "x\n");
    append_remote_messages(&mut out, &strings(&["hi", "there"]));
    assert_eq!(out, "x\nremote messages:\n- hi\n- there\n");
}

#[test]
fn single_file_sources_come_from_pull_operands() {
    let paths = strings(&["dir/file.txt", "dir/", "other"]);
    assert_eq!(remote_single_file_source_basenames(true, &paths), strings(&["file.txt"]));
    assert!(remote_single_file_source_basenames(false, &paths).is_empty());
}

#[test]
fn sender_claims_are_checked_unless_trusted() {
    let no_rules = RuleSet::empty();
    let plan = RemoteClaimPlan {
        trust_sender: false,
        old_args: false,
        pull: true,
        remote_paths: strings(&["src/file.txt"]),
    };
    assert_eq!(validate_remote_sender_claims(&plan, &no_rules, &[dir("."), file("file.txt", 1)]), Ok(()));
    let err = validate_remote_sender_claims(&plan, &no_rules, &[dir("."), file("evil.txt", 1)])
        .unwrap_err();
    assert_eq!(err, SenderClaimError::Unrequested { path: "evil.txt".to_string() });
    assert_eq!(
        err.message(),
        "remote sender sent unrequested path `evil.txt`; use --trust-sender to accept remote file-list names"
    );

    let trusted = RemoteClaimPlan { trust_sender: true, ..plan };
    assert_eq!(validate_remote_sender_claims(&trusted, &no_rules, &[file("evil.txt", 1)]), Ok(()));

    let open_plan =
        RemoteClaimPlan { trust_sender: false, old_args: true, pull: true, remote_paths: vec![] };
    let excluded = rules(&["- *.tmp"]);
    let err =
        validate_remote_sender_claims(&open_plan, &excluded, &[file("a.txt", 1), file("b.tmp", 1)])
            .unwrap_err();
    assert_eq!(err, SenderClaimError::Filtered { path: "b.tmp".to_string() });
    assert_eq!(
        err.message(),
        "remote sender sent filtered path `b.tmp`; use --trust-sender to accept remote file-list names"
    );
}

fn source(path: &str, len: u64) -> RemoteSourceEntry {
    RemoteSourceEntry { wire: file(path, len), local_path: format!("/local/{path}") }
}

#[test]
fn batch_builder_refuses_a_zero_batch_size() {
    assert_eq!(
        RemoteSourceEntryBatchBuilder::with_max_alloc(0, None).err(),
        Some(TransferError::ZeroBatchSize)
    );
}

#[test]
fn batch_builder_numbers_batches_consecutively() {
    let mut builder = RemoteSourceEntryBatchBuilder::with_max_alloc(2, None).unwrap();
    assert!(builder.push(source("a", 1), 10).unwrap().is_none());
    let first = builder.push(source("b", 1), 10).unwrap().unwrap();
    assert_eq!(first.base_index, 0);
    assert!(!first.is_final);
    let names: Vec<&str> = first.entries.iter().map(|e| e.wire.path.as_str()).collect();
    assert_eq!(names, vec!["a", "b"]);
    assert!(builder.push(source("c", 1), 10).unwrap().is_none());
    let last = builder.finish();
    assert_eq!(last.base_index, 2);
    assert!(last.is_final);
    assert_eq!(last.entries.len(), 1);
    let wire = last.file_list_batch();
    assert_eq!(wire.base_index, 2);
    assert!(wire.is_final);
    assert_eq!(wire.entries[0].path, "c");
}

#[test]
fn batch_builder_flushes_before_the_allocation_limit() {
    let mut builder = RemoteSourceEntryBatchBuilder::with_max_alloc(100, Some(10)).unwrap();
    assert!(builder.push(source("a", 1), 6).unwrap().is_none());
    assert!(builder.should_flush_before(6));
    assert!(!builder.should_flush_before(4));
    let batch = builder.push(source("b", 1), 6).unwrap().unwrap();
    assert_eq!(batch.base_index, 0);
    assert_eq!(batch.entries.len(), 1);
    assert_eq!(
        builder.push(source("huge", 1), 11).err(),
        Some(TransferError::AllocationExceedsLimit {
            label: "file-list batch entry",
            bytes: 11,
            limit: 10
        })
    );
    let rest = builder.finish();
    assert_eq!(rest.base_index, 2);
    assert!(rest.entries.is_empty());
}

#[test]
fn file_summary_counts_regular_files() {
    let entries = vec![
        source("a", 3),
        RemoteSourceEntry { wire: dir("d"), local_path: "/local/d".to_string() },
        source("b", 4),
    ];
    assert_eq!(remote_entries_file_summary(&entries), (2, 7));
}

fn remote(host: &str, path: &str) -> RemoteShellOperand {
    RemoteShellOperand { host: host.to_string(), path: path.to_string() }
}

#[test]
fn session_labels_name_direction_and_operand() {
    assert_eq!(remote_session_label(None, 0, TransferDirection::Push), "remote");
    let r = remote("h", "/p");
    assert_eq!(remote_session_label(Some(&r), 1, TransferDirection::Push), "to h:/p");
    assert_eq!(remote_session_label(Some(&r), 1, TransferDirection::Pull), "from h:/p");
    assert_eq!(remote_session_label(Some(&r), 3, TransferDirection::Pull), "3 sources from h");
}

#[test]
fn source_summaries_list_sources() {
    let mut out = String::new();
    append_sources_summary(&mut out, &strings(&["a"]));
    assert_eq!(out, "source: a\n");
    let mut out = String::new();
    append_sources_summary(&mut out, &strings(&["a", "b"]));
    assert_eq!(out, "sources: 2\n- source a\n- source b\n");
}

#[test]
fn push_destination_summary_names_daemon_or_remote() {
    let daemon = DaemonOperand {
        host: "h".to_string(),
        module: Some("mod".to_string()),
        path: Some("sub".to_string()),
    };
    let mut out = String::new();
    assert_eq!(append_push_destination_summary(&mut out, Some(&daemon), None), Ok(()));
    assert_eq!(out, "destination: h::mod/sub\n");

    let no_module = DaemonOperand { host: "h".to_string(), module: None, path: None };
    let mut out = String::new();
    assert_eq!(
        append_push_destination_summary(&mut out, Some(&no_module), None),
        Err(SummaryError::PushWithoutModule)
    );
    assert_eq!(out, "");
    assert_eq!(SummaryError::PushWithoutModule.message(), "daemon push requires a module");

    let r = remote("h", "/p");
    let mut out = String::new();
    assert_eq!(append_push_destination_summary(&mut out, None, Some(&r)), Ok(()));
    assert_eq!(out, "destination: h:/p\n");
    assert_eq!(
        append_push_destination_summary(&mut String::new(), None, None),
        Err(SummaryError::NoRemoteOperand)
    );
}

#[test]
fn pull_source_summary_falls_back_to_the_planned_operand() {
    let r = remote("h", "/p");
    let mut out = String::new();
    assert_eq!(append_pull_sources_summary(&mut out, None, Some(&r), &[]), Ok(()));
    assert_eq!(out, "source: h:/p\n");

    let many = vec![remote("h", "/a"), remote("h", "/b")];
    let mut out = String::new();
    assert_eq!(append_pull_sources_summary(&mut out, None, Some(&r), &many), Ok(()));
    assert_eq!(out, "sources: 2\n- source h:/a\n- source h:/b\n");

    let daemon = DaemonOperand { host: "h".to_string(), module: Some("m".to_string()), path: None };
    let mut out = String::new();
    assert_eq!(append_pull_sources_summary(&mut out, Some(&daemon), None, &[]), Ok(()));
    assert_eq!(out, "source: h::m\n");
    let no_module = DaemonOperand { host: "h".to_string(), module: None, path: None };
    assert_eq!(
        append_pull_sources_summary(&mut String::new(), Some(&no_module), None, &[]),
        Err(SummaryError::PullWithoutModule)
    );
}

#[test]
fn quick_check_note_appears_only_when_nothing_was_sent() {
    let mut out = String::new();
    append_remote_push_quick_check_note(&mut out, false, UpdateMode::QuickCheck, 2, 10, 0, 0);
    assert!(out.starts_with("transfer note: no file data was sent;"));
    assert!(out.ends_with("force content verification or retransmission\n"));
    let mut out = String::new();
    append_remote_push_quick_check_note(&mut out, true, UpdateMode::QuickCheck, 2, 10, 0, 0);
    append_remote_push_quick_check_note(&mut out, false, UpdateMode::Checksum, 2, 10, 0, 0);
    append_remote_push_quick_check_note(&mut out, false, UpdateMode::QuickCheck, 2, 10, 1, 0);
    assert_eq!(out, "");
}

#[test]
fn wire_mode_applies_chmod_to_files_and_directories() {
    let meta = PortableMetadata::file(3).with_mode(0o644);
    assert_eq!(remote_wire_mode(&meta, WireFileType::File, "a.txt", false, None), 0o100644);
    assert_eq!(remote_wire_mode(&meta, WireFileType::File, "run.exe", true, None), 0o100755);
    let chmod = "F600".parse::<ChmodRules>().unwrap();
    assert_eq!(remote_wire_mode(&meta, WireFileType::File, "a.txt", false, Some(&chmod)), 0o100600);
    let dir_meta = PortableMetadata::directory().with_mode(0o755);
    assert_eq!(
        remote_wire_mode(&dir_meta, WireFileType::Directory, "d", false, Some(&chmod)),
        0o040755
    );
}

#[test]
fn hard_link_groups_need_more_than_one_link() {
    let mut meta = PortableMetadata::file(3);
    meta.hardlink_id = Some(HardlinkId { volume: 7, file: 9 });
    meta.hardlink_count = Some(2);
    assert_eq!(remote_hardlink_group(&meta, true), Some(RemoteHardLinkGroup { device: 7, inode: 9 }));
    assert_eq!(remote_hardlink_group(&meta, false), None);
    meta.hardlink_count = Some(1);
    assert_eq!(remote_hardlink_group(&meta, true), None);
}

#[test]
fn followed_directory_links_resolve_from_the_link() {
    let link = PortableMetadata::symlink("../target");
    let copied = PortableMetadata::directory();
    assert_eq!(
        remote_followed_directory_path("dir/link", &link, &copied, SymlinkMode::CopyUnsafe),
        Some("dir/../target".to_string())
    );
    assert_eq!(remote_followed_directory_path("dir/link", &link, &copied, SymlinkMode::Preserve), None);
    let safe = PortableMetadata::symlink("target");
    assert_eq!(remote_followed_directory_path("dir/link", &safe, &copied, SymlinkMode::CopyUnsafe), None);
    assert_eq!(
        remote_followed_directory_path("dir/link", &safe, &copied, SymlinkMode::CopyDirLinks),
        Some("dir/target".to_string())
    );
    assert_eq!(
        remote_followed_directory_path("dir/link", &safe, &PortableMetadata::file(1), SymlinkMode::CopyAll),
        None
    );
}

#[test]
fn remote_filter_rules_are_written_in_short_form() {
    assert_eq!(format_remote_filter_rule(&Rule::parse_filter("!").unwrap()), "!");
    assert_eq!(format_remote_filter_rule(&Rule::parse_filter("- *.tmp").unwrap()), "- *.tmp");
    assert_eq!(format_remote_filter_rule(&Rule::parse_filter("-,s *.tmp").unwrap()), "-,s *.tmp");
    assert_eq!(format_remote_filter_rule(&Rule::parse_filter("P,p keep").unwrap()), "P,rp keep");
    assert_eq!(format_remote_filter_rule(&Rule::parse_filter("H secret").unwrap()), "H,s secret");
    assert!(filter_rule_can_use_short_arg(&Rule::parse_filter("+ a").unwrap()));
    assert!(!filter_rule_can_use_short_arg(&Rule::parse_filter("-,p a").unwrap()));
}

#[test]
fn remote_filter_args_split_into_includes_excludes_and_filters() {
    let mut includes = Vec::new();
    let mut excludes = Vec::new();
    let mut filters = Vec::new();
    add_remote_filter_rule_arg(&mut includes, &mut excludes, &mut filters, &Rule::parse_filter("+ a").unwrap());
    add_remote_filter_rule_arg(&mut includes, &mut excludes, &mut filters, &Rule::parse_filter("- b").unwrap());
    add_remote_filter_rule_arg(&mut includes, &mut excludes, &mut filters, &Rule::parse_filter("-,p c").unwrap());
    assert_eq!(includes, strings(&["a"]));
    assert_eq!(excludes, strings(&["b"]));
    assert_eq!(filters, strings(&["-,p c"]));

    let file = FilterFile { path: "f".to_string(), contents: Ok(b"x\n- y\n".to_vec()) };
    add_remote_filter_file_args(&mut includes, &mut excludes, &mut filters, &file, false, RuleAction::Include);
    assert_eq!(includes, strings(&["a", "x"]));
    assert_eq!(excludes, strings(&["b", "y"]));
    let unreadable = FilterFile { path: "g".to_string(), contents: Err("gone".to_string()) };
    add_remote_filter_file_args(&mut includes, &mut excludes, &mut filters, &unreadable, false, RuleAction::Include);
    assert_eq!(includes.len(), 2);
}

fn options() -> FilterOptions {
    FilterOptions {
        cvs_exclude: false,
        includes: vec![],
        include_from: vec![],
        excludes: vec![],
        exclude_from: vec![],
        filters: vec![],
        from0: false,
    }
}

#[test]
fn receiver_filter_args_add_cvs_patterns_and_filter_files() {
    let mut o = options();
    o.cvs_exclude = true;
    o.includes = strings(&["keep"]);
    o.exclude_from = vec![FilterFile { path: "ex".to_string(), contents: Ok(b"*.log\n".to_vec()) }];
    let (includes, excludes, filters) =
        remote_receiver_filter_args_from_cli(&o, TransferDirection::Pull);
    assert_eq!(includes, strings(&["keep"]));
    assert_eq!(excludes.len(), cvs_exclude_patterns().len() + 1);
    assert_eq!(excludes[0], "RCS");
    assert_eq!(excludes.last().unwrap(), "*.log");
    assert!(filters.is_empty());
}

#[test]
fn built_filter_rules_report_bad_patterns_and_files() {
    let mut o = options();
    o.includes = strings(&["keep", ""]);
    o.include_from = vec![FilterFile { path: "in".to_string(), contents: Err("boom".to_string()) }];
    o.excludes = strings(&["*.tmp"]);
    o.filters = strings(&["bogus rule"]);
    let mut report = Report::new();
    let rules = build_filter_rules(&o, &mut report);
    assert_eq!(rules.rules().len(), 2);
    let messages: Vec<&str> = report.diagnostics().iter().map(|d| d.message()).collect();
    assert_eq!(
        messages,
        vec![
            "invalid include pattern: filter rule is missing a pattern",
            "could not read filter file in: boom",
            "invalid filter rule: unknown filter rule syntax `bogus`",
        ]
    );
    assert!(report.diagnostics().iter().all(|d| d.severity() == Severity::Error && d.code() == "E_FILTER"));

    let mut cvs = options();
    cvs.cvs_exclude = true;
    let mut report = Report::new();
    assert_eq!(build_filter_rules(&cvs, &mut report).rules().len(), cvs_exclude_patterns().len());
    assert!(report.is_empty());
}

#[test]
fn filter_file_rules_join_the_rule_set() {
    let mut set = RuleSet::empty();
    let mut report = Report::new();
    let file = FilterFile { path: "f".to_string(), contents: Ok(b"a\n!\nb\n".to_vec()) };
    add_filter_file_rules(&mut set, &file, false, RuleAction::Exclude, &mut report);
    assert_eq!(set.rules().len(), 1);
    let bad = FilterFile { path: "f".to_string(), contents: Ok(vec![b'a', 0, b'b']) };
    add_filter_file_rules(&mut set, &bad, false, RuleAction::Exclude, &mut report);
    assert_eq!(
        report.diagnostics()[0].message(),
        "invalid filter file f: filter file input contains NUL at byte 1; use --from0"
    );
}

#[test]
fn rule_errors_read_as_messages() {
    assert_eq!(ParseRuleError::EmptyRule.message(), "filter rule is empty");
    assert_eq!(ParseRuleError::MissingPattern.message(), "filter rule is missing a pattern");
    assert_eq!(ParseRuleError::UnknownRule("x".to_string()).message(), "unknown filter rule syntax `x`");
    assert_eq!(ParseRuleError::InvalidModifier('q').message(), "invalid filter rule modifier `q`");
    assert_eq!(
        ParseRuleError::InvalidUtf8 { offset: 12 }.message(),
        "filter file input is not valid UTF-8 at byte 12"
    );
}

#[test]
fn sorting_source_entries_follows_their_wire_order() {
    let mut entries = vec![
        RemoteSourceEntry { wire: dir("sub"), local_path: "/l/sub".to_string() },
        source("z.txt", 1),
        RemoteSourceEntry { wire: dir("."), local_path: "/l".to_string() },
        source("a.txt", 1),
    ];
    sort_remote_source_entries_for_sender_indexes(&mut entries);
    let paths: Vec<&str> = entries.iter().map(|e| e.local_path.as_str()).collect();
    assert_eq!(paths, vec!["/l", "/local/a.txt", "/local/z.txt", "/l/sub"]);
}
