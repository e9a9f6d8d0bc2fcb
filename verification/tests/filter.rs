use rsync_win::filter::files_from::{
    normalize_files_from_record, normalize_files_from_records, parse_files_from,
    parse_files_from0, parse_files_from_bytes, FilesFromError, FilesFromPathError,
};
use rsync_win::filter::glob::{glob_matches, normalize_filter_path};
use rsync_win::filter::matcher::{EntryKind, RuleSet};
use rsync_win::filter::rule::{ParseRuleError, Pattern, Rule, RuleAction, RuleSide};

#[test]
fn parses_newline_separated_files_from_records() {
    let records = parse_files_from("src/lib.rs\nassets/logo.png\n");

    assert_eq!(records, vec!["src/lib.rs", "assets/logo.png"]);
}

#[test]
fn preserves_spaces_and_strips_crlf_only() {
    let records = parse_files_from("My Documents/file name.txt\r\n trailing-space \n");

    assert_eq!(
        records,
        vec!["My Documents/file name.txt", " trailing-space "]
    );
}

#[test]
fn parses_from0_records_without_treating_newline_specially() {
    let records = parse_files_from0(b"one\nline\0two words\0").unwrap();

    assert_eq!(records, vec!["one\nline", "two words"]);
}

#[test]
fn ignores_empty_records() {
    assert!(parse_files_from("\n\r\n").is_empty());
    assert!(parse_files_from0(b"\0\0").unwrap().is_empty());
}

#[test]
fn bytes_parser_rejects_nul_without_from0() {
    let error = parse_files_from_bytes(b"one\0two", false).unwrap_err();

    assert_eq!(error, FilesFromError::UnexpectedNul { offset: 3 });
}

#[test]
fn bytes_parser_reports_utf8_offsets() {
    let line_error = parse_files_from_bytes(b"ok\n\xff", false).unwrap_err();
    let nul_error = parse_files_from0(b"ok\0\xff").unwrap_err();

    assert_eq!(line_error, FilesFromError::InvalidUtf8 { offset: 3 });
    assert_eq!(nul_error, FilesFromError::InvalidUtf8 { offset: 3 });
}

#[test]
fn normalizes_files_from_paths_and_rejects_root_escape() {
    let records = normalize_files_from_records(&["src\\main.rs", "./assets/logo.png"]).unwrap();

    assert_eq!(records, vec!["src/main.rs", "assets/logo.png"]);
    assert_eq!(
        normalize_files_from_record("../outside").unwrap_err(),
        FilesFromPathError::RootEscape {
            record: "../outside".to_owned()
        }
    );
    assert_eq!(
        normalize_files_from_record("/absolute").unwrap_err(),
        FilesFromPathError::RootEscape {
            record: "/absolute".to_owned()
        }
    );
    assert_eq!(
        normalize_files_from_record("C:/absolute").unwrap_err(),
        FilesFromPathError::RootEscape {
            record: "C:/absolute".to_owned()
        }
    );
}

#[test]
fn glob_star_does_not_cross_path_separators() {
    assert!(glob_matches("src/*.rs", "src/lib.rs"));
    assert!(!glob_matches("src/*.rs", "src/nested/lib.rs"));
}

#[test]
fn glob_double_star_crosses_path_separators() {
    assert!(glob_matches("src/**/mod.rs", "src/a/b/mod.rs"));
    assert!(glob_matches("src/**", "src/a/b/mod.rs"));
    assert!(glob_matches("src/**", "src/"));
}

#[test]
fn glob_supports_question_mark_and_character_classes() {
    assert!(glob_matches("file-?.[ch]", "file-a.c"));
    assert!(glob_matches("file-[!0-9].rs", "file-x.rs"));
    assert!(!glob_matches("file-[!0-9].rs", "file-7.rs"));
    assert!(!glob_matches("file-?.rs", "file-/.rs"));
}

#[test]
fn rule_set_uses_first_matching_rule() {
    let rules = RuleSet::new(vec![
        Rule::include_pattern("keep.tmp").unwrap(),
        Rule::exclude("*.tmp").unwrap(),
    ]);

    let keep = rules.decide("nested/keep.tmp", EntryKind::File);
    let drop = rules.decide("nested/cache.tmp", EntryKind::File);
    let other = rules.decide("nested/readme.md", EntryKind::File);

    assert_eq!(keep.action(), RuleAction::Include);
    assert_eq!(keep.matched_rule_index(), Some(0));
    assert_eq!(drop.action(), RuleAction::Exclude);
    assert_eq!(drop.matched_rule_index(), Some(1));
    assert_eq!(other.action(), RuleAction::Include);
    assert_eq!(other.matched_rule_index(), None);
}

#[test]
fn upstream_include_only_c_sources_example_keeps_directories() {
    let rules = RuleSet::new(vec![
        Rule::parse_filter("+ */").unwrap(),
        Rule::parse_filter("+ *.c").unwrap(),
        Rule::parse_filter("- *").unwrap(),
    ]);

    assert!(rules.is_included("src", EntryKind::Directory));
    assert!(rules.is_included("src/main.c", EntryKind::File));
    assert!(!rules.is_included("src/main.o", EntryKind::File));
    assert!(!rules.is_included("README.md", EntryKind::File));
}

#[test]
fn upstream_hide_and_protect_examples_are_side_specific() {
    let rules = RuleSet::new(vec![
        Rule::parse_filter("hide *.o").unwrap(),
        Rule::parse_filter("protect *.bak").unwrap(),
    ]);

    assert_eq!(
        rules
            .decide_for_side("build/main.o", EntryKind::File, RuleSide::Sender)
            .action(),
        RuleAction::Hide
    );
    assert_eq!(
        rules
            .decide_for_side("archive/old.bak", EntryKind::File, RuleSide::Receiver)
            .action(),
        RuleAction::Protect
    );
    assert!(rules.is_included_for_side("archive/old.bak", EntryKind::File, RuleSide::Sender));
}

#[test]
fn rule_set_exposes_delete_protection_actions() {
    let rules = RuleSet::new(vec![
        Rule::protect("*.bak").unwrap(),
        Rule::risk("scratch/**").unwrap(),
    ]);

    assert_eq!(
        rules.decide("archive/old.bak", EntryKind::File).action(),
        RuleAction::Protect
    );
    assert!(rules.is_included("archive/old.bak", EntryKind::File));
    assert_eq!(
        rules.decide("scratch/tmp.bin", EntryKind::File).action(),
        RuleAction::Risk
    );
}

#[test]
fn normalizes_windows_separators_for_matching() {
    let rules = RuleSet::new(vec![Rule::exclude("/src/*.obj").unwrap()]);

    assert!(!rules.is_included("src\\main.obj", EntryKind::File));
}

#[test]
fn rule_set_honors_sender_receiver_side_modifiers_and_clear_list() {
    let mut rules = RuleSet::empty();
    rules.push(Rule::parse_filter("-s *.obj").unwrap());
    rules.push(Rule::parse_filter("-r *.bak").unwrap());
    rules.push(Rule::parse_filter("!").unwrap());
    rules.push(Rule::parse_filter("+ keep/***").unwrap());
    rules.push(Rule::parse_filter("- *").unwrap());

    assert!(!rules.is_included_for_side("main.obj", EntryKind::File, RuleSide::Sender));
    assert!(!rules.is_included_for_side("main.bak", EntryKind::File, RuleSide::Receiver));
    assert!(rules.is_included_for_side(
        "keep/nested/file.txt",
        EntryKind::File,
        RuleSide::Sender
    ));
    assert!(!rules.is_included_for_side("drop.txt", EntryKind::File, RuleSide::Sender));
}

#[test]
fn trailing_triple_star_matches_directory_and_descendants() {
    let rule = Rule::include_pattern("vendor/***").unwrap();

    assert!(rule.matches("vendor", EntryKind::Directory));
    assert!(rule.matches("vendor/lib.rs", EntryKind::File));
    assert!(rule.matches("nested/vendor/lib.rs", EntryKind::File));
}

#[test]
fn parses_short_include_and_exclude_rules() {
    let included = Rule::parse_filter("+ *.rs").unwrap();
    let exclude = Rule::parse_filter("- /target/").unwrap();

    assert_eq!(included.action(), RuleAction::Include);
    assert_eq!(included.pattern().body(), "*.rs");
    assert!(!included.pattern().is_anchored());

    assert_eq!(exclude.action(), RuleAction::Exclude);
    assert_eq!(exclude.pattern().body(), "target");
    assert!(exclude.pattern().is_anchored());
    assert!(exclude.pattern().is_directory_only());
}

#[test]
fn parses_long_filter_rule_names() {
    let included = Rule::parse_filter("include /src/**").unwrap();
    let exclude = Rule::parse_filter("exclude *.tmp").unwrap();
    let protect = Rule::parse_filter("protect important/").unwrap();
    let risk = Rule::parse_filter("risk scratch/**").unwrap();

    assert_eq!(included.action(), RuleAction::Include);
    assert_eq!(included.pattern().body(), "src/**");
    assert!(included.pattern().is_anchored());
    assert_eq!(exclude.action(), RuleAction::Exclude);
    assert_eq!(protect.action(), RuleAction::Protect);
    assert!(protect.pattern().is_directory_only());
    assert_eq!(risk.action(), RuleAction::Risk);
}

#[test]
fn rejects_rules_without_patterns() {
    assert_eq!(Rule::parse_filter(""), Err(ParseRuleError::EmptyRule));
    assert_eq!(Rule::parse_filter("+"), Err(ParseRuleError::MissingPattern));
    assert_eq!(
        Rule::parse_filter("include"),
        Err(ParseRuleError::MissingPattern)
    );
    assert_eq!(Rule::parse_filter("- /"), Err(ParseRuleError::EmptyPattern));
}

#[test]
fn anchored_patterns_match_from_transfer_root_only() {
    let rule = Rule::exclude("/src/*.tmp").unwrap();

    assert!(rule.matches("src/cache.tmp", EntryKind::File));
    assert!(!rule.matches("nested/src/cache.tmp", EntryKind::File));
}

#[test]
fn unanchored_basename_patterns_match_at_any_depth() {
    let rule = Rule::exclude("*.tmp").unwrap();

    assert!(rule.matches("cache.tmp", EntryKind::File));
    assert!(rule.matches("nested/cache.tmp", EntryKind::File));
    assert!(!rule.matches("nested/cache.tmp.keep", EntryKind::File));
}

#[test]
fn directory_only_patterns_do_not_match_files() {
    let rule = Rule::exclude("build/").unwrap();

    assert!(rule.matches("build", EntryKind::Directory));
    assert!(rule.matches("src/build", EntryKind::Directory));
    assert!(!rule.matches("build", EntryKind::File));
}

#[test]
fn unanchored_path_patterns_can_match_suffix_paths() {
    let rule = Rule::include_pattern("foo/bar/*.rs").unwrap();

    assert!(rule.matches("foo/bar/lib.rs", EntryKind::File));
    assert!(rule.matches("nested/foo/bar/lib.rs", EntryKind::File));
    assert!(!rule.matches("foo/bar/baz/lib.rs", EntryKind::File));
}

#[test]
fn parses_full_filter_rule_actions_and_modifiers() {
    let hide = Rule::parse_filter("hide,s *.obj").unwrap();
    let show = Rule::parse_filter("show,r public/***").unwrap();
    let protect = Rule::parse_filter("Pp *.bak").unwrap();
    let risk = Rule::parse_filter("Rr scratch/**").unwrap();
    let clear = Rule::parse_filter("!").unwrap();
    let merge = Rule::parse_filter(". .rsync-filter").unwrap();
    let dir_merge = Rule::parse_filter(":e .rules").unwrap();

    assert_eq!(hide.action(), RuleAction::Hide);
    assert!(hide.is_sender_side());
    assert!(!hide.is_receiver_side());
    assert_eq!(show.action(), RuleAction::Show);
    assert!(!show.is_sender_side());
    assert!(show.is_receiver_side());
    assert_eq!(protect.action(), RuleAction::Protect);
    assert!(protect.is_perishable());
    assert_eq!(risk.action(), RuleAction::Risk);
    assert_eq!(clear.action(), RuleAction::ClearList);
    assert_eq!(merge.action(), RuleAction::Merge);
    assert_eq!(merge.pattern().body(), ".rsync-filter");
    assert_eq!(dir_merge.action(), RuleAction::DirMerge);
    assert!(dir_merge.matches("nested/.rules", EntryKind::File));
}

#[test]
fn parses_filter_file_records_with_comments_escaping_and_from0() {
    let newline = Rule::parse_filter_file(
        b"
# comment
+ keep/**
- *.tmp
\\#literal
",
        false,
        RuleAction::Exclude,
    )
    .unwrap();

    assert_eq!(newline.len(), 3);
    assert_eq!(newline[0].action(), RuleAction::Include);
    assert_eq!(newline[1].action(), RuleAction::Exclude);
    assert_eq!(newline[2].pattern().raw(), "#literal");

    let nul = Rule::parse_filter_file(b"*.obj\0\\#hash\0\0", true, RuleAction::Include).unwrap();
    assert_eq!(nul.len(), 2);
    assert!(nul.iter().all(|rule| rule.action() == RuleAction::Include));
    assert_eq!(nul[1].pattern().raw(), "#hash");
}

#[test]
fn normalize_filter_path_collapses_separators() {
    assert_eq!(normalize_filter_path("a\\\\b//c/"), "a/b/c/");
    assert_eq!(normalize_filter_path(""), "");
}

#[test]
fn pattern_parse_reports_flags() {
    let pattern = Pattern::parse("/logs/".to_string()).unwrap();
    assert!(pattern.is_anchored());
    assert!(pattern.is_directory_only());
    assert_eq!(pattern.body(), "logs");
    assert_eq!(pattern.raw(), "/logs/");
    assert!(!pattern.has_path_separator());
    assert!(Pattern::parse("src/*.rs".to_string()).unwrap().has_path_separator());
    assert_eq!(Pattern::parse(String::new()), Err(ParseRuleError::MissingPattern));
    assert_eq!(Pattern::parse("/".to_string()), Err(ParseRuleError::EmptyPattern));
}

#[test]
fn unknown_rules_and_modifiers_are_reported() {
    assert!(matches!(
        Rule::parse_filter("frobnicate *.o"),
        Err(ParseRuleError::UnknownRule(_))
    ));
    assert!(matches!(
        Rule::parse_filter("-z *.o"),
        Err(ParseRuleError::InvalidModifier('z'))
    ));
}

#[test]
fn filter_file_reports_invalid_utf8_and_unexpected_nul() {
    assert_eq!(
        Rule::parse_filter_file(b"+ a\n\xff", false, RuleAction::Exclude),
        Err(ParseRuleError::InvalidUtf8 { offset: 4 })
    );
    assert_eq!(
        Rule::parse_filter_file(b"+ a\0b", false, RuleAction::Exclude),
        Err(ParseRuleError::UnexpectedNul { offset: 3 })
    );
}

#[test]
fn files_from_rejects_empty_and_nul_records() {
    assert_eq!(normalize_files_from_record(""), Err(FilesFromPathError::Empty));
    assert_eq!(
        normalize_files_from_record("a\0b"),
        Err(FilesFromPathError::NulByte {
            record: "a\0b".to_owned()
        })
    );
}
