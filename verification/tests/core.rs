use rsync_win::chmod::{ChmodFileKind, ChmodRules};
use rsync_win::diagnostics::{Diagnostic, Report, Severity};
use rsync_win::policy::{
    archive_mode_components, archive_mode_degradations, metadata_policy_degradations,
    ArchiveComponent, MetadataAction, MetadataDegradation, MetadataFeature, MetadataPolicy,
    NtfsNativeMetadataRequest, PosixMetadataRequest, RsyncCoreError,
};

#[test]
fn chmod_accepts_supported_numeric_forms() {
    let all = "0644".parse::<ChmodRules>().unwrap();
    assert_eq!(all.apply(0o100755, ChmodFileKind::File), 0o100644);
    assert_eq!(all.apply(0o040755, ChmodFileKind::Directory), 0o040644);

    let split = "F600,D755".parse::<ChmodRules>().unwrap();
    assert_eq!(split.apply(0o100755, ChmodFileKind::File), 0o100600);
    assert_eq!(split.apply(0o040700, ChmodFileKind::Directory), 0o040755);
}

#[test]
fn chmod_accepts_upstream_symbolic_examples() {
    let split = "Dug=rwx,Dgo=rx,Fu=rw,Fgo=r".parse::<ChmodRules>().unwrap();
    assert_eq!(split.apply(0o040700, ChmodFileKind::Directory), 0o040755);
    assert_eq!(split.apply(0o100777, ChmodFileKind::File), 0o100644);

    let layered = "u=rw,go=r,u+x,g-w,o-r".parse::<ChmodRules>().unwrap();
    assert_eq!(layered.apply(0o100000, ChmodFileKind::File), 0o100740);
}

#[test]
fn chmod_symbolic_supports_conditional_execute_special_bits_and_copying() {
    let conditional = "a+X".parse::<ChmodRules>().unwrap();
    assert_eq!(conditional.apply(0o100644, ChmodFileKind::File), 0o100644);
    assert_eq!(conditional.apply(0o100744, ChmodFileKind::File), 0o100755);
    assert_eq!(
        conditional.apply(0o040644, ChmodFileKind::Directory),
        0o040755
    );

    let special = "u+s,g+s,o+t,a-st".parse::<ChmodRules>().unwrap();
    assert_eq!(special.apply(0o100777, ChmodFileKind::File), 0o100777);

    let copy = "g=u,o=g".parse::<ChmodRules>().unwrap();
    assert_eq!(copy.apply(0o100750, ChmodFileKind::File), 0o100777);
}

#[test]
fn chmod_accepts_short_numeric_modes() {
    let rule = "F0,D755".parse::<ChmodRules>().unwrap();
    assert_eq!(rule.apply(0o100644, ChmodFileKind::File), 0o100000);
    assert_eq!(rule.apply(0o040000, ChmodFileKind::Directory), 0o040755);
}

#[test]
fn chmod_rejects_invalid_forms() {
    for expr in ["F", "999", "u+q", "u", "+", "u+", "z+r"] {
        assert!(
            expr.parse::<ChmodRules>().is_err(),
            "{expr} should be rejected"
        );
    }
}

#[test]
fn metadata_policy_defaults_to_portable() {
    assert_eq!(MetadataPolicy::default(), MetadataPolicy::Portable);
}

#[test]
fn report_tracks_warnings_and_errors() {
    let mut report = Report::new();
    assert!(report.is_empty());
    assert!(!report.has_errors());

    report.info("I000", "discovered environment");
    report.warn("W001", "rsync was not found");
    report.error("E001", "invalid source path");

    assert!(!report.is_empty());
    assert!(report.has_errors());
    assert_eq!(report.diagnostics().len(), 3);
    assert_eq!(report.warnings().len(), 1);
    assert_eq!(report.errors().len(), 1);
}

#[test]
fn diagnostic_can_carry_hint() {
    let diagnostic =
        Diagnostic::warning("W001", "ssh unavailable").with_hint("install OpenSSH client");

    assert_eq!(diagnostic.severity(), Severity::Warning);
    assert_eq!(diagnostic.code(), "W001");
    assert_eq!(diagnostic.message(), "ssh unavailable");
    assert_eq!(diagnostic.hint(), Some("install OpenSSH client"));
}

#[test]
fn parses_metadata_policy_names() {
    assert_eq!(
        "portable".parse::<MetadataPolicy>().unwrap(),
        MetadataPolicy::Portable
    );
    assert_eq!(
        "ntfs-native".parse::<MetadataPolicy>().unwrap(),
        MetadataPolicy::NtfsNative
    );
    assert!("unknown".parse::<MetadataPolicy>().is_err());
}

#[test]
fn archive_mode_reports_unsupported_windows_metadata() {
    let degradations = archive_mode_degradations(MetadataPolicy::Portable);
    assert!(degradations
        .iter()
        .any(|degradation| degradation.feature == MetadataFeature::Owner
            && degradation.action == MetadataAction::Ignored));
    assert!(degradations.iter().any(MetadataDegradation::is_loss));
}

#[test]
fn archive_mode_reports_unimplemented_local_executor_components_for_all_policies() {
    let degradations = archive_mode_degradations(MetadataPolicy::Posix);

    assert!(degradations
        .iter()
        .any(|degradation| degradation.feature == MetadataFeature::Symlink));
    assert!(degradations
        .iter()
        .any(|degradation| degradation.feature == MetadataFeature::Permissions));
}

#[test]
fn posix_metadata_policy_reports_policy_capability_loss() {
    let degradations = metadata_policy_degradations(MetadataPolicy::Posix);

    assert!(degradations
        .iter()
        .any(|degradation| degradation.feature == MetadataFeature::Acl));
    assert!(degradations
        .iter()
        .any(|degradation| degradation.feature == MetadataFeature::Xattr));
    assert!(degradations.iter().all(MetadataDegradation::is_loss));
}

#[test]
fn ntfs_native_metadata_policy_reports_policy_capability_loss() {
    let degradations = metadata_policy_degradations(MetadataPolicy::NtfsNative);

    assert!(degradations
        .iter()
        .any(|degradation| degradation.feature == MetadataFeature::CreationTime));
    assert!(degradations
        .iter()
        .any(|degradation| degradation.feature == MetadataFeature::WindowsAttributes));
    assert!(degradations
        .iter()
        .any(|degradation| degradation.feature == MetadataFeature::AlternateDataStream));
    assert!(degradations.iter().all(MetadataDegradation::is_loss));
}

#[test]
fn posix_request_reports_fake_super_as_stored_sidecar_metadata() {
    let request = PosixMetadataRequest {
        permissions: true,
        owner: true,
        acls: true,
        xattrs: true,
        fake_super: true,
        ..Default::default()
    };

    let degradations = request.degradations(MetadataPolicy::Posix);

    assert!(request.any());
    assert!(degradations.iter().any(|degradation| {
        degradation.feature == MetadataFeature::Acl
            && degradation.action == MetadataAction::Stored
            && !degradation.is_loss()
    }));
    assert!(degradations.iter().any(|degradation| {
        degradation.feature == MetadataFeature::Xattr
            && degradation.action == MetadataAction::Stored
            && !degradation.is_loss()
    }));
    assert!(degradations.iter().any(|degradation| {
        degradation.feature == MetadataFeature::Permissions
            && degradation.action == MetadataAction::Stored
            && !degradation.is_loss()
    }));
}

#[test]
fn numeric_ids_alone_does_not_request_owner_or_group_preservation() {
    let request = PosixMetadataRequest {
        numeric_ids: true,
        ..Default::default()
    };

    let degradations = request.degradations(MetadataPolicy::Portable);

    assert!(request.any());
    assert!(degradations.is_empty());
}

#[test]
fn ntfs_native_request_reports_vss_as_rejected() {
    let degradations = NtfsNativeMetadataRequest::all()
        .with_vss(true)
        .degradations();

    assert!(degradations.iter().any(|degradation| {
        degradation.feature == MetadataFeature::VssSnapshot
            && degradation.action == MetadataAction::Rejected
    }));
}

#[test]
fn policy_names_round_trip() {
    for policy in [
        MetadataPolicy::Portable,
        MetadataPolicy::Posix,
        MetadataPolicy::NtfsNative,
    ] {
        assert_eq!(MetadataPolicy::parse(policy.as_str()).unwrap(), policy);
    }
}

#[test]
fn unknown_policy_error_names_the_value() {
    match MetadataPolicy::parse("fat32") {
        Err(RsyncCoreError::InvalidArgument { name, reason }) => {
            assert_eq!(name, "metadata-policy");
            assert_eq!(
                reason,
                "expected one of portable, posix, ntfs-native; got `fat32`"
            );
        }
        other => panic!("unexpected result {other:?}"),
    }
}

#[test]
fn feature_action_and_archive_labels() {
    assert_eq!(MetadataFeature::AlternateDataStream.label(), "alternate-data-stream");
    assert_eq!(MetadataFeature::VssSnapshot.label(), "vss-snapshot");
    assert_eq!(MetadataAction::Stored.label(), "stored");
    let flags: Vec<&str> = archive_mode_components()
        .iter()
        .map(|component| component.flag())
        .collect();
    assert_eq!(flags, vec!["-r", "-l", "-p", "-t", "-g", "-o", "-D"]);
    assert_eq!(ArchiveComponent::Devices.flag(), "-D");
}

#[test]
fn posix_request_messages_name_the_policy() {
    let request = PosixMetadataRequest {
        permissions: true,
        chown: true,
        ..Default::default()
    };
    let degradations = request.degradations(MetadataPolicy::Posix);
    assert_eq!(degradations.len(), 3);
    assert_eq!(
        degradations[0].message,
        "--perms requests POSIX mode preservation; posix local transfers record mode intent but do not chmod Windows destinations yet"
    );
    assert_eq!(degradations[0].action, MetadataAction::Degraded);
    assert_eq!(degradations[1].feature, MetadataFeature::Owner);
    assert_eq!(degradations[2].feature, MetadataFeature::Group);
    assert!(PosixMetadataRequest::default().degradations(MetadataPolicy::Posix).is_empty());
    assert!(!PosixMetadataRequest::default().any());
}

#[test]
fn fake_super_only_loses_symlink_mtime() {
    let request = PosixMetadataRequest {
        permissions: true,
        owner: true,
        group: true,
        symlink_mtime: true,
        atimes: true,
        fake_super: true,
        ..Default::default()
    };
    let lost: Vec<_> = request
        .degradations(MetadataPolicy::Portable)
        .into_iter()
        .filter(|degradation| degradation.is_loss())
        .collect();
    assert_eq!(lost.len(), 1);
    assert_eq!(lost[0].feature, MetadataFeature::SymlinkMtime);
}

#[test]
fn archive_mode_messages_name_the_policy() {
    let degradations = archive_mode_degradations(MetadataPolicy::NtfsNative);
    assert_eq!(degradations.len(), 5);
    assert_eq!(
        degradations[0].message,
        "archive mode requests symlink preservation; ntfs-native transfers do not apply symlink preservation in the local executor yet"
    );
    assert!(degradations.iter().all(MetadataDegradation::is_loss));
    assert!(metadata_policy_degradations(MetadataPolicy::Portable).is_empty());
}

#[test]
fn ntfs_request_entries_follow_the_options() {
    let request = NtfsNativeMetadataRequest::all();
    assert!(!request.vss_snapshot);
    let degradations = request.degradations();
    assert_eq!(degradations.len(), 6);
    assert_eq!(degradations[5].feature, MetadataFeature::ReparsePoint);
    assert!(NtfsNativeMetadataRequest::default().degradations().is_empty());
}

#[test]
fn report_extend_keeps_order_and_filters_by_severity() {
    let mut report = Report::default();
    report.push(Diagnostic::info("I1", "one"));
    report.extend(vec![
        Diagnostic::error("E1", "two"),
        Diagnostic::new(Severity::Warning, "W1", "three"),
    ]);
    let codes: Vec<&str> = report.diagnostics().iter().map(|d| d.code()).collect();
    assert_eq!(codes, vec!["I1", "E1", "W1"]);
    assert_eq!(report.errors()[0].message(), "two");
    assert_eq!(report.warnings()[0].code(), "W1");
    assert_eq!(report.diagnostics()[0].hint(), None);
    let all = report.into_diagnostics();
    assert_eq!(all.len(), 3);
    assert_eq!(all[2].severity(), Severity::Warning);
}

#[test]
fn chmod_errors_name_the_reason_and_value() {
    let expect = |value: &str, reason: &str| match ChmodRules::parse(value) {
        Err(RsyncCoreError::InvalidArgument { name, reason: message }) => {
            assert_eq!(name, "chmod");
            assert_eq!(message, format!("{reason}: `{value}`"));
        }
        other => panic!("unexpected result for {value}: {other:?}"),
    };
    expect("u+r,,g+w", "empty chmod component");
    expect("F", "missing chmod expression after file type prefix");
    expect("ug", "missing chmod operation");
    expect("u*r", "expected chmod operation +, -, or =");
    expect("u+q", "unsupported chmod permission `q`");
    expect("u+", "chmod + and - operations require at least one permission");
    expect("999", "expected chmod operation +, -, or =");
}

#[test]
fn chmod_rules_keep_file_type_and_handle_empty_assignment() {
    let rules = "a=".parse::<ChmodRules>().unwrap();
    assert!(!rules.is_empty());
    assert_eq!(rules.apply(0o120777, ChmodFileKind::File), 0o120000);
    let rules = " D0700 , F+x ".parse::<ChmodRules>().unwrap();
    assert_eq!(rules.apply(0o040555, ChmodFileKind::Directory), 0o040700);
    assert_eq!(rules.apply(0o100644, ChmodFileKind::File), 0o100755);
    let sticky = "+t".parse::<ChmodRules>().unwrap();
    assert_eq!(sticky.apply(0o040755, ChmodFileKind::Directory), 0o041755);
}
