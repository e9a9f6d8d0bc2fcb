use vstd::prelude::*;
use vstd::string::StringExecFns;

use crate::chmod::{parse_chmod, ChmodRules};
use crate::decimal::{decimal_of, decimal_text};
use crate::diagnostics::{Report, Severity};
use crate::fs::paths::components_view;
use crate::policy::MetadataPolicy;
use crate::text::join3;

verus! {

/// The options of a transfer as the command line gave them, as far as the option checks read
/// them. A path option holds the path as it is displayed.
pub struct CliOptions {
    pub paths: Vec<String>,
    pub dry_run: bool,
    pub list_only: bool,
    pub numeric_ids: bool,
    pub chmod: Option<String>,
    pub compress: bool,
    pub partial: bool,
    pub inplace: bool,
    pub append_verify: bool,
    pub links: bool,
    pub no_links: bool,
    pub copy_links: bool,
    pub copy_dirlinks: bool,
    pub keep_dirlinks: bool,
    pub safe_links: bool,
    pub copy_unsafe_links: bool,
    pub munge_links: bool,
    pub hard_links: bool,
    pub devices: bool,
    pub specials: bool,
    pub copy_devices: bool,
    pub write_devices: bool,
    pub preserve_permissions: bool,
    pub preserve_owner: bool,
    pub preserve_group: bool,
    pub executability: bool,
    pub acls: bool,
    pub xattrs: bool,
    pub fake_super: bool,
    pub atimes: bool,
    pub crtimes: bool,
    pub omit_dir_times: bool,
    pub omit_link_times: bool,
    pub vss: bool,
    pub no_owner: bool,
    pub no_group: bool,
    pub user_maps: Vec<String>,
    pub group_maps: Vec<String>,
    pub chown: Option<String>,
    pub checksum_choice: Option<String>,
    pub checksum_seed: Option<i32>,
    pub compress_choice: Option<String>,
    pub compress_level: Option<u32>,
    pub compress_threads: Option<usize>,
    pub skip_compress: Vec<String>,
    pub remote_shell: Option<String>,
    pub rsync_path: Option<String>,
    pub blocking_io: bool,
    pub old_args: bool,
    pub secluded_args: bool,
    pub trust_sender: bool,
    pub ipv4: bool,
    pub ipv6: bool,
    pub partial_dir: Option<String>,
    pub temp_dir: Option<String>,
    pub delay_updates: bool,
    pub accepted_unsupported_options: Vec<String>,
    pub compare_dest: Vec<String>,
    pub copy_dest: Vec<String>,
    pub link_dest: Vec<String>,
    pub sparse: bool,
    pub preallocate: bool,
    pub fuzzy: bool,
    pub copy_as: Option<String>,
    pub super_flag: bool,
    pub write_batch: Option<String>,
    pub only_write_batch: Option<String>,
    pub read_batch: Option<String>,
    pub bwlimit: Option<String>,
    pub timeout_secs: Option<u64>,
    pub stop_after_minutes: Option<u64>,
    pub time_limit_minutes: Option<u64>,
    pub stop_at: Option<String>,
    pub max_alloc: Option<String>,
    pub early_input: Option<String>,
    pub outbuf: Option<String>,
    pub protocol_version: Option<u32>,
    pub iconv: Option<String>,
    pub open_noatime: bool,
    pub min_size: Option<u64>,
    pub max_size: Option<u64>,
    pub ignore_missing_args: bool,
    pub delete_missing_args: bool,
    pub existing: bool,
    pub ignore_existing: bool,
    pub metadata_policy: MetadataPolicy,
    pub daemon_server: bool,
    pub internal_server: bool,
    pub internal_sender: bool,
    pub password_file: Option<String>,
    pub daemon_no_motd: bool,
    pub archive: bool,
    pub no_permissions: bool,
    pub inc_recursive: bool,
    pub no_inc_recursive: bool,
    pub delete: bool,
    pub delete_mode: crate::fs::sync::DeleteMode,
    pub no_devices: bool,
    pub no_specials: bool,
    pub ignore_times: bool,
    pub checksum: bool,
    pub size_only: bool,
    pub whole_file: bool,
    pub verbosity: u8,
    pub block_size: Option<u64>,
    pub remote_options: Vec<String>,
    pub filter_options: crate::plan::filters::FilterOptions,
    pub recursive: bool,
    pub no_recursive: bool,
    pub preserve_times: bool,
    pub no_times: bool,
    pub backup: bool,
    pub backup_dir: Option<String>,
    pub suffix: Option<String>,
}

/// A diagnostic as a report holds it: severity, code, message and no hint.
pub open spec fn note(severity: Severity, code: Seq<char>, message: Seq<char>) -> (
    Severity,
    Seq<char>,
    Seq<char>,
    Option<Seq<char>>,
) {
    (severity, code, message, None)
}

/// One diagnostic when `enabled`, else none.
#[verifier::opaque]
pub open spec fn note_when(enabled: bool, severity: Severity, code: Seq<char>, message: Seq<char>) -> Seq<
    (Severity, Seq<char>, Seq<char>, Option<Seq<char>>),
> {
    if enabled {
        seq![note(severity, code, message)]
    } else {
        Seq::empty()
    }
}

/// A diagnostic `prefix value suffix` when there is a value, else none.
#[verifier::opaque]
pub open spec fn value_note(
    severity: Severity,
    code: Seq<char>,
    prefix: Seq<char>,
    value: Option<Seq<char>>,
    suffix: Seq<char>,
) -> Seq<(Severity, Seq<char>, Seq<char>, Option<Seq<char>>)> {
    match value {
        Some(v) => seq![note(severity, code, prefix + v + suffix)],
        None => Seq::empty(),
    }
}

/// One diagnostic `prefix item suffix` for each item, in order.
pub open spec fn each_note(
    severity: Severity,
    code: Seq<char>,
    prefix: Seq<char>,
    items: Seq<Seq<char>>,
    suffix: Seq<char>,
) -> Seq<(Severity, Seq<char>, Seq<char>, Option<Seq<char>>)>
    decreases items.len(),
{
    if items.len() == 0 {
        Seq::empty()
    } else {
        each_note(severity, code, prefix, items.drop_last(), suffix).push(
            note(severity, code, prefix + items.last() + suffix),
        )
    }
}

/// The text of an optional string.
pub open spec fn text_of(value: Option<String>) -> Option<Seq<char>> {
    match value {
        Some(v) => Some(v@),
        None => None,
    }
}

/// The decimal text of an optional number.
pub open spec fn number_text(value: Option<nat>) -> Option<Seq<char>> {
    match value {
        Some(v) => Some(decimal_of(v)),
        None => None,
    }
}

/// A signed number in decimal.
pub open spec fn signed_decimal(v: int) -> Seq<char> {
    if v < 0 {
        seq!['-'] + decimal_of((-v) as nat)
    } else {
        decimal_of(v as nat)
    }
}

pub(crate) fn push_note_when(
    report: &mut Report,
    enabled: bool,
    severity: Severity,
    code: &'static str,
    message: &'static str,
)
    ensures
        final(report)@ == old(report)@ + note_when(enabled, severity, code@, message@),
{
    reveal(note_when);
    if enabled {
        match severity {
            Severity::Info => report.info(code, message),
            Severity::Warning => report.warn(code, message),
            Severity::Error => report.error(code, message),
        }
        assert(report@ =~= old(report)@ + note_when(enabled, severity, code@, message@));
    } else {
        assert(report@ =~= old(report)@ + note_when(enabled, severity, code@, message@));
    }
}

fn push_value_note(
    report: &mut Report,
    severity: Severity,
    code: &'static str,
    prefix: &'static str,
    value: Option<&str>,
    suffix: &'static str,
)
    ensures
        final(report)@ == old(report)@ + value_note(
            severity,
            code@,
            prefix@,
            match value {
                Some(v) => Some(v@),
                None => None,
            },
            suffix@,
        ),
{
    reveal(value_note);
    match value {
        Some(v) => {
            let message = join3(prefix, v, suffix);
            match severity {
                Severity::Info => report.info(code, message.as_str()),
                Severity::Warning => report.warn(code, message.as_str()),
                Severity::Error => report.error(code, message.as_str()),
            }
            assert(report@ =~= old(report)@ + seq![note(severity, code@, prefix@ + v@ + suffix@)]);
        },
        None => {
            assert(report@ =~= old(report)@ + Seq::<(Severity, Seq<char>, Seq<char>, Option<Seq<char>>)>::empty());
        },
    }
}

fn push_number_note(
    report: &mut Report,
    code: &'static str,
    prefix: &'static str,
    value: Option<u64>,
    suffix: &'static str,
)
    ensures
        final(report)@ == old(report)@ + value_note(
            Severity::Info,
            code@,
            prefix@,
            match value {
                Some(v) => Some(decimal_of(v as nat)),
                None => None,
            },
            suffix@,
        ),
{
    match value {
        Some(v) => {
            let digits = decimal_text(v as u128);
            push_value_note(report, Severity::Info, code, prefix, Some(digits.as_str()), suffix);
        },
        None => push_value_note(report, Severity::Info, code, prefix, None, suffix),
    }
}

fn push_each_note(
    report: &mut Report,
    severity: Severity,
    code: &'static str,
    prefix: &'static str,
    items: &Vec<String>,
    suffix: &'static str,
)
    ensures
        final(report)@ == old(report)@ + each_note(
            severity,
            code@,
            prefix@,
            components_view(items@),
            suffix@,
        ),
{
    let ghost start = report@;
    let ghost iv = components_view(items@);
    let mut i: usize = 0;
    assert(iv.take(0) =~= Seq::<Seq<char>>::empty());
    assert(report@ =~= start + each_note(severity, code@, prefix@, iv.take(0), suffix@));
    while i < items.len()
        invariant
            i <= items@.len(),
            iv == components_view(items@),
            report@ == start + each_note(severity, code@, prefix@, iv.take(i as int), suffix@),
        decreases items.len() - i,
    {
        let message = join3(prefix, items[i].as_str(), suffix);
        assert(iv[i as int] == items@[i as int]@);
        match severity {
            Severity::Info => report.info(code, message.as_str()),
            Severity::Warning => report.warn(code, message.as_str()),
            Severity::Error => report.error(code, message.as_str()),
        }
        assert(iv.take(i + 1).drop_last() =~= iv.take(i as int));
        assert(report@ =~= start + each_note(severity, code@, prefix@, iv.take(i + 1), suffix@));
        i = i + 1;
    }
    assert(iv.take(iv.len() as int) =~= iv);
}

fn optional_str(value: &Option<String>) -> (r: Option<&str>)
    ensures
        match r {
            Some(v) => Some(v@),
            None => None::<Seq<char>>,
        } == text_of(*value),
{
    match value {
        Some(v) => Some(v.as_str()),
        None => None,
    }
}

/// The boolean options a plan carries, each with its flag, in the order they are reported.
pub open spec fn carried_flags(o: CliOptions) -> Seq<(bool, Seq<char>)> {
    seq![
        (o.compress, "-z/--compress"@),
        (o.partial, "--partial"@),
        (o.inplace, "--inplace"@),
        (o.append_verify, "--append-verify"@),
        (o.copy_links, "--copy-links"@),
        (o.copy_dirlinks, "--copy-dirlinks"@),
        (o.keep_dirlinks, "--keep-dirlinks"@),
        (o.safe_links, "--safe-links"@),
        (o.copy_unsafe_links, "--copy-unsafe-links"@),
        (o.munge_links, "--munge-links"@),
        (o.hard_links, "--hard-links"@),
        (o.devices, "--devices"@),
        (o.specials, "--specials"@),
        (o.copy_devices, "--copy-devices"@),
        (o.write_devices, "--write-devices"@),
        (o.preserve_permissions, "--perms"@),
        (o.preserve_owner, "--owner"@),
        (o.preserve_group, "--group"@),
        (o.executability, "--executability"@),
        (o.acls, "--acls"@),
        (o.xattrs, "--xattrs"@),
        (o.fake_super, "--fake-super"@),
        (o.atimes, "--atimes"@),
        (o.crtimes, "--crtimes"@),
        (o.omit_dir_times, "--omit-dir-times"@),
        (o.omit_link_times, "--omit-link-times"@),
        (o.vss, "--vss"@),
        (o.no_owner, "--no-o"@),
        (o.no_group, "--no-g"@),
    ]
}

/// One note for each enabled flag, in order.
pub open spec fn flag_notes(flags: Seq<(bool, Seq<char>)>) -> Seq<
    (Severity, Seq<char>, Seq<char>, Option<Seq<char>>),
>
    decreases flags.len(),
{
    if flags.len() == 0 {
        Seq::empty()
    } else {
        flag_notes(flags.drop_last()) + note_when(
            flags.last().0,
            Severity::Info,
            "I_OPTION_PARSED"@,
            flags.last().1 + " is represented in the execution plan"@,
        )
    }
}

/// The notes on `--numeric-ids`, `--chmod` and the carried boolean options.
#[verifier::opaque]
pub open spec fn flag_section(o: CliOptions) -> Seq<(Severity, Seq<char>, Seq<char>, Option<Seq<char>>)> {
    note_when(
        o.numeric_ids,
        Severity::Warning,
        "W_UNSUPPORTED_OPTION"@,
        "--numeric-ids is parsed as an owner/group id mapping modifier; it has no local effect unless owner/group preservation is requested"@,
    ) + note_when(
        match o.chmod {
            Some(c) => parse_chmod(c@) is Ok,
            None => false,
        },
        Severity::Info,
        "I_OPTION_PARSED"@,
        "--chmod is applied to POSIX mode bits for remote uploads; local Windows destinations do not chmod files"@,
    ) + flag_notes(carried_flags(o))
}

#[verifier::rlimit(40)]
fn add_flag_section(o: &CliOptions, report: &mut Report)
    ensures
        final(report)@ == old(report)@ + flag_section(*o),
{
    reveal(note_when);
    reveal(flag_section);
    let ghost start = report@;
    push_note_when(
        report,
        o.numeric_ids,
        Severity::Warning,
        "W_UNSUPPORTED_OPTION",
        "--numeric-ids is parsed as an owner/group id mapping modifier; it has no local effect unless owner/group preservation is requested",
    );
    let chmod_parses = match &o.chmod {
        Some(c) => ChmodRules::parse(c.as_str()).is_ok(),
        None => false,
    };
    push_note_when(
        report,
        chmod_parses,
        Severity::Info,
        "I_OPTION_PARSED",
        "--chmod is applied to POSIX mode bits for remote uploads; local Windows destinations do not chmod files",
    );
    let ghost mid = report@;
    let flags: Vec<(bool, &'static str)> = vec![
        (o.compress, "-z/--compress"),
        (o.partial, "--partial"),
        (o.inplace, "--inplace"),
        (o.append_verify, "--append-verify"),
        (o.copy_links, "--copy-links"),
        (o.copy_dirlinks, "--copy-dirlinks"),
        (o.keep_dirlinks, "--keep-dirlinks"),
        (o.safe_links, "--safe-links"),
        (o.copy_unsafe_links, "--copy-unsafe-links"),
        (o.munge_links, "--munge-links"),
        (o.hard_links, "--hard-links"),
        (o.devices, "--devices"),
        (o.specials, "--specials"),
        (o.copy_devices, "--copy-devices"),
        (o.write_devices, "--write-devices"),
        (o.preserve_permissions, "--perms"),
        (o.preserve_owner, "--owner"),
        (o.preserve_group, "--group"),
        (o.executability, "--executability"),
        (o.acls, "--acls"),
        (o.xattrs, "--xattrs"),
        (o.fake_super, "--fake-super"),
        (o.atimes, "--atimes"),
        (o.crtimes, "--crtimes"),
        (o.omit_dir_times, "--omit-dir-times"),
        (o.omit_link_times, "--omit-link-times"),
        (o.vss, "--vss"),
        (o.no_owner, "--no-o"),
        (o.no_group, "--no-g"),
    ];
    let ghost fv = flags@.map_values(|p: (bool, &str)| (p.0, p.1@));
    assert(fv =~= carried_flags(*o));
    let mut i: usize = 0;
    assert(fv.take(0) =~= Seq::<(bool, Seq<char>)>::empty());
    assert(report@ =~= mid + flag_notes(fv.take(0)));
    while i < flags.len()
        invariant
            i <= flags@.len(),
            fv == flags@.map_values(|p: (bool, &str)| (p.0, p.1@)),
            report@ == mid + flag_notes(fv.take(i as int)),
        decreases flags.len() - i,
    {
        proof {
            reveal(note_when);
        }
        let (enabled, flag) = flags[i];
        assert(fv[i as int] == (enabled, flag@));
        let ghost before = report@;
        if enabled {
            let mut message = String::from_str(flag);
            message.append(" is represented in the execution plan");
            report.info("I_OPTION_PARSED", message.as_str());
        }
        assert(fv.take(i + 1).drop_last() =~= fv.take(i as int));
        assert(report@ =~= mid + flag_notes(fv.take(i + 1)));
        i = i + 1;
    }
    assert(fv.take(fv.len() as int) =~= fv);
    assert(report@ =~= start + flag_section(*o));
}

/// The notes on mappings, ownership and checksum and compression choices.
#[verifier::opaque]
pub open spec fn value_section(o: CliOptions) -> Seq<(Severity, Seq<char>, Seq<char>, Option<Seq<char>>)> {
    each_note(Severity::Info, "I_OPTION_PARSED"@, "--usermap="@, components_view(o.user_maps@), " is represented in the execution plan"@)
    + each_note(Severity::Info, "I_OPTION_PARSED"@, "--groupmap="@, components_view(o.group_maps@), " is represented in the execution plan"@)
    + value_note(Severity::Info, "I_OPTION_PARSED"@, "--chown="@, text_of(o.chown), " is represented in the execution plan"@)
    + value_note(Severity::Info, "I_OPTION_PARSED"@, "--checksum-choice="@, text_of(o.checksum_choice), " is represented in the execution plan"@)
    + value_note(Severity::Info, "I_OPTION_PARSED"@, "--checksum-seed="@, match o.checksum_seed {
        Some(v) => Some(signed_decimal(v as int)),
        None => None,
    }, " is represented in the execution plan"@)
    + value_note(Severity::Info, "I_OPTION_PARSED"@, "--compress-choice="@, text_of(o.compress_choice), " is represented in the execution plan"@)
    + value_note(Severity::Info, "I_OPTION_PARSED"@, "--compress-level="@, match o.compress_level {
        Some(v) => Some(decimal_of(v as nat)),
        None => None,
    }, " is represented in the execution plan"@)
    + value_note(Severity::Info, "I_OPTION_PARSED"@, "--compress-threads="@, match o.compress_threads {
        Some(v) => Some(decimal_of(v as nat)),
        None => None,
    }, " is represented in the execution plan"@)
    + each_note(Severity::Info, "I_OPTION_PARSED"@, "--skip-compress="@, components_view(o.skip_compress@), " is represented in the execution plan"@)
}

fn signed_text(v: i32) -> (r: String)
    ensures
        r@ == signed_decimal(v as int),
{
    if v < 0 {
        let magnitude = (0i64 - v as i64) as u128;
        let digits = decimal_text(magnitude);
        let mut out = String::new();
        out.push('-');
        out.append(digits.as_str());
        assert(out@ =~= signed_decimal(v as int));
        out
    } else {
        decimal_text(v as u128)
    }
}

#[verifier::rlimit(40)]
fn add_value_section(o: &CliOptions, report: &mut Report)
    ensures
        final(report)@ == old(report)@ + value_section(*o),
{
    let ghost start = report@;
    let ghost mut acc: Seq<(Severity, Seq<char>, Seq<char>, Option<Seq<char>>)> = Seq::empty();
    assert(report@ =~= start + acc);
    push_each_note(report, Severity::Info, "I_OPTION_PARSED", "--usermap=", &o.user_maps, " is represented in the execution plan");
    proof {
        let piece = each_note(Severity::Info, "I_OPTION_PARSED"@, "--usermap="@, components_view(o.user_maps@), " is represented in the execution plan"@);
        assert(report@ =~= start + (acc + piece));
        acc = acc + piece;
    }
    push_each_note(report, Severity::Info, "I_OPTION_PARSED", "--groupmap=", &o.group_maps, " is represented in the execution plan");
    proof {
        let piece = each_note(Severity::Info, "I_OPTION_PARSED"@, "--groupmap="@, components_view(o.group_maps@), " is represented in the execution plan"@);
        assert(report@ =~= start + (acc + piece));
        acc = acc + piece;
    }
    push_value_note(report, Severity::Info, "I_OPTION_PARSED", "--chown=", optional_str(&o.chown), " is represented in the execution plan");
    proof {
        let piece = value_note(Severity::Info, "I_OPTION_PARSED"@, "--chown="@, text_of(o.chown), " is represented in the execution plan"@);
        assert(report@ =~= start + (acc + piece));
        acc = acc + piece;
    }
    push_value_note(report, Severity::Info, "I_OPTION_PARSED", "--checksum-choice=", optional_str(&o.checksum_choice), " is represented in the execution plan");
    proof {
        let piece = value_note(Severity::Info, "I_OPTION_PARSED"@, "--checksum-choice="@, text_of(o.checksum_choice), " is represented in the execution plan"@);
        assert(report@ =~= start + (acc + piece));
        acc = acc + piece;
    }
    match o.checksum_seed {
        Some(seed) => {
            let text = signed_text(seed);
            push_value_note(report, Severity::Info, "I_OPTION_PARSED", "--checksum-seed=", Some(text.as_str()), " is represented in the execution plan");
        },
        None => push_value_note(report, Severity::Info, "I_OPTION_PARSED", "--checksum-seed=", None, " is represented in the execution plan"),
    }
    proof {
        let piece = value_note(Severity::Info, "I_OPTION_PARSED"@, "--checksum-seed="@, match o.checksum_seed {
            Some(v) => Some(signed_decimal(v as int)),
            None => None,
        }, " is represented in the execution plan"@);
        assert(report@ =~= start + (acc + piece));
        acc = acc + piece;
    }
    push_value_note(report, Severity::Info, "I_OPTION_PARSED", "--compress-choice=", optional_str(&o.compress_choice), " is represented in the execution plan");
    proof {
        let piece = value_note(Severity::Info, "I_OPTION_PARSED"@, "--compress-choice="@, text_of(o.compress_choice), " is represented in the execution plan"@);
        assert(report@ =~= start + (acc + piece));
        acc = acc + piece;
    }
    let level = match o.compress_level {
        Some(v) => Some(v as u64),
        None => None,
    };
    push_number_note(report, "I_OPTION_PARSED", "--compress-level=", level, " is represented in the execution plan");
    proof {
        let piece = value_note(Severity::Info, "I_OPTION_PARSED"@, "--compress-level="@, match o.compress_level {
            Some(v) => Some(decimal_of(v as nat)),
            None => None,
        }, " is represented in the execution plan"@);
        assert(report@ =~= start + (acc + piece));
        acc = acc + piece;
    }
    let threads = match o.compress_threads {
        Some(v) => Some(v as u64),
        None => None,
    };
    push_number_note(report, "I_OPTION_PARSED", "--compress-threads=", threads, " is represented in the execution plan");
    proof {
        let piece = value_note(Severity::Info, "I_OPTION_PARSED"@, "--compress-threads="@, match o.compress_threads {
            Some(v) => Some(decimal_of(v as nat)),
            None => None,
        }, " is represented in the execution plan"@);
        assert(report@ =~= start + (acc + piece));
        acc = acc + piece;
    }
    push_each_note(report, Severity::Info, "I_OPTION_PARSED", "--skip-compress=", &o.skip_compress, " is represented in the execution plan");
    proof {
        let piece = each_note(Severity::Info, "I_OPTION_PARSED"@, "--skip-compress="@, components_view(o.skip_compress@), " is represented in the execution plan"@);
        assert(report@ =~= start + (acc + piece));
        acc = acc + piece;
    }
    reveal(value_section);
    assert(acc =~= value_section(*o));
}


/// How many symlink transfer modes were asked for.
pub open spec fn link_modes(o: CliOptions) -> int {
    (if o.links { 1int } else { 0int }) + (if o.copy_links { 1int } else { 0int }) + (if o.copy_dirlinks {
        1int
    } else {
        0int
    }) + (if o.copy_unsafe_links { 1int } else { 0int }) + (if o.safe_links { 1int } else { 0int }) + (
    if o.munge_links {
        1int
    } else {
        0int
    })
}

fn link_mode_count(o: &CliOptions) -> (r: u8)
    ensures
        r == link_modes(*o),
{
    let mut n: u8 = 0;
    if o.links {
        n = n + 1;
    }
    if o.copy_links {
        n = n + 1;
    }
    if o.copy_dirlinks {
        n = n + 1;
    }
    if o.copy_unsafe_links {
        n = n + 1;
    }
    if o.safe_links {
        n = n + 1;
    }
    if o.munge_links {
        n = n + 1;
    }
    n
}

/// The notes on the remote shell, the remote program and remote argument handling.
#[verifier::opaque]
pub open spec fn remote_section(o: CliOptions) -> Seq<(Severity, Seq<char>, Seq<char>, Option<Seq<char>>)> {
    value_note(Severity::Info, "I_REMOTE_SHELL"@, "-e/--rsh remote shell command: "@, text_of(o.remote_shell), ""@)
    + value_note(Severity::Info, "I_REMOTE_RSYNC_PATH"@, "--rsync-path remote program: "@, text_of(o.rsync_path), ""@)
    + note_when(o.blocking_io, Severity::Info, "I_REMOTE_BLOCKING_IO"@, "--blocking-io requested; child process transport uses blocking stdio"@)
    + note_when(o.old_args, Severity::Info, "I_REMOTE_ARGS"@, "--old-args requested; remote filename args use legacy shell splitting and sender arg names are trusted"@)
    + note_when(o.secluded_args, Severity::Info, "I_REMOTE_ARGS"@, "--secluded-args requested; remote filename args are sent in the protected pre-handshake arg stream"@)
    + note_when(o.trust_sender, Severity::Info, "I_TRUST_SENDER"@, "--trust-sender disables strict sender file-list claim validation but keeps destination path safety checks"@)
    + note_when(o.ipv4, Severity::Info, "I_REMOTE_ADDRESS_FAMILY"@, "--ipv4 selects ssh -4 for remote-shell transport"@)
    + note_when(!o.ipv4 && o.ipv6, Severity::Info, "I_REMOTE_ADDRESS_FAMILY"@, "--ipv6 selects ssh -6 for remote-shell transport"@)
}

#[verifier::rlimit(40)]
fn add_remote_section(o: &CliOptions, report: &mut Report)
    ensures
        final(report)@ == old(report)@ + remote_section(*o),
{
    let ghost start = report@;
    let ghost mut acc: Seq<(Severity, Seq<char>, Seq<char>, Option<Seq<char>>)> = Seq::empty();
    assert(report@ =~= start + acc);
    push_value_note(report, Severity::Info, "I_REMOTE_SHELL", "-e/--rsh remote shell command: ", optional_str(&o.remote_shell), "");
    proof {
        let piece = value_note(Severity::Info, "I_REMOTE_SHELL"@, "-e/--rsh remote shell command: "@, text_of(o.remote_shell), ""@);
        assert(report@ =~= start + (acc + piece));
        acc = acc + piece;
    }
    push_value_note(report, Severity::Info, "I_REMOTE_RSYNC_PATH", "--rsync-path remote program: ", optional_str(&o.rsync_path), "");
    proof {
        let piece = value_note(Severity::Info, "I_REMOTE_RSYNC_PATH"@, "--rsync-path remote program: "@, text_of(o.rsync_path), ""@);
        assert(report@ =~= start + (acc + piece));
        acc = acc + piece;
    }
    let enabled = o.blocking_io;
    push_note_when(report, enabled, Severity::Info, "I_REMOTE_BLOCKING_IO", "--blocking-io requested; child process transport uses blocking stdio");
    proof {
        let piece = note_when(o.blocking_io, Severity::Info, "I_REMOTE_BLOCKING_IO"@, "--blocking-io requested; child process transport uses blocking stdio"@);
        assert(report@ =~= start + (acc + piece));
        acc = acc + piece;
    }
    let enabled = o.old_args;
    push_note_when(report, enabled, Severity::Info, "I_REMOTE_ARGS", "--old-args requested; remote filename args use legacy shell splitting and sender arg names are trusted");
    proof {
        let piece = note_when(o.old_args, Severity::Info, "I_REMOTE_ARGS"@, "--old-args requested; remote filename args use legacy shell splitting and sender arg names are trusted"@);
        assert(report@ =~= start + (acc + piece));
        acc = acc + piece;
    }
    let enabled = o.secluded_args;
    push_note_when(report, enabled, Severity::Info, "I_REMOTE_ARGS", "--secluded-args requested; remote filename args are sent in the protected pre-handshake arg stream");
    proof {
        let piece = note_when(o.secluded_args, Severity::Info, "I_REMOTE_ARGS"@, "--secluded-args requested; remote filename args are sent in the protected pre-handshake arg stream"@);
        assert(report@ =~= start + (acc + piece));
        acc = acc + piece;
    }
    let enabled = o.trust_sender;
    push_note_when(report, enabled, Severity::Info, "I_TRUST_SENDER", "--trust-sender disables strict sender file-list claim validation but keeps destination path safety checks");
    proof {
        let piece = note_when(o.trust_sender, Severity::Info, "I_TRUST_SENDER"@, "--trust-sender disables strict sender file-list claim validation but keeps destination path safety checks"@);
        assert(report@ =~= start + (acc + piece));
        acc = acc + piece;
    }
    let enabled = o.ipv4;
    push_note_when(report, enabled, Severity::Info, "I_REMOTE_ADDRESS_FAMILY", "--ipv4 selects ssh -4 for remote-shell transport");
    proof {
        let piece = note_when(o.ipv4, Severity::Info, "I_REMOTE_ADDRESS_FAMILY"@, "--ipv4 selects ssh -4 for remote-shell transport"@);
        assert(report@ =~= start + (acc + piece));
        acc = acc + piece;
    }
    let enabled = !o.ipv4 && o.ipv6;
    push_note_when(report, enabled, Severity::Info, "I_REMOTE_ADDRESS_FAMILY", "--ipv6 selects ssh -6 for remote-shell transport");
    proof {
        let piece = note_when(!o.ipv4 && o.ipv6, Severity::Info, "I_REMOTE_ADDRESS_FAMILY"@, "--ipv6 selects ssh -6 for remote-shell transport"@);
        assert(report@ =~= start + (acc + piece));
        acc = acc + piece;
    }
    reveal(remote_section);
    assert(acc =~= remote_section(*o));
}

/// The notes on partial files, unsupported options, basis directories, write modes and batch files.
#[verifier::opaque]
pub open spec fn write_section(o: CliOptions) -> Seq<(Severity, Seq<char>, Seq<char>, Option<Seq<char>>)> {
    value_note(Severity::Info, "I_OPTION_PARSED"@, "--partial-dir="@, text_of(o.partial_dir), " is represented in the execution plan"@)
    + each_note(Severity::Warning, "W_UNIMPLEMENTED_OPTION"@, ""@, components_view(o.accepted_unsupported_options@), " is accepted for rsync option compatibility but has no behavior in this build yet"@)
    + each_note(Severity::Info, "I_OPTION_PARSED"@, "--compare-dest="@, components_view(o.compare_dest@), " is represented in the execution plan"@)
    + each_note(Severity::Info, "I_OPTION_PARSED"@, "--copy-dest="@, components_view(o.copy_dest@), " is represented in the execution plan"@)
    + each_note(Severity::Info, "I_OPTION_PARSED"@, "--link-dest="@, components_view(o.link_dest@), " is represented in the execution plan"@)
    + note_when(o.sparse, Severity::Info, "I_OPTION_PARSED"@, "--sparse is represented in the execution plan; sparse file creation requested on Windows where FSCTL_SET_SPARSE_FILE is supported"@)
    + note_when(o.preallocate, Severity::Info, "I_OPTION_PARSED"@, "--preallocate is represented in the execution plan; preallocation uses SetFileInformationByHandle on Windows"@)
    + note_when(o.fuzzy, Severity::Info, "I_OPTION_PARSED"@, "--fuzzy is represented in the execution plan; basis-file search uses best-effort name similarity"@)
    + value_note(Severity::Info, "I_OPTION_PARSED"@, "--copy-as="@, text_of(o.copy_as), " is parsed as a destination user identity; local Windows copies run as the current user unless run elevated"@)
    + note_when(o.super_flag, Severity::Info, "I_OPTION_PARSED"@, "--super receiver attempts super-user activities where the platform permits"@)
    + value_note(Severity::Info, "I_OPTION_PARSED"@, "--write-batch="@, text_of(o.write_batch), " will record transfer metadata for replay"@)
    + value_note(Severity::Info, "I_OPTION_PARSED"@, "--only-write-batch="@, text_of(o.only_write_batch), " will record transfer metadata without updating the destination"@)
    + value_note(Severity::Info, "I_OPTION_PARSED"@, "--read-batch="@, text_of(o.read_batch), " will replay a recorded transfer"@)
}

#[verifier::rlimit(40)]
fn add_write_section(o: &CliOptions, report: &mut Report)
    ensures
        final(report)@ == old(report)@ + write_section(*o),
{
    let ghost start = report@;
    let ghost mut acc: Seq<(Severity, Seq<char>, Seq<char>, Option<Seq<char>>)> = Seq::empty();
    assert(report@ =~= start + acc);
    push_value_note(report, Severity::Info, "I_OPTION_PARSED", "--partial-dir=", optional_str(&o.partial_dir), " is represented in the execution plan");
    proof {
        let piece = value_note(Severity::Info, "I_OPTION_PARSED"@, "--partial-dir="@, text_of(o.partial_dir), " is represented in the execution plan"@);
        assert(report@ =~= start + (acc + piece));
        acc = acc + piece;
    }
    push_each_note(report, Severity::Warning, "W_UNIMPLEMENTED_OPTION", "", &o.accepted_unsupported_options, " is accepted for rsync option compatibility but has no behavior in this build yet");
    proof {
        let piece = each_note(Severity::Warning, "W_UNIMPLEMENTED_OPTION"@, ""@, components_view(o.accepted_unsupported_options@), " is accepted for rsync option compatibility but has no behavior in this build yet"@);
        assert(report@ =~= start + (acc + piece));
        acc = acc + piece;
    }
    push_each_note(report, Severity::Info, "I_OPTION_PARSED", "--compare-dest=", &o.compare_dest, " is represented in the execution plan");
    proof {
        let piece = each_note(Severity::Info, "I_OPTION_PARSED"@, "--compare-dest="@, components_view(o.compare_dest@), " is represented in the execution plan"@);
        assert(report@ =~= start + (acc + piece));
        acc = acc + piece;
    }
    push_each_note(report, Severity::Info, "I_OPTION_PARSED", "--copy-dest=", &o.copy_dest, " is represented in the execution plan");
    proof {
        let piece = each_note(Severity::Info, "I_OPTION_PARSED"@, "--copy-dest="@, components_view(o.copy_dest@), " is represented in the execution plan"@);
        assert(report@ =~= start + (acc + piece));
        acc = acc + piece;
    }
    push_each_note(report, Severity::Info, "I_OPTION_PARSED", "--link-dest=", &o.link_dest, " is represented in the execution plan");
    proof {
        let piece = each_note(Severity::Info, "I_OPTION_PARSED"@, "--link-dest="@, components_view(o.link_dest@), " is represented in the execution plan"@);
        assert(report@ =~= start + (acc + piece));
        acc = acc + piece;
    }
    let enabled = o.sparse;
    push_note_when(report, enabled, Severity::Info, "I_OPTION_PARSED", "--sparse is represented in the execution plan; sparse file creation requested on Windows where FSCTL_SET_SPARSE_FILE is supported");
    proof {
        let piece = note_when(o.sparse, Severity::Info, "I_OPTION_PARSED"@, "--sparse is represented in the execution plan; sparse file creation requested on Windows where FSCTL_SET_SPARSE_FILE is supported"@);
        assert(report@ =~= start + (acc + piece));
        acc = acc + piece;
    }
    let enabled = o.preallocate;
    push_note_when(report, enabled, Severity::Info, "I_OPTION_PARSED", "--preallocate is represented in the execution plan; preallocation uses SetFileInformationByHandle on Windows");
    proof {
        let piece = note_when(o.preallocate, Severity::Info, "I_OPTION_PARSED"@, "--preallocate is represented in the execution plan; preallocation uses SetFileInformationByHandle on Windows"@);
        assert(report@ =~= start + (acc + piece));
        acc = acc + piece;
    }
    let enabled = o.fuzzy;
    push_note_when(report, enabled, Severity::Info, "I_OPTION_PARSED", "--fuzzy is represented in the execution plan; basis-file search uses best-effort name similarity");
    proof {
        let piece = note_when(o.fuzzy, Severity::Info, "I_OPTION_PARSED"@, "--fuzzy is represented in the execution plan; basis-file search uses best-effort name similarity"@);
        assert(report@ =~= start + (acc + piece));
        acc = acc + piece;
    }
    push_value_note(report, Severity::Info, "I_OPTION_PARSED", "--copy-as=", optional_str(&o.copy_as), " is parsed as a destination user identity; local Windows copies run as the current user unless run elevated");
    proof {
        let piece = value_note(Severity::Info, "I_OPTION_PARSED"@, "--copy-as="@, text_of(o.copy_as), " is parsed as a destination user identity; local Windows copies run as the current user unless run elevated"@);
        assert(report@ =~= start + (acc + piece));
        acc = acc + piece;
    }
    let enabled = o.super_flag;
    push_note_when(report, enabled, Severity::Info, "I_OPTION_PARSED", "--super receiver attempts super-user activities where the platform permits");
    proof {
        let piece = note_when(o.super_flag, Severity::Info, "I_OPTION_PARSED"@, "--super receiver attempts super-user activities where the platform permits"@);
        assert(report@ =~= start + (acc + piece));
        acc = acc + piece;
    }
    push_value_note(report, Severity::Info, "I_OPTION_PARSED", "--write-batch=", optional_str(&o.write_batch), " will record transfer metadata for replay");
    proof {
        let piece = value_note(Severity::Info, "I_OPTION_PARSED"@, "--write-batch="@, text_of(o.write_batch), " will record transfer metadata for replay"@);
        assert(report@ =~= start + (acc + piece));
        acc = acc + piece;
    }
    push_value_note(report, Severity::Info, "I_OPTION_PARSED", "--only-write-batch=", optional_str(&o.only_write_batch), " will record transfer metadata without updating the destination");
    proof {
        let piece = value_note(Severity::Info, "I_OPTION_PARSED"@, "--only-write-batch="@, text_of(o.only_write_batch), " will record transfer metadata without updating the destination"@);
        assert(report@ =~= start + (acc + piece));
        acc = acc + piece;
    }
    push_value_note(report, Severity::Info, "I_OPTION_PARSED", "--read-batch=", optional_str(&o.read_batch), " will replay a recorded transfer");
    proof {
        let piece = value_note(Severity::Info, "I_OPTION_PARSED"@, "--read-batch="@, text_of(o.read_batch), " will replay a recorded transfer"@);
        assert(report@ =~= start + (acc + piece));
        acc = acc + piece;
    }
    reveal(write_section);
    assert(acc =~= write_section(*o));
}

/// The notes on bandwidth, time and memory limits, early input, buffering, the protocol, character sets and access times.
#[verifier::opaque]
pub open spec fn limits_section(o: CliOptions) -> Seq<(Severity, Seq<char>, Seq<char>, Option<Seq<char>>)> {
    value_note(Severity::Info, "I_OPTION_PARSED"@, "--bwlimit="@, text_of(o.bwlimit), " bandwidth limiting will be applied to the transfer"@)
    + value_note(Severity::Info, "I_OPTION_PARSED"@, "--timeout="@, match o.timeout_secs { Some(v) => Some(decimal_of(v as nat)), None => None }, " sets I/O timeout in seconds during transfer"@)
    + value_note(Severity::Info, "I_OPTION_PARSED"@, "--stop-after="@, match o.stop_after_minutes { Some(v) => Some(decimal_of(v as nat)), None => None }, " will stop the transfer after the specified number of minutes"@)
    + value_note(Severity::Info, "I_OPTION_PARSED"@, "--time-limit="@, match o.time_limit_minutes { Some(v) => Some(decimal_of(v as nat)), None => None }, " sets a maximum runtime for the transfer"@)
    + value_note(Severity::Info, "I_OPTION_PARSED"@, "--stop-at="@, text_of(o.stop_at), " will stop the transfer at the specified wall-clock time"@)
    + value_note(Severity::Info, "I_OPTION_PARSED"@, "--max-alloc="@, text_of(o.max_alloc), " caps the largest single memory allocation during the transfer"@)
    + value_note(Severity::Info, "I_OPTION_PARSED"@, "--early-input="@, text_of(o.early_input), " provides pre-seed data to send before the file list"@)
    + value_note(Severity::Info, "I_OPTION_PARSED"@, "--outbuf="@, text_of(o.outbuf), " sets output buffering mode"@)
    + value_note(Severity::Info, "I_OPTION_PARSED"@, "--protocol="@, match o.protocol_version { Some(v) => Some(decimal_of(v as nat)), None => None }, " constrains protocol version negotiation"@)
    + value_note(Severity::Warning, "W_ICONV_UNAVAILABLE"@, "--iconv="@, text_of(o.iconv), " charset conversion is not available on this platform; filenames are transferred as-is"@)
    + note_when(o.open_noatime, Severity::Info, "I_OPTION_PARSED"@, "--open-noatime requested; O_NOATIME is not available on Windows, files are opened with normal access time semantics"@)
}

#[verifier::rlimit(40)]
fn add_limits_section(o: &CliOptions, report: &mut Report)
    ensures
        final(report)@ == old(report)@ + limits_section(*o),
{
    let ghost start = report@;
    let ghost mut acc: Seq<(Severity, Seq<char>, Seq<char>, Option<Seq<char>>)> = Seq::empty();
    assert(report@ =~= start + acc);
    push_value_note(report, Severity::Info, "I_OPTION_PARSED", "--bwlimit=", optional_str(&o.bwlimit), " bandwidth limiting will be applied to the transfer");
    proof {
        let piece = value_note(Severity::Info, "I_OPTION_PARSED"@, "--bwlimit="@, text_of(o.bwlimit), " bandwidth limiting will be applied to the transfer"@);
        assert(report@ =~= start + (acc + piece));
        acc = acc + piece;
    }
    push_number_note(report, "I_OPTION_PARSED", "--timeout=", o.timeout_secs, " sets I/O timeout in seconds during transfer");
    proof {
        let piece = value_note(Severity::Info, "I_OPTION_PARSED"@, "--timeout="@, match o.timeout_secs { Some(v) => Some(decimal_of(v as nat)), None => None }, " sets I/O timeout in seconds during transfer"@);
        assert(report@ =~= start + (acc + piece));
        acc = acc + piece;
    }
    push_number_note(report, "I_OPTION_PARSED", "--stop-after=", o.stop_after_minutes, " will stop the transfer after the specified number of minutes");
    proof {
        let piece = value_note(Severity::Info, "I_OPTION_PARSED"@, "--stop-after="@, match o.stop_after_minutes { Some(v) => Some(decimal_of(v as nat)), None => None }, " will stop the transfer after the specified number of minutes"@);
        assert(report@ =~= start + (acc + piece));
        acc = acc + piece;
    }
    push_number_note(report, "I_OPTION_PARSED", "--time-limit=", o.time_limit_minutes, " sets a maximum runtime for the transfer");
    proof {
        let piece = value_note(Severity::Info, "I_OPTION_PARSED"@, "--time-limit="@, match o.time_limit_minutes { Some(v) => Some(decimal_of(v as nat)), None => None }, " sets a maximum runtime for the transfer"@);
        assert(report@ =~= start + (acc + piece));
        acc = acc + piece;
    }
    push_value_note(report, Severity::Info, "I_OPTION_PARSED", "--stop-at=", optional_str(&o.stop_at), " will stop the transfer at the specified wall-clock time");
    proof {
        let piece = value_note(Severity::Info, "I_OPTION_PARSED"@, "--stop-at="@, text_of(o.stop_at), " will stop the transfer at the specified wall-clock time"@);
        assert(report@ =~= start + (acc + piece));
        acc = acc + piece;
    }
    push_value_note(report, Severity::Info, "I_OPTION_PARSED", "--max-alloc=", optional_str(&o.max_alloc), " caps the largest single memory allocation during the transfer");
    proof {
        let piece = value_note(Severity::Info, "I_OPTION_PARSED"@, "--max-alloc="@, text_of(o.max_alloc), " caps the largest single memory allocation during the transfer"@);
        assert(report@ =~= start + (acc + piece));
        acc = acc + piece;
    }
    push_value_note(report, Severity::Info, "I_OPTION_PARSED", "--early-input=", optional_str(&o.early_input), " provides pre-seed data to send before the file list");
    proof {
        let piece = value_note(Severity::Info, "I_OPTION_PARSED"@, "--early-input="@, text_of(o.early_input), " provides pre-seed data to send before the file list"@);
        assert(report@ =~= start + (acc + piece));
        acc = acc + piece;
    }
    push_value_note(report, Severity::Info, "I_OPTION_PARSED", "--outbuf=", optional_str(&o.outbuf), " sets output buffering mode");
    proof {
        let piece = value_note(Severity::Info, "I_OPTION_PARSED"@, "--outbuf="@, text_of(o.outbuf), " sets output buffering mode"@);
        assert(report@ =~= start + (acc + piece));
        acc = acc + piece;
    }
    let value = match o.protocol_version { Some(v) => Some(v as u64), None => None };
    push_number_note(report, "I_OPTION_PARSED", "--protocol=", value, " constrains protocol version negotiation");
    proof {
        let piece = value_note(Severity::Info, "I_OPTION_PARSED"@, "--protocol="@, match o.protocol_version { Some(v) => Some(decimal_of(v as nat)), None => None }, " constrains protocol version negotiation"@);
        assert(report@ =~= start + (acc + piece));
        acc = acc + piece;
    }
    push_value_note(report, Severity::Warning, "W_ICONV_UNAVAILABLE", "--iconv=", optional_str(&o.iconv), " charset conversion is not available on this platform; filenames are transferred as-is");
    proof {
        let piece = value_note(Severity::Warning, "W_ICONV_UNAVAILABLE"@, "--iconv="@, text_of(o.iconv), " charset conversion is not available on this platform; filenames are transferred as-is"@);
        assert(report@ =~= start + (acc + piece));
        acc = acc + piece;
    }
    let enabled = o.open_noatime;
    push_note_when(report, enabled, Severity::Info, "I_OPTION_PARSED", "--open-noatime requested; O_NOATIME is not available on Windows, files are opened with normal access time semantics");
    proof {
        let piece = note_when(o.open_noatime, Severity::Info, "I_OPTION_PARSED"@, "--open-noatime requested; O_NOATIME is not available on Windows, files are opened with normal access time semantics"@);
        assert(report@ =~= start + (acc + piece));
        acc = acc + piece;
    }
    reveal(limits_section);
    assert(acc =~= limits_section(*o));
}

/// The conflicts between size limits, missing-argument handling and write-path options.
#[verifier::opaque]
pub open spec fn conflict_write_notes(o: CliOptions) -> Seq<(Severity, Seq<char>, Seq<char>, Option<Seq<char>>)> {
    note_when(match (o.min_size, o.max_size) { (Some(a), Some(b)) => a > b, _ => false }, Severity::Error, "E_OPTION_CONFLICT"@, "--min-size cannot be greater than --max-size"@)
    + note_when(o.ignore_missing_args && o.delete_missing_args, Severity::Error, "E_OPTION_CONFLICT"@, "--ignore-missing-args cannot be combined with --delete-missing-args"@)
    + note_when(o.inplace && o.delay_updates, Severity::Error, "E_OPTION_CONFLICT"@, "--inplace cannot be combined with --delay-updates"@)
    + note_when(o.inplace && o.partial_dir is Some, Severity::Error, "E_OPTION_CONFLICT"@, "--inplace and --partial-dir cannot both control the same write path"@)
    + note_when(o.inplace && o.temp_dir is Some, Severity::Error, "E_OPTION_CONFLICT"@, "--inplace and --temp-dir cannot both control the same write path"@)
}

#[verifier::rlimit(40)]
fn add_conflict_write_notes(o: &CliOptions, report: &mut Report)
    ensures
        final(report)@ == old(report)@ + conflict_write_notes(*o),
{
    let ghost start = report@;
    let ghost mut acc: Seq<(Severity, Seq<char>, Seq<char>, Option<Seq<char>>)> = Seq::empty();
    assert(report@ =~= start + acc);
    let enabled = match (o.min_size, o.max_size) { (Some(a), Some(b)) => a > b, _ => false };
    push_note_when(report, enabled, Severity::Error, "E_OPTION_CONFLICT", "--min-size cannot be greater than --max-size");
    proof {
        let piece = note_when(match (o.min_size, o.max_size) { (Some(a), Some(b)) => a > b, _ => false }, Severity::Error, "E_OPTION_CONFLICT"@, "--min-size cannot be greater than --max-size"@);
        assert(report@ =~= start + (acc + piece));
        acc = acc + piece;
    }
    let enabled = o.ignore_missing_args && o.delete_missing_args;
    push_note_when(report, enabled, Severity::Error, "E_OPTION_CONFLICT", "--ignore-missing-args cannot be combined with --delete-missing-args");
    proof {
        let piece = note_when(o.ignore_missing_args && o.delete_missing_args, Severity::Error, "E_OPTION_CONFLICT"@, "--ignore-missing-args cannot be combined with --delete-missing-args"@);
        assert(report@ =~= start + (acc + piece));
        acc = acc + piece;
    }
    let enabled = o.inplace && o.delay_updates;
    push_note_when(report, enabled, Severity::Error, "E_OPTION_CONFLICT", "--inplace cannot be combined with --delay-updates");
    proof {
        let piece = note_when(o.inplace && o.delay_updates, Severity::Error, "E_OPTION_CONFLICT"@, "--inplace cannot be combined with --delay-updates"@);
        assert(report@ =~= start + (acc + piece));
        acc = acc + piece;
    }
    let enabled = o.inplace && o.partial_dir.is_some();
    push_note_when(report, enabled, Severity::Error, "E_OPTION_CONFLICT", "--inplace and --partial-dir cannot both control the same write path");
    proof {
        let piece = note_when(o.inplace && o.partial_dir is Some, Severity::Error, "E_OPTION_CONFLICT"@, "--inplace and --partial-dir cannot both control the same write path"@);
        assert(report@ =~= start + (acc + piece));
        acc = acc + piece;
    }
    let enabled = o.inplace && o.temp_dir.is_some();
    push_note_when(report, enabled, Severity::Error, "E_OPTION_CONFLICT", "--inplace and --temp-dir cannot both control the same write path");
    proof {
        let piece = note_when(o.inplace && o.temp_dir is Some, Severity::Error, "E_OPTION_CONFLICT"@, "--inplace and --temp-dir cannot both control the same write path"@);
        assert(report@ =~= start + (acc + piece));
        acc = acc + piece;
    }
    reveal(conflict_write_notes);
    assert(acc =~= conflict_write_notes(*o));
}

/// The conflicts of metadata policies and batch modes, and the overlaps between link modes, existence filters and write modes.
#[verifier::opaque]
pub open spec fn conflict_mode_notes(o: CliOptions) -> Seq<(Severity, Seq<char>, Seq<char>, Option<Seq<char>>)> {
    note_when(o.fake_super && o.metadata_policy == MetadataPolicy::NtfsNative, Severity::Error, "E_OPTION_CONFLICT"@, "--fake-super cannot be combined with --metadata-policy=ntfs-native"@)
    + note_when(!o.no_links && link_modes(o) > 1, Severity::Warning, "W_OPTION_OVERLAP"@, "multiple symlink transfer modes were requested; rsync-win applies its current precedence while preserving the diagnostic"@)
    + note_when(o.existing && o.ignore_existing, Severity::Warning, "W_OPTION_OVERLAP"@, "--existing and --ignore-existing together leave only receiver-missing files eligible"@)
    + note_when(o.sparse && o.preallocate, Severity::Warning, "W_OPTION_OVERLAP"@, "--sparse and --preallocate together: preallocation will be skipped for sparse files"@)
    + note_when(o.write_batch is Some && o.only_write_batch is Some, Severity::Error, "E_OPTION_CONFLICT"@, "--write-batch and --only-write-batch cannot both be specified"@)
    + note_when(o.write_batch is Some && o.read_batch is Some, Severity::Error, "E_OPTION_CONFLICT"@, "--write-batch and --read-batch cannot both be specified"@)
    + note_when(o.only_write_batch is Some && o.read_batch is Some, Severity::Error, "E_OPTION_CONFLICT"@, "--only-write-batch and --read-batch cannot both be specified"@)
    + note_when(o.read_batch is Some && o.dry_run, Severity::Warning, "W_OPTION_OVERLAP"@, "--read-batch with --dry-run: replay will be a dry run"@)
}

#[verifier::rlimit(40)]
fn add_conflict_mode_notes(o: &CliOptions, report: &mut Report)
    ensures
        final(report)@ == old(report)@ + conflict_mode_notes(*o),
{
    let ghost start = report@;
    let ghost mut acc: Seq<(Severity, Seq<char>, Seq<char>, Option<Seq<char>>)> = Seq::empty();
    assert(report@ =~= start + acc);
    let enabled = o.fake_super && o.metadata_policy == MetadataPolicy::NtfsNative;
    push_note_when(report, enabled, Severity::Error, "E_OPTION_CONFLICT", "--fake-super cannot be combined with --metadata-policy=ntfs-native");
    proof {
        let piece = note_when(o.fake_super && o.metadata_policy == MetadataPolicy::NtfsNative, Severity::Error, "E_OPTION_CONFLICT"@, "--fake-super cannot be combined with --metadata-policy=ntfs-native"@);
        assert(report@ =~= start + (acc + piece));
        acc = acc + piece;
    }
    let enabled = !o.no_links && link_mode_count(o) > 1;
    push_note_when(report, enabled, Severity::Warning, "W_OPTION_OVERLAP", "multiple symlink transfer modes were requested; rsync-win applies its current precedence while preserving the diagnostic");
    proof {
        let piece = note_when(!o.no_links && link_modes(*o) > 1, Severity::Warning, "W_OPTION_OVERLAP"@, "multiple symlink transfer modes were requested; rsync-win applies its current precedence while preserving the diagnostic"@);
        assert(report@ =~= start + (acc + piece));
        acc = acc + piece;
    }
    let enabled = o.existing && o.ignore_existing;
    push_note_when(report, enabled, Severity::Warning, "W_OPTION_OVERLAP", "--existing and --ignore-existing together leave only receiver-missing files eligible");
    proof {
        let piece = note_when(o.existing && o.ignore_existing, Severity::Warning, "W_OPTION_OVERLAP"@, "--existing and --ignore-existing together leave only receiver-missing files eligible"@);
        assert(report@ =~= start + (acc + piece));
        acc = acc + piece;
    }
    let enabled = o.sparse && o.preallocate;
    push_note_when(report, enabled, Severity::Warning, "W_OPTION_OVERLAP", "--sparse and --preallocate together: preallocation will be skipped for sparse files");
    proof {
        let piece = note_when(o.sparse && o.preallocate, Severity::Warning, "W_OPTION_OVERLAP"@, "--sparse and --preallocate together: preallocation will be skipped for sparse files"@);
        assert(report@ =~= start + (acc + piece));
        acc = acc + piece;
    }
    let enabled = o.write_batch.is_some() && o.only_write_batch.is_some();
    push_note_when(report, enabled, Severity::Error, "E_OPTION_CONFLICT", "--write-batch and --only-write-batch cannot both be specified");
    proof {
        let piece = note_when(o.write_batch is Some && o.only_write_batch is Some, Severity::Error, "E_OPTION_CONFLICT"@, "--write-batch and --only-write-batch cannot both be specified"@);
        assert(report@ =~= start + (acc + piece));
        acc = acc + piece;
    }
    let enabled = o.write_batch.is_some() && o.read_batch.is_some();
    push_note_when(report, enabled, Severity::Error, "E_OPTION_CONFLICT", "--write-batch and --read-batch cannot both be specified");
    proof {
        let piece = note_when(o.write_batch is Some && o.read_batch is Some, Severity::Error, "E_OPTION_CONFLICT"@, "--write-batch and --read-batch cannot both be specified"@);
        assert(report@ =~= start + (acc + piece));
        acc = acc + piece;
    }
    let enabled = o.only_write_batch.is_some() && o.read_batch.is_some();
    push_note_when(report, enabled, Severity::Error, "E_OPTION_CONFLICT", "--only-write-batch and --read-batch cannot both be specified");
    proof {
        let piece = note_when(o.only_write_batch is Some && o.read_batch is Some, Severity::Error, "E_OPTION_CONFLICT"@, "--only-write-batch and --read-batch cannot both be specified"@);
        assert(report@ =~= start + (acc + piece));
        acc = acc + piece;
    }
    let enabled = o.read_batch.is_some() && o.dry_run;
    push_note_when(report, enabled, Severity::Warning, "W_OPTION_OVERLAP", "--read-batch with --dry-run: replay will be a dry run");
    proof {
        let piece = note_when(o.read_batch is Some && o.dry_run, Severity::Warning, "W_OPTION_OVERLAP"@, "--read-batch with --dry-run: replay will be a dry run"@);
        assert(report@ =~= start + (acc + piece));
        acc = acc + piece;
    }
    reveal(conflict_mode_notes);
    assert(acc =~= conflict_mode_notes(*o));
}

/// The diagnostics on options that conflict or overlap, in the order they are checked.
pub open spec fn conflict_notes(o: CliOptions) -> Seq<(Severity, Seq<char>, Seq<char>, Option<Seq<char>>)> {
    conflict_write_notes(o) + conflict_mode_notes(o)
}

/// Reports the options that conflict or overlap.
pub fn add_option_conflict_diagnostics(o: &CliOptions, report: &mut Report)
    ensures
        final(report)@ == old(report)@ + conflict_notes(*o),
{
    let ghost start = report@;
    add_conflict_write_notes(o, report);
    add_conflict_mode_notes(o, report);
    assert(report@ =~= start + conflict_notes(*o));
}

/// The diagnostics on the options given explicitly: what is only noted, what is represented in
/// the plan, and what has no effect here, in a fixed order.
pub open spec fn explicit_option_notes(o: CliOptions) -> Seq<(Severity, Seq<char>, Seq<char>, Option<Seq<char>>)> {
    flag_section(o) + value_section(o) + remote_section(o) + write_section(o) + limits_section(o)
}

/// Reports the options given explicitly.
pub fn add_explicit_option_diagnostics(o: &CliOptions, report: &mut Report)
    ensures
        final(report)@ == old(report)@ + explicit_option_notes(*o),
{
    let ghost start = report@;
    add_flag_section(o, report);
    let ghost a = report@;
    add_value_section(o, report);
    let ghost b = report@;
    add_remote_section(o, report);
    let ghost c = report@;
    add_write_section(o, report);
    let ghost d = report@;
    add_limits_section(o, report);
    assert(report@ =~= start + explicit_option_notes(*o));
}

/// Why a transfer cannot run with the options it was given.
#[derive(Debug, Clone, Copy, PartialEq, Eq, Structural)]
pub enum ExecutionOptionError {
    LocalInplacePartialDir,
    ReadBatchWithoutDestination,
    DaemonNotPlanned,
    DaemonRemoteShell,
    ModuleListingNeedsListOnly,
    ModuleListingOperands,
    DaemonTransferOperands,
    DaemonListOnlyModule,
    DaemonInplacePartialDir,
    DaemonMetadataPolicy,
    DaemonVss,
}

/// The text of an `ExecutionOptionError`.
pub open spec fn execution_error_text(e: ExecutionOptionError) -> Seq<char> {
    match e {
        ExecutionOptionError::LocalInplacePartialDir => "--inplace and --partial-dir cannot both control the same local write path"@,
        ExecutionOptionError::ReadBatchWithoutDestination => "--read-batch requires a destination operand"@,
        ExecutionOptionError::DaemonNotPlanned => "daemon execution could not be planned; run with --plan for diagnostics"@,
        ExecutionOptionError::DaemonRemoteShell => "daemon client mode does not use --rsh/-e; omit the remote-shell option"@,
        ExecutionOptionError::ModuleListingNeedsListOnly => "daemon module listing requires --list-only host::"@,
        ExecutionOptionError::ModuleListingOperands => "daemon module listing takes exactly one daemon operand"@,
        ExecutionOptionError::DaemonTransferOperands => "daemon transfer requires at least one source and one destination"@,
        ExecutionOptionError::DaemonListOnlyModule => "daemon --list-only currently supports module listing only; use a destination for pull dry runs"@,
        ExecutionOptionError::DaemonInplacePartialDir => "--inplace and --partial-dir cannot both control the same daemon write path"@,
        ExecutionOptionError::DaemonMetadataPolicy => "daemon client MVP currently supports only --metadata-policy=portable"@,
        ExecutionOptionError::DaemonVss => "daemon execution does not yet support VSS metadata options; run with --plan for diagnostics"@,
    }
}

impl ExecutionOptionError {
    /// The error as a message.
    pub fn message(&self) -> (r: &'static str)
        ensures
            r@ == execution_error_text(*self),
    {
        match self {
            ExecutionOptionError::LocalInplacePartialDir => "--inplace and --partial-dir cannot both control the same local write path",
            ExecutionOptionError::ReadBatchWithoutDestination => "--read-batch requires a destination operand",
            ExecutionOptionError::DaemonNotPlanned => "daemon execution could not be planned; run with --plan for diagnostics",
            ExecutionOptionError::DaemonRemoteShell => "daemon client mode does not use --rsh/-e; omit the remote-shell option",
            ExecutionOptionError::ModuleListingNeedsListOnly => "daemon module listing requires --list-only host::",
            ExecutionOptionError::ModuleListingOperands => "daemon module listing takes exactly one daemon operand",
            ExecutionOptionError::DaemonTransferOperands => "daemon transfer requires at least one source and one destination",
            ExecutionOptionError::DaemonListOnlyModule => "daemon --list-only currently supports module listing only; use a destination for pull dry runs",
            ExecutionOptionError::DaemonInplacePartialDir => "--inplace and --partial-dir cannot both control the same daemon write path",
            ExecutionOptionError::DaemonMetadataPolicy => "daemon client MVP currently supports only --metadata-policy=portable",
            ExecutionOptionError::DaemonVss => "daemon execution does not yet support VSS metadata options; run with --plan for diagnostics",
        }
    }
}

/// Whether a local transfer can run with these options: `--inplace` cannot share its write
/// path with `--partial-dir`, and `--read-batch` needs a destination.
pub open spec fn local_execution_check(o: CliOptions) -> Result<(), ExecutionOptionError> {
    if o.inplace && o.partial_dir is Some {
        Err(ExecutionOptionError::LocalInplacePartialDir)
    } else if o.read_batch is Some && o.paths@.len() < 2 {
        Err(ExecutionOptionError::ReadBatchWithoutDestination)
    } else {
        Ok(())
    }
}

/// Refuses a local transfer whose options cannot run together.
pub fn ensure_local_execution_options_supported(o: &CliOptions) -> (r: Result<(), ExecutionOptionError>)
    ensures
        r == local_execution_check(*o),
{
    if o.inplace && o.partial_dir.is_some() {
        return Err(ExecutionOptionError::LocalInplacePartialDir);
    }
    if o.read_batch.is_some() && o.paths.len() < 2 {
        return Err(ExecutionOptionError::ReadBatchWithoutDestination);
    }
    Ok(())
}

/// Whether a daemon transfer can run with these options and the planned daemon operand, the
/// first refusal in the order they are checked.
pub open spec fn daemon_execution_check(
    o: CliOptions,
    daemon: Option<crate::remote::flist::DaemonOperand>,
) -> Result<(), ExecutionOptionError> {
    match daemon {
        None => Err(ExecutionOptionError::DaemonNotPlanned),
        Some(d) => if o.remote_shell is Some {
            Err(ExecutionOptionError::DaemonRemoteShell)
        } else if d.module is None && !o.list_only {
            Err(ExecutionOptionError::ModuleListingNeedsListOnly)
        } else if d.module is None && o.paths@.len() != 1 {
            Err(ExecutionOptionError::ModuleListingOperands)
        } else if d.module is Some && o.paths@.len() < 2 {
            Err(ExecutionOptionError::DaemonTransferOperands)
        } else if o.list_only && d.module is Some {
            Err(ExecutionOptionError::DaemonListOnlyModule)
        } else if o.inplace && o.partial_dir is Some {
            Err(ExecutionOptionError::DaemonInplacePartialDir)
        } else if o.metadata_policy != MetadataPolicy::Portable {
            Err(ExecutionOptionError::DaemonMetadataPolicy)
        } else if o.vss {
            Err(ExecutionOptionError::DaemonVss)
        } else {
            Ok(())
        },
    }
}

/// Refuses a daemon transfer whose options cannot run.
pub fn ensure_daemon_execution_options_supported(
    o: &CliOptions,
    daemon: Option<&crate::remote::flist::DaemonOperand>,
) -> (r: Result<(), ExecutionOptionError>)
    ensures
        r == daemon_execution_check(
            *o,
            match daemon {
                Some(d) => Some(*d),
                None => None,
            },
        ),
{
    let daemon = match daemon {
        None => {
            return Err(ExecutionOptionError::DaemonNotPlanned);
        },
        Some(d) => d,
    };
    if o.remote_shell.is_some() {
        return Err(ExecutionOptionError::DaemonRemoteShell);
    }
    if daemon.module.is_none() && !o.list_only {
        return Err(ExecutionOptionError::ModuleListingNeedsListOnly);
    }
    if daemon.module.is_none() && o.paths.len() != 1 {
        return Err(ExecutionOptionError::ModuleListingOperands);
    }
    if daemon.module.is_some() && o.paths.len() < 2 {
        return Err(ExecutionOptionError::DaemonTransferOperands);
    }
    if o.list_only && daemon.module.is_some() {
        return Err(ExecutionOptionError::DaemonListOnlyModule);
    }
    if o.inplace && o.partial_dir.is_some() {
        return Err(ExecutionOptionError::DaemonInplacePartialDir);
    }
    if o.metadata_policy != MetadataPolicy::Portable {
        return Err(ExecutionOptionError::DaemonMetadataPolicy);
    }
    if o.vss {
        return Err(ExecutionOptionError::DaemonVss);
    }
    Ok(())
}

/// Whether an operand is written in daemon syntax: `rsync://...` or `host::module`.
pub open spec fn daemon_syntax(operand: Seq<char>) -> bool {
    crate::fs::walk::has_prefix(operand, "rsync://"@) || exists|i: int|
        0 <= i && i + 1 < operand.len() && #[trigger] operand[i] == ':' && operand[i + 1] == ':'
}

/// Whether an operand is written in daemon syntax.
pub fn is_daemon_operand_syntax(operand: &str) -> (r: bool)
    ensures
        r == daemon_syntax(operand@),
{
    let chars = crate::text::chars_of(operand);
    if crate::fs::walk::starts_with_chars(chars.as_slice(), "rsync://") {
        return true;
    }
    let mut i: usize = 0;
    while i < chars.len() && i + 1 < chars.len()
        invariant
            i <= chars@.len(),
            chars@ == operand@,
            forall|j: int|
                0 <= j < i && j + 1 < chars@.len() ==> !(#[trigger] chars@[j] == ':' && chars@[j + 1]
                    == ':'),
        decreases chars.len() - i,
    {
        if chars[i] == ':' && chars[i + 1] == ':' {
            assert(operand@[i as int] == ':' && operand@[i + 1] == ':');
            return true;
        }
        i = i + 1;
    }
    false
}

} // verus!
