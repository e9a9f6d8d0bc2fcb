use vstd::prelude::*;
use vstd::string::StringExecFns;

use crate::diagnostics::{Report, Severity};
use crate::filter::matcher::RuleSet;
use crate::filter::rule::{
    rule_error_text, spec_new_rule, spec_parse_filter, spec_parse_filter_file, Rule, RuleAction,
    RuleModel,
};
use crate::fs::paths::components_view;
use crate::remote::flist::TransferDirection;
use crate::text::chars_of;

verus! {

/// A filter file named on the command line: its path, and its bytes or the text of the error
/// that reading it gave.
pub struct FilterFile {
    pub path: String,
    pub contents: Result<Vec<u8>, String>,
}

/// The filter options of a transfer.
pub struct FilterOptions {
    pub cvs_exclude: bool,
    pub includes: Vec<String>,
    pub include_from: Vec<FilterFile>,
    pub excludes: Vec<String>,
    pub exclude_from: Vec<FilterFile>,
    pub filters: Vec<String>,
    pub from0: bool,
}

/// The patterns that `--cvs-exclude` leaves out, as CVS does.
pub open spec fn cvs_patterns() -> Seq<Seq<char>> {
    seq![
        "RCS"@, "SCCS"@, "CVS"@, "CVS.adm"@, "RCSLOG"@, "cvslog.*"@, "tags"@, "TAGS"@,
        ".make.state"@, ".nse_depinfo"@, "*~"@, "#*"@, ".#*"@, ",*"@, "_$*"@, "*$"@, "*.old"@,
        "*.bak"@, "*.BAK"@, "*.orig"@, "*.rej"@, ".del-*"@, "*.a"@, "*.olb"@, "*.o"@, "*.obj"@,
        "*.so"@, "*.exe"@, "*.Z"@, "*.elc"@, "*.ln"@, "core"@, ".svn"@, ".git"@, ".hg"@,
        ".bzr"@,
    ]
}

/// The patterns that `--cvs-exclude` leaves out.
pub fn cvs_exclude_patterns() -> (r: Vec<&'static str>)
    ensures
        r@.map_values(|s: &str| s@) == cvs_patterns(),
{
    let r = vec![
        "RCS", "SCCS", "CVS", "CVS.adm", "RCSLOG", "cvslog.*", "tags", "TAGS", ".make.state",
        ".nse_depinfo", "*~", "#*", ".#*", ",*", "_$*", "*$", "*.old", "*.bak", "*.BAK",
        "*.orig", "*.rej", ".del-*", "*.a", "*.olb", "*.o", "*.obj", "*.so", "*.exe", "*.Z",
        "*.elc", "*.ln", "core", ".svn", ".git", ".hg", ".bzr",
    ];
    assert(r@.map_values(|s: &str| s@) =~= cvs_patterns());
    r
}

/// Whether a rule can travel to the peer as a plain `--include` or `--exclude` argument: it
/// applies on both sides and does not perish.
pub open spec fn short_arg_ok(rule: RuleModel) -> bool {
    rule.sender_side && rule.receiver_side && !rule.perishable
}

/// Whether a rule can travel to the peer as a plain `--include` or `--exclude` argument.
pub fn filter_rule_can_use_short_arg(rule: &Rule) -> (r: bool)
    ensures
        r == short_arg_ok(rule@),
{
    rule.is_sender_side() && rule.is_receiver_side() && !rule.is_perishable()
}

/// The short form of an action in a filter rule.
pub open spec fn action_head(action: RuleAction) -> Seq<char> {
    match action {
        RuleAction::Include => "+"@,
        RuleAction::Exclude => "-"@,
        RuleAction::Hide => "H"@,
        RuleAction::Show => "S"@,
        RuleAction::Protect => "P"@,
        RuleAction::Risk => "R"@,
        RuleAction::ClearList => "!"@,
        RuleAction::Merge => "."@,
        RuleAction::DirMerge => ":"@,
    }
}

/// The modifiers a rule carries: `s` or `r` when it applies on one side only, then `p` when it
/// perishes.
pub open spec fn modifier_text(rule: RuleModel) -> Seq<char> {
    (if rule.sender_side && !rule.receiver_side {
        seq!['s']
    } else if rule.receiver_side && !rule.sender_side {
        seq!['r']
    } else {
        Seq::empty()
    }) + if rule.perishable {
        seq!['p']
    } else {
        Seq::empty()
    }
}

/// The text of a rule's pattern (empty for a rule without one).
pub open spec fn pattern_raw(rule: RuleModel) -> Seq<char> {
    match rule.pattern {
        Some(p) => p.raw,
        None => Seq::empty(),
    }
}

/// A rule written as a `--filter` argument: `!` for a list clear, else the action's short
/// form, a comma and the modifiers when there are any, a space and the pattern.
pub open spec fn remote_rule_text(rule: RuleModel) -> Seq<char> {
    if rule.action == RuleAction::ClearList {
        "!"@
    } else {
        action_head(rule.action) + (if modifier_text(rule).len() > 0 {
            seq![','] + modifier_text(rule)
        } else {
            Seq::empty()
        }) + seq![' '] + pattern_raw(rule)
    }
}

fn action_head_text(action: RuleAction) -> (r: String)
    ensures
        r@ == action_head(action),
{
    match action {
        RuleAction::Include => String::from_str("+"),
        RuleAction::Exclude => String::from_str("-"),
        RuleAction::Hide => String::from_str("H"),
        RuleAction::Show => String::from_str("S"),
        RuleAction::Protect => String::from_str("P"),
        RuleAction::Risk => String::from_str("R"),
        RuleAction::ClearList => String::from_str("!"),
        RuleAction::Merge => String::from_str("."),
        RuleAction::DirMerge => String::from_str(":"),
    }
}

/// A rule written as a `--filter` argument for the peer.
pub fn format_remote_filter_rule(rule: &Rule) -> (r: String)
    ensures
        r@ == remote_rule_text(rule@),
{
    if rule.action() == RuleAction::ClearList {
        return String::from_str("!");
    }
    let mut head = action_head_text(rule.action());
    let ghost head_text = head@;
    let mut modifiers = String::new();
    if rule.is_sender_side() && !rule.is_receiver_side() {
        modifiers.push('s');
    } else if rule.is_receiver_side() && !rule.is_sender_side() {
        modifiers.push('r');
    }
    if rule.is_perishable() {
        modifiers.push('p');
    }
    assert(modifiers@ =~= modifier_text(rule@));
    if modifiers.unicode_len() > 0 {
        head.push(',');
        head.append(modifiers.as_str());
    }
    head.push(' ');
    match rule.pattern_text() {
        Some(t) => head.append(t),
        None => {},
    }
    assert(head@ =~= remote_rule_text(rule@));
    head
}

/// The `--include`, `--exclude` and `--filter` arguments a receiver sends its peer.
pub open spec fn with_rule_arg(
    args: (Seq<Seq<char>>, Seq<Seq<char>>, Seq<Seq<char>>),
    rule: RuleModel,
) -> (Seq<Seq<char>>, Seq<Seq<char>>, Seq<Seq<char>>) {
    if rule.action == RuleAction::Include && short_arg_ok(rule) {
        (args.0.push(pattern_raw(rule)), args.1, args.2)
    } else if rule.action == RuleAction::Exclude && short_arg_ok(rule) {
        (args.0, args.1.push(pattern_raw(rule)), args.2)
    } else {
        (args.0, args.1, args.2.push(remote_rule_text(rule)))
    }
}

/// The arguments after each of `rules` in turn.
pub open spec fn with_rule_args(
    args: (Seq<Seq<char>>, Seq<Seq<char>>, Seq<Seq<char>>),
    rules: Seq<RuleModel>,
) -> (Seq<Seq<char>>, Seq<Seq<char>>, Seq<Seq<char>>)
    decreases rules.len(),
{
    if rules.len() == 0 {
        args
    } else {
        with_rule_arg(with_rule_args(args, rules.drop_last()), rules.last())
    }
}

/// Adds a rule to the arguments for the peer: a plain include or exclude when it can travel as
/// one, else a `--filter` argument.
pub fn add_remote_filter_rule_arg(
    includes: &mut Vec<String>,
    excludes: &mut Vec<String>,
    filters: &mut Vec<String>,
    rule: &Rule,
)
    ensures
        (components_view(final(includes)@), components_view(final(excludes)@), components_view(
            final(filters)@,
        )) == with_rule_arg(
            (
                components_view(old(includes)@),
                components_view(old(excludes)@),
                components_view(old(filters)@),
            ),
            rule@,
        ),
{
    let action = rule.action();
    let short = filter_rule_can_use_short_arg(rule);
    let raw = match rule.pattern_text() {
        Some(t) => t.to_owned(),
        None => String::new(),
    };
    assert(raw@ == pattern_raw(rule@));
    if action == RuleAction::Include && short {
        let ghost before = components_view(includes@);
        includes.push(raw);
        assert(components_view(includes@) =~= before.push(pattern_raw(rule@)));
    } else if action == RuleAction::Exclude && short {
        let ghost before = components_view(excludes@);
        excludes.push(raw);
        assert(components_view(excludes@) =~= before.push(pattern_raw(rule@)));
    } else {
        let ghost before = components_view(filters@);
        filters.push(format_remote_filter_rule(rule));
        assert(components_view(filters@) =~= before.push(remote_rule_text(rule@)));
    }
}

/// What reading a filter file gave, as values.
pub open spec fn file_contents(file: FilterFile) -> Result<Seq<u8>, Seq<char>> {
    match file.contents {
        Ok(b) => Ok(b@),
        Err(e) => Err(e@),
    }
}

/// The arguments after the rules of a filter file, when it could be read and parsed.
pub open spec fn with_filter_file_args(
    args: (Seq<Seq<char>>, Seq<Seq<char>>, Seq<Seq<char>>),
    contents: Result<Seq<u8>, Seq<char>>,
    from0: bool,
    default_action: RuleAction,
) -> (Seq<Seq<char>>, Seq<Seq<char>>, Seq<Seq<char>>) {
    match contents {
        Err(_) => args,
        Ok(bytes) => if bytes.len() >= usize::MAX {
            args
        } else {
            match spec_parse_filter_file(bytes, from0, default_action) {
                Err(_) => args,
                Ok(rules) => with_rule_args(args, rules),
            }
        },
    }
}

/// Adds the rules of a filter file to the arguments for the peer; a file that could not be read
/// or parsed adds nothing.
pub fn add_remote_filter_file_args(
    includes: &mut Vec<String>,
    excludes: &mut Vec<String>,
    filters: &mut Vec<String>,
    file: &FilterFile,
    from0: bool,
    default_action: RuleAction,
)
    ensures
        (components_view(final(includes)@), components_view(final(excludes)@), components_view(
            final(filters)@,
        )) == with_filter_file_args(
            (
                components_view(old(includes)@),
                components_view(old(excludes)@),
                components_view(old(filters)@),
            ),
            file_contents(*file),
            from0,
            default_action,
        ),
{
    let bytes = match &file.contents {
        Ok(b) => b,
        Err(_) => {
            return;
        },
    };
    if bytes.len() == usize::MAX {
        return;
    }
    let rules = match Rule::parse_filter_file(bytes.as_slice(), from0, default_action) {
        Ok(rules) => rules,
        Err(_) => {
            return;
        },
    };
    let ghost start = (
        components_view(includes@),
        components_view(excludes@),
        components_view(filters@),
    );
    let ghost rv = rules@.map_values(|x: Rule| x@);
    let mut i: usize = 0;
    assert(rv.take(0) =~= Seq::<RuleModel>::empty());
    while i < rules.len()
        invariant
            i <= rules@.len(),
            rv == rules@.map_values(|x: Rule| x@),
            (components_view(includes@), components_view(excludes@), components_view(filters@))
                == with_rule_args(start, rv.take(i as int)),
        decreases rules.len() - i,
    {
        add_remote_filter_rule_arg(includes, excludes, filters, &rules[i]);
        assert(rv.take(i + 1).drop_last() =~= rv.take(i as int));
        i = i + 1;
    }
    assert(rv.take(rv.len() as int) =~= rv);
}

/// The arguments after each filter file in turn.
pub open spec fn with_files_args(
    args: (Seq<Seq<char>>, Seq<Seq<char>>, Seq<Seq<char>>),
    files: Seq<FilterFile>,
    from0: bool,
    default_action: RuleAction,
) -> (Seq<Seq<char>>, Seq<Seq<char>>, Seq<Seq<char>>)
    decreases files.len(),
{
    if files.len() == 0 {
        args
    } else {
        with_filter_file_args(
            with_files_args(args, files.drop_last(), from0, default_action),
            file_contents(files.last()),
            from0,
            default_action,
        )
    }
}

/// The filter arguments a receiver sends its peer: its includes, excludes (with the CVS
/// patterns under `--cvs-exclude`) and filters, then the rules of its include files and of its
/// exclude files.
pub open spec fn remote_filter_args(options: FilterOptions) -> (
    Seq<Seq<char>>,
    Seq<Seq<char>>,
    Seq<Seq<char>>,
) {
    let start = (
        components_view(options.includes@),
        components_view(options.excludes@) + if options.cvs_exclude {
            cvs_patterns()
        } else {
            Seq::empty()
        },
        components_view(options.filters@),
    );
    with_files_args(
        with_files_args(start, options.include_from@, options.from0, RuleAction::Include),
        options.exclude_from@,
        options.from0,
        RuleAction::Exclude,
    )
}

pub(crate) fn clone_strings(items: &Vec<String>) -> (r: Vec<String>)
    ensures
        components_view(r@) == components_view(items@),
{
    let mut out: Vec<String> = Vec::new();
    let mut i: usize = 0;
    while i < items.len()
        invariant
            i <= items@.len(),
            components_view(out@) == components_view(items@).take(i as int),
        decreases items.len() - i,
    {
        let item = items[i].clone();
        assert(item@ == components_view(items@)[i as int]);
        let ghost before = components_view(out@);
        out.push(item);
        assert(components_view(out@) =~= before.push(item@));
        assert(components_view(items@).take(i + 1) =~= components_view(items@).take(i as int).push(
            components_view(items@)[i as int],
        ));
        i = i + 1;
    }
    assert(components_view(items@).take(items@.len() as int) =~= components_view(items@));
    out
}

fn add_files_args(
    includes: &mut Vec<String>,
    excludes: &mut Vec<String>,
    filters: &mut Vec<String>,
    files: &Vec<FilterFile>,
    from0: bool,
    default_action: RuleAction,
)
    ensures
        (components_view(final(includes)@), components_view(final(excludes)@), components_view(
            final(filters)@,
        )) == with_files_args(
            (
                components_view(old(includes)@),
                components_view(old(excludes)@),
                components_view(old(filters)@),
            ),
            files@,
            from0,
            default_action,
        ),
{
    let ghost start = (
        components_view(includes@),
        components_view(excludes@),
        components_view(filters@),
    );
    let mut i: usize = 0;
    assert(files@.take(0) =~= Seq::<FilterFile>::empty());
    while i < files.len()
        invariant
            i <= files@.len(),
            (components_view(includes@), components_view(excludes@), components_view(filters@))
                == with_files_args(start, files@.take(i as int), from0, default_action),
        decreases files.len() - i,
    {
        add_remote_filter_file_args(includes, excludes, filters, &files[i], from0, default_action);
        assert(files@.take(i + 1).drop_last() =~= files@.take(i as int));
        i = i + 1;
    }
    assert(files@.take(files@.len() as int) =~= files@);
}

/// The `--include`, `--exclude` and `--filter` arguments a receiver sends its peer.
pub fn remote_receiver_filter_args_from_cli(
    options: &FilterOptions,
    _direction: TransferDirection,
) -> (r: (Vec<String>, Vec<String>, Vec<String>))
    ensures
        (components_view(r.0@), components_view(r.1@), components_view(r.2@))
            == remote_filter_args(*options),
{
    let mut includes = clone_strings(&options.includes);
    let mut excludes = clone_strings(&options.excludes);
    let mut filters = clone_strings(&options.filters);
    if options.cvs_exclude {
        let patterns = cvs_exclude_patterns();
        let ghost before = components_view(excludes@);
        let mut i: usize = 0;
        while i < patterns.len()
            invariant
                i <= patterns@.len(),
                patterns@.map_values(|s: &str| s@) == cvs_patterns(),
                components_view(excludes@) == before + cvs_patterns().take(i as int),
            decreases patterns.len() - i,
        {
            let pattern = String::from_str(patterns[i]);
            assert(pattern@ == cvs_patterns()[i as int]);
            let ghost mid = components_view(excludes@);
            excludes.push(pattern);
            assert(components_view(excludes@) =~= mid.push(cvs_patterns()[i as int]));
            assert(cvs_patterns().take(i + 1) =~= cvs_patterns().take(i as int).push(
                cvs_patterns()[i as int],
            ));
            assert(components_view(excludes@) =~= before + cvs_patterns().take(i + 1));
            i = i + 1;
        }
        assert(cvs_patterns().take(cvs_patterns().len() as int) =~= cvs_patterns());
    } else {
        assert(components_view(excludes@) =~= components_view(options.excludes@)
            + Seq::<Seq<char>>::empty());
    }
    add_files_args(
        &mut includes,
        &mut excludes,
        &mut filters,
        &options.include_from,
        options.from0,
        RuleAction::Include,
    );
    add_files_args(
        &mut includes,
        &mut excludes,
        &mut filters,
        &options.exclude_from,
        options.from0,
        RuleAction::Exclude,
    );
    (includes, excludes, filters)
}

/// A diagnostic of the filter planner, as a report holds it.
pub open spec fn filter_error(message: Seq<char>) -> (
    Severity,
    Seq<char>,
    Seq<char>,
    Option<Seq<char>>,
) {
    (Severity::Error, "E_FILTER"@, message, None)
}

/// A rule list after a rule joins it: a list clear empties it.
pub open spec fn push_rule(rules: Seq<RuleModel>, rule: RuleModel) -> Seq<RuleModel> {
    if rule.action == RuleAction::ClearList {
        Seq::empty()
    } else {
        rules.push(rule)
    }
}

/// A rule list after each of `new` joins it in turn.
pub open spec fn push_rules(rules: Seq<RuleModel>, new: Seq<RuleModel>) -> Seq<RuleModel>
    decreases new.len(),
{
    if new.len() == 0 {
        rules
    } else {
        push_rule(push_rules(rules, new.drop_last()), new.last())
    }
}

/// The rules and the report after a pattern from the command line: its rule joins the rules,
/// or its error, after `label`, joins the report.
pub open spec fn pattern_rule_step(
    state: (Seq<RuleModel>, Seq<(Severity, Seq<char>, Seq<char>, Option<Seq<char>>)>),
    pattern: Seq<char>,
    action: RuleAction,
    label: Seq<char>,
) -> (Seq<RuleModel>, Seq<(Severity, Seq<char>, Seq<char>, Option<Seq<char>>)>) {
    if pattern.len() >= usize::MAX {
        state
    } else {
        match spec_new_rule(action, pattern) {
            Ok(m) => (push_rule(state.0, m), state.1),
            Err(e) => (state.0, state.1.push(filter_error(label + rule_error_text(e)))),
        }
    }
}

/// The rules and the report after each pattern in turn.
pub open spec fn pattern_rules(
    state: (Seq<RuleModel>, Seq<(Severity, Seq<char>, Seq<char>, Option<Seq<char>>)>),
    patterns: Seq<Seq<char>>,
    action: RuleAction,
    label: Seq<char>,
) -> (Seq<RuleModel>, Seq<(Severity, Seq<char>, Seq<char>, Option<Seq<char>>)>)
    decreases patterns.len(),
{
    if patterns.len() == 0 {
        state
    } else {
        pattern_rule_step(
            pattern_rules(state, patterns.drop_last(), action, label),
            patterns.last(),
            action,
            label,
        )
    }
}

/// The rules and the report after a `--filter` rule.
pub open spec fn filter_rule_step(
    state: (Seq<RuleModel>, Seq<(Severity, Seq<char>, Seq<char>, Option<Seq<char>>)>),
    filter: Seq<char>,
) -> (Seq<RuleModel>, Seq<(Severity, Seq<char>, Seq<char>, Option<Seq<char>>)>) {
    if filter.len() >= usize::MAX {
        state
    } else {
        match spec_parse_filter(filter) {
            Ok(m) => (push_rule(state.0, m), state.1),
            Err(e) => (
                state.0,
                state.1.push(filter_error("invalid filter rule: "@ + rule_error_text(e))),
            ),
        }
    }
}

/// The rules and the report after each `--filter` rule in turn.
pub open spec fn filter_rules(
    state: (Seq<RuleModel>, Seq<(Severity, Seq<char>, Seq<char>, Option<Seq<char>>)>),
    filters: Seq<Seq<char>>,
) -> (Seq<RuleModel>, Seq<(Severity, Seq<char>, Seq<char>, Option<Seq<char>>)>)
    decreases filters.len(),
{
    if filters.len() == 0 {
        state
    } else {
        filter_rule_step(filter_rules(state, filters.drop_last()), filters.last())
    }
}

/// The rules and the report after a filter file: its rules join the rules, or the read or
/// parse error joins the report.
pub open spec fn file_rule_step(
    state: (Seq<RuleModel>, Seq<(Severity, Seq<char>, Seq<char>, Option<Seq<char>>)>),
    file: FilterFile,
    from0: bool,
    default_action: RuleAction,
) -> (Seq<RuleModel>, Seq<(Severity, Seq<char>, Seq<char>, Option<Seq<char>>)>) {
    match file.contents {
        Err(e) => (
            state.0,
            state.1.push(
                filter_error("could not read filter file "@ + file.path@ + ": "@ + e@),
            ),
        ),
        Ok(bytes) => if bytes@.len() >= usize::MAX {
            state
        } else {
            match spec_parse_filter_file(bytes@, from0, default_action) {
                Ok(rules) => (push_rules(state.0, rules), state.1),
                Err(e) => (
                    state.0,
                    state.1.push(
                        filter_error(
                            "invalid filter file "@ + file.path@ + ": "@ + rule_error_text(e),
                        ),
                    ),
                ),
            }
        },
    }
}

/// The rules and the report after each filter file in turn.
pub open spec fn file_rules(
    state: (Seq<RuleModel>, Seq<(Severity, Seq<char>, Seq<char>, Option<Seq<char>>)>),
    files: Seq<FilterFile>,
    from0: bool,
    default_action: RuleAction,
) -> (Seq<RuleModel>, Seq<(Severity, Seq<char>, Seq<char>, Option<Seq<char>>)>)
    decreases files.len(),
{
    if files.len() == 0 {
        state
    } else {
        file_rule_step(file_rules(state, files.drop_last(), from0, default_action), files.last(), from0, default_action)
    }
}

/// The filter rules of a transfer and the report after them: the CVS patterns under
/// `--cvs-exclude`, the includes, the rules of the include files, the excludes, the rules of the
/// exclude files and the `--filter` rules, in that order; each pattern or file that fails adds
/// an error to the report instead.
pub open spec fn built_filter_rules(
    options: FilterOptions,
    report: Seq<(Severity, Seq<char>, Seq<char>, Option<Seq<char>>)>,
) -> (Seq<RuleModel>, Seq<(Severity, Seq<char>, Seq<char>, Option<Seq<char>>)>) {
    let s0 = (Seq::<RuleModel>::empty(), report);
    let s1 = if options.cvs_exclude {
        pattern_rules(s0, cvs_patterns(), RuleAction::Exclude, "invalid CVS exclude pattern: "@)
    } else {
        s0
    };
    let s2 = pattern_rules(
        s1,
        components_view(options.includes@),
        RuleAction::Include,
        "invalid include pattern: "@,
    );
    let s3 = file_rules(s2, options.include_from@, options.from0, RuleAction::Include);
    let s4 = pattern_rules(
        s3,
        components_view(options.excludes@),
        RuleAction::Exclude,
        "invalid exclude pattern: "@,
    );
    let s5 = file_rules(s4, options.exclude_from@, options.from0, RuleAction::Exclude);
    filter_rules(s5, components_view(options.filters@))
}

fn add_pattern_rule(
    rules: &mut RuleSet,
    report: &mut Report,
    pattern: &str,
    action: RuleAction,
    label: &'static str,
)
    ensures
        (final(rules)@, final(report)@) == pattern_rule_step(
            (old(rules)@, old(report)@),
            pattern@,
            action,
            label@,
        ),
{
    if pattern.unicode_len() == usize::MAX {
        return;
    }
    match Rule::new(action, pattern) {
        Ok(rule) => rules.push(rule),
        Err(e) => {
            let mut message = String::from_str(label);
            message.append(e.message().as_str());
            report.error("E_FILTER", message.as_str());
        },
    }
}

fn add_pattern_rules(
    rules: &mut RuleSet,
    report: &mut Report,
    patterns: &Vec<String>,
    action: RuleAction,
    label: &'static str,
)
    ensures
        (final(rules)@, final(report)@) == pattern_rules(
            (old(rules)@, old(report)@),
            components_view(patterns@),
            action,
            label@,
        ),
{
    let ghost start = (rules@, report@);
    let ghost pv = components_view(patterns@);
    let mut i: usize = 0;
    assert(pv.take(0) =~= Seq::<Seq<char>>::empty());
    while i < patterns.len()
        invariant
            i <= patterns@.len(),
            pv == components_view(patterns@),
            (rules@, report@) == pattern_rules(start, pv.take(i as int), action, label@),
        decreases patterns.len() - i,
    {
        add_pattern_rule(rules, report, patterns[i].as_str(), action, label);
        assert(pv.take(i + 1).drop_last() =~= pv.take(i as int));
        i = i + 1;
    }
    assert(pv.take(pv.len() as int) =~= pv);
}

/// Adds the rules of a filter file to `rules`, or reports why it could not be read or parsed.
pub fn add_filter_file_rules(
    rules: &mut RuleSet,
    file: &FilterFile,
    from0: bool,
    default_action: RuleAction,
    report: &mut Report,
)
    ensures
        (final(rules)@, final(report)@) == file_rule_step(
            (old(rules)@, old(report)@),
            *file,
            from0,
            default_action,
        ),
{
    match &file.contents {
        Err(e) => {
            let mut message = crate::text::join3("could not read filter file ", file.path.as_str(), ": ");
            message.append(e.as_str());
            report.error("E_FILTER", message.as_str());
        },
        Ok(bytes) => {
            if bytes.len() == usize::MAX {
                return;
            }
            match Rule::parse_filter_file(bytes.as_slice(), from0, default_action) {
                Ok(parsed) => {
                    let ghost start = rules@;
                    let ghost pv = parsed@.map_values(|x: Rule| x@);
                    let total = parsed.len();
                    let mut remaining = parsed;
                    let mut k: usize = 0;
                    assert(pv.take(0) =~= Seq::<RuleModel>::empty());
                    assert(pv.skip(0) =~= pv);
                    while remaining.len() > 0
                        invariant
                            k <= pv.len(),
                            pv.len() == total,
                            remaining@.map_values(|x: Rule| x@) == pv.skip(k as int),
                            rules@ == push_rules(start, pv.take(k as int)),
                        decreases remaining.len(),
                    {
                        let ghost before = remaining@;
                        let rule = remaining.remove(0);
                        proof {
                            let f = |x: Rule| x@;
                            assert(rule == before[0]);
                            assert(before.map_values(f).len() == before.len());
                            assert(pv.skip(k as int).len() == before.len());
                            assert(k < pv.len());
                            assert(before.map_values(f)[0] == f(before[0]));
                            assert(pv.skip(k as int)[0] == pv[k as int]);
                            assert(remaining@ == before.remove(0));
                            assert forall|j: int| 0 <= j < remaining@.len() implies #[trigger] remaining@.map_values(f)[j] == pv.skip(k + 1)[j] by {
                                assert(remaining@[j] == before[j + 1]);
                                assert(before.map_values(f)[j + 1] == f(before[j + 1]));
                                assert(pv.skip(k as int)[j + 1] == pv[k + 1 + j]);
                            }
                            assert(remaining@.map_values(f) =~= pv.skip(k + 1));
                        }
                        rules.push(rule);
                        assert(pv.take(k + 1).drop_last() =~= pv.take(k as int));
                        k = k + 1;
                    }
                    assert(pv.take(k as int) =~= pv);
                },
                Err(e) => {
                    let mut message = crate::text::join3("invalid filter file ", file.path.as_str(), ": ");
                    message.append(e.message().as_str());
                    report.error("E_FILTER", message.as_str());
                },
            }
        },
    }
}

fn add_files_rules(
    rules: &mut RuleSet,
    report: &mut Report,
    files: &Vec<FilterFile>,
    from0: bool,
    default_action: RuleAction,
)
    ensures
        (final(rules)@, final(report)@) == file_rules(
            (old(rules)@, old(report)@),
            files@,
            from0,
            default_action,
        ),
{
    let ghost start = (rules@, report@);
    let mut i: usize = 0;
    assert(files@.take(0) =~= Seq::<FilterFile>::empty());
    while i < files.len()
        invariant
            i <= files@.len(),
            (rules@, report@) == file_rules(start, files@.take(i as int), from0, default_action),
        decreases files.len() - i,
    {
        add_filter_file_rules(rules, &files[i], from0, default_action, report);
        assert(files@.take(i + 1).drop_last() =~= files@.take(i as int));
        i = i + 1;
    }
    assert(files@.take(files@.len() as int) =~= files@);
}

/// The filter rules of a transfer, with each pattern or file that fails reported as an error.
pub fn build_filter_rules(options: &FilterOptions, report: &mut Report) -> (r: RuleSet)
    ensures
        (r@, final(report)@) == built_filter_rules(*options, old(report)@),
{
    let mut rules = RuleSet::empty();
    if options.cvs_exclude {
        let patterns = cvs_exclude_patterns();
        let ghost start = (rules@, report@);
        let mut i: usize = 0;
        assert(cvs_patterns().take(0) =~= Seq::<Seq<char>>::empty());
        while i < patterns.len()
            invariant
                i <= patterns@.len(),
                patterns@.map_values(|s: &str| s@) == cvs_patterns(),
                (rules@, report@) == pattern_rules(
                    start,
                    cvs_patterns().take(i as int),
                    RuleAction::Exclude,
                    "invalid CVS exclude pattern: "@,
                ),
            decreases patterns.len() - i,
        {
            assert(patterns@[i as int]@ == cvs_patterns()[i as int]);
            add_pattern_rule(
                &mut rules,
                report,
                patterns[i],
                RuleAction::Exclude,
                "invalid CVS exclude pattern: ",
            );
            assert(cvs_patterns().take(i + 1).drop_last() =~= cvs_patterns().take(i as int));
            i = i + 1;
        }
        assert(cvs_patterns().take(cvs_patterns().len() as int) =~= cvs_patterns());
    }
    add_pattern_rules(
        &mut rules,
        report,
        &options.includes,
        RuleAction::Include,
        "invalid include pattern: ",
    );
    add_files_rules(&mut rules, report, &options.include_from, options.from0, RuleAction::Include);
    add_pattern_rules(
        &mut rules,
        report,
        &options.excludes,
        RuleAction::Exclude,
        "invalid exclude pattern: ",
    );
    add_files_rules(&mut rules, report, &options.exclude_from, options.from0, RuleAction::Exclude);
    let ghost start = (rules@, report@);
    let ghost fv = components_view(options.filters@);
    let mut i: usize = 0;
    assert(fv.take(0) =~= Seq::<Seq<char>>::empty());
    while i < options.filters.len()
        invariant
            i <= options.filters@.len(),
            fv == components_view(options.filters@),
            (rules@, report@) == filter_rules(start, fv.take(i as int)),
        decreases options.filters.len() - i,
    {
        let filter = options.filters[i].as_str();
        if filter.unicode_len() != usize::MAX {
            match Rule::parse_filter(filter) {
                Ok(rule) => rules.push(rule),
                Err(e) => {
                    let mut message = String::from_str("invalid filter rule: ");
                    message.append(e.message().as_str());
                    report.error("E_FILTER", message.as_str());
                },
            }
        }
        assert(fv.take(i + 1).drop_last() =~= fv.take(i as int));
        i = i + 1;
    }
    assert(fv.take(fv.len() as int) =~= fv);
    rules
}

/// The rules that `patterns` give with `action`, in order; a pattern that fails to parse gives
/// none.
pub open spec fn valid_pattern_rules(patterns: Seq<Seq<char>>, action: RuleAction) -> Seq<RuleModel>
    decreases patterns.len(),
{
    if patterns.len() == 0 {
        Seq::empty()
    } else {
        let p = patterns.last();
        valid_pattern_rules(patterns.drop_last(), action) + if p.len() >= usize::MAX {
            Seq::empty()
        } else {
            match spec_new_rule(action, p) {
                Ok(m) => seq![m],
                Err(_) => Seq::empty(),
            }
        }
    }
}

proof fn lemma_pattern_rules_append(
    state: (Seq<RuleModel>, Seq<(Severity, Seq<char>, Seq<char>, Option<Seq<char>>)>),
    patterns: Seq<Seq<char>>,
    action: RuleAction,
    label: Seq<char>,
)
    requires
        action != RuleAction::ClearList,
    ensures
        pattern_rules(state, patterns, action, label).0 == state.0 + valid_pattern_rules(
            patterns,
            action,
        ),
    decreases patterns.len(),
{
    if patterns.len() == 0 {
        assert(state.0 + Seq::<RuleModel>::empty() =~= state.0);
    } else {
        lemma_pattern_rules_append(state, patterns.drop_last(), action, label);
        let before = pattern_rules(state, patterns.drop_last(), action, label).0;
        let rest = valid_pattern_rules(patterns.drop_last(), action);
        let p = patterns.last();
        if p.len() >= usize::MAX {
            assert(state.0 + (rest + Seq::<RuleModel>::empty()) =~= before);
        } else {
            match spec_new_rule(action, p) {
                Ok(m) => {
                    assert(state.0 + (rest + seq![m]) =~= before.push(m));
                },
                Err(_) => {
                    assert(state.0 + (rest + Seq::<RuleModel>::empty()) =~= before);
                },
            }
        }
    }
}

/// Rules from `--include` come before rules from `--exclude`: with only these two options, the
/// rule list is the include rules, in order, followed by the exclude rules, so under
/// first-match-wins a path named by an include is kept even when an exclude also matches it.
pub proof fn lemma_includes_precede_excludes(
    options: FilterOptions,
    report: Seq<(Severity, Seq<char>, Seq<char>, Option<Seq<char>>)>,
)
    requires
        !options.cvs_exclude,
        options.include_from@.len() == 0,
        options.exclude_from@.len() == 0,
        options.filters@.len() == 0,
    ensures
        built_filter_rules(options, report).0 == valid_pattern_rules(
            components_view(options.includes@),
            RuleAction::Include,
        ) + valid_pattern_rules(components_view(options.excludes@), RuleAction::Exclude),
{
    let s0 = (Seq::<RuleModel>::empty(), report);
    let s2 = pattern_rules(
        s0,
        components_view(options.includes@),
        RuleAction::Include,
        "invalid include pattern: "@,
    );
    lemma_pattern_rules_append(
        s0,
        components_view(options.includes@),
        RuleAction::Include,
        "invalid include pattern: "@,
    );
    let s3 = file_rules(s2, options.include_from@, options.from0, RuleAction::Include);
    assert(s3 == s2);
    lemma_pattern_rules_append(
        s3,
        components_view(options.excludes@),
        RuleAction::Exclude,
        "invalid exclude pattern: "@,
    );
    let s4 = pattern_rules(
        s3,
        components_view(options.excludes@),
        RuleAction::Exclude,
        "invalid exclude pattern: "@,
    );
    let s5 = file_rules(s4, options.exclude_from@, options.from0, RuleAction::Exclude);
    assert(s5 == s4);
    assert(filter_rules(s5, components_view(options.filters@)) == s5) by {
        assert(components_view(options.filters@).len() == 0);
    }
    assert(Seq::<RuleModel>::empty() + valid_pattern_rules(
        components_view(options.includes@),
        RuleAction::Include,
    ) =~= valid_pattern_rules(components_view(options.includes@), RuleAction::Include));
}

} // verus!
