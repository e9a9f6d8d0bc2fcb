use vstd::prelude::*;

use vstd::string::StringExecFns;

use crate::filter::matcher::RuleSet;
use crate::filter::records::{split_chars, split_on};
use crate::filter::rule::{RuleModel, RuleSide};
use crate::fs::paths::components_view;
use crate::fs::sync_engine::path_stopped;
use crate::remote::receive::{fs_type_of, remote_receiver_path_is_filtered, remote_source_path_is_filtered};
use crate::remote::wire::{is_top_dir, remote_entry_is_top_dir, RemoteEntry};
use crate::text::{chars_of, join3, string_from_chars, trim, trim_chars};

verus! {

/// `s` with every `\` turned into `/`.
pub open spec fn slashed(s: Seq<char>) -> Seq<char> {
    s.map_values(|c: char| if c == '\\' { '/' } else { c })
}

fn slashed_chars(s: &[char]) -> (r: Vec<char>)
    ensures
        r@ == slashed(s@),
{
    let mut out: Vec<char> = Vec::new();
    let mut i: usize = 0;
    while i < s.len()
        invariant
            i <= s@.len(),
            out@ == slashed(s@.take(i as int)),
        decreases s.len() - i,
    {
        out.push(if s[i] == '\\' { '/' } else { s[i] });
        i = i + 1;
        assert(out@ =~= slashed(s@.take(i as int)));
    }
    assert(s@.take(s@.len() as int) =~= s@);
    out
}

/// The file name that a remote single-file source path asks for: its last component, trimmed,
/// when the path does not end with a separator and the name has an extension-like `.`.
pub open spec fn single_file_basename(path: Seq<char>) -> Option<Seq<char>> {
    if path.len() > 0 && (path.last() == '/' || path.last() == '\\') {
        None
    } else {
        let name = trim(split_on(slashed(path), '/').last());
        if name.len() == 0 || !name.contains('.') {
            None
        } else {
            Some(name)
        }
    }
}

fn contains_dot(s: &[char]) -> (r: bool)
    ensures
        r == s@.contains('.'),
{
    let mut i: usize = 0;
    while i < s.len()
        invariant
            i <= s@.len(),
            forall|j: int| 0 <= j < i ==> s@[j] != '.',
        decreases s.len() - i,
    {
        if s[i] == '.' {
            assert(s@[i as int] == '.');
            return true;
        }
        i = i + 1;
    }
    false
}

pub fn remote_single_file_source_basename(path: &str) -> (r: Option<String>)
    ensures
        match single_file_basename(path@) {
            Some(name) => r matches Some(s) && s@ == name,
            None => r is None,
        },
{
    let chars = chars_of(path);
    let n = chars.len();
    if n > 0 && (chars[n - 1] == '/' || chars[n - 1] == '\\') {
        return None;
    }
    let normalized = slashed_chars(chars.as_slice());
    let pieces = split_chars(normalized.as_slice(), '/');
    proof {
        crate::filter::records::lemma_split_on_nonempty(normalized@, '/');
    }
    let last = pieces.len() - 1;
    assert(pieces@.map_values(|v: Vec<char>| v@)[last as int] == pieces@[last as int]@);
    let name = trim_chars(pieces[last].as_slice());
    if name.len() == 0 || !contains_dot(name.as_slice()) {
        None
    } else {
        Some(string_from_chars(name.as_slice()))
    }
}

/// Whether `relative` is `name` or lies below a directory called `name`.
pub open spec fn names_or_lies_under(relative: Seq<char>, name: Seq<char>) -> bool {
    relative == name || (relative.len() > name.len() && relative.take(name.len() as int) == name
        && relative[name.len() as int] == '/')
}

/// Whether a path sent by a remote sender is one of the single-file sources asked for (any path
/// is, when no single-file source was asked for).
pub open spec fn matches_single_file_sources(relative: Seq<char>, allowed: Seq<Seq<char>>) -> bool {
    allowed.len() == 0 || exists|i: int|
        0 <= i < allowed.len() && names_or_lies_under(slashed(relative), #[trigger] allowed[i])
}

fn names_or_lies_under_chars(relative: &[char], name: &[char]) -> (r: bool)
    ensures
        r == names_or_lies_under(relative@, name@),
{
    if relative.len() < name.len() {
        return false;
    }
    let mut i: usize = 0;
    while i < name.len()
        invariant
            i <= name@.len(),
            name@.len() <= relative@.len(),
            forall|j: int| 0 <= j < i ==> relative@[j] == name@[j],
        decreases name.len() - i,
    {
        if relative[i] != name[i] {
            assert(relative@.take(name@.len() as int)[i as int] != name@[i as int]);
            assert(relative@ != name@);
            return false;
        }
        i = i + 1;
    }
    assert(relative@.take(name@.len() as int) =~= name@);
    if relative.len() == name.len() {
        assert(relative@ =~= name@);
        true
    } else {
        assert(relative@ != name@);
        relative[name.len()] == '/'
    }
}

pub fn remote_entry_matches_single_file_sources(relative: &str, allowed: &[String]) -> (r: bool)
    ensures
        r == matches_single_file_sources(relative@, allowed@.map_values(|s: String| s@)),
{
    let ghost names = allowed@.map_values(|s: String| s@);
    if allowed.len() == 0 {
        return true;
    }
    let rel = slashed_chars(chars_of(relative).as_slice());
    let mut i: usize = 0;
    while i < allowed.len()
        invariant
            i <= allowed@.len(),
            names == allowed@.map_values(|s: String| s@),
            rel@ == slashed(relative@),
            forall|j: int| 0 <= j < i ==> !names_or_lies_under(rel@, #[trigger] names[j]),
        decreases allowed.len() - i,
    {
        let name = chars_of(allowed[i].as_str());
        assert(names[i as int] == allowed@[i as int]@);
        if names_or_lies_under_chars(rel.as_slice(), name.as_slice()) {
            return true;
        }
        i = i + 1;
    }
    false
}

/// The single-file names that remote source paths ask for, in order.
pub open spec fn basenames_of(paths: Seq<Seq<char>>) -> Seq<Seq<char>>
    decreases paths.len(),
{
    if paths.len() == 0 {
        Seq::empty()
    } else {
        let prev = basenames_of(paths.drop_last());
        match single_file_basename(paths.last()) {
            Some(b) => prev.push(b),
            None => prev,
        }
    }
}

/// The single-file names that a pull asks for (none for a push).
pub fn remote_single_file_source_basenames(pull: bool, remote_paths: &[String]) -> (r: Vec<
    String,
>)
    ensures
        components_view(r@) == if pull {
            basenames_of(components_view(remote_paths@))
        } else {
            Seq::empty()
        },
{
    let mut out: Vec<String> = Vec::new();
    if !pull {
        assert(components_view(out@) =~= Seq::<Seq<char>>::empty());
        return out;
    }
    let ghost pv = components_view(remote_paths@);
    let mut i: usize = 0;
    assert(pv.take(0) =~= Seq::<Seq<char>>::empty());
    while i < remote_paths.len()
        invariant
            i <= remote_paths@.len(),
            pv == components_view(remote_paths@),
            components_view(out@) == basenames_of(pv.take(i as int)),
        decreases remote_paths.len() - i,
    {
        assert(pv.take(i + 1).drop_last() =~= pv.take(i as int));
        assert(pv[i as int] == remote_paths@[i as int]@);
        let ghost before = components_view(out@);
        match remote_single_file_source_basename(remote_paths[i].as_str()) {
            Some(name) => {
                out.push(name);
                assert(components_view(out@) =~= before.push(single_file_basename(pv[i as int])->0));
            },
            None => {},
        }
        i = i + 1;
    }
    assert(pv.take(pv.len() as int) =~= pv);
    out
}

/// What a receiver knows of its request when it checks the file list a sender sent: whether
/// it trusts the sender, whether old-style arguments were used, whether it pulls, and the
/// remote source paths it asked for.
pub struct RemoteClaimPlan {
    pub trust_sender: bool,
    pub old_args: bool,
    pub pull: bool,
    pub remote_paths: Vec<String>,
}

/// Why a receiver refuses the file list a sender sent.
#[derive(Debug, Clone, PartialEq, Eq)]
pub enum SenderClaimError {
    /// The sender listed a path that was not asked for.
    Unrequested { path: String },
    /// The sender listed a path that the filter rules leave out.
    Filtered { path: String },
}

/// The text of a `SenderClaimError`.
pub open spec fn claim_error_text(e: SenderClaimError) -> Seq<char> {
    match e {
        SenderClaimError::Unrequested { path } => "remote sender sent unrequested path `"@ + path@
            + "`; use --trust-sender to accept remote file-list names"@,
        SenderClaimError::Filtered { path } => "remote sender sent filtered path `"@ + path@
            + "`; use --trust-sender to accept remote file-list names"@,
    }
}

impl SenderClaimError {
    /// The error as a message.
    pub fn message(&self) -> (r: String)
        ensures
            r@ == claim_error_text(*self),
    {
        match self {
            SenderClaimError::Unrequested { path } => join3(
                "remote sender sent unrequested path `",
                path.as_str(),
                "`; use --trust-sender to accept remote file-list names",
            ),
            SenderClaimError::Filtered { path } => join3(
                "remote sender sent filtered path `",
                path.as_str(),
                "`; use --trust-sender to accept remote file-list names",
            ),
        }
    }
}

/// The single-file names a receiver accepts under `plan`: none with old-style arguments.
pub open spec fn allowed_names(plan: RemoteClaimPlan) -> Seq<Seq<char>> {
    if plan.old_args || !plan.pull {
        Seq::empty()
    } else {
        basenames_of(components_view(plan.remote_paths@))
    }
}

/// What is wrong with one entry of a sender's file list, if anything: the top directory is
/// always fine; another entry must be one of the single files asked for (when any was), and
/// neither side's rules may leave it out.
pub open spec fn claim_problem(e: RemoteEntry, allowed: Seq<Seq<char>>, rules: Seq<RuleModel>) -> Option<
    SenderClaimError,
> {
    if is_top_dir(e) {
        None
    } else if !matches_single_file_sources(e.path@, allowed) {
        Some(SenderClaimError::Unrequested { path: e.path })
    } else if path_stopped(rules, e.path@, fs_type_of(e.file_type), RuleSide::Sender, false)
        || path_stopped(rules, e.path@, fs_type_of(e.file_type), RuleSide::Receiver, false) {
        Some(SenderClaimError::Filtered { path: e.path })
    } else {
        None
    }
}

/// The problem of the first of the first `n` entries that has one.
pub open spec fn first_claim_problem(
    entries: Seq<RemoteEntry>,
    allowed: Seq<Seq<char>>,
    rules: Seq<RuleModel>,
    n: int,
) -> Option<SenderClaimError>
    decreases n,
{
    if n <= 0 {
        None
    } else {
        match first_claim_problem(entries, allowed, rules, n - 1) {
            Some(p) => Some(p),
            None => claim_problem(entries[n - 1], allowed, rules),
        }
    }
}

proof fn lemma_first_claim_problem_stays(
    entries: Seq<RemoteEntry>,
    allowed: Seq<Seq<char>>,
    rules: Seq<RuleModel>,
    n: int,
    m: int,
)
    requires
        0 <= n <= m,
        first_claim_problem(entries, allowed, rules, n) is Some,
    ensures
        first_claim_problem(entries, allowed, rules, m) == first_claim_problem(
            entries,
            allowed,
            rules,
            n,
        ),
    decreases m - n,
{
    if n < m {
        lemma_first_claim_problem_stays(entries, allowed, rules, n, m - 1);
    }
}

/// Checks the file list a sender sent against what was asked for: accepted outright when the
/// sender is trusted, else refused at the first entry with a problem.
pub fn validate_remote_sender_claims(
    plan: &RemoteClaimPlan,
    rules: &RuleSet,
    entries: &[RemoteEntry],
) -> (r: Result<(), SenderClaimError>)
    ensures
        r == if plan.trust_sender {
            Ok::<(), SenderClaimError>(())
        } else {
            match first_claim_problem(entries@, allowed_names(*plan), rules@, entries@.len() as int) {
                Some(e) => Err(e),
                None => Ok(()),
            }
        },
{
    if plan.trust_sender {
        return Ok(());
    }
    let allowed = if plan.old_args {
        Vec::new()
    } else {
        remote_single_file_source_basenames(plan.pull, plan.remote_paths.as_slice())
    };
    let ghost av = allowed_names(*plan);
    assert(components_view(allowed@) =~= av);
    let mut i: usize = 0;
    while i < entries.len()
        invariant
            i <= entries@.len(),
            components_view(allowed@) == av,
            av == allowed_names(*plan),
            !plan.trust_sender,
            first_claim_problem(entries@, av, rules@, i as int) is None,
        decreases entries.len() - i,
    {
        let entry = &entries[i];
        if !remote_entry_is_top_dir(entry) {
            if !remote_entry_matches_single_file_sources(entry.path.as_str(), allowed.as_slice()) {
                let path = entry.path.clone();
                proof {
                    lemma_first_claim_problem_stays(entries@, av, rules@, i + 1, entries@.len() as int);
                }
                return Err(SenderClaimError::Unrequested { path });
            }
            if remote_source_path_is_filtered(rules, entry.path.as_str(), entry.file_type)
                || remote_receiver_path_is_filtered(rules, entry.path.as_str(), entry.file_type) {
                proof {
                    lemma_first_claim_problem_stays(entries@, av, rules@, i + 1, entries@.len() as int);
                }
                return Err(SenderClaimError::Filtered { path: entry.path.clone() });
            }
        }
        i = i + 1;
    }
    Ok(())
}

} // verus!
