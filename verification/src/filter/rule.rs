use vstd::prelude::*;

use crate::filter::glob::{glob_matches_chars, lemma_normalize_len, normalize_path, normalize_path_chars, spec_glob_matches};
use crate::filter::matcher::EntryKind;
use crate::filter::records::{
    decode_utf8_bytes, find_nul, first_byte_index, line_records, lemma_decode_utf8_len,
    lemma_line_records_len, lemma_nul_records_len, lemma_split_piece_len, lemma_utf8_error_offset,
    nul_records, parse_lines, parse_nul_records, split_on, utf8_error_offset,
};
use vstd::utf8::{decode_utf8, valid_utf8};
use crate::text::{
    chars_equal, chars_of, copy_chars, is_whitespace, is_whitespace_char, string_from_chars,
    trim, trim_bounds, trim_start,
};

verus! {

/// What a filter rule does with the entries it matches.
#[derive(Debug, Clone, Copy, PartialEq, Eq, Structural)]
pub enum RuleAction {
    Include,
    Exclude,
    Hide,
    Show,
    Protect,
    Risk,
    ClearList,
    Merge,
    DirMerge,
}

/// The side of a transfer a rule applies to.
#[derive(Debug, Clone, Copy, PartialEq, Eq, Structural)]
pub enum RuleSide {
    Sender,
    Receiver,
}

/// Why a filter rule could not be parsed.
#[derive(Debug, Clone, PartialEq, Eq)]
pub enum ParseRuleError {
    EmptyRule,
    MissingPattern,
    EmptyPattern,
    UnknownRule(String),
    InvalidModifier(char),
    InvalidUtf8 { offset: usize },
    UnexpectedNul { offset: usize },
}

/// The content of a `ParseRuleError`.
pub enum RuleErrorModel {
    EmptyRule,
    MissingPattern,
    EmptyPattern,
    UnknownRule(Seq<char>),
    InvalidModifier(char),
    InvalidUtf8(nat),
    UnexpectedNul(nat),
}

impl View for ParseRuleError {
    type V = RuleErrorModel;

    open spec fn view(&self) -> RuleErrorModel {
        match self {
            ParseRuleError::EmptyRule => RuleErrorModel::EmptyRule,
            ParseRuleError::MissingPattern => RuleErrorModel::MissingPattern,
            ParseRuleError::EmptyPattern => RuleErrorModel::EmptyPattern,
            ParseRuleError::UnknownRule(s) => RuleErrorModel::UnknownRule(s@),
            ParseRuleError::InvalidModifier(c) => RuleErrorModel::InvalidModifier(*c),
            ParseRuleError::InvalidUtf8 { offset } => RuleErrorModel::InvalidUtf8(*offset as nat),
            ParseRuleError::UnexpectedNul { offset } => RuleErrorModel::UnexpectedNul(*offset as nat),
        }
    }
}

/// The text of a rule error.
pub open spec fn rule_error_text(e: RuleErrorModel) -> Seq<char> {
    match e {
        RuleErrorModel::EmptyRule => "filter rule is empty"@,
        RuleErrorModel::MissingPattern => "filter rule is missing a pattern"@,
        RuleErrorModel::EmptyPattern => "filter rule pattern is empty"@,
        RuleErrorModel::UnknownRule(rule) => "unknown filter rule syntax `"@ + rule + "`"@,
        RuleErrorModel::InvalidModifier(c) => "invalid filter rule modifier `"@ + seq![c] + "`"@,
        RuleErrorModel::InvalidUtf8(offset) => "filter file input is not valid UTF-8 at byte "@
            + crate::decimal::decimal_of(offset),
        RuleErrorModel::UnexpectedNul(offset) => "filter file input contains NUL at byte "@
            + crate::decimal::decimal_of(offset) + "; use --from0"@,
    }
}

impl ParseRuleError {
    /// The error as a message.
    pub fn message(&self) -> (r: String)
        ensures
            r@ == rule_error_text(self@),
    {
        match self {
            ParseRuleError::EmptyRule => String::from_str("filter rule is empty"),
            ParseRuleError::MissingPattern => String::from_str("filter rule is missing a pattern"),
            ParseRuleError::EmptyPattern => String::from_str("filter rule pattern is empty"),
            ParseRuleError::UnknownRule(rule) => crate::text::join3(
                "unknown filter rule syntax `",
                rule.as_str(),
                "`",
            ),
            ParseRuleError::InvalidModifier(c) => {
                let mut out = String::from_str("invalid filter rule modifier `");
                out.push(*c);
                out.push('`');
                proof {
                    reveal_strlit("`");
                }
                assert(out@ =~= rule_error_text(self@));
                out
            },
            ParseRuleError::InvalidUtf8 { offset } => {
                let mut out = String::from_str("filter file input is not valid UTF-8 at byte ");
                let n = crate::decimal::decimal_text(*offset as u128);
                vstd::string::StringExecFns::append(&mut out, n.as_str());
                out
            },
            ParseRuleError::UnexpectedNul { offset } => {
                let mut out = String::from_str("filter file input contains NUL at byte ");
                let n = crate::decimal::decimal_text(*offset as u128);
                vstd::string::StringExecFns::append(&mut out, n.as_str());
                vstd::string::StringExecFns::append(&mut out, "; use --from0");
                out
            },
        }
    }
}

/// The content of a parsed pattern.
pub struct PatternModel {
    pub raw: Seq<char>,
    pub body: Seq<char>,
    pub anchored: bool,
    pub directory_only: bool,
    pub has_path_separator: bool,
    pub directory_prefix: Option<Seq<char>>,
}

/// A filter pattern: an optional leading `/` anchors it at the transfer root, a trailing
/// `/` restricts it to directories, and a trailing `/***` also matches the directory itself.
#[derive(Debug, PartialEq, Eq)]
pub struct Pattern {
    raw: String,
    body: String,
    anchored: bool,
    directory_only: bool,
    has_path_separator: bool,
    match_directory_prefix: Option<String>,
}

impl Pattern {
    #[verifier::type_invariant]
    spec fn body_fits(self) -> bool {
        self.body@.len() < usize::MAX
    }
}

impl View for Pattern {
    type V = PatternModel;

    closed spec fn view(&self) -> PatternModel {
        PatternModel {
            raw: self.raw@,
            body: self.body@,
            anchored: self.anchored,
            directory_only: self.directory_only,
            has_path_separator: self.has_path_separator,
            directory_prefix: match self.match_directory_prefix {
                Some(s) => Some(s@),
                None => None,
            },
        }
    }
}

/// `s` with every leading `./` removed.
pub open spec fn strip_dot_slash(s: Seq<char>) -> Seq<char>
    decreases s.len(),
{
    if s.len() >= 2 && s[0] == '.' && s[1] == '/' {
        strip_dot_slash(s.skip(2))
    } else {
        s
    }
}

/// Whether `s` ends with `/***`.
pub open spec fn ends_with_triple_star(s: Seq<char>) -> bool {
    s.len() >= 4 && s[s.len() - 4] == '/' && s[s.len() - 3] == '*' && s[s.len() - 2] == '*' && s[s.len() - 1] == '*'
}

/// The pattern that `Pattern::parse` makes of `raw`.
pub open spec fn spec_parse_pattern(raw: Seq<char>) -> Result<PatternModel, RuleErrorModel> {
    let r = trim(raw);
    if r.len() == 0 {
        Err(RuleErrorModel::MissingPattern)
    } else {
        let b0 = normalize_path(r);
        let anchored = b0.len() > 0 && b0[0] == '/';
        let b1 = if anchored { b0.drop_first() } else { b0 };
        let directory_only = b1.len() > 0 && b1.last() == '/';
        let b2 = if directory_only { b1.drop_last() } else { b1 };
        let body = strip_dot_slash(b2);
        if body.len() == 0 {
            Err(RuleErrorModel::EmptyPattern)
        } else {
            Ok(PatternModel {
                raw: r,
                body,
                anchored,
                directory_only,
                has_path_separator: body.contains('/'),
                directory_prefix: if ends_with_triple_star(body) {
                    Some(body.take(body.len() - 4))
                } else {
                    None
                },
            })
        }
    }
}

/// `s` with every leading `/` removed.
pub open spec fn strip_leading_slashes(s: Seq<char>) -> Seq<char>
    decreases s.len(),
{
    if s.len() > 0 && s[0] == '/' {
        strip_leading_slashes(s.drop_first())
    } else {
        s
    }
}

/// `s` with every trailing `/` removed.
pub open spec fn strip_trailing_slashes(s: Seq<char>) -> Seq<char>
    decreases s.len(),
{
    if s.len() > 0 && s.last() == '/' {
        strip_trailing_slashes(s.drop_last())
    } else {
        s
    }
}

/// The form of a candidate path that patterns are matched against.
pub open spec fn candidate_path(path: Seq<char>) -> Seq<char> {
    strip_trailing_slashes(strip_dot_slash(strip_leading_slashes(normalize_path(path))))
}

/// Whether `s` contains `**`.
pub open spec fn has_double_star(s: Seq<char>) -> bool {
    exists|i: int| 0 <= i < s.len() - 1 && s[i] == '*' && #[trigger] s[i + 1] == '*'
}

/// The last path component of `s` (all of `s` when it holds no `/`).
pub open spec fn basename(s: Seq<char>) -> Seq<char>
    decreases s.len(),
{
    if s.len() == 0 {
        s
    } else if s.last() == '/' {
        Seq::empty()
    } else {
        basename(s.drop_last()).push(s.last())
    }
}

/// Whether `body` matches `path` or one of the suffixes of `path` that start right after a `/`.
pub open spec fn matches_some_suffix(body: Seq<char>, path: Seq<char>) -> bool {
    spec_glob_matches(body, path) || exists|i: int|
        0 <= i < path.len() && path[i] == '/' && spec_glob_matches(body, #[trigger] path.skip(i + 1))
}

/// Whether a pattern matches `path` for an entry of the given kind.
pub open spec fn spec_pattern_matches(m: PatternModel, path: Seq<char>, kind: EntryKind) -> bool {
    let c = candidate_path(path);
    if m.directory_only && kind != EntryKind::Directory {
        false
    } else if c.len() == 0 {
        false
    } else if kind == EntryKind::Directory && m.directory_prefix == Some(c) {
        true
    } else if m.anchored {
        spec_glob_matches(m.body, c)
    } else if m.has_path_separator || has_double_star(m.body) {
        matches_some_suffix(m.body, c)
    } else {
        spec_glob_matches(m.body, basename(c))
    }
}

fn strip_dot_slash_exec(s: &[char]) -> (r: Vec<char>)
    ensures
        r@ == strip_dot_slash(s@),
{
    let mut start: usize = 0;
    assert(s@.skip(0) =~= s@);
    while start < s.len() && s.len() - start >= 2 && s[start] == '.' && s[start + 1] == '/'
        invariant
            start <= s@.len(),
            strip_dot_slash(s@) == strip_dot_slash(s@.skip(start as int)),
        decreases s.len() - start,
    {
        assert(s@.skip(start as int).skip(2) =~= s@.skip(start + 2));
        start = start + 2;
    }
    assert(s@.skip(start as int) =~= s@.subrange(start as int, s@.len() as int));
    copy_chars(s, start, s.len())
}

fn candidate_path_exec(path: &[char]) -> (r: Vec<char>)
    ensures
        r@ == candidate_path(path@),
        r@.len() <= path@.len(),
{
    let normalized = normalize_path_chars(path);
    proof {
        lemma_normalize_len(path@);
    }
    let mut start: usize = 0;
    assert(normalized@.skip(0) =~= normalized@);
    while start < normalized.len() && normalized[start] == '/'
        invariant
            start <= normalized@.len(),
            strip_leading_slashes(normalized@) == strip_leading_slashes(normalized@.skip(start as int)),
        decreases normalized.len() - start,
    {
        assert(normalized@.skip(start as int).drop_first() =~= normalized@.skip(start + 1));
        start = start + 1;
    }
    assert(normalized@.skip(start as int) =~= normalized@.subrange(start as int, normalized@.len() as int));
    let rest = copy_chars(normalized.as_slice(), start, normalized.len());
    let stripped = strip_dot_slash_exec(rest.as_slice());
    let mut end: usize = stripped.len();
    assert(stripped@.take(end as int) =~= stripped@);
    while end > 0 && stripped[end - 1] == '/'
        invariant
            end <= stripped@.len(),
            strip_trailing_slashes(stripped@) == strip_trailing_slashes(stripped@.take(end as int)),
        decreases end,
    {
        assert(stripped@.take(end as int).drop_last() =~= stripped@.take(end - 1));
        end = end - 1;
    }
    proof {
        lemma_strip_dot_slash_len(rest@);
    }
    assert(stripped@.take(end as int) =~= stripped@.subrange(0, end as int));
    copy_chars(stripped.as_slice(), 0, end)
}

proof fn lemma_strip_dot_slash_len(s: Seq<char>)
    ensures
        strip_dot_slash(s).len() <= s.len(),
    decreases s.len(),
{
    if s.len() >= 2 && s[0] == '.' && s[1] == '/' {
        lemma_strip_dot_slash_len(s.skip(2));
    }
}

fn has_double_star_exec(s: &[char]) -> (r: bool)
    ensures
        r == has_double_star(s@),
{
    let mut i: usize = 0;
    while i < s.len() && s.len() - i >= 2
        invariant
            i <= s@.len(),
            forall|j: int| 0 <= j < i && j < s@.len() - 1 ==> !(s@[j] == '*' && #[trigger] s@[j + 1] == '*'),
        decreases s.len() - i,
    {
        if s[i] == '*' && s[i + 1] == '*' {
            return true;
        }
        i = i + 1;
    }
    false
}

fn basename_start(s: &[char]) -> (r: usize)
    ensures
        r <= s@.len(),
        basename(s@) == s@.skip(r as int),
{
    let mut k: usize = s.len();
    while k > 0 && s[k - 1] != '/'
        invariant
            k <= s@.len(),
            forall|j: int| k <= j < s@.len() ==> s@[j] != '/',
            k == 0 || k == s@.len() || true,
        decreases k,
    {
        k = k - 1;
    }
    proof {
        lemma_basename_skip(s@, k as int);
    }
    k
}

proof fn lemma_basename_skip(s: Seq<char>, k: int)
    requires
        0 <= k <= s.len(),
        forall|j: int| k <= j < s.len() ==> s[j] != '/',
        k == 0 || s[k - 1] == '/',
    ensures
        basename(s) == s.skip(k),
    decreases s.len(),
{
    if s.len() == 0 {
    } else if k == s.len() {
        assert(s.skip(k) =~= Seq::<char>::empty());
    } else {
        lemma_basename_skip(s.drop_last(), k);
        assert(s.drop_last().skip(k).push(s.last()) =~= s.skip(k));
    }
}

impl Pattern {
    /// Parses a pattern (see `spec_parse_pattern`).
    pub fn parse(raw: String) -> (r: Result<Pattern, ParseRuleError>)
        requires
            raw@.len() < usize::MAX,
        ensures
            match spec_parse_pattern(raw@) {
                Ok(m) => r matches Ok(p) && p@ == m,
                Err(e) => r matches Err(x) && x@ == e,
            },
    {
        let chars = chars_of(raw.as_str());
        let (start, end) = trim_bounds(chars.as_slice());
        let trimmed = copy_chars(chars.as_slice(), start, end);
        if trimmed.len() == 0 {
            return Err(ParseRuleError::MissingPattern);
        }
        let b0 = normalize_path_chars(trimmed.as_slice());
        let anchored = b0.len() > 0 && b0[0] == '/';
        let b1 = if anchored { copy_chars(b0.as_slice(), 1, b0.len()) } else { b0 };
        assert(anchored ==> b1@ =~= normalize_path(trimmed@).drop_first());
        let directory_only = b1.len() > 0 && b1[b1.len() - 1] == '/';
        let b2 = if directory_only { copy_chars(b1.as_slice(), 0, b1.len() - 1) } else { b1 };
        let body = strip_dot_slash_exec(b2.as_slice());
        if body.len() == 0 {
            return Err(ParseRuleError::EmptyPattern);
        }
        let n = body.len();
        let prefix = if n >= 4 && body[n - 4] == '/' && body[n - 3] == '*' && body[n - 2] == '*' && body[n - 1] == '*' {
            Some(string_from_chars(copy_chars(body.as_slice(), 0, n - 4).as_slice()))
        } else {
            None
        };
        let mut has_sep = false;
        let mut i: usize = 0;
        while i < n
            invariant
                n == body@.len(),
                i <= n,
                has_sep == (exists|j: int| 0 <= j < i && body@[j] == '/'),
            decreases n - i,
        {
            if body[i] == '/' {
                has_sep = true;
            }
            i = i + 1;
        }
        assert(has_sep == body@.contains('/'));
        proof {
            lemma_normalize_len(trimmed@);
            lemma_strip_dot_slash_len(b2@);
        }
        assert(body@.subrange(0, n - 4) =~= body@.take(n - 4));
        Ok(Pattern {
            raw: string_from_chars(trimmed.as_slice()),
            body: string_from_chars(body.as_slice()),
            anchored,
            directory_only,
            has_path_separator: has_sep,
            match_directory_prefix: prefix,
        })
    }

}

impl Clone for Pattern {
    fn clone(&self) -> (r: Pattern)
        ensures
            r@ == self@,
    {
        proof {
            use_type_invariant(self);
        }
        Pattern {
            raw: self.raw.clone(),
            body: self.body.clone(),
            anchored: self.anchored,
            directory_only: self.directory_only,
            has_path_separator: self.has_path_separator,
            match_directory_prefix: match &self.match_directory_prefix {
                Some(p) => Some(p.clone()),
                None => None,
            },
        }
    }
}

impl Pattern {
    /// The trimmed pattern text as given.
    pub fn raw(&self) -> (r: &str)
        ensures
            r@ == self@.raw,
    {
        self.raw.as_str()
    }

    /// The normalized pattern body that is matched.
    pub fn body(&self) -> (r: &str)
        ensures
            r@ == self@.body,
    {
        self.body.as_str()
    }

    /// Whether the pattern is anchored at the transfer root.
    pub fn is_anchored(&self) -> (r: bool)
        ensures
            r == self@.anchored,
    {
        self.anchored
    }

    /// Whether the pattern matches directories only.
    pub fn is_directory_only(&self) -> (r: bool)
        ensures
            r == self@.directory_only,
    {
        self.directory_only
    }

    /// Whether the pattern body contains a `/`.
    pub fn has_path_separator(&self) -> (r: bool)
        ensures
            r == self@.has_path_separator,
    {
        self.has_path_separator
    }

    /// Whether the pattern matches `path` for an entry of kind `kind`.
    pub fn matches(&self, path: &str, kind: EntryKind) -> (r: bool)
        requires
            path@.len() < usize::MAX,
        ensures
            r == spec_pattern_matches(self@, path@, kind),
    {
        let path_chars = chars_of(path);
        self.matches_chars(path_chars.as_slice(), kind)
    }

    pub(crate) fn matches_chars(&self, path: &[char], kind: EntryKind) -> (r: bool)
        requires
            path@.len() < usize::MAX,
        ensures
            r == spec_pattern_matches(self@, path@, kind),
    {
        if self.directory_only && kind != EntryKind::Directory {
            return false;
        }
        let candidate = candidate_path_exec(path);
        if candidate.len() == 0 {
            return false;
        }
        if kind == EntryKind::Directory {
            match &self.match_directory_prefix {
                Some(prefix) => {
                    let prefix_chars = chars_of(prefix.as_str());
                    if chars_equal(prefix_chars.as_slice(), candidate.as_slice()) {
                        return true;
                    }
                },
                None => {},
            }
        }
        let body = chars_of(self.body.as_str());
        proof {
            use_type_invariant(self);
        }
        if self.anchored {
            return glob_matches_chars(body.as_slice(), candidate.as_slice());
        }
        if self.has_path_separator || has_double_star_exec(body.as_slice()) {
            if glob_matches_chars(body.as_slice(), candidate.as_slice()) {
                return true;
            }
            let mut i: usize = 0;
            #[verifier::loop_isolation(false)]
            while i < candidate.len()
                invariant
                    i <= candidate@.len(),
                    candidate@.len() < usize::MAX,
                    body@.len() < usize::MAX,
                    forall|j: int| 0 <= j < i && candidate@[j] == '/' ==> !spec_glob_matches(body@, #[trigger] candidate@.skip(j + 1)),
                decreases candidate.len() - i,
            {
                if candidate[i] == '/' {
                    let suffix = copy_chars(candidate.as_slice(), i + 1, candidate.len());
                    assert(suffix@ =~= candidate@.skip(i + 1));
                    if glob_matches_chars(body.as_slice(), suffix.as_slice()) {
                        assert(spec_glob_matches(body@, candidate@.skip(i + 1)));
                        assert(matches_some_suffix(body@, candidate@));
                        return true;
                    }
                }
                i = i + 1;
            }
            return false;
        }
        let start = basename_start(candidate.as_slice());
        let base = copy_chars(candidate.as_slice(), start, candidate.len());
        assert(base@ =~= candidate@.skip(start as int));
        glob_matches_chars(body.as_slice(), base.as_slice())
    }
}


/// The content of a rule.
pub struct RuleModel {
    pub action: RuleAction,
    pub pattern: Option<PatternModel>,
    pub sender_side: bool,
    pub receiver_side: bool,
    pub perishable: bool,
}

/// A filter rule: an action, the pattern it applies to (none for a list clear), the sides it
/// applies on and whether it is perishable.
#[derive(Debug, Clone, PartialEq, Eq)]
pub struct Rule {
    action: RuleAction,
    pattern: Option<Pattern>,
    sender_side: bool,
    receiver_side: bool,
    perishable: bool,
}

impl View for Rule {
    type V = RuleModel;

    closed spec fn view(&self) -> RuleModel {
        RuleModel {
            action: self.action,
            pattern: match self.pattern {
                Some(p) => Some(p@),
                None => None,
            },
            sender_side: self.sender_side,
            receiver_side: self.receiver_side,
            perishable: self.perishable,
        }
    }
}

/// The sides an action applies to when no side modifier is given: `(sender, receiver)`.
pub open spec fn spec_default_sides(action: RuleAction) -> (bool, bool) {
    match action {
        RuleAction::Hide | RuleAction::Show => (true, false),
        RuleAction::Protect | RuleAction::Risk => (false, true),
        _ => (true, true),
    }
}

fn default_sides(action: RuleAction) -> (r: (bool, bool))
    ensures
        r == spec_default_sides(action),
{
    match action {
        RuleAction::Hide | RuleAction::Show => (true, false),
        RuleAction::Protect | RuleAction::Risk => (false, true),
        _ => (true, true),
    }
}

/// The sides a rule applies to, given its action and modifiers `(s, r, p)`.
pub open spec fn sides_with(action: RuleAction, modifiers: (bool, bool, bool)) -> (bool, bool) {
    if modifiers.0 || modifiers.1 {
        (modifiers.0, modifiers.1)
    } else {
        spec_default_sides(action)
    }
}

/// The action a one-character rule prefix names.
pub open spec fn spec_short_action(c: char) -> Option<RuleAction> {
    if c == '+' {
        Some(RuleAction::Include)
    } else if c == '-' {
        Some(RuleAction::Exclude)
    } else if c == 'H' {
        Some(RuleAction::Hide)
    } else if c == 'S' {
        Some(RuleAction::Show)
    } else if c == 'P' {
        Some(RuleAction::Protect)
    } else if c == 'R' {
        Some(RuleAction::Risk)
    } else if c == '!' {
        Some(RuleAction::ClearList)
    } else if c == '.' {
        Some(RuleAction::Merge)
    } else if c == ':' {
        Some(RuleAction::DirMerge)
    } else {
        None
    }
}

fn short_action(c: char) -> (r: Option<RuleAction>)
    ensures
        r == spec_short_action(c),
{
    match c {
        '+' => Some(RuleAction::Include),
        '-' => Some(RuleAction::Exclude),
        'H' => Some(RuleAction::Hide),
        'S' => Some(RuleAction::Show),
        'P' => Some(RuleAction::Protect),
        'R' => Some(RuleAction::Risk),
        '!' => Some(RuleAction::ClearList),
        '.' => Some(RuleAction::Merge),
        ':' => Some(RuleAction::DirMerge),
        _ => None,
    }
}

/// The action a rule keyword names.
pub open spec fn spec_long_action(keyword: Seq<char>) -> Option<RuleAction> {
    if keyword == "include"@ {
        Some(RuleAction::Include)
    } else if keyword == "exclude"@ {
        Some(RuleAction::Exclude)
    } else if keyword == "hide"@ {
        Some(RuleAction::Hide)
    } else if keyword == "show"@ {
        Some(RuleAction::Show)
    } else if keyword == "protect"@ {
        Some(RuleAction::Protect)
    } else if keyword == "risk"@ {
        Some(RuleAction::Risk)
    } else if keyword == "clear"@ || keyword == "clear-list"@ {
        Some(RuleAction::ClearList)
    } else if keyword == "merge"@ {
        Some(RuleAction::Merge)
    } else if keyword == "dir-merge"@ {
        Some(RuleAction::DirMerge)
    } else {
        None
    }
}

fn is_keyword(keyword: &[char], literal: &str) -> (r: bool)
    ensures
        r == (keyword@ == literal@),
{
    let lit = chars_of(literal);
    chars_equal(keyword, lit.as_slice())
}

fn long_action(keyword: &[char]) -> (r: Option<RuleAction>)
    ensures
        r == spec_long_action(keyword@),
{
    if is_keyword(keyword, "include") {
        Some(RuleAction::Include)
    } else if is_keyword(keyword, "exclude") {
        Some(RuleAction::Exclude)
    } else if is_keyword(keyword, "hide") {
        Some(RuleAction::Hide)
    } else if is_keyword(keyword, "show") {
        Some(RuleAction::Show)
    } else if is_keyword(keyword, "protect") {
        Some(RuleAction::Protect)
    } else if is_keyword(keyword, "risk") {
        Some(RuleAction::Risk)
    } else if is_keyword(keyword, "clear") || is_keyword(keyword, "clear-list") {
        Some(RuleAction::ClearList)
    } else if is_keyword(keyword, "merge") {
        Some(RuleAction::Merge)
    } else if is_keyword(keyword, "dir-merge") {
        Some(RuleAction::DirMerge)
    } else {
        None
    }
}

/// The modifiers `(sender, receiver, perishable)` a modifier list sets, or the first
/// character that is not a modifier. Commas are ignored.
pub open spec fn spec_parse_modifiers(s: Seq<char>) -> Result<(bool, bool, bool), RuleErrorModel>
    decreases s.len(),
{
    if s.len() == 0 {
        Ok((false, false, false))
    } else {
        let c = s[0];
        let known = c == ',' || c == 's' || c == 'r' || c == 'p' || c == 'e' || c == 'n' || c == 'w' || c == 'x'
            || c == '-' || c == '+' || c == '!';
        if !known {
            Err(RuleErrorModel::InvalidModifier(c))
        } else {
            match spec_parse_modifiers(s.drop_first()) {
                Err(e) => Err(e),
                Ok(m) => Ok((m.0 || c == 's', m.1 || c == 'r', m.2 || c == 'p')),
            }
        }
    }
}

fn parse_modifiers(s: &[char]) -> (r: Result<(bool, bool, bool), ParseRuleError>)
    ensures
        match spec_parse_modifiers(s@) {
            Ok(m) => r == Ok::<(bool, bool, bool), ParseRuleError>(m),
            Err(e) => r matches Err(x) && x@ == e,
        },
{
    let mut sender = false;
    let mut receiver = false;
    let mut perishable = false;
    let mut i: usize = 0;
    assert(s@.skip(0) =~= s@);
    while i < s.len()
        invariant
            i <= s@.len(),
            spec_parse_modifiers(s@) == match spec_parse_modifiers(s@.skip(i as int)) {
                Err(e) => Err(e),
                Ok(m) => Ok((m.0 || sender, m.1 || receiver, m.2 || perishable)),
            },
        decreases s.len() - i,
    {
        assert(s@.skip(i as int).drop_first() =~= s@.skip(i + 1));
        let c = s[i];
        match c {
            ',' | 'e' | 'n' | 'w' | 'x' | '-' | '+' | '!' => {},
            's' => { sender = true; },
            'r' => { receiver = true; },
            'p' => { perishable = true; },
            _ => {
                return Err(ParseRuleError::InvalidModifier(c));
            },
        }
        i = i + 1;
    }
    assert(s@.skip(i as int) =~= Seq::<char>::empty());
    Ok((sender, receiver, perishable))
}

/// The index of the first white-space character of `s`.
pub open spec fn first_whitespace(s: Seq<char>) -> Option<int>
    decreases s.len(),
{
    if s.len() == 0 {
        None
    } else if is_whitespace_char(s[0]) {
        Some(0)
    } else {
        match first_whitespace(s.drop_first()) {
            Some(i) => Some(i + 1),
            None => None,
        }
    }
}

/// The index of the first occurrence of `c` in `s`.
pub open spec fn first_index_of(s: Seq<char>, c: char) -> Option<int>
    decreases s.len(),
{
    if s.len() == 0 {
        None
    } else if s[0] == c {
        Some(0)
    } else {
        match first_index_of(s.drop_first(), c) {
            Some(i) => Some(i + 1),
            None => None,
        }
    }
}

proof fn lemma_first_whitespace(s: Seq<char>, k: int)
    requires
        0 <= k <= s.len(),
        forall|j: int| 0 <= j < k ==> !is_whitespace_char(#[trigger] s[j]),
    ensures
        k < s.len() && is_whitespace_char(s[k]) ==> first_whitespace(s) == Some(k),
        k == s.len() ==> first_whitespace(s) is None,
    decreases k,
{
    if k > 0 {
        lemma_first_whitespace(s.drop_first(), k - 1);
    }
}

proof fn lemma_first_index_of(s: Seq<char>, c: char, k: int)
    requires
        0 <= k <= s.len(),
        forall|j: int| 0 <= j < k ==> #[trigger] s[j] != c,
    ensures
        k < s.len() && s[k] == c ==> first_index_of(s, c) == Some(k),
        k == s.len() ==> first_index_of(s, c) is None,
    decreases k,
{
    if k > 0 {
        lemma_first_index_of(s.drop_first(), c, k - 1);
    }
}

fn find_whitespace(s: &[char]) -> (r: Option<usize>)
    ensures
        match r {
            Some(i) => first_whitespace(s@) == Some(i as int) && i < s@.len(),
            None => first_whitespace(s@) is None,
        },
{
    let mut i: usize = 0;
    while i < s.len()
        invariant
            i <= s@.len(),
            forall|j: int| 0 <= j < i ==> !is_whitespace_char(#[trigger] s@[j]),
        decreases s.len() - i,
    {
        if is_whitespace(s[i]) {
            proof { lemma_first_whitespace(s@, i as int); }
            return Some(i);
        }
        i = i + 1;
    }
    proof { lemma_first_whitespace(s@, i as int); }
    None
}

pub fn find_char(s: &[char], c: char) -> (r: Option<usize>)
    ensures
        match r {
            Some(i) => first_index_of(s@, c) == Some(i as int) && i < s@.len(),
            None => first_index_of(s@, c) is None,
        },
{
    let mut i: usize = 0;
    while i < s.len()
        invariant
            i <= s@.len(),
            forall|j: int| 0 <= j < i ==> #[trigger] s@[j] != c,
        decreases s.len() - i,
    {
        if s[i] == c {
            proof { lemma_first_index_of(s@, c, i as int); }
            return Some(i);
        }
        i = i + 1;
    }
    proof { lemma_first_index_of(s@, c, i as int); }
    None
}

/// The action and modifiers of a rule head such as `+`, `-s`, `hide,r`.
pub open spec fn spec_parse_rule_head(head: Seq<char>) -> Result<(RuleAction, (bool, bool, bool)), RuleErrorModel> {
    if head.len() == 0 {
        Err(RuleErrorModel::EmptyRule)
    } else {
        match spec_short_action(head[0]) {
            Some(action) => match spec_parse_modifiers(head.drop_first()) {
                Ok(m) => Ok((action, m)),
                Err(e) => Err(e),
            },
            None => {
                let (keyword, modifiers) = match first_index_of(head, ',') {
                    Some(i) => (head.take(i), head.skip(i + 1)),
                    None => (head, Seq::empty()),
                };
                match spec_long_action(keyword) {
                    None => Err(RuleErrorModel::UnknownRule(head)),
                    Some(action) => match spec_parse_modifiers(modifiers) {
                        Ok(m) => Ok((action, m)),
                        Err(e) => Err(e),
                    },
                }
            },
        }
    }
}

/// The rule that `Rule::parse_filter` makes of `input`.
pub open spec fn spec_parse_filter(input: Seq<char>) -> Result<RuleModel, RuleErrorModel> {
    let t = trim(input);
    if t.len() == 0 {
        Err(RuleErrorModel::EmptyRule)
    } else if t == "!"@ {
        Ok(RuleModel {
            action: RuleAction::ClearList,
            pattern: None,
            sender_side: true,
            receiver_side: true,
            perishable: false,
        })
    } else {
        match first_whitespace(t) {
            None => Err(RuleErrorModel::MissingPattern),
            Some(w) => {
                let head = t.take(w);
                let pattern = trim(t.skip(w + 1));
                if pattern.len() == 0 {
                    Err(RuleErrorModel::MissingPattern)
                } else {
                    match spec_parse_rule_head(head) {
                        Err(e) => Err(e),
                        Ok((action, m)) => {
                            let sides = sides_with(action, m);
                            if action == RuleAction::ClearList {
                                Ok(RuleModel {
                                    action,
                                    pattern: None,
                                    sender_side: sides.0,
                                    receiver_side: sides.1,
                                    perishable: m.2,
                                })
                            } else {
                                match spec_parse_pattern(pattern) {
                                    Err(e) => Err(e),
                                    Ok(p) => Ok(RuleModel {
                                        action,
                                        pattern: Some(p),
                                        sender_side: sides.0,
                                        receiver_side: sides.1,
                                        perishable: m.2,
                                    }),
                                }
                            }
                        },
                    }
                }
            },
        }
    }
}

/// The rule that `Rule::new(action, pattern)` makes.
pub open spec fn spec_new_rule(action: RuleAction, pattern: Seq<char>) -> Result<RuleModel, RuleErrorModel> {
    match spec_parse_pattern(pattern) {
        Err(e) => Err(e),
        Ok(p) => Ok(RuleModel {
            action,
            pattern: Some(p),
            sender_side: spec_default_sides(action).0,
            receiver_side: spec_default_sides(action).1,
            perishable: false,
        }),
    }
}

/// Whether a rule matches `path` for an entry of kind `kind` (a rule without a pattern
/// matches nothing).
pub open spec fn spec_rule_matches(rule: RuleModel, path: Seq<char>, kind: EntryKind) -> bool {
    match rule.pattern {
        Some(p) => spec_pattern_matches(p, path, kind),
        None => false,
    }
}

impl Rule {
    /// An include rule for `pattern`.
    pub fn include_pattern(pattern: &str) -> (r: Result<Rule, ParseRuleError>)
        requires
            pattern@.len() < usize::MAX,
        ensures
            match spec_new_rule(RuleAction::Include, pattern@) {
                Ok(m) => r matches Ok(x) && x@ == m,
                Err(e) => r matches Err(x) && x@ == e,
            },
    {
        Self::new(RuleAction::Include, pattern)
    }

    /// An exclude rule for `pattern`.
    pub fn exclude(pattern: &str) -> (r: Result<Rule, ParseRuleError>)
        requires
            pattern@.len() < usize::MAX,
        ensures
            match spec_new_rule(RuleAction::Exclude, pattern@) {
                Ok(m) => r matches Ok(x) && x@ == m,
                Err(e) => r matches Err(x) && x@ == e,
            },
    {
        Self::new(RuleAction::Exclude, pattern)
    }

    /// A protect rule for `pattern`.
    pub fn protect(pattern: &str) -> (r: Result<Rule, ParseRuleError>)
        requires
            pattern@.len() < usize::MAX,
        ensures
            match spec_new_rule(RuleAction::Protect, pattern@) {
                Ok(m) => r matches Ok(x) && x@ == m,
                Err(e) => r matches Err(x) && x@ == e,
            },
    {
        Self::new(RuleAction::Protect, pattern)
    }

    /// A risk rule for `pattern`.
    pub fn risk(pattern: &str) -> (r: Result<Rule, ParseRuleError>)
        requires
            pattern@.len() < usize::MAX,
        ensures
            match spec_new_rule(RuleAction::Risk, pattern@) {
                Ok(m) => r matches Ok(x) && x@ == m,
                Err(e) => r matches Err(x) && x@ == e,
            },
    {
        Self::new(RuleAction::Risk, pattern)
    }

    /// A rule with the given action for `pattern`, on the action's default sides.
    pub fn new(action: RuleAction, pattern: &str) -> (r: Result<Rule, ParseRuleError>)
        requires
            pattern@.len() < usize::MAX,
        ensures
            match spec_new_rule(action, pattern@) {
                Ok(m) => r matches Ok(x) && x@ == m,
                Err(e) => r matches Err(x) && x@ == e,
            },
    {
        let chars = chars_of(pattern);
        Self::new_from_chars(action, chars.as_slice())
    }

    fn new_from_chars(action: RuleAction, pattern: &[char]) -> (r: Result<Rule, ParseRuleError>)
        requires
            pattern@.len() < usize::MAX,
        ensures
            match spec_new_rule(action, pattern@) {
                Ok(m) => r matches Ok(x) && x@ == m,
                Err(e) => r matches Err(x) && x@ == e,
            },
    {
        let (sender_side, receiver_side) = default_sides(action);
        let parsed = Pattern::parse(string_from_chars(pattern));
        match parsed {
            Ok(p) => Ok(Rule { action, pattern: Some(p), sender_side, receiver_side, perishable: false }),
            Err(e) => Err(e),
        }
    }

    /// Parses one filter rule: `!` clears the list; otherwise a head (a short prefix such as
    /// `+`/`-`/`P` or a keyword such as `include`, with optional modifiers) and a pattern.
    pub fn parse_filter(input: &str) -> (r: Result<Rule, ParseRuleError>)
        requires
            input@.len() < usize::MAX,
        ensures
            match spec_parse_filter(input@) {
                Ok(m) => r matches Ok(x) && x@ == m,
                Err(e) => r matches Err(x) && x@ == e,
            },
    {
        let chars = chars_of(input);
        Self::parse_filter_chars(chars.as_slice())
    }

    pub(crate) fn parse_filter_chars(input: &[char]) -> (r: Result<Rule, ParseRuleError>)
        requires
            input@.len() < usize::MAX,
        ensures
            match spec_parse_filter(input@) {
                Ok(m) => r matches Ok(x) && x@ == m,
                Err(e) => r matches Err(x) && x@ == e,
            },
    {
        let (start, end) = trim_bounds(input);
        let t = copy_chars(input, start, end);
        if t.len() == 0 {
            return Err(ParseRuleError::EmptyRule);
        }
        if is_keyword(t.as_slice(), "!") {
            return Ok(Rule {
                action: RuleAction::ClearList,
                pattern: None,
                sender_side: true,
                receiver_side: true,
                perishable: false,
            });
        }
        let w = match find_whitespace(t.as_slice()) {
            None => { return Err(ParseRuleError::MissingPattern); },
            Some(w) => w,
        };
        let head = copy_chars(t.as_slice(), 0, w);
        let rest = copy_chars(t.as_slice(), w + 1, t.len());
        assert(head@ =~= t@.take(w as int));
        assert(rest@ =~= t@.skip(w + 1));
        let pattern = crate::text::trim_chars(rest.as_slice());
        if pattern.len() == 0 {
            return Err(ParseRuleError::MissingPattern);
        }
        let (action, modifiers) = match Self::parse_rule_head(head.as_slice()) {
            Ok(x) => x,
            Err(e) => { return Err(e); },
        };
        let (mut sender_side, mut receiver_side) = default_sides(action);
        if modifiers.0 || modifiers.1 {
            sender_side = modifiers.0;
            receiver_side = modifiers.1;
        }
        if action == RuleAction::ClearList {
            return Ok(Rule { action, pattern: None, sender_side, receiver_side, perishable: modifiers.2 });
        }
        proof {
            crate::text::lemma_trim_len(rest@);
        }
        match Pattern::parse(string_from_chars(pattern.as_slice())) {
            Ok(p) => Ok(Rule { action, pattern: Some(p), sender_side, receiver_side, perishable: modifiers.2 }),
            Err(e) => Err(e),
        }
    }

    fn parse_rule_head(head: &[char]) -> (r: Result<(RuleAction, (bool, bool, bool)), ParseRuleError>)
        ensures
            match spec_parse_rule_head(head@) {
                Ok(m) => r == Ok::<(RuleAction, (bool, bool, bool)), ParseRuleError>(m),
                Err(e) => r matches Err(x) && x@ == e,
            },
    {
        if head.len() == 0 {
            return Err(ParseRuleError::EmptyRule);
        }
        match short_action(head[0]) {
            Some(action) => {
                let rest = copy_chars(head, 1, head.len());
                assert(rest@ =~= head@.drop_first());
                match parse_modifiers(rest.as_slice()) {
                    Ok(m) => Ok((action, m)),
                    Err(e) => Err(e),
                }
            },
            None => {
                let (keyword, modifiers) = match find_char(head, ',') {
                    Some(i) => (copy_chars(head, 0, i), copy_chars(head, i + 1, head.len())),
                    None => (copy_chars(head, 0, head.len()), Vec::new()),
                };
                assert(match first_index_of(head@, ',') {
                    Some(i) => keyword@ =~= head@.take(i) && modifiers@ =~= head@.skip(i + 1),
                    None => keyword@ =~= head@ && modifiers@ =~= Seq::<char>::empty(),
                });
                match long_action(keyword.as_slice()) {
                    None => Err(ParseRuleError::UnknownRule(string_from_chars(head))),
                    Some(action) => match parse_modifiers(modifiers.as_slice()) {
                        Ok(m) => Ok((action, m)),
                        Err(e) => Err(e),
                    },
                }
            },
        }
    }

    /// The rule's action.
    pub fn action(&self) -> (r: RuleAction)
        ensures
            r == self@.action,
    {
        self.action
    }

    /// The rule's pattern; only list clears carry none.
    pub fn pattern(&self) -> (r: &Pattern)
        requires
            self@.pattern is Some,
        ensures
            Some(r@) == self@.pattern,
    {
        self.pattern.as_ref().unwrap()
    }

    /// The rule's pattern text, when it has a pattern.
    pub fn pattern_text(&self) -> (r: Option<&str>)
        ensures
            match self@.pattern {
                Some(p) => r matches Some(t) && t@ == p.raw,
                None => r is None,
            },
    {
        match &self.pattern {
            Some(p) => Some(p.raw()),
            None => None,
        }
    }

    /// Whether the rule applies on the sending side.
    pub fn is_sender_side(&self) -> (r: bool)
        ensures
            r == self@.sender_side,
    {
        self.sender_side
    }

    /// Whether the rule applies on the receiving side.
    pub fn is_receiver_side(&self) -> (r: bool)
        ensures
            r == self@.receiver_side,
    {
        self.receiver_side
    }

    /// Whether the rule is perishable.
    pub fn is_perishable(&self) -> (r: bool)
        ensures
            r == self@.perishable,
    {
        self.perishable
    }

    /// Whether the rule applies on `side`.
    pub fn applies_to(&self, side: RuleSide) -> (r: bool)
        ensures
            r == match side {
                RuleSide::Sender => self@.sender_side,
                RuleSide::Receiver => self@.receiver_side,
            },
    {
        match side {
            RuleSide::Sender => self.sender_side,
            RuleSide::Receiver => self.receiver_side,
        }
    }

    /// Whether the rule's pattern matches `path` (a rule without a pattern matches nothing).
    pub fn matches(&self, path: &str, kind: EntryKind) -> (r: bool)
        requires
            path@.len() < usize::MAX,
        ensures
            r == spec_rule_matches(self@, path@, kind),
    {
        match &self.pattern {
            Some(p) => p.matches(path, kind),
            None => false,
        }
    }

    pub(crate) fn matches_chars(&self, path: &[char], kind: EntryKind) -> (r: bool)
        requires
            path@.len() < usize::MAX,
        ensures
            r == spec_rule_matches(self@, path@, kind),
    {
        match &self.pattern {
            Some(p) => p.matches_chars(path, kind),
            None => false,
        }
    }
}


/// The records of a filter file, or the error reading it.
pub open spec fn spec_filter_records(input: Seq<u8>, from0: bool) -> Result<Seq<Seq<char>>, RuleErrorModel> {
    if from0 {
        match nul_records(input) {
            Ok(records) => Ok(records),
            Err(offset) => Err(RuleErrorModel::InvalidUtf8(offset as nat)),
        }
    } else {
        match first_byte_index(input, 0u8) {
            Some(offset) => Err(RuleErrorModel::UnexpectedNul(offset as nat)),
            None => if valid_utf8(input) {
                Ok(line_records(decode_utf8(input)))
            } else {
                Err(RuleErrorModel::InvalidUtf8(utf8_error_offset(input) as nat))
            },
        }
    }
}

/// A filter-file record after trimming: blank records and `#` comments give nothing, a
/// leading `\#` or `\ ` is unescaped to `#` or a space.
pub open spec fn spec_normalize_filter_record(record: Seq<char>) -> Option<Seq<char>> {
    let t = trim(record);
    if t.len() == 0 || t[0] == '#' {
        None
    } else if t.len() >= 2 && t[0] == '\\' && t[1] == '#' {
        Some(seq!['#'] + t.skip(2))
    } else if t.len() >= 2 && t[0] == '\\' && t[1] == ' ' {
        Some(seq![' '] + t.skip(2))
    } else {
        Some(t)
    }
}

/// Whether a record is written in rule syntax: it starts with a rule prefix character, or its
/// first word (up to a comma) is a rule keyword and a pattern follows it.
pub open spec fn spec_explicit_rule(record: Seq<char>) -> bool {
    if record.len() == 0 {
        false
    } else if spec_short_action(record[0]) is Some {
        true
    } else {
        match first_whitespace(record) {
            None => false,
            Some(w) => {
                let head = record.take(w);
                let keyword = match first_index_of(head, ',') {
                    Some(i) => head.take(i),
                    None => head,
                };
                spec_long_action(keyword) is Some
            },
        }
    }
}

/// The rules of the records from index `k` on; the first failing record gives the error.
pub open spec fn spec_rules_from(records: Seq<Seq<char>>, k: int, default_action: RuleAction) -> Result<Seq<RuleModel>, RuleErrorModel>
    decreases records.len() - k,
{
    if k < 0 || k >= records.len() {
        Ok(Seq::empty())
    } else {
        match spec_normalize_filter_record(records[k]) {
            None => spec_rules_from(records, k + 1, default_action),
            Some(record) => {
                let parsed = if spec_explicit_rule(record) {
                    spec_parse_filter(record)
                } else {
                    spec_new_rule(default_action, record)
                };
                match parsed {
                    Err(e) => Err(e),
                    Ok(rule) => match spec_rules_from(records, k + 1, default_action) {
                        Ok(rest) => Ok(seq![rule] + rest),
                        Err(e) => Err(e),
                    },
                }
            },
        }
    }
}

/// The rules of a filter file.
pub open spec fn spec_parse_filter_file(input: Seq<u8>, from0: bool, default_action: RuleAction) -> Result<Seq<RuleModel>, RuleErrorModel> {
    match spec_filter_records(input, from0) {
        Err(e) => Err(e),
        Ok(records) => spec_rules_from(records, 0, default_action),
    }
}

fn parse_filter_records(input: &[u8], from0: bool) -> (r: Result<Vec<Vec<char>>, ParseRuleError>)
    requires
        input@.len() < usize::MAX,
    ensures
        match spec_filter_records(input@, from0) {
            Ok(records) => r matches Ok(v) && v@.map_values(|x: Vec<char>| x@) == records,
            Err(e) => r matches Err(x) && x@ == e,
        },
        r matches Ok(v) ==> forall|i: int| 0 <= i < v@.len() ==> (#[trigger] v@[i])@.len() < usize::MAX,
{
    if from0 {
        match parse_nul_records(input) {
            Ok(records) => {
                let ghost rs = records@.map_values(|x: String| x@);
                proof {
                    let pieces = split_on(input@, 0u8);
                    lemma_split_piece_len(input@, 0u8);
                    lemma_nul_records_len(pieces, 0, input@.len() as int);
                }
                let mut out: Vec<Vec<char>> = Vec::new();
                let mut k: usize = 0;
                while k < records.len()
                    invariant
                        rs == records@.map_values(|x: String| x@),
                        forall|i: int| 0 <= i < rs.len() ==> (#[trigger] rs[i]).len() <= input@.len(),
                        input@.len() < usize::MAX,
                        k <= rs.len(),
                        out@.map_values(|x: Vec<char>| x@) == rs.take(k as int),
                        forall|i: int| 0 <= i < out@.len() ==> (#[trigger] out@[i])@.len() < usize::MAX,
                    decreases records.len() - k,
                {
                    let c = chars_of(records[k].as_str());
                    assert(c@ == rs[k as int]);
                    let ghost before = out@.map_values(|x: Vec<char>| x@);
                    let ghost cv = c@;
                    out.push(c);
                    assert(out@.map_values(|x: Vec<char>| x@) =~= before.push(cv));
                    assert(rs.take(k + 1) =~= rs.take(k as int).push(rs[k as int]));
                    k = k + 1;
                }
                assert(rs.take(rs.len() as int) =~= rs);
                Ok(out)
            },
            Err(offset) => Err(ParseRuleError::InvalidUtf8 { offset }),
        }
    } else {
        if let Some(offset) = find_nul(input) {
            return Err(ParseRuleError::UnexpectedNul { offset });
        }
        match decode_utf8_bytes(input) {
            Ok(text) => {
                let chars = chars_of(text.as_str());
                proof {
                    lemma_decode_utf8_len(input@);
                    lemma_line_records_len(chars@);
                }
                let lines = parse_lines(chars.as_slice());
                assert forall|i: int| 0 <= i < lines@.len() implies (#[trigger] lines@[i])@.len() < usize::MAX by {
                    assert(lines@[i]@ == lines@.map_values(|x: Vec<char>| x@)[i]);
                }
                Ok(lines)
            },
            Err(offset) => {
                proof {
                    lemma_utf8_error_offset(input@, offset as int);
                }
                Err(ParseRuleError::InvalidUtf8 { offset })
            },
        }
    }
}

fn normalize_filter_record(record: &[char]) -> (r: Option<Vec<char>>)
    ensures
        match spec_normalize_filter_record(record@) {
            Some(n) => r matches Some(v) && v@ == n,
            None => r is None,
        },
        r matches Some(v) ==> v@.len() <= record@.len(),
{
    let (start, end) = trim_bounds(record);
    let t = copy_chars(record, start, end);
    if t.len() == 0 || t[0] == '#' {
        return None;
    }
    if t.len() >= 2 && t[0] == '\\' && (t[1] == '#' || t[1] == ' ') {
        let mut out: Vec<char> = Vec::new();
        out.push(t[1]);
        let mut i: usize = 2;
        while i < t.len()
            invariant
                2 <= i <= t@.len(),
                out@ == seq![t@[1]] + t@.subrange(2, i as int),
            decreases t.len() - i,
        {
            out.push(t[i]);
            i = i + 1;
            assert(out@ =~= seq![t@[1]] + t@.subrange(2, i as int));
        }
        assert(t@.subrange(2, t@.len() as int) =~= t@.skip(2));
        return Some(out);
    }
    Some(t)
}

fn explicit_rule(record: &[char]) -> (r: bool)
    ensures
        r == spec_explicit_rule(record@),
{
    if record.len() == 0 {
        return false;
    }
    if short_action(record[0]).is_some() {
        return true;
    }
    match find_whitespace(record) {
        None => false,
        Some(w) => {
            let head = copy_chars(record, 0, w);
            assert(head@ =~= record@.take(w as int));
            let keyword = match find_char(head.as_slice(), ',') {
                Some(i) => copy_chars(head.as_slice(), 0, i),
                None => head,
            };
            assert(keyword@ =~= match first_index_of(record@.take(w as int), ',') {
                Some(i) => record@.take(w as int).take(i),
                None => record@.take(w as int),
            });
            long_action(keyword.as_slice()).is_some()
        },
    }
}

impl Rule {
    /// Parses a filter file: newline-separated records (or NUL-separated with `from0`); blank
    /// records and `#` comments are skipped, records in rule syntax are parsed as rules and
    /// any other record becomes a `default_action` rule for that pattern.
    pub fn parse_filter_file(input: &[u8], from0: bool, default_action: RuleAction) -> (r: Result<Vec<Rule>, ParseRuleError>)
        requires
            input@.len() < usize::MAX,
        ensures
            match spec_parse_filter_file(input@, from0, default_action) {
                Ok(rules) => r matches Ok(v) && v@.map_values(|x: Rule| x@) == rules,
                Err(e) => r matches Err(x) && x@ == e,
            },
    {
        let records = match parse_filter_records(input, from0) {
            Ok(records) => records,
            Err(e) => { return Err(e); },
        };
        let ghost rs = records@.map_values(|x: Vec<char>| x@);
        assert(spec_filter_records(input@, from0) == Ok::<Seq<Seq<char>>, RuleErrorModel>(rs));
        let mut rules: Vec<Rule> = Vec::new();
        let mut k: usize = 0;
        while k < records.len()
            invariant
                rs == records@.map_values(|x: Vec<char>| x@),
                spec_filter_records(input@, from0) == Ok::<Seq<Seq<char>>, RuleErrorModel>(rs),
                forall|i: int| 0 <= i < records@.len() ==> (#[trigger] records@[i])@.len() < usize::MAX,
                k <= rs.len(),
                spec_rules_from(rs, 0, default_action) == match spec_rules_from(rs, k as int, default_action) {
                    Ok(rest) => Ok(rules@.map_values(|x: Rule| x@) + rest),
                    Err(e) => Err(e),
                },
            decreases records.len() - k,
        {
            let record = &records[k];
            assert(record@ == rs[k as int]);
            match normalize_filter_record(record.as_slice()) {
                None => {},
                Some(normalized) => {
                    let parsed = if explicit_rule(normalized.as_slice()) {
                        Self::parse_filter_chars(normalized.as_slice())
                    } else {
                        Self::new_from_chars(default_action, normalized.as_slice())
                    };
                    proof {
                        let n = spec_normalize_filter_record(rs[k as int]);
                        assert(n == Some(normalized@));
                    }
                    match parsed {
                        Err(e) => {
                            proof {
                                assert(spec_rules_from(rs, k as int, default_action) matches Err(x) && x == e@);
                            }
                            return Err(e);
                        },
                        Ok(rule) => {
                            let ghost before = rules@.map_values(|x: Rule| x@);
                            let ghost m = rule@;
                            rules.push(rule);
                            assert(rules@.map_values(|x: Rule| x@) =~= before.push(m));
                            proof {
                                match spec_rules_from(rs, k + 1, default_action) {
                                    Ok(rest) => {
                                        assert(before + (seq![m] + rest) =~= before.push(m) + rest);
                                    },
                                    Err(_) => {},
                                }
                            }
                        },
                    }
                },
            }
            k = k + 1;
        }
        assert(rules@.map_values(|x: Rule| x@) + Seq::<RuleModel>::empty() =~= rules@.map_values(|x: Rule| x@));
        Ok(rules)
    }
}

/// The first word of a record, up to a comma: the keyword of a rule written in long form.
pub open spec fn record_keyword(record: Seq<char>, w: int) -> Seq<char> {
    match first_index_of(record.take(w), ',') {
        Some(i) => record.take(w).take(i),
        None => record.take(w),
    }
}

/// A filter-file record whose first word (up to a comma) is a rule keyword such as `include`,
/// `exclude`, `protect` or `hide` is read in rule syntax: it contributes the rule that `--filter`
/// gives for it, whatever the file's default action.
pub proof fn lemma_keyword_record_is_rule(
    records: Seq<Seq<char>>,
    k: int,
    default_action: RuleAction,
    record: Seq<char>,
    w: int,
)
    requires
        0 <= k < records.len(),
        spec_normalize_filter_record(records[k]) == Some(record),
        first_whitespace(record) == Some(w),
        spec_long_action(record_keyword(record, w)) is Some,
    ensures
        spec_rules_from(records, k, default_action) == match spec_parse_filter(record) {
            Err(e) => Err(e),
            Ok(rule) => match spec_rules_from(records, k + 1, default_action) {
                Ok(rest) => Ok(seq![rule] + rest),
                Err(e) => Err(e),
            },
        },
{
    assert(record.len() > 0) by {
        if record.len() == 0 {
            assert(first_whitespace(record) is None);
        }
    }
    assert(spec_explicit_rule(record));
}

} // verus!
