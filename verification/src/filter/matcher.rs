use vstd::prelude::*;

use crate::filter::rule::{Rule, RuleAction, RuleModel, RuleSide, spec_rule_matches};
use crate::text::chars_of;

verus! {

/// The kind of entry a path names.
#[derive(Debug, Clone, Copy, PartialEq, Eq, Structural)]
pub enum EntryKind {
    File,
    Directory,
}

/// The outcome of matching a path against a rule list: the deciding action and the index of
/// the rule that decided (none when no rule matched and the path is included by default).
#[derive(Debug, Clone, PartialEq, Eq, Structural)]
pub struct MatchDecision {
    action: RuleAction,
    matched_rule_index: Option<usize>,
}

/// Whether an action keeps the entry (everything but exclude and hide does).
pub open spec fn spec_is_included(action: RuleAction) -> bool {
    !(action == RuleAction::Exclude || action == RuleAction::Hide)
}

impl MatchDecision {
    /// A decision with the given action and deciding rule.
    pub fn new(action: RuleAction, matched_rule_index: Option<usize>) -> (r: MatchDecision)
        ensures
            r.spec_action() == action,
            r.spec_matched_rule_index() == matched_rule_index,
    {
        MatchDecision { action, matched_rule_index }
    }

    /// The deciding action.
    pub closed spec fn spec_action(&self) -> RuleAction {
        self.action
    }

    /// The index of the deciding rule.
    pub closed spec fn spec_matched_rule_index(&self) -> Option<usize> {
        self.matched_rule_index
    }

    /// The deciding action.
    pub fn action(&self) -> (r: RuleAction)
        ensures
            r == self.spec_action(),
    {
        self.action
    }

    /// The index of the deciding rule.
    pub fn matched_rule_index(&self) -> (r: Option<usize>)
        ensures
            r == self.spec_matched_rule_index(),
    {
        self.matched_rule_index
    }

    /// Whether the entry is kept.
    pub fn is_included(&self) -> (r: bool)
        ensures
            r == spec_is_included(self.spec_action()),
    {
        !(self.action == RuleAction::Exclude || self.action == RuleAction::Hide)
    }
}

/// Merge directives name filter files; they never decide a match themselves.
pub open spec fn is_merge_action(action: RuleAction) -> bool {
    action == RuleAction::Merge || action == RuleAction::DirMerge
}

/// Whether rule `rule` takes part in a decision for `side` (any side when `None`) and matches.
pub open spec fn rule_decides(rule: RuleModel, path: Seq<char>, kind: EntryKind, side: Option<RuleSide>) -> bool {
    &&& !is_merge_action(rule.action)
    &&& match side {
        None => true,
        Some(RuleSide::Sender) => rule.sender_side,
        Some(RuleSide::Receiver) => rule.receiver_side,
    }
    &&& spec_rule_matches(rule, path, kind)
}

/// The first rule at index `k` or later that decides for `path`.
pub open spec fn first_deciding_rule(
    rules: Seq<RuleModel>,
    k: int,
    path: Seq<char>,
    kind: EntryKind,
    side: Option<RuleSide>,
) -> Option<int>
    decreases rules.len() - k,
{
    if k < 0 || k >= rules.len() {
        None
    } else if rule_decides(rules[k], path, kind, side) {
        Some(k)
    } else {
        first_deciding_rule(rules, k + 1, path, kind, side)
    }
}

/// The decision for `path`: the first deciding rule's action, or include when none decides.
pub open spec fn spec_decide(
    rules: Seq<RuleModel>,
    path: Seq<char>,
    kind: EntryKind,
    side: Option<RuleSide>,
) -> (RuleAction, Option<int>) {
    match first_deciding_rule(rules, 0, path, kind, side) {
        Some(i) => (rules[i].action, Some(i)),
        None => (RuleAction::Include, None),
    }
}

/// An ordered list of filter rules; the first matching rule decides.
#[derive(Debug, Default, Clone, PartialEq, Eq)]
pub struct RuleSet {
    rules: Vec<Rule>,
}

impl View for RuleSet {
    type V = Seq<RuleModel>;

    closed spec fn view(&self) -> Seq<RuleModel> {
        self.rules@.map_values(|r: Rule| r@)
    }
}

impl RuleSet {
    /// A rule set holding `rules` in order.
    pub fn new(rules: Vec<Rule>) -> (r: RuleSet)
        ensures
            r@ == rules@.map_values(|x: Rule| x@),
    {
        RuleSet { rules }
    }

    /// A rule set without rules.
    pub fn empty() -> (r: RuleSet)
        ensures
            r@ == Seq::<RuleModel>::empty(),
    {
        let r = RuleSet { rules: Vec::new() };
        assert(r@ =~= Seq::<RuleModel>::empty());
        r
    }

    /// Appends a rule; a list-clear rule removes all rules instead.
    pub fn push(&mut self, rule: Rule)
        ensures
            final(self)@ == if rule@.action == RuleAction::ClearList {
                Seq::<RuleModel>::empty()
            } else {
                old(self)@.push(rule@)
            },
    {
        if rule.action() == RuleAction::ClearList {
            self.rules.clear();
            assert(self@ =~= Seq::<RuleModel>::empty());
            return;
        }
        let ghost r = rule@;
        self.rules.push(rule);
        assert(self@ =~= old(self)@.push(r));
    }

    /// The rules, in order.
    pub fn rules(&self) -> (r: &[Rule])
        ensures
            r@.map_values(|x: Rule| x@) == self@,
    {
        self.rules.as_slice()
    }

    fn decide_chars(&self, path: &[char], kind: EntryKind, side: Option<RuleSide>) -> (r: MatchDecision)
        requires
            path@.len() < usize::MAX,
        ensures
            (r.spec_action(), match r.spec_matched_rule_index() {
                Some(i) => Some(i as int),
                None => None,
            }) == spec_decide(self@, path@, kind, side),
    {
        let ghost rules = self@;
        let mut index: usize = 0;
        while index < self.rules.len()
            invariant
                index <= self.rules@.len(),
                rules == self@,
                rules.len() == self.rules@.len(),
                path@.len() < usize::MAX,
                first_deciding_rule(rules, 0, path@, kind, side) == first_deciding_rule(rules, index as int, path@, kind, side),
            decreases self.rules.len() - index,
        {
            let rule = &self.rules[index];
            assert(rules[index as int] == rule@);
            let applies = match side {
                None => true,
                Some(RuleSide::Sender) => rule.is_sender_side(),
                Some(RuleSide::Receiver) => rule.is_receiver_side(),
            };
            let merge = rule.action() == RuleAction::Merge || rule.action() == RuleAction::DirMerge;
            if !merge && applies && rule.matches_chars(path, kind) {
                return MatchDecision::new(rule.action(), Some(index));
            }
            index = index + 1;
        }
        MatchDecision::new(RuleAction::Include, None)
    }

    /// The decision for `path`: the first (non-merge) matching rule's action, or include.
    pub fn decide(&self, path: &str, kind: EntryKind) -> (r: MatchDecision)
        requires
            path@.len() < usize::MAX,
        ensures
            (r.spec_action(), match r.spec_matched_rule_index() {
                Some(i) => Some(i as int),
                None => None,
            }) == spec_decide(self@, path@, kind, None),
    {
        let chars = chars_of(path);
        self.decide_chars(chars.as_slice(), kind, None)
    }

    /// Whether `path` is kept.
    pub fn is_included(&self, path: &str, kind: EntryKind) -> (r: bool)
        requires
            path@.len() < usize::MAX,
        ensures
            r == spec_is_included(spec_decide(self@, path@, kind, None).0),
    {
        self.decide(path, kind).is_included()
    }

    /// The decision for `path` considering only rules that apply on `side`.
    pub fn decide_for_side(&self, path: &str, kind: EntryKind, side: RuleSide) -> (r: MatchDecision)
        requires
            path@.len() < usize::MAX,
        ensures
            (r.spec_action(), match r.spec_matched_rule_index() {
                Some(i) => Some(i as int),
                None => None,
            }) == spec_decide(self@, path@, kind, Some(side)),
    {
        let chars = chars_of(path);
        self.decide_chars(chars.as_slice(), kind, Some(side))
    }

    /// Whether `path` is kept on `side`.
    pub fn is_included_for_side(&self, path: &str, kind: EntryKind, side: RuleSide) -> (r: bool)
        requires
            path@.len() < usize::MAX,
        ensures
            r == spec_is_included(spec_decide(self@, path@, kind, Some(side)).0),
    {
        self.decide_for_side(path, kind, side).is_included()
    }
}

} // verus!
