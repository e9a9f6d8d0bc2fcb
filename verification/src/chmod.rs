use vstd::prelude::*;
use vstd::string::StringExecFns;

use crate::filter::records::{split_chars, split_on};
use crate::policy::RsyncCoreError;
use crate::text::{chars_of, trim, trim_chars};

verus! {

/// The user class of a `who` mask.
pub const WHO_USER: u8 = 0b001;

/// The group class of a `who` mask.
pub const WHO_GROUP: u8 = 0b010;

/// The other class of a `who` mask.
pub const WHO_OTHER: u8 = 0b100;

/// All three classes.
pub const WHO_ALL: u8 = 0b111;

/// The permission bits of a mode: everything but the file type.
pub const PERMISSION_MASK: u32 = 0o7777;

/// Which entries a chmod rule applies to.
#[derive(Debug, Clone, Copy, PartialEq, Eq, Structural)]
pub enum ChmodTarget {
    All,
    Files,
    Directories,
}

/// The kind of entry a chmod rule set is applied to.
#[derive(Debug, Clone, Copy, PartialEq, Eq, Structural)]
pub enum ChmodFileKind {
    File,
    Directory,
}

/// How a symbolic rule combines its bits with the current ones.
#[derive(Debug, Clone, Copy, PartialEq, Eq, Structural)]
pub enum SymbolicOp {
    Add,
    Remove,
    Assign,
}

/// The permission letters of a symbolic rule.
#[derive(Debug, Clone, Copy, Default, PartialEq, Eq, Structural)]
pub struct PermissionMask {
    pub read: bool,
    pub write: bool,
    pub execute: bool,
    pub conditional_execute: bool,
    pub setid: bool,
    pub sticky: bool,
    pub copy_user: bool,
    pub copy_group: bool,
    pub copy_other: bool,
}

/// A symbolic rule such as `ug+rw`: the classes it touches, its operation and its letters.
#[derive(Debug, Clone, Copy, PartialEq, Eq, Structural)]
pub struct SymbolicMode {
    pub who: u8,
    pub op: SymbolicOp,
    pub perms: PermissionMask,
}

/// What a chmod rule does: set an octal mode, or apply a symbolic change.
#[derive(Debug, Clone, Copy, PartialEq, Eq, Structural)]
pub enum ChmodAction {
    Numeric(u32),
    Symbolic(SymbolicMode),
}

/// One comma-separated component of a `--chmod` value.
#[derive(Debug, Clone, Copy, PartialEq, Eq, Structural)]
pub struct ChmodRule {
    pub target: ChmodTarget,
    pub action: ChmodAction,
}

/// Whether the `who` mask holds the class `bit`.
pub open spec fn who_has(who: u8, bit: u8) -> bool {
    who & bit != 0
}

/// The bits `user`, `group` and `other` of the classes that `who` holds.
pub open spec fn class_bits(who: u8, user: u32, group: u32, other: u32) -> u32 {
    (if who_has(who, WHO_USER) {
        user
    } else {
        0
    }) | (if who_has(who, WHO_GROUP) {
        group
    } else {
        0
    }) | (if who_has(who, WHO_OTHER) {
        other
    } else {
        0
    })
}

/// The `rwx` bits of the classes that `who` holds.
pub open spec fn who_permission_bits(who: u8) -> u32 {
    class_bits(who, 0o700, 0o070, 0o007)
}

/// The set-user-id and set-group-id bits of the classes that `who` holds.
pub open spec fn who_setid_bits(who: u8) -> u32 {
    class_bits(who, 0o4000, 0o2000, 0)
}

/// The sticky bit, which belongs to the other class.
pub open spec fn who_sticky_bits(who: u8) -> u32 {
    if who_has(who, WHO_OTHER) || who == WHO_ALL {
        0o1000
    } else {
        0
    }
}

/// The `rwx` bits of the class at `shift` in `permissions`, copied to the classes of `who`.
pub open spec fn copy_class_bits(who: u8, permissions: u32, shift: u32) -> u32 {
    let source = (permissions >> shift) & 0o7;
    class_bits(who, source << 6u32, source << 3u32, source)
}

/// Whether an `x` or `X` letter grants execute permission.
pub open spec fn grants_exec(perms: PermissionMask, permissions: u32, kind: ChmodFileKind) -> bool {
    perms.execute || (perms.conditional_execute && (kind == ChmodFileKind::Directory || permissions
        & 0o111 != 0))
}

/// The bits that the letters `perms` stand for, for the classes of `who`.
pub open spec fn mask_bits(perms: PermissionMask, who: u8, permissions: u32, kind: ChmodFileKind) -> u32 {
    (if perms.read {
        class_bits(who, 0o400, 0o040, 0o004)
    } else {
        0
    }) | (if perms.write {
        class_bits(who, 0o200, 0o020, 0o002)
    } else {
        0
    }) | (if grants_exec(perms, permissions, kind) {
        class_bits(who, 0o100, 0o010, 0o001)
    } else {
        0
    }) | (if perms.setid {
        who_setid_bits(who)
    } else {
        0
    }) | (if perms.sticky {
        who_sticky_bits(who)
    } else {
        0
    }) | (if perms.copy_user {
        copy_class_bits(who, permissions, 6)
    } else {
        0
    }) | (if perms.copy_group {
        copy_class_bits(who, permissions, 3)
    } else {
        0
    }) | (if perms.copy_other {
        copy_class_bits(who, permissions, 0)
    } else {
        0
    })
}

/// The special bits that `=` clears before setting.
pub open spec fn special_clear_bits(perms: PermissionMask, who: u8) -> u32 {
    (if perms.setid {
        who_setid_bits(who)
    } else {
        0
    }) | (if perms.sticky {
        who_sticky_bits(who)
    } else {
        0
    })
}

/// The permission bits after a symbolic rule.
pub open spec fn symbolic_apply(mode: SymbolicMode, permissions: u32, kind: ChmodFileKind) -> u32 {
    let set_bits = mask_bits(mode.perms, mode.who, permissions, kind);
    match mode.op {
        SymbolicOp::Add => permissions | set_bits,
        SymbolicOp::Remove => permissions & !set_bits,
        SymbolicOp::Assign => (permissions & !(who_permission_bits(mode.who) | special_clear_bits(
            mode.perms,
            mode.who,
        ))) | set_bits,
    }
}

/// Whether a rule applies to entries of kind `kind`.
pub open spec fn rule_applies_to(rule: ChmodRule, kind: ChmodFileKind) -> bool {
    match rule.target {
        ChmodTarget::All => true,
        ChmodTarget::Files => kind == ChmodFileKind::File,
        ChmodTarget::Directories => kind == ChmodFileKind::Directory,
    }
}

/// The permission bits after one rule.
pub open spec fn rule_apply(rule: ChmodRule, permissions: u32, kind: ChmodFileKind) -> u32 {
    match rule.action {
        ChmodAction::Numeric(mode) => mode,
        ChmodAction::Symbolic(symbolic) => symbolic_apply(symbolic, permissions, kind),
    }
}

/// The permission bits after the rules that apply to `kind`, taken in order.
pub open spec fn apply_permission_rules(
    rules: Seq<ChmodRule>,
    permissions: u32,
    kind: ChmodFileKind,
) -> u32
    decreases rules.len(),
{
    if rules.len() == 0 {
        permissions
    } else {
        let before = apply_permission_rules(rules.drop_last(), permissions, kind);
        if rule_applies_to(rules.last(), kind) {
            rule_apply(rules.last(), before, kind)
        } else {
            before
        }
    }
}

/// The mode after `rules`: file type bits kept, permission bits rewritten.
pub open spec fn apply_chmod(rules: Seq<ChmodRule>, wire_mode: u32, kind: ChmodFileKind) -> u32 {
    (wire_mode & !PERMISSION_MASK) | apply_permission_rules(rules, wire_mode & PERMISSION_MASK, kind)
}

/// A rule that a parser can produce: a numeric mode within the permission bits, a non-empty `who`.
pub open spec fn rule_well_formed(rule: ChmodRule) -> bool {
    match rule.action {
        ChmodAction::Numeric(mode) => mode <= PERMISSION_MASK,
        ChmodAction::Symbolic(symbolic) => 1 <= symbolic.who <= WHO_ALL,
    }
}

/// Rules that a parser can produce.
pub open spec fn rules_well_formed(rules: Seq<ChmodRule>) -> bool {
    forall|i: int| 0 <= i < rules.len() ==> rule_well_formed(#[trigger] rules[i])
}

/// The rules of a `--chmod` value, in the order they are applied.
#[derive(Debug, Clone, PartialEq, Eq)]
pub struct ChmodRules {
    rules: Vec<ChmodRule>,
}

impl View for ChmodRules {
    type V = Seq<ChmodRule>;

    closed spec fn view(&self) -> Seq<ChmodRule> {
        self.rules@
    }
}

impl ChmodRules {
    /// The mode `wire_mode` after the rules that apply to entries of kind `kind`.
    pub fn apply(&self, wire_mode: u32, kind: ChmodFileKind) -> (r: u32)
        ensures
            r == apply_chmod(self@, wire_mode, kind),
    {
        let type_bits = wire_mode & !PERMISSION_MASK;
        let mut permissions = wire_mode & PERMISSION_MASK;
        let n = self.rules.len();
        let mut i: usize = 0;
        while i < n
            invariant
                n == self.rules@.len(),
                i <= n,
                permissions == apply_permission_rules(
                    self.rules@.take(i as int),
                    wire_mode & PERMISSION_MASK,
                    kind,
                ),
            decreases n - i,
        {
            let rule = self.rules[i];
            assert(self.rules@.take(i + 1).drop_last() =~= self.rules@.take(i as int));
            if rule.matches(kind) {
                permissions = rule.apply(permissions, kind);
            }
            i = i + 1;
        }
        assert(self.rules@.take(n as int) =~= self.rules@);
        type_bits | permissions
    }

    pub fn is_empty(&self) -> (r: bool)
        ensures
            r == (self@.len() == 0),
    {
        self.rules.len() == 0
    }
}

impl ChmodRule {
    pub fn matches(self, kind: ChmodFileKind) -> (r: bool)
        ensures
            r == rule_applies_to(self, kind),
    {
        match (self.target, kind) {
            (ChmodTarget::All, _) => true,
            (ChmodTarget::Files, ChmodFileKind::File) => true,
            (ChmodTarget::Directories, ChmodFileKind::Directory) => true,
            _ => false,
        }
    }

    pub fn apply(self, permissions: u32, kind: ChmodFileKind) -> (r: u32)
        ensures
            r == rule_apply(self, permissions, kind),
    {
        match self.action {
            ChmodAction::Numeric(mode) => mode,
            ChmodAction::Symbolic(symbolic) => symbolic.apply(permissions, kind),
        }
    }
}

impl SymbolicMode {
    pub fn apply(self, permissions: u32, kind: ChmodFileKind) -> (r: u32)
        ensures
            r == symbolic_apply(self, permissions, kind),
    {
        let set_bits = self.perms.to_bits(self.who, permissions, kind);
        match self.op {
            SymbolicOp::Add => permissions | set_bits,
            SymbolicOp::Remove => permissions & !set_bits,
            SymbolicOp::Assign => {
                let clear_bits = permission_bits(self.who) | self.perms.special_clear_bits(self.who);
                (permissions & !clear_bits) | set_bits
            },
        }
    }
}

impl PermissionMask {
    /// Whether no letter is given.
    pub fn is_empty(self) -> (r: bool)
        ensures
            r == (self == PermissionMask::default_mask()),
    {
        !self.read && !self.write && !self.execute && !self.conditional_execute && !self.setid
            && !self.sticky && !self.copy_user && !self.copy_group && !self.copy_other
    }

    /// The mask with no letter.
    pub open spec fn default_mask() -> PermissionMask {
        PermissionMask {
            read: false,
            write: false,
            execute: false,
            conditional_execute: false,
            setid: false,
            sticky: false,
            copy_user: false,
            copy_group: false,
            copy_other: false,
        }
    }

    pub fn to_bits(self, who: u8, permissions: u32, kind: ChmodFileKind) -> (r: u32)
        ensures
            r == mask_bits(self, who, permissions, kind),
    {
        let execute = self.execute || (self.conditional_execute && (matches!(kind, ChmodFileKind::Directory)
            || permissions & 0o111 != 0));
        (if self.read {
            class_bits_for(who, 0o400, 0o040, 0o004)
        } else {
            0
        }) | (if self.write {
            class_bits_for(who, 0o200, 0o020, 0o002)
        } else {
            0
        }) | (if execute {
            class_bits_for(who, 0o100, 0o010, 0o001)
        } else {
            0
        }) | (if self.setid {
            setid_bits(who)
        } else {
            0
        }) | (if self.sticky {
            sticky_bits(who)
        } else {
            0
        }) | (if self.copy_user {
            copy_class_bits_for(who, permissions, 6)
        } else {
            0
        }) | (if self.copy_group {
            copy_class_bits_for(who, permissions, 3)
        } else {
            0
        }) | (if self.copy_other {
            copy_class_bits_for(who, permissions, 0)
        } else {
            0
        })
    }

    pub fn special_clear_bits(self, who: u8) -> (r: u32)
        ensures
            r == special_clear_bits(self, who),
    {
        (if self.setid {
            setid_bits(who)
        } else {
            0
        }) | (if self.sticky {
            sticky_bits(who)
        } else {
            0
        })
    }
}

/// Whether the `who` mask holds the class `bit`.
pub fn contains(who: u8, bit: u8) -> (r: bool)
    ensures
        r == who_has(who, bit),
{
    who & bit != 0
}

/// The bits `user`, `group` and `other` of the classes that `who` holds.
pub fn class_bits_for(who: u8, user: u32, group: u32, other: u32) -> (r: u32)
    ensures
        r == class_bits(who, user, group, other),
{
    (if contains(who, WHO_USER) {
        user
    } else {
        0
    }) | (if contains(who, WHO_GROUP) {
        group
    } else {
        0
    }) | (if contains(who, WHO_OTHER) {
        other
    } else {
        0
    })
}

/// The `rwx` bits of the classes that `who` holds.
pub fn permission_bits(who: u8) -> (r: u32)
    ensures
        r == who_permission_bits(who),
{
    class_bits_for(who, 0o700, 0o070, 0o007)
}

/// The set-id bits of the classes that `who` holds.
pub fn setid_bits(who: u8) -> (r: u32)
    ensures
        r == who_setid_bits(who),
{
    class_bits_for(who, 0o4000, 0o2000, 0)
}

/// The sticky bit, when `who` holds the other class.
pub fn sticky_bits(who: u8) -> (r: u32)
    ensures
        r == who_sticky_bits(who),
{
    if contains(who, WHO_OTHER) || who == WHO_ALL {
        0o1000
    } else {
        0
    }
}

/// The `rwx` bits of the class at `shift` in `permissions`, copied to the classes of `who`.
pub fn copy_class_bits_for(who: u8, permissions: u32, shift: u32) -> (r: u32)
    requires
        shift <= 6,
    ensures
        r == copy_class_bits(who, permissions, shift),
{
    let source = (permissions >> shift) & 0o7;
    class_bits_for(who, source << 6u32, source << 3u32, source)
}

proof fn lemma_or_within(a: u32, b: u32, bound: u32)
    requires
        a <= bound,
        b <= bound,
        bound == 0o7777 || bound == 0o7,
    ensures
        a | b <= bound,
{
    assert(a <= bound && b <= bound && (bound == 0o7777 || bound == 0o7) ==> a | b <= bound)
        by (bit_vector);
}

proof fn lemma_class_bits_within(who: u8, user: u32, group: u32, other: u32)
    requires
        user <= 0o7777,
        group <= 0o7777,
        other <= 0o7777,
    ensures
        class_bits(who, user, group, other) <= 0o7777,
{
    let a: u32 = if who_has(who, WHO_USER) { user } else { 0 };
    let b: u32 = if who_has(who, WHO_GROUP) { group } else { 0 };
    let c: u32 = if who_has(who, WHO_OTHER) { other } else { 0 };
    lemma_or_within(a, b, 0o7777);
    lemma_or_within(a | b, c, 0o7777);
}

proof fn lemma_copy_class_bits_within(who: u8, permissions: u32, shift: u32)
    ensures
        copy_class_bits(who, permissions, shift) <= 0o7777,
{
    let source = (permissions >> shift) & 0o7;
    assert(source <= 7) by (bit_vector)
        requires
            source == (permissions >> shift) & 0o7,
    ;
    assert(source << 6u32 <= 0o700 && source << 3u32 <= 0o70) by (bit_vector)
        requires
            source <= 7,
    ;
    lemma_class_bits_within(who, source << 6u32, source << 3u32, source);
}

proof fn lemma_mask_bits_within(perms: PermissionMask, who: u8, permissions: u32, kind: ChmodFileKind)
    ensures
        mask_bits(perms, who, permissions, kind) <= 0o7777,
        special_clear_bits(perms, who) <= 0o7777,
{
    lemma_class_bits_within(who, 0o400, 0o040, 0o004);
    lemma_class_bits_within(who, 0o200, 0o020, 0o002);
    lemma_class_bits_within(who, 0o100, 0o010, 0o001);
    lemma_class_bits_within(who, 0o4000, 0o2000, 0);
    lemma_copy_class_bits_within(who, permissions, 6);
    lemma_copy_class_bits_within(who, permissions, 3);
    lemma_copy_class_bits_within(who, permissions, 0);
    let t1: u32 = if perms.read { class_bits(who, 0o400, 0o040, 0o004) } else { 0 };
    let t2: u32 = if perms.write { class_bits(who, 0o200, 0o020, 0o002) } else { 0 };
    let t3: u32 = if grants_exec(perms, permissions, kind) { class_bits(who, 0o100, 0o010, 0o001) } else { 0 };
    let t4: u32 = if perms.setid { who_setid_bits(who) } else { 0 };
    let t5: u32 = if perms.sticky { who_sticky_bits(who) } else { 0 };
    let t6: u32 = if perms.copy_user { copy_class_bits(who, permissions, 6) } else { 0 };
    let t7: u32 = if perms.copy_group { copy_class_bits(who, permissions, 3) } else { 0 };
    let t8: u32 = if perms.copy_other { copy_class_bits(who, permissions, 0) } else { 0 };
    lemma_or_within(t1, t2, 0o7777);
    lemma_or_within(t1 | t2, t3, 0o7777);
    lemma_or_within(t1 | t2 | t3, t4, 0o7777);
    lemma_or_within(t1 | t2 | t3 | t4, t5, 0o7777);
    lemma_or_within(t1 | t2 | t3 | t4 | t5, t6, 0o7777);
    lemma_or_within(t1 | t2 | t3 | t4 | t5 | t6, t7, 0o7777);
    lemma_or_within(t1 | t2 | t3 | t4 | t5 | t6 | t7, t8, 0o7777);
    lemma_or_within(t4, t5, 0o7777);
}

proof fn lemma_rule_apply_within(rule: ChmodRule, permissions: u32, kind: ChmodFileKind)
    requires
        rule_well_formed(rule),
        permissions <= 0o7777,
    ensures
        rule_apply(rule, permissions, kind) <= 0o7777,
{
    if let ChmodAction::Symbolic(mode) = rule.action {
        lemma_mask_bits_within(mode.perms, mode.who, permissions, kind);
        lemma_class_bits_within(mode.who, 0o700, 0o070, 0o007);
        let set_bits = mask_bits(mode.perms, mode.who, permissions, kind);
        let clear_bits = who_permission_bits(mode.who) | special_clear_bits(mode.perms, mode.who);
        lemma_or_within(permissions, set_bits, 0o7777);
        assert(permissions & !set_bits <= 0o7777) by (bit_vector)
            requires
                permissions <= 0o7777,
        ;
        assert(permissions & !clear_bits <= 0o7777) by (bit_vector)
            requires
                permissions <= 0o7777,
        ;
        lemma_or_within(permissions & !clear_bits, set_bits, 0o7777);
    }
}

proof fn lemma_permission_rules_within(rules: Seq<ChmodRule>, permissions: u32, kind: ChmodFileKind)
    requires
        rules_well_formed(rules),
        permissions <= 0o7777,
    ensures
        apply_permission_rules(rules, permissions, kind) <= 0o7777,
    decreases rules.len(),
{
    if rules.len() > 0 {
        assert(rules_well_formed(rules.drop_last()));
        lemma_permission_rules_within(rules.drop_last(), permissions, kind);
        lemma_rule_apply_within(
            rules.last(),
            apply_permission_rules(rules.drop_last(), permissions, kind),
            kind,
        );
    }
}

/// Chmod rules rewrite the permission bits only: the file type bits of a mode are kept, and the
/// permission bits are those the rules compute.
pub proof fn lemma_chmod_keeps_file_type(rules: Seq<ChmodRule>, wire_mode: u32, kind: ChmodFileKind)
    requires
        rules_well_formed(rules),
    ensures
        apply_chmod(rules, wire_mode, kind) & !PERMISSION_MASK == wire_mode & !PERMISSION_MASK,
        apply_chmod(rules, wire_mode, kind) & PERMISSION_MASK == apply_permission_rules(
            rules,
            wire_mode & PERMISSION_MASK,
            kind,
        ),
{
    let permissions = wire_mode & PERMISSION_MASK;
    assert(permissions <= 0o7777) by (bit_vector)
        requires
            permissions == wire_mode & 0o7777,
    ;
    lemma_permission_rules_within(rules, permissions, kind);
    let p = apply_permission_rules(rules, permissions, kind);
    assert(((wire_mode & !0o7777u32) | p) & !0o7777u32 == wire_mode & !0o7777u32) by (bit_vector)
        requires
            p <= 0o7777,
    ;
    assert(((wire_mode & !0o7777u32) | p) & 0o7777u32 == p) by (bit_vector)
        requires
            p <= 0o7777,
    ;
}

/// Without rules, a mode is left as it is.
pub proof fn lemma_no_rules_keep_mode(wire_mode: u32, kind: ChmodFileKind)
    ensures
        apply_chmod(Seq::empty(), wire_mode, kind) == wire_mode,
{
    assert((wire_mode & !0o7777u32) | (wire_mode & 0o7777u32) == wire_mode) by (bit_vector);
}

/// A numeric rule that applies sets the permission bits outright, whatever came before it.
pub proof fn lemma_numeric_rule_sets_permissions(
    rules: Seq<ChmodRule>,
    rule: ChmodRule,
    wire_mode: u32,
    kind: ChmodFileKind,
)
    requires
        rule.action is Numeric,
        rule_applies_to(rule, kind),
    ensures
        apply_chmod(rules.push(rule), wire_mode, kind) == (wire_mode & !PERMISSION_MASK)
            | rule.action->Numeric_0,
{
    assert(rules.push(rule).drop_last() =~= rules);
}

/// The target a component's first letter selects, and the rest of the component.
pub open spec fn target_prefix(part: Seq<char>) -> (ChmodTarget, int) {
    if part.len() > 0 && (part[0] == 'F' || part[0] == 'f') {
        (ChmodTarget::Files, 1)
    } else if part.len() > 0 && (part[0] == 'D' || part[0] == 'd') {
        (ChmodTarget::Directories, 1)
    } else {
        (ChmodTarget::All, 0)
    }
}

pub open spec fn is_octal_digit(c: char) -> bool {
    '0' <= c <= '7'
}

/// The number that octal digits `s` stand for.
pub open spec fn octal_value(s: Seq<char>) -> nat
    decreases s.len(),
{
    if s.len() == 0 {
        0
    } else {
        octal_value(s.drop_last()) * 8 + (s.last() as nat - '0' as nat) as nat
    }
}

/// One to four octal digits.
pub open spec fn is_numeric_mode(digits: Seq<char>) -> bool {
    1 <= digits.len() <= 4 && forall|i: int| 0 <= i < digits.len() ==> is_octal_digit(#[trigger] digits[i])
}

pub open spec fn is_who_letter(c: char) -> bool {
    c == 'u' || c == 'g' || c == 'o' || c == 'a'
}

/// The classes a `who` letter stands for.
pub open spec fn who_letter_bits(c: char) -> u8 {
    if c == 'u' {
        WHO_USER
    } else if c == 'g' {
        WHO_GROUP
    } else if c == 'o' {
        WHO_OTHER
    } else if c == 'a' {
        WHO_ALL
    } else {
        0
    }
}

/// The number of `who` letters that `s` starts with.
pub open spec fn who_prefix_len(s: Seq<char>) -> nat
    decreases s.len(),
{
    if s.len() > 0 && is_who_letter(s[0]) {
        1 + who_prefix_len(s.drop_first())
    } else {
        0
    }
}

/// The classes that the `who` letters `s` stand for together.
pub open spec fn who_letters_bits(s: Seq<char>) -> u8
    decreases s.len(),
{
    if s.len() == 0 {
        0
    } else {
        who_letters_bits(s.drop_last()) | who_letter_bits(s.last())
    }
}

/// The classes a symbolic expression names; all of them when it names none.
pub open spec fn parsed_who(expression: Seq<char>) -> u8 {
    let bits = who_letters_bits(expression.take(who_prefix_len(expression) as int));
    if bits == 0 {
        WHO_ALL
    } else {
        bits
    }
}

pub open spec fn is_permission_letter(c: char) -> bool {
    c == 'r' || c == 'w' || c == 'x' || c == 'X' || c == 's' || c == 't' || c == 'u' || c == 'g'
        || c == 'o'
}

/// `mask` with the letter `c` added.
pub open spec fn with_letter(mask: PermissionMask, c: char) -> PermissionMask {
    if c == 'r' {
        PermissionMask { read: true, ..mask }
    } else if c == 'w' {
        PermissionMask { write: true, ..mask }
    } else if c == 'x' {
        PermissionMask { execute: true, ..mask }
    } else if c == 'X' {
        PermissionMask { conditional_execute: true, ..mask }
    } else if c == 's' {
        PermissionMask { setid: true, ..mask }
    } else if c == 't' {
        PermissionMask { sticky: true, ..mask }
    } else if c == 'u' {
        PermissionMask { copy_user: true, ..mask }
    } else if c == 'g' {
        PermissionMask { copy_group: true, ..mask }
    } else {
        PermissionMask { copy_other: true, ..mask }
    }
}

/// The letters `s` as a mask, or the first letter that is not a permission letter.
pub open spec fn permission_letters(s: Seq<char>) -> Result<PermissionMask, char>
    decreases s.len(),
{
    if s.len() == 0 {
        Ok(PermissionMask::default_mask())
    } else {
        match permission_letters(s.drop_last()) {
            Err(c) => Err(c),
            Ok(mask) => if is_permission_letter(s.last()) {
                Ok(with_letter(mask, s.last()))
            } else {
                Err(s.last())
            },
        }
    }
}

/// The operation an operator character stands for.
pub open spec fn op_of(c: char) -> Option<SymbolicOp> {
    if c == '+' {
        Some(SymbolicOp::Add)
    } else if c == '-' {
        Some(SymbolicOp::Remove)
    } else if c == '=' {
        Some(SymbolicOp::Assign)
    } else {
        None
    }
}

/// A symbolic component such as `Dug+rwx`, or why it is not one.
pub open spec fn parse_symbolic(part: Seq<char>) -> Result<ChmodRule, Seq<char>> {
    let (target, start) = target_prefix(part);
    let expression = part.skip(start);
    if expression.len() == 0 {
        Err("missing chmod expression after file type prefix"@)
    } else {
        let rest = expression.skip(who_prefix_len(expression) as int);
        if rest.len() == 0 {
            Err("missing chmod operation"@)
        } else {
            match op_of(rest[0]) {
                None => Err("expected chmod operation +, -, or ="@),
                Some(op) => match permission_letters(rest.drop_first()) {
                    Err(c) => Err("unsupported chmod permission `"@ + seq![c] + "`"@),
                    Ok(perms) => if perms == PermissionMask::default_mask() && op
                        != SymbolicOp::Assign {
                        Err("chmod + and - operations require at least one permission"@)
                    } else {
                        Ok(
                            ChmodRule {
                                target,
                                action: ChmodAction::Symbolic(
                                    SymbolicMode { who: parsed_who(expression), op, perms },
                                ),
                            },
                        )
                    },
                },
            }
        }
    }
}

/// One trimmed component: numeric when it is one to four octal digits after an optional target
/// letter, symbolic otherwise.
pub open spec fn parse_component(part: Seq<char>) -> Result<ChmodRule, Seq<char>> {
    if part.len() == 0 {
        Err("empty chmod component"@)
    } else {
        let (target, start) = target_prefix(part);
        let digits = part.skip(start);
        if is_numeric_mode(digits) {
            Ok(ChmodRule { target, action: ChmodAction::Numeric(octal_value(digits) as u32) })
        } else {
            parse_symbolic(part)
        }
    }
}

/// The rules of the components `parts`, or the reason the first bad one is refused.
pub open spec fn parse_components(parts: Seq<Seq<char>>) -> Result<Seq<ChmodRule>, Seq<char>>
    decreases parts.len(),
{
    if parts.len() == 0 {
        Ok(Seq::empty())
    } else {
        match parse_components(parts.drop_last()) {
            Err(reason) => Err(reason),
            Ok(rules) => match parse_component(trim(parts.last())) {
                Err(reason) => Err(reason),
                Ok(rule) => Ok(rules.push(rule)),
            },
        }
    }
}

/// The rules of a `--chmod` value (comma-separated, each component trimmed), or the reason it is
/// refused.
pub open spec fn parse_chmod(value: Seq<char>) -> Result<Seq<ChmodRule>, Seq<char>> {
    parse_components(split_on(value, ','))
}

/// Powers of eight.
pub open spec fn pow8(k: nat) -> nat
    decreases k,
{
    if k == 0 {
        1
    } else {
        8 * pow8((k - 1) as nat)
    }
}

proof fn lemma_who_prefix_len(s: Seq<char>, k: int)
    requires
        0 <= k <= s.len(),
        forall|j: int| 0 <= j < k ==> is_who_letter(#[trigger] s[j]),
        k == s.len() || !is_who_letter(s[k]),
    ensures
        who_prefix_len(s) == k,
    decreases k,
{
    if k > 0 {
        lemma_who_prefix_len(s.drop_first(), k - 1);
    }
}

proof fn lemma_permission_letters_prefix_err(s: Seq<char>, k: int, c: char)
    requires
        0 <= k <= s.len(),
        permission_letters(s.take(k)) == Err::<PermissionMask, char>(c),
    ensures
        permission_letters(s) == Err::<PermissionMask, char>(c),
    decreases s.len() - k,
{
    if k < s.len() {
        assert(s.take(k + 1).drop_last() =~= s.take(k));
        lemma_permission_letters_prefix_err(s, k + 1, c);
    } else {
        assert(s.take(k) =~= s);
    }
}

proof fn lemma_parse_components_prefix_err(parts: Seq<Seq<char>>, k: int, reason: Seq<char>)
    requires
        0 <= k <= parts.len(),
        parse_components(parts.take(k)) == Err::<Seq<ChmodRule>, Seq<char>>(reason),
    ensures
        parse_components(parts) == Err::<Seq<ChmodRule>, Seq<char>>(reason),
    decreases parts.len() - k,
{
    if k < parts.len() {
        assert(parts.take(k + 1).drop_last() =~= parts.take(k));
        lemma_parse_components_prefix_err(parts, k + 1, reason);
    } else {
        assert(parts.take(k) =~= parts);
    }
}

/// The target that the first letter of `part` selects, and where the rest starts.
fn split_target(part: &[char]) -> (r: (ChmodTarget, usize))
    ensures
        (r.0, r.1 as int) == target_prefix(part@),
        r.1 <= part@.len(),
{
    if part.len() > 0 && (part[0] == 'F' || part[0] == 'f') {
        (ChmodTarget::Files, 1)
    } else if part.len() > 0 && (part[0] == 'D' || part[0] == 'd') {
        (ChmodTarget::Directories, 1)
    } else {
        (ChmodTarget::All, 0)
    }
}

/// The octal mode that `part[start..]` spells, when it is one to four octal digits.
fn octal_mode(part: &[char], start: usize) -> (r: Option<u32>)
    requires
        start <= part@.len(),
    ensures
        match r {
            Some(v) => is_numeric_mode(part@.skip(start as int)) && v == octal_value(
                part@.skip(start as int),
            ) && v <= PERMISSION_MASK,
            None => !is_numeric_mode(part@.skip(start as int)),
        },
{
    let n = part.len();
    let count = n - start;
    if count < 1 || count > 4 {
        return None;
    }
    let ghost digits = part@.skip(start as int);
    let mut v: u32 = 0;
    let mut i: usize = start;
    while i < n
        invariant
            n == part@.len(),
            start <= i <= n,
            n - start <= 4,
            digits == part@.skip(start as int),
            forall|j: int| start <= j < i ==> is_octal_digit(#[trigger] part@[j]),
            v == octal_value(part@.subrange(start as int, i as int)),
            v < pow8((i - start) as nat),
            pow8((i - start) as nat) <= 4096,
        decreases n - i,
    {
        let c = part[i];
        if !('0' <= c && c <= '7') {
            assert(digits[i - start] == c);
            return None;
        }
        let d = (c as u32) - ('0' as u32);
        assert(part@.subrange(start as int, i + 1).drop_last() =~= part@.subrange(start as int, i as int));
        proof {
            reveal_with_fuel(pow8, 5);
        }
        v = v * 8 + d;
        i = i + 1;
    }
    assert(part@.subrange(start as int, n as int) =~= digits);
    assert forall|j: int| 0 <= j < digits.len() implies is_octal_digit(#[trigger] digits[j]) by {
        assert(digits[j] == part@[start + j]);
    }
    Some(v)
}

proof fn lemma_who_or_within(a: u8, b: u8)
    requires
        a <= 7,
        b <= 7,
    ensures
        a | b <= 7,
        a <= a | b,
{
    assert(a <= 7 && b <= 7 ==> a | b <= 7 && a <= a | b) by (bit_vector);
}

/// The classes named by the `who` letters at `part[start..]`, and where they end.
fn parse_who(part: &[char], start: usize) -> (r: (u8, usize))
    requires
        start <= part@.len(),
    ensures
        r.0 == parsed_who(part@.skip(start as int)),
        r.1 == start + who_prefix_len(part@.skip(start as int)),
        r.1 <= part@.len(),
        1 <= r.0 <= WHO_ALL,
{
    let n = part.len();
    let mut who: u8 = 0;
    let mut i: usize = start;
    while i < n && (part[i] == 'u' || part[i] == 'g' || part[i] == 'o' || part[i] == 'a')
        invariant
            n == part@.len(),
            start <= i <= n,
            forall|j: int| start <= j < i ==> is_who_letter(#[trigger] part@[j]),
            who == who_letters_bits(part@.subrange(start as int, i as int)),
            who <= 7,
        decreases n - i,
    {
        let c = part[i];
        let bit: u8 = if c == 'u' {
            WHO_USER
        } else if c == 'g' {
            WHO_GROUP
        } else if c == 'o' {
            WHO_OTHER
        } else {
            WHO_ALL
        };
        assert(part@.subrange(start as int, i + 1).drop_last() =~= part@.subrange(start as int, i as int));
        proof {
            lemma_who_or_within(who, bit);
        }
        who = who | bit;
        i = i + 1;
    }
    let ghost expression = part@.skip(start as int);
    proof {
        assert forall|j: int| 0 <= j < i - start implies is_who_letter(#[trigger] expression[j]) by {
            assert(expression[j] == part@[start + j]);
        }
        lemma_who_prefix_len(expression, i - start);
        assert(expression.take(i - start) =~= part@.subrange(start as int, i as int));
    }
    if who == 0 {
        (WHO_ALL, i)
    } else {
        (who, i)
    }
}

/// The permission letters at `part[start..]`, or the first character that is not one.
fn parse_permissions(part: &[char], start: usize) -> (r: Result<PermissionMask, char>)
    requires
        start <= part@.len(),
    ensures
        r == permission_letters(part@.skip(start as int)),
{
    let n = part.len();
    let ghost letters = part@.skip(start as int);
    let mut mask = PermissionMask {
        read: false,
        write: false,
        execute: false,
        conditional_execute: false,
        setid: false,
        sticky: false,
        copy_user: false,
        copy_group: false,
        copy_other: false,
    };
    let mut i: usize = start;
    while i < n
        invariant
            n == part@.len(),
            start <= i <= n,
            letters == part@.skip(start as int),
            permission_letters(letters.take(i - start)) == Ok::<PermissionMask, char>(mask),
        decreases n - i,
    {
        let c = part[i];
        assert(letters.take(i + 1 - start).drop_last() =~= letters.take(i - start));
        assert(letters.take(i + 1 - start).last() == c);
        if c == 'r' {
            mask.read = true;
        } else if c == 'w' {
            mask.write = true;
        } else if c == 'x' {
            mask.execute = true;
        } else if c == 'X' {
            mask.conditional_execute = true;
        } else if c == 's' {
            mask.setid = true;
        } else if c == 't' {
            mask.sticky = true;
        } else if c == 'u' {
            mask.copy_user = true;
        } else if c == 'g' {
            mask.copy_group = true;
        } else if c == 'o' {
            mask.copy_other = true;
        } else {
            proof {
                lemma_permission_letters_prefix_err(letters, i + 1 - start, c);
            }
            return Err(c);
        }
        i = i + 1;
    }
    assert(letters.take(n - start) =~= letters);
    Ok(mask)
}

/// The reason given for a character that is not a permission letter.
fn unsupported_permission(c: char) -> (r: String)
    ensures
        r@ == "unsupported chmod permission `"@ + seq![c] + "`"@,
{
    let mut reason = String::from_str("unsupported chmod permission `");
    reason.push(c);
    reason.append("`");
    reason
}

/// A symbolic component, or the reason it is refused.
fn parse_symbolic_rule(part: &[char]) -> (r: Result<ChmodRule, String>)
    ensures
        match r {
            Ok(rule) => parse_symbolic(part@) == Ok::<ChmodRule, Seq<char>>(rule) && rule_well_formed(
                rule,
            ),
            Err(reason) => parse_symbolic(part@) == Err::<ChmodRule, Seq<char>>(reason@),
        },
{
    let n = part.len();
    let (target, start) = split_target(part);
    let ghost expression = part@.skip(start as int);
    if start == n {
        return Err(String::from_str("missing chmod expression after file type prefix"));
    }
    let (who, op_index) = parse_who(part, start);
    let ghost rest = expression.skip(who_prefix_len(expression) as int);
    assert(rest =~= part@.skip(op_index as int));
    if op_index == n {
        return Err(String::from_str("missing chmod operation"));
    }
    let op_char = part[op_index];
    let op = if op_char == '+' {
        SymbolicOp::Add
    } else if op_char == '-' {
        SymbolicOp::Remove
    } else if op_char == '=' {
        SymbolicOp::Assign
    } else {
        return Err(String::from_str("expected chmod operation +, -, or ="));
    };
    assert(rest.drop_first() =~= part@.skip(op_index + 1));
    let perms = match parse_permissions(part, op_index + 1) {
        Ok(perms) => perms,
        Err(c) => {
            return Err(unsupported_permission(c));
        },
    };
    if perms.is_empty() && !matches!(op, SymbolicOp::Assign) {
        return Err(String::from_str("chmod + and - operations require at least one permission"));
    }
    Ok(ChmodRule { target, action: ChmodAction::Symbolic(SymbolicMode { who, op, perms }) })
}

/// A non-empty trimmed component: numeric when it is one to four octal digits after an optional
/// target letter, symbolic otherwise.
fn parse_numeric_rule(part: &[char]) -> (r: Result<ChmodRule, String>)
    requires
        part@.len() > 0,
    ensures
        match r {
            Ok(rule) => parse_component(part@) == Ok::<ChmodRule, Seq<char>>(rule) && rule_well_formed(
                rule,
            ),
            Err(reason) => parse_component(part@) == Err::<ChmodRule, Seq<char>>(reason@),
        },
{
    let (target, start) = split_target(part);
    match octal_mode(part, start) {
        Some(mode) => {
            let masked = mode & PERMISSION_MASK;
            assert(masked == mode) by (bit_vector)
                requires
                    masked == mode & 0o7777,
                    mode <= 0o7777,
            ;
            Ok(ChmodRule { target, action: ChmodAction::Numeric(masked) })
        },
        None => parse_symbolic_rule(part),
    }
}

/// The error for a refused `--chmod` value.
fn invalid_chmod(value: &str, reason: &str) -> (r: RsyncCoreError)
    ensures
        r matches RsyncCoreError::InvalidArgument { name, reason: message } && name@ == "chmod"@
            && message@ == reason@ + ": `"@ + value@ + "`"@,
{
    let message = crate::text::join3(reason, ": `", value);
    let mut message = message;
    message.append("`");
    RsyncCoreError::InvalidArgument { name: "chmod", reason: message }
}

impl ChmodRules {
    /// Reads a `--chmod` value: comma-separated components, each trimmed.
    pub fn parse(value: &str) -> (r: Result<ChmodRules, RsyncCoreError>)
        ensures
            match parse_chmod(value@) {
                Ok(rules) => r matches Ok(c) && c@ == rules,
                Err(reason) => r matches Err(RsyncCoreError::InvalidArgument { name, reason: message })
                    && name@ == "chmod"@ && message@ == reason + ": `"@ + value@ + "`"@,
            },
            r matches Ok(c) ==> rules_well_formed(c@),
    {
        let chars = chars_of(value);
        let parts = split_chars(chars.as_slice(), ',');
        let ghost views = parts@.map_values(|v: Vec<char>| v@);
        let mut rules: Vec<ChmodRule> = Vec::new();
        let mut i: usize = 0;
        while i < parts.len()
            invariant
                i <= parts@.len(),
                views == parts@.map_values(|v: Vec<char>| v@),
                views == split_on(value@, ','),
                parse_components(views.take(i as int)) == Ok::<Seq<ChmodRule>, Seq<char>>(rules@),
                rules_well_formed(rules@),
            decreases parts.len() - i,
        {
            assert(views.take(i + 1).drop_last() =~= views.take(i as int));
            assert(views.take(i + 1).last() == parts@[i as int]@);
            let part = trim_chars(parts[i].as_slice());
            if part.len() == 0 {
                let reason = "empty chmod component";
                proof {
                    lemma_parse_components_prefix_err(views, i + 1, reason@);
                }
                return Err(invalid_chmod(value, reason));
            }
            match parse_numeric_rule(part.as_slice()) {
                Ok(rule) => {
                    rules.push(rule);
                },
                Err(reason) => {
                    proof {
                        lemma_parse_components_prefix_err(views, i + 1, reason@);
                    }
                    return Err(invalid_chmod(value, reason.as_str()));
                },
            }
            i = i + 1;
        }
        assert(views.take(parts@.len() as int) =~= views);
        Ok(ChmodRules { rules })
    }
}

impl std::str::FromStr for ChmodRules {
    type Err = RsyncCoreError;

    fn from_str(value: &str) -> Result<ChmodRules, RsyncCoreError> {
        ChmodRules::parse(value)
    }
}

/// The mask that holds only the letter `o`.
pub open spec fn other_copy_mask() -> PermissionMask {
    PermissionMask {
        read: false,
        write: false,
        execute: false,
        conditional_execute: false,
        setid: false,
        sticky: false,
        copy_user: false,
        copy_group: false,
        copy_other: true,
    }
}

/// The letter `o`: for each class that `who` names, the bits it sets are the `rwx` bits of the
/// other class of the input (`permissions & 0o7`), moved into that class's place.
pub proof fn lemma_copy_other_takes_other_bits(who: u8, permissions: u32, kind: ChmodFileKind)
    ensures
        mask_bits(other_copy_mask(), who, permissions, kind) == class_bits(
            who,
            (permissions & 0o7) << 6u32,
            (permissions & 0o7) << 3u32,
            permissions & 0o7,
        ),
{
    assert((permissions >> 0u32) & 0o7 == permissions & 0o7) by (bit_vector);
    let x = copy_class_bits(who, permissions, 0);
    assert(0u32 | 0u32 | 0u32 | 0u32 | 0u32 | 0u32 | 0u32 | x == x) by (bit_vector);
}

/// `g=o`: the group class becomes a copy of the other class; the user and other classes and the
/// special bits stay as they were.
pub proof fn lemma_group_assign_other(permissions: u32, kind: ChmodFileKind)
    ensures
        symbolic_apply(
            SymbolicMode { who: WHO_GROUP, op: SymbolicOp::Assign, perms: other_copy_mask() },
            permissions,
            kind,
        ) == (permissions & !0o070u32) | ((permissions & 0o7) << 3u32),
{
    assert(WHO_GROUP & WHO_USER == 0) by (bit_vector);
    assert(WHO_GROUP & WHO_GROUP != 0) by (bit_vector);
    assert(WHO_GROUP & WHO_OTHER == 0) by (bit_vector);
    lemma_copy_other_takes_other_bits(WHO_GROUP, permissions, kind);
    let perms = other_copy_mask();
    let c = (permissions & 0o7) << 3u32;
    assert(0u32 | c | 0u32 == c) by (bit_vector);
    assert(mask_bits(perms, WHO_GROUP, permissions, kind) == c);
    assert(0u32 | 0o070u32 | 0u32 == 0o070u32) by (bit_vector);
    assert(who_permission_bits(WHO_GROUP) == 0o070u32);
    assert(0u32 | 0u32 == 0u32) by (bit_vector);
    assert(special_clear_bits(perms, WHO_GROUP) == 0u32);
    assert((0o070u32 | 0u32) == 0o070u32) by (bit_vector);
}

} // verus!
