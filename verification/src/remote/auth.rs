use vstd::prelude::*;

use crate::text::{chars_of, str_eq, string_from_chars, trim, trim_chars};

verus! {

/// The daemon user name a value stands for: the value trimmed, unless that is empty or holds a
/// NUL character.
pub open spec fn auth_user_of(value: Seq<char>) -> Option<Seq<char>> {
    let user = trim(value);
    if user.len() == 0 || user.contains('\0') {
        None
    } else {
        Some(user)
    }
}

/// The daemon password a value stands for: the value itself, unless it is empty or holds a NUL
/// character.
pub open spec fn password_of(value: Seq<char>) -> Option<Seq<char>> {
    if value.len() == 0 || value.contains('\0') {
        None
    } else {
        Some(value)
    }
}

fn contains_nul(s: &[char]) -> (r: bool)
    ensures
        r == s@.contains('\0'),
{
    let mut i: usize = 0;
    while i < s.len()
        invariant
            i <= s@.len(),
            forall|j: int| 0 <= j < i ==> s@[j] != '\0',
        decreases s.len() - i,
    {
        if s[i] == '\0' {
            assert(s@[i as int] == '\0');
            return true;
        }
        i = i + 1;
    }
    false
}

pub fn normalize_daemon_auth_user(value: &str) -> (r: Option<String>)
    ensures
        match auth_user_of(value@) {
            Some(u) => r matches Some(s) && s@ == u,
            None => r is None,
        },
{
    let chars = chars_of(value);
    let user = trim_chars(chars.as_slice());
    if user.len() == 0 || contains_nul(user.as_slice()) {
        None
    } else {
        Some(string_from_chars(user.as_slice()))
    }
}

pub fn normalize_daemon_password(value: &str) -> (r: Option<String>)
    ensures
        match password_of(value@) {
            Some(p) => r matches Some(s) && s@ == p,
            None => r is None,
        },
{
    let chars = chars_of(value);
    if chars.len() == 0 || contains_nul(chars.as_slice()) {
        None
    } else {
        Some(value.to_owned())
    }
}

/// The view of a list of environment entries.
pub open spec fn var_views(vars: Seq<(&str, Option<String>)>) -> Seq<(Seq<char>, Option<Seq<char>>)> {
    vars.map_values(
        |v: (&str, Option<String>)|
            (
                v.0@,
                match v.1 {
                    Some(s) => Some(s@),
                    None => None,
                },
            ),
    )
}

/// The first user name among the values of `vars` that is usable.
pub open spec fn first_auth_user(vars: Seq<(Seq<char>, Option<Seq<char>>)>) -> Option<Seq<char>>
    decreases vars.len(),
{
    if vars.len() == 0 {
        None
    } else {
        match vars[0].1 {
            Some(v) => match auth_user_of(v) {
                Some(u) => Some(u),
                None => first_auth_user(vars.drop_first()),
            },
            None => first_auth_user(vars.drop_first()),
        }
    }
}

/// The first usable password among the `RSYNC_PASSWORD` entries of `vars`.
pub open spec fn first_password(vars: Seq<(Seq<char>, Option<Seq<char>>)>) -> Option<Seq<char>>
    decreases vars.len(),
{
    if vars.len() == 0 {
        None
    } else {
        match vars[0].1 {
            Some(v) => if vars[0].0 == "RSYNC_PASSWORD"@ && password_of(v) is Some {
                password_of(v)
            } else {
                first_password(vars.drop_first())
            },
            None => first_password(vars.drop_first()),
        }
    }
}

/// The daemon user name taken from the first environment value that holds a usable one.
pub fn daemon_auth_user_from_vars(vars: &[(&str, Option<String>)]) -> (r: Option<String>)
    ensures
        match first_auth_user(var_views(vars@)) {
            Some(u) => r matches Some(s) && s@ == u,
            None => r is None,
        },
{
    let ghost views = var_views(vars@);
    assert(views.skip(0) =~= views);
    let mut i: usize = 0;
    while i < vars.len()
        invariant
            i <= vars@.len(),
            views == var_views(vars@),
            first_auth_user(views) == first_auth_user(views.skip(i as int)),
        decreases vars.len() - i,
    {
        assert(views.skip(i as int)[0] == views[i as int]);
        assert(views.skip(i as int).drop_first() =~= views.skip(i + 1));
        if let Some(value) = &vars[i].1 {
            if let Some(user) = normalize_daemon_auth_user(value.as_str()) {
                return Some(user);
            }
        }
        i = i + 1;
    }
    None
}

/// The daemon password taken from the first usable `RSYNC_PASSWORD` entry.
pub fn daemon_password_from_vars(vars: &[(&str, Option<String>)]) -> (r: Option<String>)
    ensures
        match first_password(var_views(vars@)) {
            Some(p) => r matches Some(s) && s@ == p,
            None => r is None,
        },
{
    let ghost views = var_views(vars@);
    assert(views.skip(0) =~= views);
    let mut i: usize = 0;
    while i < vars.len()
        invariant
            i <= vars@.len(),
            views == var_views(vars@),
            first_password(views) == first_password(views.skip(i as int)),
        decreases vars.len() - i,
    {
        assert(views.skip(i as int)[0] == views[i as int]);
        assert(views.skip(i as int).drop_first() =~= views.skip(i + 1));
        if str_eq(vars[i].0, "RSYNC_PASSWORD") {
            if let Some(value) = &vars[i].1 {
                if let Some(password) = normalize_daemon_password(value.as_str()) {
                    return Some(password);
                }
            }
        }
        i = i + 1;
    }
    None
}

/// `text` without the line endings (`\n`, `\r`) at its end.
pub open spec fn without_line_endings(text: Seq<char>) -> Seq<char>
    decreases text.len(),
{
    if text.len() > 0 && (text.last() == '\n' || text.last() == '\r') {
        without_line_endings(text.drop_last())
    } else {
        text
    }
}

/// The password that a password file holds: its text without trailing line endings.
pub fn password_from_file_text(text: &str) -> (r: String)
    ensures
        r@ == without_line_endings(text@),
{
    let chars = chars_of(text);
    let mut end = chars.len();
    assert(chars@.take(end as int) =~= chars@);
    while end > 0 && (chars[end - 1] == '\n' || chars[end - 1] == '\r')
        invariant
            end <= chars@.len(),
            chars@ == text@,
            without_line_endings(chars@.take(end as int)) == without_line_endings(text@),
        decreases end,
    {
        assert(chars@.take(end as int).drop_last() =~= chars@.take(end - 1));
        end = end - 1;
    }
    assert(chars@.take(chars@.len() as int) =~= chars@);
    let kept = crate::text::copy_chars(chars.as_slice(), 0, end);
    assert(kept@ =~= chars@.take(end as int));
    string_from_chars(kept.as_slice())
}

} // verus!
