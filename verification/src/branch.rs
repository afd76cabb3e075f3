//! Canonical names for work branches: the two branch kinds, the syntax of a
//! short branch name, the full branch identifier and the integration branch a
//! kind targets.

use vstd::prelude::*;
use crate::text::{starts_with, starts_with_spec};

verus! {

/// The two kinds of short-lived work branch.
#[derive(Clone, Copy, PartialEq, Eq, Structural, Debug)]
pub enum Type {
    Feature,
    Hotfix,
}

/// A character accepted in a short branch name: a lowercase ASCII letter, a
/// digit, a dash or an underscore.
pub open spec fn valid_name_char(c: char) -> bool {
    ||| 'a' <= c <= 'z'
    ||| '0' <= c <= '9'
    ||| c == '-'
    ||| c == '_'
}

/// A short branch name is well formed when it is non-empty and every
/// character is a [`valid_name_char`].
pub open spec fn well_formed_spec(s: Seq<char>) -> bool {
    s.len() > 0 && (forall|i: int| 0 <= i < s.len() ==> valid_name_char(s[i]))
}

/// True iff `name` is non-empty and made only of lowercase letters, digits,
/// dash and underscore.
pub fn well_formed(name: &str) -> (b: bool)
    ensures
        b == well_formed_spec(name@),
{
    let len = name.unicode_len();
    if len == 0 {
        return false;
    }
    let mut i: usize = 0;
    while i < len
        invariant
            i <= len,
            len == name@.len(),
            forall|j: int| 0 <= j < i ==> valid_name_char(name@[j]),
        decreases len - i,
    {
        let c = name.get_char(i);
        let u = c as u32;
        let ok = (97 <= u && u <= 122) || (48 <= u && u <= 57) || u == 45 || u == 95;
        if !ok {
            assert(!valid_name_char(name@[i as int]));
            return false;
        }
        assert(valid_name_char(name@[i as int]));
        i += 1;
    }
    true
}

/// The prefix that a branch of kind `t` carries.
pub open spec fn prefix_spec(t: Type) -> Seq<char> {
    match t {
        Type::Feature => "feature"@,
        Type::Hotfix => "hotfix"@,
    }
}

/// The canonical identifier of a work branch: `feature/<name>` or
/// `hotfix/<name>`.
pub open spec fn resolve_spec(t: Type, name: Seq<char>) -> Seq<char> {
    prefix_spec(t) + "/"@ + name
}

/// Returns `"feature/<name>"` or `"hotfix/<name>"`.
pub fn resolve(t: Type, name: &str) -> (r: String)
    ensures
        r@ == resolve_spec(t, name@),
{
    let mut s = match t {
        Type::Feature => String::from_str("feature"),
        Type::Hotfix => String::from_str("hotfix"),
    };
    s.append("/");
    s.append(name);
    s
}

/// The integration branch a branch of kind `t` targets.
pub open spec fn base_spec(t: Type) -> Seq<char> {
    match t {
        Type::Feature => "develop"@,
        Type::Hotfix => "master"@,
    }
}

/// Returns the integration branch for the kind: features merge into
/// `develop`, hotfixes into `master`.
pub fn base(t: Type) -> (r: &'static str)
    ensures
        r@ == base_spec(t),
{
    match t {
        Type::Feature => "develop",
        Type::Hotfix => "master",
    }
}

/// The branch kind a full branch name announces by its prefix, if any.
pub open spec fn type_of_spec(s: Seq<char>) -> Option<Type> {
    if starts_with_spec(s, "feature"@) {
        Some(Type::Feature)
    } else if starts_with_spec(s, "hotfix"@) {
        Some(Type::Hotfix)
    } else {
        None
    }
}

/// Determines the branch kind from a branch's name: it must start with
/// "feature" or "hotfix".
pub fn type_of(name: &str) -> (r: Option<Type>)
    ensures
        r == type_of_spec(name@),
{
    if starts_with(name, "feature") {
        Some(Type::Feature)
    } else if starts_with(name, "hotfix") {
        Some(Type::Hotfix)
    } else {
        None
    }
}

} // verus!
