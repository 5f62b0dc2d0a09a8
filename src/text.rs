//! The string operations that profile names are made of.

use vstd::prelude::*;

verus! {

/// `s` with every space replaced by a hyphen.
pub open spec fn hyphenated(s: Seq<char>) -> Seq<char> {
    s.map_values(|c: char| if c == ' ' { '-' } else { c })
}

/// Relies on str::starts_with with a string pattern: whether `p` is a prefix
/// of `s`.
#[verifier::external_body]
fn starts_with(s: &str, p: &str) -> (r: bool)
    ensures
        r == p@.is_prefix_of(s@),
{
    s.starts_with(p)
}

/// Relies on str::replace with a one-character pattern: every space becomes
/// a hyphen, and nothing else changes.
#[verifier::external_body]
pub(crate) fn replace_spaces(s: &str) -> (r: String)
    ensures
        r@ == hyphenated(s@),
{
    s.replace(' ', "-")
}

/// Whether a section named `name` is kept when the sections marked by
/// `marker` are cleaned out.
pub fn keeps_name(name: &String, marker: &str) -> (r: bool)
    ensures
        r == !marker@.is_prefix_of(name@),
{
    !starts_with(name.as_str(), marker)
}

} // verus!
