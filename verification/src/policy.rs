//! The width-policy selection: the three built-in layout policies, the name
//! under which each is selected, and the per-category cell widths each one
//! assigns.

use vstd::prelude::*;

use crate::text::str_eq;

verus! {

/// One of the built-in display-width policies.
#[derive(Debug, Clone, Copy, PartialEq, Eq, Structural)]
pub enum PolicyKind {
    /// Terminal-style: emoji, CJK and fullwidth variants are two cells wide.
    Terminal,
    /// Markdown-style: emoji are one cell wide, CJK stays two cells wide.
    Markdown,
    /// Compact: every grapheme is one cell wide.
    Compact,
}

/// The cell width the policy assigns to emoji graphemes.
pub open spec fn policy_emoji(p: PolicyKind) -> int {
    match p {
        PolicyKind::Terminal => 2,
        PolicyKind::Markdown => 1,
        PolicyKind::Compact => 1,
    }
}

/// The cell width the policy assigns to CJK ideographs, kana and hangul.
pub open spec fn policy_cjk(p: PolicyKind) -> int {
    match p {
        PolicyKind::Terminal => 2,
        PolicyKind::Markdown => 2,
        PolicyKind::Compact => 1,
    }
}

/// The cell width the policy assigns to fullwidth variants and punctuation.
pub open spec fn policy_variant(p: PolicyKind) -> int {
    match p {
        PolicyKind::Terminal => 2,
        PolicyKind::Markdown => 2,
        PolicyKind::Compact => 1,
    }
}

/// The fallback cell width for uncategorised graphemes.
pub open spec fn policy_fallback(p: PolicyKind) -> int {
    1
}

/// The policy selected by a name, if the name is one of the known ones.
pub open spec fn spec_parse_policy(name: Seq<char>) -> Option<PolicyKind> {
    if name == "terminal"@ {
        Some(PolicyKind::Terminal)
    } else if name == "markdown"@ {
        Some(PolicyKind::Markdown)
    } else if name == "compact"@ {
        Some(PolicyKind::Compact)
    } else {
        None
    }
}

/// Parse a policy name. `None` means the name is unknown; the caller decides
/// the fallback (the command line falls back to the terminal policy).
pub fn parse_policy(name: &str) -> (r: Option<PolicyKind>)
    ensures
        r == spec_parse_policy(name@),
{
    if str_eq(name, "terminal") {
        Some(PolicyKind::Terminal)
    } else if str_eq(name, "markdown") {
        Some(PolicyKind::Markdown)
    } else if str_eq(name, "compact") {
        Some(PolicyKind::Compact)
    } else {
        None
    }
}

/// The display name of a built-in policy.
pub fn describe_policy(p: &PolicyKind) -> (r: &'static str)
    ensures
        *p is Terminal ==> r@ == "Terminal"@,
        *p is Markdown ==> r@ == "Markdown"@,
        *p is Compact ==> r@ == "Compact"@,
{
    match p {
        PolicyKind::Terminal => "Terminal",
        PolicyKind::Markdown => "Markdown",
        PolicyKind::Compact => "Compact",
    }
}

/// Whether two policies assign the same widths. The three built-in policies
/// assign pairwise distinct width tables, so this is plain equality.
pub fn policy_eq(a: &PolicyKind, b: &PolicyKind) -> (r: bool)
    ensures
        r == (a == b),
{
    *a == *b
}

} // verus!
