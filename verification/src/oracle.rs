//! The trusted boundary to the Unicode engines: grapheme segmentation from
//! `unicode_segmentation`, and width measurement, atom segmentation, wrapping
//! and truncation from `runefix_core`.
//!
//! Each result that depends only on the arguments is given an uninterpreted
//! name, and the contracts state only what the crates' sources show.

use vstd::prelude::*;

use crate::policy::{policy_cjk, policy_emoji, policy_fallback, policy_variant, PolicyKind};
use crate::text::{concat_all, views_of};

verus! {

/// The extended grapheme clusters of a string, per UAX #29.
pub uninterp spec fn graphemes_of(s: Seq<char>) -> Seq<Seq<char>>;

/// The display width of a string under a width policy, given as the four
/// per-category cell widths the policy assigns.
pub uninterp spec fn policy_width_of(
    emoji: int,
    cjk: int,
    variant: int,
    fallback: int,
    s: Seq<char>,
) -> nat;

/// The layout atoms of a string: width-bearing characters, each preceded by
/// its run of zero-width characters.
pub uninterp spec fn atoms_of(s: Seq<char>) -> Seq<Seq<char>>;

/// The lines a string is wrapped into under a width policy and a maximum
/// line width.
pub uninterp spec fn policy_split_of(
    emoji: int,
    cjk: int,
    variant: int,
    fallback: int,
    max_width: int,
    s: Seq<char>,
) -> Seq<Seq<char>>;

/// The prefix a string is truncated to under a width policy and a maximum
/// display width.
pub uninterp spec fn policy_truncate_of(
    emoji: int,
    cjk: int,
    variant: int,
    fallback: int,
    max_width: int,
    s: Seq<char>,
) -> Seq<char>;

/// The display width of a string under one of the built-in policies.
pub open spec fn width_of(p: PolicyKind, s: Seq<char>) -> nat {
    policy_width_of(policy_emoji(p), policy_cjk(p), policy_variant(p), policy_fallback(p), s)
}

/// The wrapped lines of a string under one of the built-in policies.
pub open spec fn split_of(p: PolicyKind, max_width: int, s: Seq<char>) -> Seq<Seq<char>> {
    policy_split_of(
        policy_emoji(p),
        policy_cjk(p),
        policy_variant(p),
        policy_fallback(p),
        max_width,
        s,
    )
}

/// The truncated prefix of a string under one of the built-in policies.
pub open spec fn truncate_of(p: PolicyKind, max_width: int, s: Seq<char>) -> Seq<char> {
    policy_truncate_of(
        policy_emoji(p),
        policy_cjk(p),
        policy_variant(p),
        policy_fallback(p),
        max_width,
        s,
    )
}

/// Segment a string into extended grapheme clusters.
///
/// Relies on `unicode_segmentation`'s `graphemes(s, true)`: the clusters are
/// contiguous non-empty slices that partition the string, in order.
#[verifier::external_body]
pub fn graphemes(s: &str) -> (r: Vec<String>)
    ensures
        views_of(r@) == graphemes_of(s@),
        concat_all(views_of(r@)) == s@,
        forall|i: int| 0 <= i < r@.len() ==> (#[trigger] r@[i])@.len() > 0,
{
    unicode_segmentation::UnicodeSegmentation::graphemes(s, true)
        .map(|g| g.to_string())
        .collect()
}

/// Measure the display width of a string under a built-in policy.
///
/// Relies on `runefix_core::display_width_with_policy`: the width is the sum
/// over the string's grapheme clusters of that cluster's width, which the
/// built-in policies resolve to 0, 1 or 2 cells; so the total is at most two
/// cells per character, and an empty string has width 0.
#[verifier::external_body]
pub fn width_with_policy(s: &str, p: PolicyKind) -> (w: usize)
    ensures
        w == policy_width_of(policy_emoji(p), policy_cjk(p), policy_variant(p), policy_fallback(p), s@),
        w <= 2 * s@.len(),
{
    let policy = match p {
        PolicyKind::Terminal => runefix_core::WidthPolicy::terminal(),
        PolicyKind::Markdown => runefix_core::WidthPolicy::markdown(),
        PolicyKind::Compact => runefix_core::WidthPolicy::compact(),
    };
    runefix_core::display_width_with_policy(s, Some(&policy))
}

/// Segment a string into layout atoms.
///
/// Relies on `runefix_core::atoms`: the atoms are contiguous non-empty slices
/// that partition the string, in order.
#[verifier::external_body]
pub fn atoms(s: &str) -> (r: Vec<String>)
    ensures
        views_of(r@) == atoms_of(s@),
        concat_all(views_of(r@)) == s@,
        forall|i: int| 0 <= i < r@.len() ==> (#[trigger] r@[i])@.len() > 0,
{
    runefix_core::atoms(s).into_iter().map(|a| a.to_string()).collect()
}

/// Wrap a string into lines of at most `max_width` display cells.
///
/// Relies on `runefix_core::split_by_width_with_policy`: every grapheme
/// cluster is appended to exactly one line, in order, and only non-empty
/// lines are produced; so the lines are non-empty and concatenate back to
/// the input.
#[verifier::external_body]
pub fn split_by_width(s: &str, max_width: usize, p: PolicyKind) -> (r: Vec<String>)
    ensures
        views_of(r@) == policy_split_of(policy_emoji(p), policy_cjk(p), policy_variant(p), policy_fallback(p), max_width as int, s@),
        concat_all(views_of(r@)) == s@,
        forall|i: int| 0 <= i < r@.len() ==> (#[trigger] r@[i])@.len() > 0,
{
    let policy = match p {
        PolicyKind::Terminal => runefix_core::WidthPolicy::terminal(),
        PolicyKind::Markdown => runefix_core::WidthPolicy::markdown(),
        PolicyKind::Compact => runefix_core::WidthPolicy::compact(),
    };
    runefix_core::split_by_width_with_policy(s, max_width, Some(&policy))
}

/// Truncate a string to at most `max_width` display cells without splitting
/// a grapheme cluster.
///
/// Relies on `runefix_core::truncate_by_width_with_policy`: the result is a
/// prefix of the input, cut at a grapheme boundary.
#[verifier::external_body]
pub fn truncate_by_width(s: &str, max_width: usize, p: PolicyKind) -> (r: String)
    ensures
        r@ == policy_truncate_of(policy_emoji(p), policy_cjk(p), policy_variant(p), policy_fallback(p), max_width as int, s@),
        r@.is_prefix_of(s@),
{
    let policy = match p {
        PolicyKind::Terminal => runefix_core::WidthPolicy::terminal(),
        PolicyKind::Markdown => runefix_core::WidthPolicy::markdown(),
        PolicyKind::Compact => runefix_core::WidthPolicy::compact(),
    };
    runefix_core::truncate_by_width_with_policy(s, max_width, Some(&policy)).to_string()
}

/// The version of the Unicode character data behind the width tables.
///
/// Relies on `runefix_core::UNICODE_VERSION`, which is `(16, 0, 0)` in the
/// build this crate links against.
#[verifier::external_body]
pub fn unicode_version() -> (r: (u8, u8, u8))
    ensures
        r == (16u8, 0u8, 0u8),
{
    runefix_core::UNICODE_VERSION
}

} // verus!
