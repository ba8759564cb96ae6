//! Version ranges. A version and a range are held as text and judged by the
//! `semver` crate. The library restates neither the grammar of versions and
//! ranges nor the rules of matching: what `semver` answers is given a name
//! here, and the contracts of the library speak of that name.

use vstd::prelude::*;

verus! {

/// Whether `semver::Version::parse` accepts the text as a version.
pub uninterp spec fn is_version_text(text: Seq<char>) -> bool;

/// What `semver` makes of a range and a version, both as text: `None` where
/// it rejects one of the two texts, else whether the version lies in the
/// range.
pub uninterp spec fn range_admits(range: Seq<char>, version: Seq<char>) -> Option<bool>;

/// Trusted, not proved: calls `semver::Version::parse` and tells whether it
/// returned `Ok`. The contract names that outcome `is_version_text`, which
/// rests on the parser reading nothing but its text.
#[verifier::external_body]
pub(crate) fn version_parses(text: &str) -> (accepted: bool)
    ensures
        accepted == is_version_text(text@),
{
    semver::Version::parse(text).is_ok()
}

/// Trusted, not proved: parses the range with `semver::VersionReq::parse`
/// and the version with `semver::Version::parse`, and hands back what
/// `semver::VersionReq::matches` says of the two; `None` where either parser
/// returned an error. The contract names that outcome `range_admits`, which
/// rests on all three reading nothing but their arguments.
#[verifier::external_body]
pub(crate) fn range_matches(range: &str, version: &str) -> (answer: Option<bool>)
    ensures
        answer == range_admits(range@, version@),
{
    let range = semver::VersionReq::parse(range).ok()?;
    let version = semver::Version::parse(version).ok()?;
    Some(range.matches(&version))
}

/// The version lies in the range. A range whose text `semver` rejects holds
/// no version.
pub open spec fn in_range(range: Seq<char>, version: Seq<char>) -> bool {
    range_admits(range, version) == Some(true)
}

/// The version lies in at least one of the ranges.
pub open spec fn in_any_range(ranges: Seq<Seq<char>>, version: Seq<char>) -> bool {
    exists|k: int| 0 <= k < ranges.len() && in_range(#[trigger] ranges[k], version)
}

/// The decision rule on a version and one advisory, given what is known of
/// them: a version that is no semantic version is never judged affected; a
/// version in a patched range is not affected, whatever the unaffected ranges
/// say; a version in an unaffected range is not affected; any other is.
pub open spec fn rule_affected(parses: bool, patched: bool, unaffected: bool) -> bool {
    parses && !patched && !unaffected
}

/// Reads an answer of `semver` on one range: only a plain yes counts.
pub fn answer_is_yes(answer: Option<bool>) -> (yes: bool)
    ensures
        yes == (answer == Some(true)),
{
    match answer {
        Some(inside) => inside,
        None => false,
    }
}

/// Applies the decision rule to what is known of a version and an advisory.
pub fn decide_affected(parses: bool, patched: bool, unaffected: bool) -> (affected: bool)
    ensures
        affected == rule_affected(parses, patched, unaffected),
{
    if !parses {
        false
    } else if patched {
        false
    } else if unaffected {
        false
    } else {
        true
    }
}

/// Whether the version lies in at least one of the ranges.
pub fn in_any(ranges: &Vec<String>, version: &str) -> (inside: bool)
    ensures
        inside == in_any_range(ranges.deep_view(), version@),
{
    let ghost texts = ranges.deep_view();
    let mut k: usize = 0;
    while k < ranges.len()
        invariant
            k <= ranges.len(),
            texts == ranges.deep_view(),
            forall|j: int| 0 <= j < k ==> !in_range(#[trigger] texts[j], version@),
        decreases ranges.len() - k,
    {
        let answer = range_matches(ranges[k].as_str(), version);
        assert(texts[k as int] == ranges[k as int]@);
        if answer_is_yes(answer) {
            return true;
        }
        k += 1;
    }
    false
}

} // verus!
