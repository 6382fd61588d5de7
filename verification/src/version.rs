//! Semantic versions and version requirements, as the `semver` crate reads
//! them. The loader keeps versions as text and asks `semver` for every
//! verdict, so what the crate decides is known here only by name.

use vstd::prelude::*;

verus! {

/// Whether `semver::Version::parse` accepts the text.
pub uninterp spec fn is_version(text: Seq<char>) -> bool;

/// Whether `semver::VersionReq::parse` accepts the text.
pub uninterp spec fn is_requirement(text: Seq<char>) -> bool;

/// Whether the requirement and the version both parse and
/// `semver::VersionReq::matches` holds of what they parse to.
pub uninterp spec fn requirement_admits(requirement: Seq<char>, version: Seq<char>) -> bool;

/// Calls `semver::Version::parse` and reports whether it succeeded. Not
/// proved: that the answer is `is_version` of the text, which is how that
/// name is defined.
#[verifier::external_body]
pub(crate) fn version_parses(text: &str) -> (ok: bool)
    ensures
        ok == is_version(text@),
{
    semver::Version::parse(text).is_ok()
}

/// Calls `semver::VersionReq::parse` and reports whether it succeeded. Not
/// proved: that the answer is `is_requirement` of the text, which is how that
/// name is defined.
#[verifier::external_body]
pub(crate) fn requirement_parses(text: &str) -> (ok: bool)
    ensures
        ok == is_requirement(text@),
{
    semver::VersionReq::parse(text).is_ok()
}

/// Calls `semver::VersionReq::matches` on the parsed requirement and the
/// parsed version; text that does not parse admits nothing. Not proved: that
/// the answer is `requirement_admits` of the two texts, which is how that
/// name is defined.
#[verifier::external_body]
pub(crate) fn requirement_matches(requirement: &str, version: &str) -> (ok: bool)
    ensures
        ok == requirement_admits(requirement@, version@),
{
    match (semver::VersionReq::parse(requirement), semver::Version::parse(version)) {
        (Ok(wanted), Ok(present)) => wanted.matches(&present),
        _ => false,
    }
}

} // verus!
