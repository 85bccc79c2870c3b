//! Semantic versions, as the semver crate reads and orders them.

use vstd::prelude::*;
use std::cmp::Ordering;

verus! {

/// Whether semver's `Version::parse` accepts the text.
pub uninterp spec fn semver_valid(s: Seq<char>) -> bool;

/// How semver's `Ord for Version` orders the versions that two texts parse to.
pub uninterp spec fn semver_order(a: Seq<char>, b: Seq<char>) -> Ordering;

/// Relies on semver's `Version::parse`: whether the text is a semantic version.
#[verifier::external_body]
pub(crate) fn is_semver(s: &str) -> (r: bool)
    ensures
        r == semver_valid(s@),
{
    semver::Version::parse(s).is_ok()
}

/// Relies on semver's `Version::parse` and on `Ord for Version`, which orders
/// versions totally, field by field: the same text gives `Equal`, swapping the
/// arguments reverses the result, and the order is transitive.
#[verifier::external_body]
pub(crate) fn compare_semver(a: &str, b: &str) -> (r: Ordering)
    requires
        semver_valid(a@),
        semver_valid(b@),
    ensures
        r == semver_order(a@, b@),
        a@ == b@ ==> r == Ordering::Equal,
        r == Ordering::Less <==> semver_order(b@, a@) == Ordering::Greater,
        r == Ordering::Greater <==> semver_order(b@, a@) == Ordering::Less,
        forall|c: Seq<char>|
            semver_valid(c) && r == Ordering::Greater && #[trigger] semver_order(b@, c)
                == Ordering::Greater ==> semver_order(a@, c) == Ordering::Greater,
        forall|c: Seq<char>|
            semver_valid(c) && r == Ordering::Greater && #[trigger] semver_order(c, a@)
                == Ordering::Greater ==> semver_order(c, b@) == Ordering::Greater,
        forall|c: Seq<char>|
            semver_valid(c) && r == Ordering::Less && #[trigger] semver_order(c, b@)
                == Ordering::Greater ==> semver_order(c, a@) == Ordering::Greater,
{
    semver::Version::parse(a).unwrap().cmp(&semver::Version::parse(b).unwrap())
}

} // verus!
