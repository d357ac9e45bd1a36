//! Datum tags and the dispatch that picks a pair transform for a
//! (source, target) datum pair.

use vstd::prelude::*;

verus! {

/// The direction of a supported datum conversion.
#[derive(Clone, Copy, Debug, PartialEq, Eq, Structural)]
pub enum Direction {
    /// WGS84 to GCJ02: the closed-form forward transform.
    WgsToGcj,
    /// GCJ02 to WGS84: the iterative inverse of the forward transform.
    GcjToWgs,
}

/// The direction selected for a (source, target) pair of datum tags:
/// forward for ("WGS84", "GCJ02"), inverse for ("GCJ02", "WGS84"), and
/// nothing for every other pair, identity pairs included.
pub open spec fn spec_select(source: Seq<char>, target: Seq<char>) -> Option<Direction> {
    if source == "WGS84"@ && target == "GCJ02"@ {
        Some(Direction::WgsToGcj)
    } else if source == "GCJ02"@ && target == "WGS84"@ {
        Some(Direction::GcjToWgs)
    } else {
        None
    }
}

/// Picks the conversion direction for a (source, target) pair of datum tags,
/// or `None` when the pair is unsupported.
pub fn select_transform(source: &str, target: &str) -> (r: Option<Direction>)
    ensures
        r == spec_select(source@, target@),
{
    if crate::json::str_eq(source, "WGS84") && crate::json::str_eq(target, "GCJ02") {
        Some(Direction::WgsToGcj)
    } else if crate::json::str_eq(source, "GCJ02") && crate::json::str_eq(target, "WGS84") {
        Some(Direction::GcjToWgs)
    } else {
        None
    }
}

} // verus!
