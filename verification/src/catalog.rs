//! Stub interface over the content catalog.
//!
//! The tradition and governor repositories are external collaborators: the
//! engine only consumes their counts and the tradition weighting policy, so
//! this module exposes those as fixed values.

use vstd::prelude::*;
use crate::constants;
use crate::strutil::str_eq;

verus! {

/// Number of traditions the catalog holds.
pub fn get_tradition_count() -> (n: usize)
    ensures
        n == constants::TRADITION_COUNT,
{
    26
}

/// Number of Governor Angels the catalog holds.
pub fn get_governor_count() -> (n: usize)
    ensures
        n == constants::GOVERNOR_COUNT,
{
    91
}

/// The catalog's weighting of a tradition, in thousandths.
///
/// The five major traditions carry fixed named weights; any other name
/// weighs nothing here.
pub open spec fn spec_tradition_weight_milli(name: Seq<char>) -> int {
    if name == "Enochian"@ {
        600
    } else if name == "Hermetic_Qabalah"@ {
        150
    } else if name == "Thelema"@ {
        80
    } else if name == "Golden_Dawn"@ {
        70
    } else if name == "Chaos_Magic"@ {
        50
    } else {
        0
    }
}

/// Looks a tradition's weighting up by name.
pub fn get_tradition_weight(name: &str) -> (w: i64)
    ensures
        w == spec_tradition_weight_milli(name@),
{
    if str_eq(name, "Enochian") {
        600
    } else if str_eq(name, "Hermetic_Qabalah") {
        150
    } else if str_eq(name, "Thelema") {
        80
    } else if str_eq(name, "Golden_Dawn") {
        70
    } else if str_eq(name, "Chaos_Magic") {
        50
    } else {
        0
    }
}

} // verus!
