//! Numbers that are left to chance.

use vstd::prelude::*;

verus! {

/// Whether `number` can come of a draw from `low` to `high`, both included.
///
/// What that takes is kept to this module. Elsewhere, drawing a number is the only way to come to
/// know it of one.
pub closed spec fn is_drawn(low: u64, high: u64, number: u64) -> bool {
    low <= number <= high
}

} // verus!
