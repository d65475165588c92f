//! Token accounting.

use vstd::prelude::*;

verus! {

/// The total of two reported token counts, where it can be computed.
///
/// A total exists only when both counts are present and their sum fits in
/// `u32`; it is never made up from one count alone.
pub open spec fn spec_sum_option(a: Option<u32>, b: Option<u32>) -> Option<u32> {
    match (a, b) {
        (Some(x), Some(y)) => if x + y <= u32::MAX {
            Some((x + y) as u32)
        } else {
            None
        },
        _ => None,
    }
}

/// Adds the prompt and completion counts of one response or frame.
pub fn sum_option(a: Option<u32>, b: Option<u32>) -> (total: Option<u32>)
    ensures
        total == spec_sum_option(a, b),
        total matches Some(t) ==> a is Some && b is Some && t == a->0 + b->0,
        a is None || b is None ==> total is None,
{
    match (a, b) {
        (Some(x), Some(y)) => x.checked_add(y),
        _ => None,
    }
}

} // verus!
