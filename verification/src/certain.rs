//! A match arm that the types ask for and that is never taken.

use vstd::pervasive::unreached;
use vstd::prelude::*;

verus! {

/// Takes the number out of an option that is known to hold one. The arm for
/// an option that holds none stands in the code and is proved never to be
/// taken.
pub fn not_reachable() -> (y: i32)
    ensures
        y == 3,
{
    let x: Option<i32> = Some(3);
    match x {
        Some(y) => y,
        None => unreached(),
    }
}

} // verus!
