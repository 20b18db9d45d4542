//! Results of the rules, seen through what their two sides hold.

use vstd::prelude::*;

verus! {

/// A result with each side taken by its view.
pub open spec fn seen<T: View, E: View>(r: Result<T, E>) -> Result<T::V, E::V> {
    match r {
        Ok(value) => Ok(value@),
        Err(error) => Err(error@),
    }
}

} // verus!
