//! Small helpers.

use vstd::prelude::*;

verus! {

/// An extension of the `cloned` method of `Option` for pair types: a clone of
/// each half of the pair.
pub fn cloned_pair<T: Clone, U: Clone>(pair: (&T, &U)) -> (r: (T, U))
    ensures
        cloned(*pair.0, r.0),
        cloned(*pair.1, r.1),
{
    (pair.0.clone(), pair.1.clone())
}

} // verus!
