//! Keeps one heap allocation alive until the holder is dropped.

use vstd::prelude::*;

use crate::traits::EnsureSend;
use crate::traits::EnsureSync;

verus! {

/// Owns a boxed value for the sole purpose of freeing it at the right
/// moment: the value lives as long as the holder, so the holder is kept
/// beside handles that still work on the value and dropped after the last
/// of them.
pub struct StaticRefHolder<T> {
    kept: Box<T>,
}

impl<T> StaticRefHolder<T> {
    /// The value this holder keeps alive.
    pub closed spec fn kept_value(self) -> T {
        *self.kept
    }

    /// A holder that keeps `value` alive until it is dropped.
    pub fn new(value: Box<T>) -> (r: Self)
        ensures
            r.kept_value() == *value,
    {
        StaticRefHolder { kept: value }
    }
}

impl<T: Send> EnsureSend for StaticRefHolder<T> {

}

impl<T: Sync> EnsureSync for StaticRefHolder<T> {

}

} // verus!
