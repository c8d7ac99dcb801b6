//! A length that may only be set from a count of the shown entries.

use vstd::prelude::*;

verus! {

/// The number of entries that the filter lets through, as last counted.
#[derive(Clone, Copy)]
pub struct ComputedLen(usize);

/// Handed to `ComputedLen::set` by code that counted the entries itself.
pub struct IPromiseIAmSettingThisFromIterCount;

impl View for ComputedLen {
    type V = usize;

    closed spec fn view(&self) -> usize {
        self.0
    }
}

impl ComputedLen {
    pub fn new() -> (r: ComputedLen)
        ensures
            r@ == 0,
    {
        ComputedLen(0)
    }

    pub fn into_inner(self) -> (r: usize)
        ensures
            r == self@,
    {
        self.0
    }

    pub fn set(&mut self, count: usize, _promise: IPromiseIAmSettingThisFromIterCount)
        ensures
            final(self)@ == count,
    {
        self.0 = count;
    }
}

} // verus!
