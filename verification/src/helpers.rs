//! Small helpers.

use vstd::prelude::*;

verus! {

pub trait UsizeExt: Sized {
    spec fn value(&self) -> int;

    /// Adds one, and gives back what was there before.
    fn post_inc(&mut self) -> (was: Self)
        requires
            old(self).value() < usize::MAX,
        ensures
            was.value() == old(self).value(),
            final(self).value() == old(self).value() + 1,
    ;
}

impl UsizeExt for usize {
    open spec fn value(&self) -> int {
        *self as int
    }

    fn post_inc(&mut self) -> (was: usize) {
        let was = *self;
        *self = *self + 1;
        was
    }
}

} // verus!
