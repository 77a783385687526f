//! Window scaling factor kept by the application shell.

use vstd::prelude::*;

verus! {

/// Integer multiplier applied to the minimum window size. Never below 1.
#[derive(Debug, Clone, Copy)]
pub struct WindowScale(pub u32);

impl WindowScale {
    /// A scale of 1 is always valid.
    pub open spec fn wf(&self) -> bool {
        self.0 >= 1
    }

    pub fn new() -> (r: Self)
        ensures
            r.wf(),
            r.0 == 1,
    {
        Self(1)
    }

    /// Grows the scale by one step and reports the new value.
    pub fn increase(&mut self) -> (r: u32)
        requires
            old(self).wf(),
            old(self).0 < u32::MAX,
        ensures
            final(self).wf(),
            final(self).0 == old(self).0 + 1,
            r == final(self).0,
    {
        self.0 = self.0 + 1;
        self.0
    }

    /// Shrinks the scale by one step, stopping at 1, and reports the new value.
    pub fn decrease(&mut self) -> (r: u32)
        requires
            old(self).wf(),
        ensures
            final(self).wf(),
            final(self).0 == if old(self).0 > 1 { (old(self).0 - 1) as u32 } else { 1u32 },
            r == final(self).0,
    {
        if self.0 > 1 {
            self.0 = self.0 - 1;
        }
        self.0
    }
}

} // verus!
