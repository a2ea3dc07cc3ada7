//! A finite, restartable cursor over `1, 2, ..., limit`, used to seed a
//! freshly built grid.
use vstd::prelude::*;

verus! {

/// Yields `1, 2, ..., limit` in order, then nothing.
pub struct SeedSequence {
    current: usize,
    limit: usize,
}

impl View for SeedSequence {
    /// (values yielded so far, last value it will yield)
    type V = (nat, nat);

    closed spec fn view(&self) -> (nat, nat) {
        (self.current as nat, self.limit as nat)
    }
}

impl SeedSequence {
    pub open spec fn wf(&self) -> bool {
        self@.0 <= self@.1
    }

    /// A cursor that has yielded nothing yet.
    pub fn new(limit: usize) -> (s: SeedSequence)
        ensures
            s.wf(),
            s@ == (0nat, limit as nat),
    {
        SeedSequence { current: 0, limit }
    }

    /// The next value, `Some(k + 1)` after `k` values, or `None` once `limit`
    /// values have been yielded.
    pub fn next(&mut self) -> (r: Option<usize>)
        requires
            old(self).wf(),
        ensures
            final(self).wf(),
            final(self)@.1 == old(self)@.1,
            old(self)@.0 < old(self)@.1 ==> {
                &&& r == Some((old(self)@.0 + 1) as usize)
                &&& final(self)@.0 == old(self)@.0 + 1
            },
            old(self)@.0 == old(self)@.1 ==> r is None && final(self)@ == old(self)@,
    {
        if self.current < self.limit {
            self.current = self.current + 1;
            Some(self.current)
        } else {
            None
        }
    }

    /// Starts the sequence over from its first value.
    pub fn restart(&mut self)
        ensures
            final(self).wf(),
            final(self)@ == (0nat, old(self)@.1),
    {
        self.current = 0;
    }
}

} // verus!
