//! The fleet-wide concurrency accounting: a counting pool of permits, and
//! the rule that ties one permit to the whole life of a response body.

use vstd::prelude::*;

verus! {

/// The counting pool behind the limiter: at most `capacity` permits out.
pub struct PermitPool {
    capacity: usize,
    outstanding: usize,
}

impl PermitPool {
    /// The fixed number of children allowed at once.
    pub closed spec fn capacity(&self) -> nat {
        self.capacity as nat
    }

    /// How many permits are out.
    pub closed spec fn outstanding(&self) -> nat {
        self.outstanding as nat
    }

    /// The cap is never exceeded.
    pub closed spec fn wf(&self) -> bool {
        self.outstanding <= self.capacity
    }

    /// A pool with every permit available.
    pub fn new(capacity: usize) -> (r: PermitPool)
        ensures
            r.wf(),
            r.capacity() == capacity,
            r.outstanding() == 0,
    {
        PermitPool { capacity, outstanding: 0 }
    }

    /// Admits one more holder iff a permit is free.
    pub fn try_acquire(&mut self) -> (got: bool)
        requires
            old(self).wf(),
        ensures
            final(self).wf(),
            final(self).capacity() == old(self).capacity(),
            got == (old(self).outstanding() < old(self).capacity()),
            final(self).outstanding() == (if got {
                old(self).outstanding() + 1
            } else {
                old(self).outstanding()
            }),
    {
        if self.outstanding < self.capacity {
            self.outstanding = self.outstanding + 1;
            true
        } else {
            false
        }
    }

    /// Gives one permit back.
    pub fn release(&mut self)
        requires
            old(self).wf(),
            old(self).outstanding() > 0,
        ensures
            final(self).wf(),
            final(self).capacity() == old(self).capacity(),
            final(self).outstanding() == old(self).outstanding() - 1,
    {
        self.outstanding = self.outstanding - 1;
    }

    /// How many permits are out, for the caller to observe.
    pub fn in_use(&self) -> (n: usize)
        ensures
            n == self.outstanding(),
    {
        self.outstanding
    }
}

/// The concurrency cap: a well-formed pool never has more permits out than
/// its capacity, so no more children than that can be alive at once.
pub proof fn lemma_pool_capped(p: &PermitPool)
    requires
        p.wf(),
    ensures
        p.outstanding() <= p.capacity(),
{
}

/// The permit attached to one response body: held across every frame and
/// given up exactly when the body reports its end.
pub struct PermitHold {
    held: bool,
}

impl PermitHold {
    pub closed spec fn held(&self) -> bool {
        self.held
    }

    /// The hold taken when the response is built.
    pub fn new() -> (r: PermitHold)
        ensures
            r.held(),
    {
        PermitHold { held: true }
    }

    /// One polled frame; `at_end` says the inner body reported the end.
    /// The result says whether the permit is released by this event.
    pub fn on_frame(&mut self, at_end: bool) -> (released: bool)
        ensures
            final(self).held() == (old(self).held() && !at_end),
            released == (old(self).held() && at_end),
    {
        let r = self.held && at_end;
        if at_end {
            self.held = false;
        }
        r
    }
}

/// Whether the permit is still held after a run of frame events.
pub open spec fn spec_hold_after(h: bool, evs: Seq<bool>) -> bool
    decreases evs.len(),
{
    if evs.len() == 0 {
        h
    } else {
        spec_hold_after(h && !evs[0], evs.drop_first())
    }
}

/// How many releases a run of frame events performs.
pub open spec fn spec_release_count(h: bool, evs: Seq<bool>) -> int
    decreases evs.len(),
{
    if evs.len() == 0 {
        0
    } else {
        (if h && evs[0] {
            1int
        } else {
            0int
        }) + spec_release_count(h && !evs[0], evs.drop_first())
    }
}

/// One permit, one release: over any run of frame events, a body that
/// starts holding its permit releases it exactly once if some event is
/// the end of the body, and never more than once; a body that no longer
/// holds one releases nothing.
pub proof fn lemma_single_release(h: bool, evs: Seq<bool>)
    ensures
        0 <= spec_release_count(h, evs) <= (if h {
            1int
        } else {
            0int
        }),
        spec_release_count(h, evs) == 1 <==> (h && exists|i: int| 0 <= i < evs.len() && evs[i]),
    decreases evs.len(),
{
    if evs.len() == 0 {
    } else {
        lemma_single_release(h && !evs[0], evs.drop_first());
        if h && evs[0] {
            assert(evs[0]);
        } else {
            if spec_release_count(h, evs) == 1 {
                let i = choose|i: int|
                    0 <= i < evs.drop_first().len() && evs.drop_first()[i];
                assert(evs[i + 1]);
            }
            if h && exists|i: int| 0 <= i < evs.len() && evs[i] {
                let i = choose|i: int| 0 <= i < evs.len() && evs[i];
                assert(!evs[0]);
                assert(evs.drop_first()[i - 1]);
            }
        }
    }
}

} // verus!
