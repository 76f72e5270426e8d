//! The bounded-concurrency limiter a worker holds while fanning out
//! probes: one unit is acquired before a probe is dispatched and
//! released when it completes, so the number of in-flight probes
//! never exceeds the configured limit, however large a batch is.

use vstd::prelude::*;

verus! {

/// A fixed-size concurrency limiter: at most `limit` units are out at
/// any moment.
pub struct Limiter {
    pub limit: usize,
    pub in_flight: usize,
}

/// One step of limiter traffic: `true` is an attempt to acquire a
/// unit, `false` a release of one.
pub open spec fn limiter_step(limit: nat, in_flight: nat, acquire: bool) -> nat {
    if acquire {
        if in_flight < limit {
            in_flight + 1
        } else {
            in_flight
        }
    } else {
        if in_flight > 0 {
            (in_flight - 1) as nat
        } else {
            in_flight
        }
    }
}

/// The units in flight after a whole sequence of acquire attempts and
/// releases, in order.
pub open spec fn in_flight_after(limit: nat, in_flight: nat, ops: Seq<bool>) -> nat
    decreases ops.len(),
{
    if ops.len() == 0 {
        in_flight
    } else {
        in_flight_after(limit, limiter_step(limit, in_flight, ops[0]), ops.skip(1))
    }
}

/// However many acquire attempts and releases are interleaved — that
/// is, for arbitrarily large batches — the number of units in flight
/// never exceeds the configured limit.
pub proof fn lemma_limiter_never_exceeds_limit(limit: nat, in_flight: nat, ops: Seq<bool>)
    requires
        in_flight <= limit,
    ensures
        in_flight_after(limit, in_flight, ops) <= limit,
    decreases ops.len(),
{
    if ops.len() > 0 {
        lemma_limiter_never_exceeds_limit(limit, limiter_step(limit, in_flight, ops[0]), ops.skip(1));
    }
}

impl Limiter {
    /// No more units out than the limit allows.
    pub open spec fn wf(self) -> bool {
        self.in_flight <= self.limit
    }

    /// A fresh limiter with no unit out.
    pub fn new(limit: usize) -> (l: Limiter)
        ensures
            l.wf(),
            l.limit == limit,
            l.in_flight == 0,
    {
        Limiter { limit, in_flight: 0 }
    }

    /// Attempt to take one unit before dispatching a probe: succeeds
    /// exactly when a unit is free, and never pushes the units in
    /// flight past the limit.
    pub fn try_acquire(&mut self) -> (acquired: bool)
        requires
            old(self).wf(),
        ensures
            final(self).wf(),
            final(self).limit == old(self).limit,
            acquired == (old(self).in_flight < old(self).limit),
            final(self).in_flight == limiter_step(
                old(self).limit as nat,
                old(self).in_flight as nat,
                true,
            ),
    {
        if self.in_flight < self.limit {
            self.in_flight = self.in_flight + 1;
            true
        } else {
            false
        }
    }

    /// Give one unit back once a probe has completed, whatever its
    /// outcome.
    pub fn release(&mut self)
        requires
            old(self).wf(),
            old(self).in_flight >= 1,
        ensures
            final(self).wf(),
            final(self).limit == old(self).limit,
            final(self).in_flight == limiter_step(
                old(self).limit as nat,
                old(self).in_flight as nat,
                false,
            ),
    {
        self.in_flight = self.in_flight - 1;
    }
}

} // verus!
