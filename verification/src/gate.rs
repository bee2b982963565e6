use vstd::prelude::*;

verus! {

/// The admission gate: a counting permit set sized to the concurrency limit.
/// A task may only perform its network and disk work while holding a permit,
/// so at no point are more than `limit` task bodies at work at once. This
/// type is the verified model of that discipline; the run's asynchronous
/// throttle is a semaphore of the runtime, sized to the same limit, whose
/// waiting happens outside the library.
pub struct AdmissionGate {
    limit: usize,
    in_flight: usize,
}

impl AdmissionGate {
    /// How many permits exist in all.
    pub closed spec fn limit_spec(&self) -> int {
        self.limit as int
    }

    /// How many permits are currently held.
    pub closed spec fn in_flight_spec(&self) -> int {
        self.in_flight as int
    }

    /// Permits held can never exceed the permit count.
    pub open spec fn wf(&self) -> bool {
        self.in_flight_spec() <= self.limit_spec()
    }

    /// A gate with `limit` permits, none of them held.
    pub fn new(limit: usize) -> (g: AdmissionGate)
        ensures
            g.wf(),
            g.limit_spec() == limit,
            g.in_flight_spec() == 0,
    {
        AdmissionGate { limit, in_flight: 0 }
    }

    /// Takes a permit when one is free. Fails exactly when every permit is
    /// out, so a holder count above the limit can never arise.
    pub fn try_acquire(&mut self) -> (ok: bool)
        requires
            old(self).wf(),
        ensures
            final(self).wf(),
            final(self).limit_spec() == old(self).limit_spec(),
            ok ==> old(self).in_flight_spec() < old(self).limit_spec(),
            ok ==> final(self).in_flight_spec() == old(self).in_flight_spec() + 1,
            !ok ==> old(self).in_flight_spec() == old(self).limit_spec(),
            !ok ==> *final(self) == *old(self),
    {
        if self.in_flight < self.limit {
            self.in_flight = self.in_flight + 1;
            true
        } else {
            false
        }
    }

    /// Hands a permit back once the task's work is done, success or failure.
    pub fn release(&mut self)
        requires
            old(self).wf(),
            old(self).in_flight_spec() > 0,
        ensures
            final(self).wf(),
            final(self).limit_spec() == old(self).limit_spec(),
            final(self).in_flight_spec() == old(self).in_flight_spec() - 1,
    {
        self.in_flight = self.in_flight - 1;
    }
}

} // verus!
