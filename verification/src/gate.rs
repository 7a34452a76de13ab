//! Bookkeeping for the connection controller: the concurrency gate
//! that bounds simultaneously running handlers, and the admission
//! counter that enforces the optional finite-request stop. The
//! controller's loop performs the blocking and the I/O; every
//! decision it takes goes through these types.

use vstd::prelude::*;

verus! {

/// The bounded counter of in-flight handlers. Handlers are admitted
/// only through [`ConcurrencyGate::acquire`] and retired only through
/// [`ConcurrencyGate::release`], so the count never exceeds the
/// configured cap.
pub struct ConcurrencyGate {
    count: usize,
    limit: Option<usize>,
}

impl ConcurrencyGate {
    /// The number of handlers currently in flight.
    pub closed spec fn in_flight(self) -> nat {
        self.count as nat
    }

    /// The cap on simultaneous handlers, when one is set.
    pub closed spec fn limit(self) -> Option<usize> {
        self.limit
    }

    /// Well-formedness: with a cap set, at most that many handlers
    /// are in flight.
    pub open spec fn wf(self) -> bool {
        match self.limit() {
            Some(m) => self.in_flight() <= m,
            None => true,
        }
    }

    /// Whether one more handler may be admitted.
    pub open spec fn has_room(self) -> bool {
        match self.limit() {
            Some(m) => self.in_flight() < m,
            None => true,
        }
    }

    /// A fresh gate with no handler in flight.
    pub fn new(max_handlers: Option<usize>) -> (g: ConcurrencyGate)
        ensures
            g.wf(),
            g.in_flight() == 0,
            g.limit() == max_handlers,
    {
        ConcurrencyGate { count: 0, limit: max_handlers }
    }

    /// Whether one more handler may be admitted right now.
    pub fn has_capacity(&self) -> (r: bool)
        ensures
            r == self.has_room(),
    {
        match self.limit {
            Some(m) => self.count < m,
            None => true,
        }
    }

    /// Admits one handler. Only callable below the cap, so the count
    /// stays bounded.
    pub fn acquire(&mut self)
        requires
            old(self).wf(),
            old(self).has_room(),
            old(self).in_flight() < usize::MAX,
        ensures
            final(self).wf(),
            final(self).in_flight() == old(self).in_flight() + 1,
            final(self).limit() == old(self).limit(),
    {
        self.count = self.count + 1;
    }

    /// Retires one handler, exactly once per admitted handler.
    pub fn release(&mut self)
        requires
            old(self).wf(),
            old(self).in_flight() > 0,
        ensures
            final(self).wf(),
            final(self).in_flight() == old(self).in_flight() - 1,
            final(self).limit() == old(self).limit(),
    {
        self.count = self.count - 1;
    }

    /// The in-flight count, for callers that must test before
    /// releasing.
    pub fn current_in_flight(&self) -> (r: usize)
        ensures
            r == self.in_flight(),
    {
        self.count
    }
}

/// With a cap set, a well-formed gate never counts more in-flight
/// handlers than the cap allows: `acquire` admits only below the cap
/// and every operation preserves well-formedness.
pub proof fn lemma_gate_bounded(g: ConcurrencyGate, m: usize)
    requires
        g.wf(),
        g.limit() == Some(m),
    ensures
        g.in_flight() <= m,
{
}

/// What polling the transport yielded: a connection, a clean end of
/// input, or a transport failure.
#[derive(Debug, PartialEq, Eq, Structural, Clone, Copy)]
pub enum PollEvent {
    Connection,
    EndOfInput,
    Failure,
}

/// What the controller does next: dispatch the connection to a
/// handler, stop cleanly, or stop reporting a failure.
#[derive(Debug, PartialEq, Eq, Structural, Clone, Copy)]
pub enum ServeAction {
    Dispatch,
    StopClean,
    StopFailed,
}

/// The admission counter for the optional finite-request stop: how
/// many connections have been admitted, against the configured
/// request limit.
pub struct AdmissionCounter {
    admitted: usize,
    limit: Option<usize>,
}

impl AdmissionCounter {
    /// The number of connections admitted so far.
    pub closed spec fn admitted(self) -> nat {
        self.admitted as nat
    }

    /// The request limit, when one is set.
    pub closed spec fn limit(self) -> Option<usize> {
        self.limit
    }

    /// The counter's invariant: never more admissions than the limit.
    pub open spec fn wf(self) -> bool {
        match self.limit() {
            Some(l) => self.admitted() <= l,
            None => true,
        }
    }

    /// Whether one more connection may be admitted: strictly below
    /// the limit.
    pub open spec fn can_admit(self) -> bool {
        match self.limit() {
            Some(l) => self.admitted() < l,
            None => true,
        }
    }

    /// A fresh counter with nothing admitted.
    pub fn new(limit_requests: Option<usize>) -> (c: AdmissionCounter)
        ensures
            c.wf(),
            c.admitted() == 0,
            c.limit() == limit_requests,
    {
        AdmissionCounter { admitted: 0, limit: limit_requests }
    }

    /// Whether the controller may poll for and admit one more
    /// connection. With a limit of zero this is false from the start.
    pub fn may_admit(&self) -> (r: bool)
        ensures
            r == self.can_admit(),
    {
        match self.limit {
            Some(l) => self.admitted < l,
            None => true,
        }
    }

    /// The number of admitted connections, for callers that must
    /// test before admitting.
    pub fn admitted_count(&self) -> (r: usize)
        ensures
            r == self.admitted(),
    {
        self.admitted
    }

    /// Counts one admitted connection.
    pub fn record_admission(&mut self)
        requires
            old(self).wf(),
            old(self).can_admit(),
            old(self).admitted() < usize::MAX,
        ensures
            final(self).wf(),
            final(self).admitted() == old(self).admitted() + 1,
            final(self).limit() == old(self).limit(),
    {
        self.admitted = self.admitted + 1;
    }

    /// One step of the controller's loop, taken only while admission
    /// is allowed: a connection is admitted and dispatched, an end of
    /// input stops the server cleanly, a transport failure stops it
    /// with an error.
    pub fn on_event(&mut self, event: PollEvent) -> (a: ServeAction)
        requires
            old(self).wf(),
            old(self).can_admit(),
            old(self).admitted() < usize::MAX,
        ensures
            final(self).wf(),
            final(self).limit() == old(self).limit(),
            match event {
                PollEvent::Connection => a == ServeAction::Dispatch && final(self).admitted()
                    == old(self).admitted() + 1,
                PollEvent::EndOfInput => a == ServeAction::StopClean && final(self).admitted()
                    == old(self).admitted(),
                PollEvent::Failure => a == ServeAction::StopFailed && final(self).admitted()
                    == old(self).admitted(),
            },
    {
        match event {
            PollEvent::Connection => {
                self.record_admission();
                ServeAction::Dispatch
            },
            PollEvent::EndOfInput => ServeAction::StopClean,
            PollEvent::Failure => ServeAction::StopFailed,
        }
    }
}

/// A request limit of zero admits no connection at all.
pub proof fn lemma_zero_limit_admits_none(c: AdmissionCounter)
    requires
        c.limit() == Some(0usize),
    ensures
        !c.can_admit(),
{
}

/// Once the admitted count has reached the limit, no further
/// connection is admitted, whatever the transport would yield.
pub proof fn lemma_limit_reached_stops(c: AdmissionCounter, l: usize)
    requires
        c.limit() == Some(l),
        c.admitted() >= l,
    ensures
        !c.can_admit(),
{
}

/// A well-formed counter never records more admissions than its
/// limit: with a limit of `l`, exactly the first `l` connections can
/// ever be admitted.
pub proof fn lemma_admissions_bounded(c: AdmissionCounter, l: usize)
    requires
        c.wf(),
        c.limit() == Some(l),
    ensures
        c.admitted() <= l,
{
}

} // verus!
