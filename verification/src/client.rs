//! The per-customer record: the drawn service duration, the start and end
//! marks of the waiting and service phases, and the generation tag of the
//! measurement round that admitted the customer.

use vstd::prelude::*;

verus! {

/// The two phases a customer passes through.
#[derive(Clone, Copy, Debug, PartialEq, Eq, Structural)]
pub enum Phase {
    /// Standing in the waiting line.
    Waiting,
    /// Being served.
    Service,
}

/// One customer: all timestamps are in ticks.
#[derive(Clone, Copy, Debug)]
pub struct Client {
    /// The service duration drawn for this customer, in ticks.
    pub x: u64,
    /// When the waiting phase began.
    pub wait_start: Option<u64>,
    /// When the waiting phase ended.
    pub wait_end: Option<u64>,
    /// When the service phase began.
    pub service_start: Option<u64>,
    /// When the service phase ended.
    pub service_end: Option<u64>,
    /// Generation tag: the round that admitted this customer.
    pub color: u64,
}

impl Client {
    /// The start mark of a phase.
    pub open spec fn spec_start(self, phase: Phase) -> Option<u64> {
        match phase {
            Phase::Waiting => self.wait_start,
            Phase::Service => self.service_start,
        }
    }

    /// The end mark of a phase.
    pub open spec fn spec_end(self, phase: Phase) -> Option<u64> {
        match phase {
            Phase::Waiting => self.wait_end,
            Phase::Service => self.service_end,
        }
    }

    /// A new customer with the given service duration and generation tag;
    /// no phase mark is set yet.
    pub fn new(x: u64, color: u64) -> (c: Client)
        ensures
            c.x == x,
            c.color == color,
            c.wait_start is None,
            c.wait_end is None,
            c.service_start is None,
            c.service_end is None,
    {
        Client { x, wait_start: None, wait_end: None, service_start: None, service_end: None, color }
    }

    /// The drawn service duration.
    pub fn x(&self) -> (r: u64)
        ensures
            r == self.x,
    {
        self.x
    }

    /// The generation tag.
    pub fn color(&self) -> (r: u64)
        ensures
            r == self.color,
    {
        self.color
    }

    /// Marks the start of a phase at the given time.
    pub fn register_start(&mut self, phase: Phase, time: u64)
        ensures
            final (self).spec_start(phase) == Some(time),
            final (self).spec_end(phase) == old(self).spec_end(phase),
            final (self).spec_start(phase.flip()) == old(self).spec_start(phase.flip()),
            final (self).spec_end(phase.flip()) == old(self).spec_end(phase.flip()),
            final (self).x == old(self).x,
            final (self).color == old(self).color,
    {
        match phase {
            Phase::Waiting => self.wait_start = Some(time),
            Phase::Service => self.service_start = Some(time),
        }
    }

    /// Marks the end of a phase at the given time.
    pub fn register_end(&mut self, phase: Phase, time: u64)
        ensures
            final (self).spec_end(phase) == Some(time),
            final (self).spec_start(phase) == old(self).spec_start(phase),
            final (self).spec_start(phase.flip()) == old(self).spec_start(phase.flip()),
            final (self).spec_end(phase.flip()) == old(self).spec_end(phase.flip()),
            final (self).x == old(self).x,
            final (self).color == old(self).color,
    {
        match phase {
            Phase::Waiting => self.wait_end = Some(time),
            Phase::Service => self.service_end = Some(time),
        }
    }

    /// How long the phase lasted: defined once both marks are set.
    pub open spec fn spec_event_time(self, phase: Phase) -> int {
        self.spec_end(phase)->Some_0 - self.spec_start(phase)->Some_0
    }

    /// The total time spent in a phase.  Both marks must have been set, in
    /// order; the engine's bookkeeping guarantees that.
    pub fn calculate_event_time(&self, phase: Phase) -> (r: u64)
        requires
            self.spec_start(phase) is Some,
            self.spec_end(phase) is Some,
            self.spec_start(phase)->Some_0 <= self.spec_end(phase)->Some_0,
        ensures
            r == self.spec_event_time(phase),
    {
        let s = match phase {
            Phase::Waiting => self.wait_start,
            Phase::Service => self.service_start,
        };
        let e = match phase {
            Phase::Waiting => self.wait_end,
            Phase::Service => self.service_end,
        };
        match (s, e) {
            (Some(a), Some(b)) => b - a,
            _ => 0,
        }
    }
}

impl Phase {
    /// The other phase.
    pub open spec fn flip(self) -> Phase {
        match self {
            Phase::Waiting => Phase::Service,
            Phase::Service => Phase::Waiting,
        }
    }
}

} // verus!
