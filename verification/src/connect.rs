use vstd::prelude::*;

verus! {

/// The fixed delay, in seconds, between attempts to dial one endpoint.
pub const DIAL_RETRY_DELAY_SECS: u64 = 1;

/// What the connection loop does after a dial attempt: move on to the next
/// endpoint, or sleep the fixed delay and dial the same endpoint again.
#[derive(Clone, Copy, PartialEq, Eq, Structural, Debug)]
pub enum DialStep {
    Proceed,
    RetryAfterDelay,
}

/// The aggregator's connection-establishment policy toward its statically
/// configured producer endpoints: dial each in turn; on failure sleep a
/// fixed interval and dial the same endpoint again, indefinitely — no retry
/// cap, no backoff, and no giving up. Startup blocks until every endpoint is
/// connected.
pub struct Dialer {
    total: usize,
    connected: usize,
}

impl Dialer {
    /// How many endpoints are configured.
    pub closed spec fn total_model(&self) -> int {
        self.total as int
    }

    /// How many endpoints are connected: always the first ones, in
    /// configuration order.
    pub closed spec fn connected_model(&self) -> int {
        self.connected as int
    }

    /// Never more endpoints connected than configured.
    pub open spec fn wf(&self) -> bool {
        0 <= self.connected_model() <= self.total_model()
    }

    /// A dialer for `total` configured endpoints, none connected yet.
    pub fn new(total: usize) -> (r: Dialer)
        ensures
            r.wf(),
            r.total_model() == total,
            r.connected_model() == 0,
    {
        Dialer { total, connected: 0 }
    }

    /// True once every configured endpoint is connected.
    pub fn done(&self) -> (r: bool)
        requires
            self.wf(),
        ensures
            r == (self.connected_model() == self.total_model()),
    {
        self.connected == self.total
    }

    /// The index of the endpoint to dial next.
    pub fn next_endpoint(&self) -> (r: usize)
        requires
            self.wf(),
            self.connected_model() < self.total_model(),
        ensures
            r == self.connected_model(),
    {
        self.connected
    }

    /// Takes the outcome of one dial attempt: success connects the endpoint
    /// and moves on; failure changes nothing and asks the caller to sleep
    /// the fixed delay and dial the same endpoint again.
    pub fn on_attempt(&mut self, ok: bool) -> (r: DialStep)
        requires
            old(self).wf(),
            old(self).connected_model() < old(self).total_model(),
        ensures
            final(self).wf(),
            final(self).total_model() == old(self).total_model(),
            ok ==> final(self).connected_model() == old(self).connected_model() + 1 && r
                == DialStep::Proceed,
            !ok ==> final(self).connected_model() == old(self).connected_model() && r
                == DialStep::RetryAfterDelay,
    {
        if ok {
            self.connected = self.connected + 1;
            DialStep::Proceed
        } else {
            DialStep::RetryAfterDelay
        }
    }
}

} // verus!
