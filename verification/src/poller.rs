//! Bounded readiness polling for a TCP port.
//!
//! The poller itself never touches the network: the caller probes the port
//! (a connect-and-close attempt) and reports each outcome through
//! [`PortPoller::on_probe`].  The poller decides whether the port is ready,
//! whether the caller should retry after its fixed delay, or whether the
//! attempt budget is exhausted.

use vstd::prelude::*;

verus! {

/// Decision after one readiness probe.
#[derive(Debug, Clone, Copy, PartialEq, Eq, Structural)]
pub enum PollStep {
    /// The port accepted a connection; the probed process is ready.
    Ready,
    /// The probe failed but attempts remain: probe again after the interval.
    Retry,
    /// The probe failed, consuming the last attempt (or arriving after it):
    /// the budget is exhausted.
    TimedOut,
}

/// State of one bounded readiness poll against a fixed port.
pub struct PortPoller {
    /// Port being probed.
    pub port: u16,
    /// Number of failed probes after which the poll gives up.
    pub max_attempts: u32,
    /// Failed probes recorded so far (never exceeds `max_attempts`).
    pub attempts: u32,
}

/// Functional model of one failed probe: the failure consumes an attempt,
/// and the probe that consumes the last one — like every failed probe after
/// it — reports `TimedOut`.
pub open spec fn spec_failed_probe(p: PortPoller) -> (PortPoller, PollStep) {
    let bumped: u32 = if p.attempts < p.max_attempts {
        (p.attempts + 1) as u32
    } else {
        p.attempts
    };
    let q = PortPoller { attempts: bumped, ..p };
    if bumped >= p.max_attempts {
        (q, PollStep::TimedOut)
    } else {
        (q, PollStep::Retry)
    }
}

/// State after `n` consecutive failed probes.
pub open spec fn spec_after_failures(p: PortPoller, n: nat) -> PortPoller
    decreases n,
{
    if n == 0 {
        p
    } else {
        spec_failed_probe(spec_after_failures(p, (n - 1) as nat)).0
    }
}

impl PortPoller {
    pub open spec fn wf(self) -> bool {
        self.attempts <= self.max_attempts
    }

    /// Fresh poll: no failures recorded yet.
    pub fn new(port: u16, max_attempts: u32) -> (r: PortPoller)
        ensures
            r == (PortPoller { port: port, max_attempts: max_attempts, attempts: 0u32 }),
            r.wf(),
    {
        PortPoller { port, max_attempts, attempts: 0 }
    }

    /// Record the outcome of one probe and decide what to do next.
    ///
    /// A successful connect ends the poll at once.  A failure consumes one
    /// attempt; the failure that consumes the last of the `max_attempts`
    /// attempts reports `TimedOut`, as does every failed probe after it, so
    /// the poll probes the port at most `max_attempts` times.
    pub fn on_probe(&mut self, connected: bool) -> (r: PollStep)
        requires
            old(self).wf(),
        ensures
            final(self).wf(),
            connected ==> r == PollStep::Ready && *final(self) == *old(self),
            !connected ==> (*final(self), r) == spec_failed_probe(*old(self)),
    {
        if connected {
            return PollStep::Ready;
        }
        if self.attempts < self.max_attempts {
            self.attempts = self.attempts + 1;
        }
        if self.attempts >= self.max_attempts {
            PollStep::TimedOut
        } else {
            PollStep::Retry
        }
    }
}

/// A port with no listener for the whole bound exhausts the budget: starting
/// from a fresh poller, the first `max_attempts - 1` failed probes all ask
/// for a retry, and the failed probe that consumes the last attempt — like
/// every failed probe after it — reports `TimedOut`.
pub proof fn lemma_poll_exhaustion(p: PortPoller, n: nat)
    requires
        p.attempts == 0,
    ensures
        n + 1 < p.max_attempts ==> spec_failed_probe(spec_after_failures(p, n)).1
            == PollStep::Retry,
        n + 1 >= p.max_attempts ==> spec_failed_probe(spec_after_failures(p, n)).1
            == PollStep::TimedOut,
        spec_after_failures(p, n).port == p.port,
        spec_after_failures(p, n).max_attempts == p.max_attempts,
        spec_after_failures(p, n).attempts == if n < p.max_attempts {
            n
        } else {
            p.max_attempts as nat
        },
    decreases n,
{
    if n > 0 {
        lemma_poll_exhaustion(p, (n - 1) as nat);
    }
}

/// A poll that still has attempts left keeps retrying, and a probe that
/// connects reports `Ready` no matter how many failures came before, so a
/// listener that appears within the bound is always detected.
pub proof fn lemma_poll_success_within_bound(p: PortPoller, n: nat)
    requires
        p.attempts == 0,
        n + 1 < p.max_attempts,
    ensures
        spec_failed_probe(spec_after_failures(p, n)).1 == PollStep::Retry,
{
    lemma_poll_exhaustion(p, n);
}

} // verus!
