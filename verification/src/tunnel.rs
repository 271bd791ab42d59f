//! The byte-transparent stdio↔TCP tunnel, as a lifecycle state machine.
//!
//! The tunnel carries a child process's stdio to exactly one TCP client and
//! never interprets the bytes.  The caller performs the binding, accepting
//! and copying; this machine fixes the order: bind first (fail fast),
//! accept exactly one client, relay both directions, and on end of the
//! child's stdout kill the child, wait for it, and join the client→stdin
//! pump — so no direction runs on after the other has finished.

use vstd::prelude::*;
use crate::bridge::SupervisorError;

verus! {

/// Where the tunnel stands.
#[derive(Debug, Clone, Copy, PartialEq, Eq, Structural)]
pub enum TunnelPhase {
    /// Waiting for the listen socket to be bound.
    Binding,
    /// Bound; waiting for the single client.
    Accepting,
    /// Client connected; both directions are being relayed.
    Relaying,
    /// Torn down: nothing may follow.
    Finished,
}

/// What the caller observed.
#[derive(Debug)]
pub enum TunnelEvent {
    /// The listen socket is bound.
    BoundOk,
    /// Binding failed, with the OS error text.
    BoundFailed(String),
    /// The single client connected.
    ClientAccepted,
    /// The child's stdout reached end of stream (or the socket closed).
    StdoutClosed,
}

/// What the caller must do next.
#[derive(Debug)]
pub enum TunnelStep {
    /// Accept one inbound connection; a second is not serviced.
    AwaitClient,
    /// Start the client→stdin pump and the stderr forwarder, and drive
    /// child-stdout→client until end of stream.
    RunRelay,
    /// Kill the child, wait for it, and join the stdin pump.
    Teardown,
    /// Give up: the listen port is unavailable.
    Abort(SupervisorError),
}

/// Which events a phase can see.
pub open spec fn event_fits(phase: TunnelPhase, e: TunnelEvent) -> bool {
    match e {
        TunnelEvent::BoundOk => phase is Binding,
        TunnelEvent::BoundFailed(m) => phase is Binding,
        TunnelEvent::ClientAccepted => phase is Accepting,
        TunnelEvent::StdoutClosed => phase is Relaying,
    }
}

/// One stdio↔TCP tunnel for one child and one client.
pub struct Tunnel {
    port: u16,
    phase: TunnelPhase,
}

impl Tunnel {
    /// The local port the tunnel listens on.
    pub closed spec fn spec_port(self) -> u16 {
        self.port
    }

    /// The current phase.
    pub closed spec fn spec_phase(self) -> TunnelPhase {
        self.phase
    }

    /// A fresh tunnel: the socket is not bound yet.
    pub fn new(port: u16) -> (r: Tunnel)
        ensures
            r.spec_port() == port,
            r.spec_phase() == TunnelPhase::Binding,
    {
        Tunnel { port, phase: TunnelPhase::Binding }
    }

    /// The runtime phase.
    pub fn phase(&self) -> (r: TunnelPhase)
        ensures
            r == self.spec_phase(),
    {
        self.phase
    }

    /// Advance on one observation and prescribe the next action.  A bind
    /// failure is fatal; the relay ends in exactly one teardown, and only
    /// after the stdout side finished.
    pub fn on_event(&mut self, e: TunnelEvent) -> (r: TunnelStep)
        requires
            event_fits(old(self).spec_phase(), e),
        ensures
            final(self).spec_port() == old(self).spec_port(),
            match e {
                TunnelEvent::BoundOk => final(self).spec_phase() == TunnelPhase::Accepting && (
                r matches TunnelStep::AwaitClient),
                TunnelEvent::BoundFailed(m) => final(self).spec_phase() == TunnelPhase::Finished
                    && (r matches TunnelStep::Abort(SupervisorError::PortBind {
                    port,
                    message,
                }) && port == old(self).spec_port() && message@ == m@),
                TunnelEvent::ClientAccepted => final(self).spec_phase() == TunnelPhase::Relaying
                    && (r matches TunnelStep::RunRelay),
                TunnelEvent::StdoutClosed => final(self).spec_phase() == TunnelPhase::Finished
                    && (r matches TunnelStep::Teardown),
            },
    {
        match e {
            TunnelEvent::BoundOk => {
                self.phase = TunnelPhase::Accepting;
                TunnelStep::AwaitClient
            },
            TunnelEvent::BoundFailed(m) => {
                self.phase = TunnelPhase::Finished;
                TunnelStep::Abort(SupervisorError::PortBind { port: self.port, message: m })
            },
            TunnelEvent::ClientAccepted => {
                self.phase = TunnelPhase::Relaying;
                TunnelStep::RunRelay
            },
            TunnelEvent::StdoutClosed => {
                self.phase = TunnelPhase::Finished;
                TunnelStep::Teardown
            },
        }
    }
}

} // verus!
