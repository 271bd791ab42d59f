//! Lifecycle decisions for the device-bridge child process.
//!
//! The controller owns the command line of the external bridge tool and the
//! "is a child tracked" signal — the sole indication that the bridge is
//! running.  It decides when a child must be spawned, stopped or replaced;
//! the caller performs the actual spawning, killing and readiness polling
//! and reports back through [`BridgeController::child_started`].

use vstd::prelude::*;
use crate::text::{string_views, dec_chars, u16_to_dec, u64_to_dec};

verus! {

/// Errors of the subprocess-supervision layer.
#[derive(Debug)]
pub enum SupervisorError {
    /// A required setting (device, bundle id, build command) is missing.
    Configuration(String),
    /// An external process could not be started.
    Spawn(String),
    /// The bounded port-readiness poll exhausted its attempts.
    ReadinessTimeout { port: u16, attempts: u32 },
    /// The local listen port could not be bound.
    PortBind { port: u16, message: String },
}

impl SupervisorError {
    /// The human-readable message for this error.
    pub fn message(&self) -> (r: String)
        ensures
            match self {
                SupervisorError::Configuration(m) => r@ == m@,
                SupervisorError::Spawn(m) => r@ == "failed to spawn "@ + m@,
                SupervisorError::ReadinessTimeout { port, attempts } => r@
                    == "timed out waiting for bridge on port "@ + dec_chars(port as nat)
                    + " after "@ + dec_chars(attempts as nat) + " attempts"@,
                SupervisorError::PortBind { port, message } => r@ == "failed to bind port "@
                    + dec_chars(port as nat) + ": "@ + message@,
            },
    {
        match self {
            SupervisorError::Configuration(m) => m.clone(),
            SupervisorError::Spawn(m) => {
                let mut s = String::from_str("failed to spawn ");
                s.append(m.as_str());
                s
            },
            SupervisorError::ReadinessTimeout { port, attempts } => {
                let mut s = String::from_str("timed out waiting for bridge on port ");
                let p = u16_to_dec(*port);
                s.append(p.as_str());
                s.append(" after ");
                let a = u64_to_dec(*attempts as u64);
                s.append(a.as_str());
                s.append(" attempts");
                s
            },
            SupervisorError::PortBind { port, message } => {
                let mut s = String::from_str("failed to bind port ");
                let p = u16_to_dec(*port);
                s.append(p.as_str());
                s.append(": ");
                s.append(message.as_str());
                s
            },
        }
    }
}

/// `c1` is `c0` after a spawned child was confirmed running (command line
/// and port unchanged).
pub open spec fn spec_started(c0: BridgeController, c1: BridgeController) -> bool {
    &&& c1.spec_running()
    &&& c1.spec_bin() == c0.spec_bin()
    &&& c1.spec_args() == c0.spec_args()
    &&& c1.spec_port() == c0.spec_port()
}

/// `c1` is `c0` after any tracked child was stopped and cleared.
pub open spec fn spec_stopped(c0: BridgeController, c1: BridgeController) -> bool {
    &&& !c1.spec_running()
    &&& c1.spec_bin() == c0.spec_bin()
    &&& c1.spec_args() == c0.spec_args()
    &&& c1.spec_port() == c0.spec_port()
}

/// Owns the bridge child's command line and tracks at most one live child.
#[derive(Debug)]
pub struct BridgeController {
    bin: String,
    args: Vec<String>,
    port: u16,
    running: bool,
}

impl BridgeController {
    /// The path of the bridge binary.
    pub closed spec fn spec_bin(self) -> Seq<char> {
        self.bin@
    }

    /// The fixed argument vector the child is spawned with.
    pub closed spec fn spec_args(self) -> Seq<Seq<char>> {
        string_views(self.args@)
    }

    /// The port the bridge exposes the debug stub on.
    pub closed spec fn spec_port(self) -> u16 {
        self.port
    }

    /// Whether a child is currently tracked — the sole "is running" signal.
    pub closed spec fn spec_running(self) -> bool {
        self.running
    }

    /// Build a controller.  A device identifier and a bundle identifier are
    /// required; the argument vector is the extra arguments followed by the
    /// device, bundle, listen port and the optional install and state-file
    /// settings.  No child is tracked yet.
    pub fn new(
        bin: String,
        extra_args: Vec<String>,
        device: Option<String>,
        bundle_id: Option<String>,
        listen_port: u16,
        app_bundle: Option<String>,
        state_file: Option<String>,
    ) -> (r: Result<BridgeController, SupervisorError>)
        ensures
            device is None ==> (r matches Err(SupervisorError::Configuration(m)) && m@
                == "--device is required when managing the bridge"@),
            device is Some && bundle_id is None ==> (r matches Err(
                SupervisorError::Configuration(m),
            ) && m@ == "--bundle-id is required when managing the bridge"@),
            match (device, bundle_id) {
                (Some(d), Some(b)) => r matches Ok(c) && ({
                    &&& c.spec_bin() == bin@
                    &&& c.spec_port() == listen_port
                    &&& !c.spec_running()
                    &&& c.spec_args() == string_views(extra_args@) + seq!["--device"@, d@, "--bundle-id"@, b@, "--listen-port"@, dec_chars(listen_port as nat)]
                        + (match app_bundle {
                        Some(a) => seq!["--install-app"@, a@],
                        None => Seq::<Seq<char>>::empty(),
                    }) + (match state_file {
                        Some(sf) => seq!["--state-file"@, sf@],
                        None => Seq::<Seq<char>>::empty(),
                    })
                }),
                _ => true,
            },
    {
        let device = match device {
            Some(d) => d,
            None => {
                return Err(
                    SupervisorError::Configuration(
                        String::from_str("--device is required when managing the bridge"),
                    ),
                );
            },
        };
        let bundle = match bundle_id {
            Some(b) => b,
            None => {
                return Err(
                    SupervisorError::Configuration(
                        String::from_str("--bundle-id is required when managing the bridge"),
                    ),
                );
            },
        };
        let ghost extra0 = extra_args@;
        let mut args = extra_args;
        args.push(String::from_str("--device"));
        args.push(device);
        args.push(String::from_str("--bundle-id"));
        args.push(bundle);
        args.push(String::from_str("--listen-port"));
        args.push(u16_to_dec(listen_port));
        match app_bundle {
            Some(a) => {
                args.push(String::from_str("--install-app"));
                args.push(a);
            },
            None => {},
        }
        match state_file {
            Some(sf) => {
                args.push(String::from_str("--state-file"));
                args.push(sf);
            },
            None => {},
        }
        let c = BridgeController { bin, args, port: listen_port, running: false };
        proof {
            assert(c.spec_args() =~= string_views(extra0) + seq!["--device"@, device@, "--bundle-id"@, bundle@, "--listen-port"@, dec_chars(listen_port as nat)]
                + (match app_bundle {
                Some(a) => seq!["--install-app"@, a@],
                None => Seq::<Seq<char>>::empty(),
            }) + (match state_file {
                Some(sf) => seq!["--state-file"@, sf@],
                None => Seq::<Seq<char>>::empty(),
            }));
        }
        Ok(c)
    }

    /// The bridge binary path.
    pub fn bin(&self) -> (r: &String)
        ensures
            r@ == self.spec_bin(),
    {
        &self.bin
    }

    /// The argument vector for a spawn.
    pub fn args(&self) -> (r: &Vec<String>)
        ensures
            string_views(r@) == self.spec_args(),
    {
        &self.args
    }

    /// The configured listen port.
    pub fn port(&self) -> (r: u16)
        ensures
            r == self.spec_port(),
    {
        self.port
    }

    /// Whether a child is tracked.
    pub fn is_running(&self) -> (r: bool)
        ensures
            r == self.spec_running(),
    {
        self.running
    }

    /// Idempotent start decision: a spawn is needed exactly when no child is
    /// tracked.  The caller spawns, polls readiness and then reports
    /// [`BridgeController::child_started`].
    pub fn ensure_running(&self) -> (spawn: bool)
        ensures
            spawn == !self.spec_running(),
    {
        !self.running
    }

    /// A spawned child passed the readiness poll and is now tracked.
    pub fn child_started(&mut self)
        ensures
            spec_started(*old(self), *final(self)),
    {
        self.running = true;
    }

    /// Clear the tracked child, if any; the caller must kill the returned
    /// child and abort its forwarding tasks when one was tracked.  The
    /// handle is cleared even if that termination fails.
    pub fn stop_current(&mut self) -> (had: bool)
        ensures
            spec_stopped(*old(self), *final(self)),
            had == old(self).spec_running(),
    {
        let had = self.running;
        self.running = false;
        had
    }

    /// Restart decision: any current child is stopped first (the caller
    /// kills it when `had` is true), and a new child must then be spawned
    /// unconditionally.
    pub fn restart(&mut self) -> (had: bool)
        ensures
            spec_stopped(*old(self), *final(self)),
            had == old(self).spec_running(),
    {
        self.stop_current()
    }
}

/// Calling the start decision twice with no intervening stop spawns exactly
/// once: the first call asks for a spawn, and once that child is tracked the
/// second call asks for none.
pub proof fn lemma_ensure_running_spawns_once(c0: BridgeController, c1: BridgeController)
    requires
        !c0.spec_running(),
        spec_started(c0, c1),
    ensures
        !c0.spec_running() == true,
        !c1.spec_running() == false,
{
}

/// A restart always ends with exactly one tracked child: the old child is
/// cleared first, and completing the mandatory new spawn leaves the one new
/// child tracked — also when the controller was already running.
pub proof fn lemma_restart_single_child(
    c0: BridgeController,
    c1: BridgeController,
    c2: BridgeController,
)
    requires
        spec_stopped(c0, c1),
        spec_started(c1, c2),
    ensures
        !c1.spec_running(),
        c2.spec_running(),
        c2.spec_args() == c0.spec_args(),
        c2.spec_port() == c0.spec_port(),
{
}

} // verus!
