use swiftscope::bridge::{BridgeController, SupervisorError};
use swiftscope::build_runner::{BuildResult, BuildRunner};
use swiftscope::config::{dwarf_policy, health_snapshot, normalize_build_command, Config, DwarfPolicy};
use swiftscope::json::JsonValue;
use swiftscope::loghub::{LogHub, LogRecv};
use swiftscope::poller::{PollStep, PortPoller};
use swiftscope::tunnel::{Tunnel, TunnelEvent, TunnelPhase, TunnelStep};

fn sample_controller() -> BridgeController {
    BridgeController::new(
        String::from("ios-llm-devicectl"),
        vec![String::from("--verbose")],
        Some(String::from("UDID-1")),
        Some(String::from("com.example.App")),
        2331,
        None,
        None,
    )
    .unwrap()
}

#[test]
fn controller_requires_device_and_bundle() {
    let err = BridgeController::new(
        String::from("ios-llm-devicectl"),
        Vec::new(),
        None,
        Some(String::from("com.example.App")),
        2331,
        None,
        None,
    )
    .unwrap_err();
    assert_eq!(err.message(), "--device is required when managing the bridge");

    let err = BridgeController::new(
        String::from("ios-llm-devicectl"),
        Vec::new(),
        Some(String::from("UDID-1")),
        None,
        2331,
        None,
        None,
    )
    .unwrap_err();
    assert_eq!(err.message(), "--bundle-id is required when managing the bridge");
}

#[test]
fn controller_builds_argument_vector() {
    let controller = BridgeController::new(
        String::from("ios-llm-devicectl"),
        vec![String::from("--verbose")],
        Some(String::from("UDID-1")),
        Some(String::from("com.example.App")),
        2331,
        Some(String::from("/tmp/My.app")),
        Some(String::from("/tmp/state.json")),
    )
    .unwrap();
    assert_eq!(controller.bin(), "ios-llm-devicectl");
    assert_eq!(
        controller.args(),
        &vec![
            String::from("--verbose"),
            String::from("--device"),
            String::from("UDID-1"),
            String::from("--bundle-id"),
            String::from("com.example.App"),
            String::from("--listen-port"),
            String::from("2331"),
            String::from("--install-app"),
            String::from("/tmp/My.app"),
            String::from("--state-file"),
            String::from("/tmp/state.json"),
        ]
    );
    assert_eq!(controller.port(), 2331);
    assert!(!controller.is_running());
}

#[test]
fn ensure_running_spawns_exactly_once() {
    let mut controller = sample_controller();
    assert!(controller.ensure_running());
    controller.child_started();
    assert!(!controller.ensure_running());
    assert!(!controller.ensure_running());
}

#[test]
fn restart_always_leaves_one_tracked_child() {
    let mut controller = sample_controller();
    let had = controller.restart();
    assert!(!had);
    controller.child_started();
    assert!(controller.is_running());
    let had = controller.restart();
    assert!(had);
    assert!(!controller.is_running());
    controller.child_started();
    assert!(controller.is_running());
    assert!(!controller.ensure_running());
}

#[test]
fn stop_current_clears_handle() {
    let mut controller = sample_controller();
    controller.child_started();
    assert!(controller.stop_current());
    assert!(!controller.is_running());
    assert!(!controller.stop_current());
}

#[test]
fn readiness_poll_exhausts_attempts() {
    let mut poller = PortPoller::new(2331, 50);
    for _ in 0..49 {
        assert_eq!(poller.on_probe(false), PollStep::Retry);
    }
    assert_eq!(poller.on_probe(false), PollStep::TimedOut);
    assert_eq!(poller.on_probe(false), PollStep::TimedOut);
}

#[test]
fn readiness_poll_succeeds_within_bound() {
    let mut poller = PortPoller::new(2331, 50);
    assert_eq!(poller.on_probe(false), PollStep::Retry);
    assert_eq!(poller.on_probe(false), PollStep::Retry);
    assert_eq!(poller.on_probe(true), PollStep::Ready);
}

#[test]
fn readiness_timeout_message_names_port_and_attempts() {
    let err = SupervisorError::ReadinessTimeout { port: 2331, attempts: 50 };
    assert_eq!(
        err.message(),
        "timed out waiting for bridge on port 2331 after 50 attempts"
    );
    let err = SupervisorError::Spawn(String::from("ios-llm-devicectl bridge"));
    assert_eq!(err.message(), "failed to spawn ios-llm-devicectl bridge");
}

#[test]
fn build_runner_splits_command() {
    let runner = BuildRunner::new(vec![
        String::from("/usr/bin/env"),
        String::from("printf"),
        String::from("ok"),
    ]);
    let (program, args) = runner.command_parts().unwrap();
    assert_eq!(program, "/usr/bin/env");
    assert_eq!(args, vec![String::from("printf"), String::from("ok")]);
}

#[test]
fn build_runner_rejects_empty_command() {
    let runner = BuildRunner::new(Vec::new());
    let err = runner.command_parts().unwrap_err();
    assert_eq!(err.message(), "build command requires at least one argument");
}

#[test]
fn build_result_reports_exit_codes() {
    let ok = BuildResult::from_output(Some(0), String::from("out"), String::from(""));
    assert!(ok.success);
    assert_eq!(ok.exit_code, 0);
    assert_eq!(ok.stdout, "out");

    let failed = BuildResult::from_output(Some(2), String::new(), String::from("bad"));
    assert!(!failed.success);
    assert_eq!(failed.exit_code, 2);
    assert_eq!(failed.stderr, "bad");

    let killed = BuildResult::from_output(None, String::new(), String::new());
    assert!(!killed.success);
    assert_eq!(killed.exit_code, 0);
}

#[test]
fn log_hub_subscribers_see_only_new_lines() {
    let mut hub = LogHub::new(8);
    hub.publish(String::from("[bridge] before"));
    let mut cursor = hub.subscribe();
    assert!(matches!(hub.recv(&mut cursor), LogRecv::Pending));
    hub.publish(String::from("[bridge] after"));
    match hub.recv(&mut cursor) {
        LogRecv::Line(line) => assert_eq!(line, "[bridge] after"),
        other => panic!("unexpected: {:?}", other),
    }
    assert!(matches!(hub.recv(&mut cursor), LogRecv::Pending));
}

#[test]
fn log_hub_drops_oldest_and_reports_lag() {
    let mut hub = LogHub::new(2);
    let mut cursor = hub.subscribe();
    hub.publish(String::from("one"));
    hub.publish(String::from("two"));
    hub.publish(String::from("three"));
    match hub.recv(&mut cursor) {
        LogRecv::Lagged(missed) => assert_eq!(missed, 1),
        other => panic!("unexpected: {:?}", other),
    }
    match hub.recv(&mut cursor) {
        LogRecv::Line(line) => assert_eq!(line, "two"),
        other => panic!("unexpected: {:?}", other),
    }
    match hub.recv(&mut cursor) {
        LogRecv::Line(line) => assert_eq!(line, "three"),
        other => panic!("unexpected: {:?}", other),
    }
    assert!(matches!(hub.recv(&mut cursor), LogRecv::Pending));
}

#[test]
fn tunnel_runs_bind_accept_relay_teardown() {
    let mut tunnel = Tunnel::new(2331);
    assert_eq!(tunnel.phase(), TunnelPhase::Binding);
    assert!(matches!(tunnel.on_event(TunnelEvent::BoundOk), TunnelStep::AwaitClient));
    assert_eq!(tunnel.phase(), TunnelPhase::Accepting);
    assert!(matches!(tunnel.on_event(TunnelEvent::ClientAccepted), TunnelStep::RunRelay));
    assert_eq!(tunnel.phase(), TunnelPhase::Relaying);
    assert!(matches!(tunnel.on_event(TunnelEvent::StdoutClosed), TunnelStep::Teardown));
    assert_eq!(tunnel.phase(), TunnelPhase::Finished);
}

#[test]
fn tunnel_bind_failure_is_fatal() {
    let mut tunnel = Tunnel::new(4000);
    let step = tunnel.on_event(TunnelEvent::BoundFailed(String::from("address in use")));
    match step {
        TunnelStep::Abort(err) => {
            assert_eq!(err.message(), "failed to bind port 4000: address in use");
        }
        other => panic!("unexpected: {:?}", other),
    }
    assert_eq!(tunnel.phase(), TunnelPhase::Finished);
}

#[test]
fn dwarf_policy_escalates_only_in_strict_mode() {
    assert_eq!(dwarf_policy(true, false), DwarfPolicy::Proceed);
    assert_eq!(dwarf_policy(true, true), DwarfPolicy::Proceed);
    assert_eq!(dwarf_policy(false, false), DwarfPolicy::WarnOnly);
    assert_eq!(dwarf_policy(false, true), DwarfPolicy::Fatal);
}

#[test]
fn health_snapshot_reports_configuration() {
    let config = Config {
        host: String::from("127.0.0.1"),
        port: 4000,
        debugserver_port: 2331,
        program: String::from("/opt/app/Binary"),
        device: Some(String::from("UDID-1")),
        bundle_id: None,
        require_dwarf: false,
        manage_bridge: true,
        ios_llm_devicectl: String::from("ios-llm-devicectl"),
        ios_llm_devicectl_args: Vec::new(),
        state_file: None,
        app_bundle: None,
        enable_log_stream: false,
        devicectl_bin: String::from("xcrun"),
        devicectl_subcommand: String::from("devicectl"),
        build_command: normalize_build_command(Vec::new()),
    };
    let snapshot = health_snapshot(&config);
    assert_eq!(
        snapshot.get("program").and_then(|v| v.as_str().cloned()).as_deref(),
        Some("/opt/app/Binary")
    );
    assert_eq!(snapshot.get("debugserverPort").and_then(|v| v.as_i64()), Some(2331));
    assert_eq!(snapshot.get("port").and_then(|v| v.as_i64()), Some(4000));
    assert!(matches!(snapshot.get("bundleId"), Some(JsonValue::Null)));
    assert_eq!(
        snapshot.get("device").and_then(|v| v.as_str().cloned()).as_deref(),
        Some("UDID-1")
    );
    assert!(config.build_command.is_none());
    assert_eq!(config.program(), "/opt/app/Binary");
}
