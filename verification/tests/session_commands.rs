use swiftscope::commands::{command_finish, command_request, BackendRequest, BackendResponse, LlmCommand};
use swiftscope::json::JsonValue;
use swiftscope::session::{DebugSession, DebugSessionError, Frame, Variable};

fn sample_session() -> DebugSession {
    DebugSession::new(String::from("/tmp/app"))
}

fn text_entry(key: &str, value: &str) -> (String, JsonValue) {
    (String::from(key), JsonValue::Text(String::from(value)))
}

fn variable_record(name: &str, ty: &str, value: &str) -> JsonValue {
    JsonValue::Object(vec![
        text_entry("name", name),
        text_entry("type", ty),
        text_entry("value", value),
    ])
}

fn get<'a>(payload: &'a JsonValue, key: &str) -> Option<&'a JsonValue> {
    payload.get(key)
}

#[test]
fn stacktrace_returns_frames() {
    let mut session = sample_session();
    let value = command_finish(
        &mut session,
        LlmCommand::Stacktrace,
        BackendResponse::Values(Vec::new()),
    )
    .unwrap();
    assert!(get(&value, "stacktrace").is_some());
}

#[test]
fn variables_defaults_to_locals_reference() {
    let mut session = sample_session();
    let request = command_request(&session, &LlmCommand::Variables { reference: None });
    assert!(matches!(request, Some(BackendRequest::Variables(1))));
    let value = command_finish(
        &mut session,
        LlmCommand::Variables { reference: None },
        BackendResponse::Values(Vec::new()),
    )
    .unwrap();
    assert!(get(&value, "variables").is_some());
}

#[test]
fn evaluate_rejects_empty_input() {
    let mut session = sample_session();
    let cmd = LlmCommand::Evaluate { expression: String::from("") };
    assert!(command_request(&session, &cmd).is_none());
    let err = command_finish(&mut session, cmd, BackendResponse::NoCall).unwrap_err();
    assert!(err.message().contains("not supported"));
}

#[test]
fn threads_command_returns_payload() {
    let mut session = sample_session();
    let value = command_finish(
        &mut session,
        LlmCommand::Threads,
        BackendResponse::Values(Vec::new()),
    )
    .unwrap();
    assert!(get(&value, "threads").is_some());
}

#[test]
fn locals_command_returns_payload() {
    let mut session = sample_session();
    let value = command_finish(
        &mut session,
        LlmCommand::Locals,
        BackendResponse::Values(Vec::new()),
    )
    .unwrap();
    assert!(get(&value, "locals").is_some());
}

#[test]
fn scopes_command_returns_payload() {
    let mut session = sample_session();
    let value = command_finish(
        &mut session,
        LlmCommand::Scopes,
        BackendResponse::Values(Vec::new()),
    )
    .unwrap();
    assert!(get(&value, "scopes").is_some());
}

#[test]
fn disconnect_command_succeeds_even_without_remote() {
    let mut session = sample_session();
    let value = command_finish(
        &mut session,
        LlmCommand::Disconnect,
        BackendResponse::Outcome(Ok(())),
    )
    .unwrap();
    let ok = match get(&value, "ok") {
        Some(JsonValue::Bool(b)) => Some(*b),
        _ => None,
    };
    assert_eq!(ok, Some(true));
}

#[test]
fn continue_command_errors_without_debugserver() {
    let mut session = sample_session();
    let result = command_finish(
        &mut session,
        LlmCommand::Continue,
        BackendResponse::Stop(Err(String::from("no debugserver connection"))),
    );
    assert!(result.is_err());
}

#[test]
fn watch_expression_command_returns_entries() {
    let mut session = sample_session();
    let locals = vec![variable_record("var", "Int", "7")];
    let value = command_finish(
        &mut session,
        LlmCommand::WatchExpression { expression: String::from("var") },
        BackendResponse::Values(locals),
    )
    .unwrap();
    assert!(get(&value, "watch").is_some());
}

#[test]
fn select_thread_returns_thread_id() {
    let mut session = sample_session();
    let value = command_finish(
        &mut session,
        LlmCommand::SelectThread { thread_id: 3 },
        BackendResponse::NoCall,
    )
    .unwrap();
    let tid = get(&value, "threadId").and_then(|v| v.as_i64());
    assert_eq!(tid, Some(3));
}

#[test]
fn breakpoints_resend_full_set_and_ids_increase() {
    let mut session = sample_session();
    let first = LlmCommand::SetBreakpoint { file: String::from("A.swift"), line: 10 };
    match command_request(&session, &first) {
        Some(BackendRequest::UpdateBreakpoints(file, lines)) => {
            assert_eq!(file, "A.swift");
            assert_eq!(lines, vec![10]);
        }
        other => panic!("unexpected request: {:?}", other),
    }
    let value = command_finish(&mut session, first, BackendResponse::Outcome(Ok(()))).unwrap();
    assert_eq!(get(&value, "breakpoint_id").and_then(|v| v.as_i64()), Some(1));

    let second = LlmCommand::SetBreakpoint { file: String::from("A.swift"), line: 20 };
    match command_request(&session, &second) {
        Some(BackendRequest::UpdateBreakpoints(file, lines)) => {
            assert_eq!(file, "A.swift");
            assert_eq!(lines, vec![10, 20]);
        }
        other => panic!("unexpected request: {:?}", other),
    }
    let value = command_finish(&mut session, second, BackendResponse::Outcome(Ok(()))).unwrap();
    assert_eq!(get(&value, "breakpoint_id").and_then(|v| v.as_i64()), Some(2));
}

#[test]
fn breakpoint_ids_increase_across_files() {
    let mut session = sample_session();
    let bp1 = session
        .set_breakpoint("A.swift", 1, Ok(()))
        .unwrap();
    let bp2 = session
        .set_breakpoint("B.swift", 99, Ok(()))
        .unwrap();
    let bp3 = session
        .set_breakpoint("A.swift", 1, Ok(()))
        .unwrap();
    assert_eq!(bp1.id, 1);
    assert_eq!(bp2.id, 2);
    assert_eq!(bp3.id, 3);
}

#[test]
fn breakpoint_line_already_tracked_still_gets_new_id() {
    let mut session = sample_session();
    let lines = session.breakpoint_sync_lines("A.swift", 10);
    assert_eq!(lines, vec![10]);
    session.set_breakpoint("A.swift", 10, Ok(())).unwrap();
    let lines = session.breakpoint_sync_lines("A.swift", 10);
    assert_eq!(lines, vec![10]);
    let bp = session.set_breakpoint("A.swift", 10, Ok(())).unwrap();
    assert_eq!(bp.id, 2);
}

#[test]
fn breakpoint_sync_failure_keeps_line_and_id() {
    let mut session = sample_session();
    let err = session
        .set_breakpoint("A.swift", 10, Err(String::from("backend gone")))
        .unwrap_err();
    assert_eq!(err.message(), "backend gone");
    assert_eq!(session.breakpoint_sync_lines("A.swift", 12), vec![10, 12]);
    let bp = session.set_breakpoint("A.swift", 12, Ok(())).unwrap();
    assert_eq!(bp.id, 1);
}

#[test]
fn evaluate_rejects_blank_input() {
    let session = sample_session();
    let locals: Vec<Variable> = Vec::new();
    let err = session.evaluate(&locals, "   ").unwrap_err();
    assert!(matches!(err, DebugSessionError::UnsupportedExpression(_)));
    let err = session.evaluate(&locals, "").unwrap_err();
    assert!(matches!(err, DebugSessionError::UnsupportedExpression(_)));
}

#[test]
fn evaluate_requires_exact_case_sensitive_match() {
    let session = sample_session();
    let locals = session.locals(&vec![
        variable_record("counter", "Int", "41"),
        variable_record("Counter", "Int", "1"),
    ]);
    let err = session.evaluate(&locals, "COUNTER").unwrap_err();
    assert!(matches!(err, DebugSessionError::UnsupportedExpression(_)));
    let result = session.evaluate(&locals, "counter").unwrap();
    assert_eq!(result.result, "41");
    assert_eq!(result.ty, "Int");
    let result = session.evaluate(&locals, "  counter  ").unwrap();
    assert_eq!(result.result, "41");
}

#[test]
fn evaluate_swift_matches_evaluate() {
    let session = sample_session();
    let locals = session.locals(&vec![variable_record("x", "Double-ish", "3")]);
    let a = session.evaluate(&locals, "x").unwrap();
    let b = session.evaluate_swift(&locals, "x").unwrap();
    assert_eq!(a.result, b.result);
    assert_eq!(a.ty, b.ty);
}

#[test]
fn select_thread_clamps_to_one() {
    let mut session = sample_session();
    session.select_thread(0);
    assert_eq!(session.selected_thread(), 1);
    session.select_thread(-5);
    assert_eq!(session.selected_thread(), 1);
    session.select_thread(3);
    assert_eq!(session.selected_thread(), 3);
}

#[test]
fn watch_expression_registers_once() {
    let mut session = sample_session();
    let locals = session.locals(&vec![variable_record("x", "Int", "5")]);
    let list = session.add_watch_expression(&locals, "x").unwrap();
    assert_eq!(list.len(), 1);
    let list = session.add_watch_expression(&locals, "x").unwrap();
    assert_eq!(list.len(), 1);
    let list = session.add_watch_expression(&locals, "  x ").unwrap();
    assert_eq!(list.len(), 1);
    assert_eq!(list[0].expression, "x");
    assert_eq!(list[0].result.result, "5");
}

#[test]
fn watch_expression_failure_keeps_registration() {
    let mut session = sample_session();
    let locals = session.locals(&vec![variable_record("x", "Int", "5")]);
    let err = session.add_watch_expression(&locals, "missing").unwrap_err();
    assert!(matches!(err, DebugSessionError::UnsupportedExpression(_)));
    let err = session.evaluate_watch_expressions(&locals).unwrap_err();
    assert!(matches!(err, DebugSessionError::UnsupportedExpression(_)));
}

#[test]
fn watch_expression_rejects_empty() {
    let mut session = sample_session();
    let locals: Vec<Variable> = Vec::new();
    let err = session.add_watch_expression(&locals, " \t ").unwrap_err();
    assert!(err.message().contains("not supported"));
    let list = session.evaluate_watch_expressions(&locals).unwrap();
    assert!(list.is_empty());
}

#[test]
fn watch_expr_end_to_end_returns_counter_entry() {
    let mut session = sample_session();
    let locals = vec![variable_record("counter", "Int", "41")];
    let value = command_finish(
        &mut session,
        LlmCommand::WatchExpression { expression: String::from("counter") },
        BackendResponse::Values(locals),
    )
    .unwrap();
    let ok = match get(&value, "ok") {
        Some(JsonValue::Bool(b)) => *b,
        _ => false,
    };
    assert!(ok);
    match get(&value, "watch") {
        Some(JsonValue::Array(entries)) => {
            assert_eq!(entries.len(), 1);
            let expr = entries[0].get("expression").and_then(|v| v.as_str().cloned());
            assert_eq!(expr.as_deref(), Some("counter"));
            let result = entries[0].get("result").expect("result member");
            assert_eq!(
                result.get("result").and_then(|v| v.as_str().cloned()).as_deref(),
                Some("41")
            );
        }
        other => panic!("unexpected watch payload: {:?}", other),
    }
}

#[test]
fn frame_defaults_fill_missing_fields() {
    let record = JsonValue::Object(vec![(String::from("line"), JsonValue::Int(-7))]);
    let frame = Frame::from_backend_value(2, &record);
    assert_eq!(frame.frame_index, 2);
    assert_eq!(frame.function, "<unknown>");
    assert_eq!(frame.file, "<unknown>");
    assert_eq!(frame.line, 0);

    let record = JsonValue::Object(vec![
        text_entry("name", "main"),
        (
            String::from("source"),
            JsonValue::Object(vec![text_entry("path", "App.swift")]),
        ),
        (String::from("line"), JsonValue::Int(42)),
    ]);
    let frame = Frame::from_backend_value(0, &record);
    assert_eq!(frame.function, "main");
    assert_eq!(frame.file, "App.swift");
    assert_eq!(frame.line, 42);
}

#[test]
fn variable_defaults_fill_missing_fields() {
    let record = JsonValue::Object(Vec::new());
    let variable = Variable::from_backend_value(&record);
    assert_eq!(variable.name, "<unnamed>");
    assert_eq!(variable.ty, "<unknown>");
    assert_eq!(variable.value, "");
}

#[test]
fn backend_error_message_passes_through() {
    let err = DebugSessionError::Backend(String::from("boom"));
    assert_eq!(err.message(), "boom");
    let err = DebugSessionError::UnsupportedExpression(String::from("1+1"));
    assert_eq!(err.message(), "expression `1+1` is not supported");
}

#[test]
fn program_path_is_kept() {
    let session = DebugSession::new(String::from("/opt/app/Binary"));
    assert_eq!(session.program_path(), "/opt/app/Binary");
}
