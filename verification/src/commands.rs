//! The command surface of the session.
//!
//! A command arrives as plain data, is turned into at most one backend
//! request by [`command_request`], and — once the caller has performed that
//! request — is completed by [`command_finish`], which updates the session
//! and builds the JSON response payload.  Lifecycle commands (`Restart`,
//! `Launch`, `Build`) are the dispatcher's business and never reach
//! [`command_finish`].

use vstd::prelude::*;
use crate::json::JsonValue;
use crate::session::{
    DebugSession, DebugSessionError, StopRecord, Frame, Variable, WatchValue, frame_matches,
    variable_matches, frame_function_chars, frame_file_chars, frame_line, variable_name_chars,
    variable_type_chars, variable_value_chars, find_local, first_unresolved, insert_line,
    spec_set_breakpoint_ok, spec_register_watch, watch_views, watch_value_matches,
    LOCALS_REFERENCE,
};
use crate::text::trimmed;

verus! {

/// A command as the HTTP surface hands it in.
#[derive(Debug)]
pub enum LlmCommand {
    Stacktrace,
    Threads,
    Continue,
    Next,
    StepIn,
    SetBreakpoint { file: String, line: u32 },
    Locals,
    Scopes,
    Variables { reference: Option<i64> },
    Evaluate { expression: String },
    EvaluateSwift { expression: String },
    WatchExpression { expression: String },
    Disconnect,
    Restart,
    Launch,
    Build,
    SelectThread { thread_id: i64 },
}

/// The single backend call a command needs, if any.
#[derive(Debug)]
pub enum BackendRequest {
    StackTrace(i64),
    Threads,
    Scopes,
    Variables(i64),
    Continue(i64),
    StepOver(i64),
    StepIn(i64),
    UpdateBreakpoints(String, Vec<i64>),
    Disconnect,
}

/// What the backend call came back with.
#[derive(Debug)]
pub enum BackendResponse {
    NoCall,
    Values(Vec<JsonValue>),
    Outcome(Result<(), String>),
    Stop(Result<Option<StopRecord>, String>),
}

/// The response shape each command's backend call produces.  Lifecycle
/// commands have no entry: they never reach [`command_finish`].
pub open spec fn response_matches(cmd: LlmCommand, resp: BackendResponse) -> bool {
    match cmd {
        LlmCommand::Stacktrace => resp is Values,
        LlmCommand::Threads => resp is Values,
        LlmCommand::Scopes => resp is Values,
        LlmCommand::Locals => resp is Values,
        LlmCommand::Variables { .. } => resp is Values,
        LlmCommand::Continue => resp is Stop,
        LlmCommand::Next => resp is Stop,
        LlmCommand::StepIn => resp is Stop,
        LlmCommand::SetBreakpoint { .. } => resp is Outcome,
        LlmCommand::Disconnect => resp is Outcome,
        LlmCommand::Evaluate { expression } => if trimmed(expression@).len() == 0 {
            resp is NoCall
        } else {
            resp is Values
        },
        LlmCommand::EvaluateSwift { expression } => if trimmed(expression@).len() == 0 {
            resp is NoCall
        } else {
            resp is Values
        },
        LlmCommand::WatchExpression { expression } => if trimmed(expression@).len() == 0 {
            resp is NoCall
        } else {
            resp is Values
        },
        LlmCommand::SelectThread { .. } => resp is NoCall,
        LlmCommand::Restart => false,
        LlmCommand::Launch => false,
        LlmCommand::Build => false,
    }
}

/// The backend request a command calls for, over the current session state.
pub open spec fn request_spec(s: DebugSession, cmd: LlmCommand, r: Option<BackendRequest>) -> bool {
    match cmd {
        LlmCommand::Stacktrace => r == Some(BackendRequest::StackTrace(s.spec_thread_id())),
        LlmCommand::Threads => r == Some(BackendRequest::Threads),
        LlmCommand::Scopes => r == Some(BackendRequest::Scopes),
        LlmCommand::Locals => r == Some(BackendRequest::Variables(LOCALS_REFERENCE)),
        LlmCommand::Variables { reference } => r == Some(
            BackendRequest::Variables(
                match reference {
                    Some(x) => x,
                    None => 1,
                },
            ),
        ),
        LlmCommand::Continue => r == Some(BackendRequest::Continue(s.spec_thread_id())),
        LlmCommand::Next => r == Some(BackendRequest::StepOver(s.spec_thread_id())),
        LlmCommand::StepIn => r == Some(BackendRequest::StepIn(s.spec_thread_id())),
        LlmCommand::SetBreakpoint { file, line } => r matches Some(
            BackendRequest::UpdateBreakpoints(f, lines),
        ) && f@ == file@ && lines@ == insert_line(s.spec_file_lines(file@), line as i64),
        LlmCommand::Evaluate { expression } => if trimmed(expression@).len() == 0 {
            r is None
        } else {
            r == Some(BackendRequest::Variables(LOCALS_REFERENCE))
        },
        LlmCommand::EvaluateSwift { expression } => if trimmed(expression@).len() == 0 {
            r is None
        } else {
            r == Some(BackendRequest::Variables(LOCALS_REFERENCE))
        },
        LlmCommand::WatchExpression { expression } => if trimmed(expression@).len() == 0 {
            r is None
        } else {
            r == Some(BackendRequest::Variables(LOCALS_REFERENCE))
        },
        LlmCommand::Disconnect => r == Some(BackendRequest::Disconnect),
        LlmCommand::SelectThread { .. } => r is None,
        LlmCommand::Restart => r is None,
        LlmCommand::Launch => r is None,
        LlmCommand::Build => r is None,
    }
}

/// Decide which backend call (if any) a command needs before it can be
/// completed.  Queries that read records ask for them; a breakpoint
/// registration asks for a full-set sync; lifecycle commands and thread
/// selection need none.
pub fn command_request(session: &DebugSession, cmd: &LlmCommand) -> (r: Option<BackendRequest>)
    requires
        session.wf(),
    ensures
        request_spec(*session, *cmd, r),
{
    match cmd {
        LlmCommand::Stacktrace => Some(BackendRequest::StackTrace(session.selected_thread())),
        LlmCommand::Threads => Some(BackendRequest::Threads),
        LlmCommand::Scopes => Some(BackendRequest::Scopes),
        LlmCommand::Locals => Some(BackendRequest::Variables(LOCALS_REFERENCE)),
        LlmCommand::Variables { reference } => Some(
            BackendRequest::Variables(
                match reference {
                    Some(x) => *x,
                    None => 1,
                },
            ),
        ),
        LlmCommand::Continue => Some(BackendRequest::Continue(session.selected_thread())),
        LlmCommand::Next => Some(BackendRequest::StepOver(session.selected_thread())),
        LlmCommand::StepIn => Some(BackendRequest::StepIn(session.selected_thread())),
        LlmCommand::SetBreakpoint { file, line } => Some(
            BackendRequest::UpdateBreakpoints(
                file.clone(),
                session.breakpoint_sync_lines(file.as_str(), *line),
            ),
        ),
        LlmCommand::Evaluate { expression } => {
            if crate::text::trim_str(expression.as_str()).unicode_len() == 0 {
                None
            } else {
                Some(BackendRequest::Variables(LOCALS_REFERENCE))
            }
        },
        LlmCommand::EvaluateSwift { expression } => {
            if crate::text::trim_str(expression.as_str()).unicode_len() == 0 {
                None
            } else {
                Some(BackendRequest::Variables(LOCALS_REFERENCE))
            }
        },
        LlmCommand::WatchExpression { expression } => {
            if crate::text::trim_str(expression.as_str()).unicode_len() == 0 {
                None
            } else {
                Some(BackendRequest::Variables(LOCALS_REFERENCE))
            }
        },
        LlmCommand::Disconnect => Some(BackendRequest::Disconnect),
        LlmCommand::SelectThread { .. } => None,
        LlmCommand::Restart => None,
        LlmCommand::Launch => None,
        LlmCommand::Build => None,
    }
}

/// One object entry holds the boolean `b` under `k`.
pub open spec fn entry_is_bool(e: (String, JsonValue), k: Seq<char>, b: bool) -> bool {
    e.0@ == k && e.1 == JsonValue::Bool(b)
}

/// One object entry holds the integer `n` under `k`.
pub open spec fn entry_is_int(e: (String, JsonValue), k: Seq<char>, n: int) -> bool {
    e.0@ == k && (e.1 matches JsonValue::Int(x) && x as int == n)
}

/// One object entry holds the text `s` under `k`.
pub open spec fn entry_is_text(e: (String, JsonValue), k: Seq<char>, s: Seq<char>) -> bool {
    e.0@ == k && (e.1 matches JsonValue::Text(t) && t@ == s)
}

/// The bare success payload `{"ok": true}`.
pub open spec fn ok_payload(r: JsonValue) -> bool {
    &&& r is Object
    &&& r->Object_0@.len() == 1
    &&& entry_is_bool(r->Object_0@[0], "ok"@, true)
}

/// A success payload with exactly one more member under `k`.
pub open spec fn ok_payload_with(r: JsonValue, k: Seq<char>) -> bool {
    &&& r is Object
    &&& r->Object_0@.len() == 2
    &&& entry_is_bool(r->Object_0@[0], "ok"@, true)
    &&& r->Object_0@[1].0@ == k
}

/// The serialized form of the frame derived from backend record `rec` at
/// frame index `i`.
pub open spec fn frame_payload_matches(v: JsonValue, i: int, rec: JsonValue) -> bool {
    &&& v is Object
    &&& v->Object_0@.len() == 4
    &&& entry_is_int(v->Object_0@[0], "frame_index"@, i)
    &&& entry_is_text(v->Object_0@[1], "function"@, frame_function_chars(rec))
    &&& entry_is_text(v->Object_0@[2], "file"@, frame_file_chars(rec))
    &&& entry_is_int(v->Object_0@[3], "line"@, frame_line(rec) as int)
}

/// The serialized form of the variable derived from backend record `rec`.
pub open spec fn variable_payload_matches(v: JsonValue, rec: JsonValue) -> bool {
    &&& v is Object
    &&& v->Object_0@.len() == 3
    &&& entry_is_text(v->Object_0@[0], "name"@, variable_name_chars(rec))
    &&& entry_is_text(v->Object_0@[1], "type"@, variable_type_chars(rec))
    &&& entry_is_text(v->Object_0@[2], "value"@, variable_value_chars(rec))
}

/// The serialized form of one evaluated watch entry.
pub open spec fn watch_payload_matches(v: JsonValue, wv: WatchValue) -> bool {
    &&& v is Object
    &&& v->Object_0@.len() == 2
    &&& entry_is_text(v->Object_0@[0], "expression"@, wv.expression@)
    &&& v->Object_0@[1].0@ == "result"@
    &&& v->Object_0@[1].1 is Object
    &&& v->Object_0@[1].1->Object_0@.len() == 2
    &&& entry_is_text(v->Object_0@[1].1->Object_0@[0], "result"@, wv.result.result@)
    &&& entry_is_text(v->Object_0@[1].1->Object_0@[1], "type"@, wv.result.ty@)
}

/// The serialized form of a stop notification.
pub open spec fn stop_payload_matches(v: JsonValue, rec: StopRecord) -> bool {
    &&& v is Object
    &&& v->Object_0@.len() == 3
    &&& entry_is_text(v->Object_0@[0], "reason"@, rec.reason@)
    &&& entry_is_text(v->Object_0@[1], "description"@, rec.description@)
    &&& entry_is_int(v->Object_0@[2], "thread_id"@, rec.thread_id as int)
}

/// First backend variable record whose derived name is exactly `name`.
pub open spec fn find_local_record(recs: Seq<JsonValue>, name: Seq<char>) -> Option<JsonValue>
    decreases recs.len(),
{
    if recs.len() == 0 {
        None
    } else if variable_name_chars(recs[0]) == name {
        Some(recs[0])
    } else {
        find_local_record(recs.drop_first(), name)
    }
}

/// The expression view of the first watch that resolves against no record.
pub open spec fn first_unresolved_record(watches: Seq<String>, recs: Seq<JsonValue>) -> Option<
    Seq<char>,
>
    decreases watches.len(),
{
    if watches.len() == 0 {
        None
    } else if find_local_record(recs, trimmed(watches[0]@)) is None {
        Some(watches[0]@)
    } else {
        first_unresolved_record(watches.drop_first(), recs)
    }
}

/// Searching the derived variables is the same as searching the records.
proof fn lemma_find_local_bridge(vars: Seq<Variable>, recs: Seq<JsonValue>, name: Seq<char>)
    requires
        vars.len() == recs.len(),
        forall|i: int| 0 <= i < recs.len() ==> variable_matches(#[trigger] vars[i], recs[i]),
    ensures
        match find_local(vars, name) {
            Some(v) => find_local_record(recs, name) matches Some(rec) && v.name@
                == variable_name_chars(rec) && v.ty@ == variable_type_chars(rec) && v.value@
                == variable_value_chars(rec),
            None => find_local_record(recs, name) is None,
        },
    decreases vars.len(),
{
    if vars.len() > 0 {
        if vars[0].name@ == name {
        } else {
            assert(forall|i: int|
                0 <= i < recs.drop_first().len() ==> variable_matches(
                    #[trigger] vars.drop_first()[i],
                    recs.drop_first()[i],
                ));
            lemma_find_local_bridge(vars.drop_first(), recs.drop_first(), name);
        }
    }
}

proof fn lemma_first_unresolved_bridge(
    watches: Seq<String>,
    vars: Seq<Variable>,
    recs: Seq<JsonValue>,
)
    requires
        vars.len() == recs.len(),
        forall|i: int| 0 <= i < recs.len() ==> variable_matches(#[trigger] vars[i], recs[i]),
    ensures
        first_unresolved(watches, vars) == first_unresolved_record(watches, recs),
    decreases watches.len(),
{
    if watches.len() > 0 {
        lemma_find_local_bridge(vars, recs, trimmed(watches[0]@));
        lemma_first_unresolved_bridge(watches.drop_first(), vars, recs);
    }
}

/// The payload carrying the serialized frames.
pub open spec fn stacktrace_payload_matches(p: JsonValue, recs: Seq<JsonValue>) -> bool {
    &&& ok_payload_with(p, "stacktrace"@)
    &&& p->Object_0@[1].1 is Array
    &&& p->Object_0@[1].1->Array_0@.len() == recs.len()
    &&& forall|i: int|
        0 <= i < recs.len() ==> frame_payload_matches(
            #[trigger] p->Object_0@[1].1->Array_0@[i],
            i,
            recs[i],
        )
}

/// The payload carrying the serialized variables under `key`.
pub open spec fn variables_payload_matches(p: JsonValue, key: Seq<char>, recs: Seq<
    JsonValue,
>) -> bool {
    &&& ok_payload_with(p, key)
    &&& p->Object_0@[1].1 is Array
    &&& p->Object_0@[1].1->Array_0@.len() == recs.len()
    &&& forall|i: int|
        0 <= i < recs.len() ==> variable_payload_matches(
            #[trigger] p->Object_0@[1].1->Array_0@[i],
            recs[i],
        )
}

/// The payload passing the backend's records through unchanged under `key`.
pub open spec fn passthrough_payload_matches(p: JsonValue, key: Seq<char>, recs: Seq<
    JsonValue,
>) -> bool {
    &&& ok_payload_with(p, key)
    &&& p->Object_0@[1].1 is Array
    &&& p->Object_0@[1].1->Array_0@ == recs
}

/// The payload of a successful evaluation.
pub open spec fn evaluate_payload_matches(p: JsonValue, value: Seq<char>, ty: Seq<char>) -> bool {
    &&& p is Object
    &&& p->Object_0@.len() == 3
    &&& entry_is_bool(p->Object_0@[0], "ok"@, true)
    &&& entry_is_text(p->Object_0@[1], "result"@, value)
    &&& entry_is_text(p->Object_0@[2], "type"@, ty)
}

/// One serialized watch entry: the stored expression and its evaluation
/// against the records.
pub open spec fn watch_entry_payload_matches(v: JsonValue, w: String, recs: Seq<JsonValue>) -> bool {
    match find_local_record(recs, trimmed(w@)) {
        Some(rec) => {
            &&& v is Object
            &&& v->Object_0@.len() == 2
            &&& entry_is_text(v->Object_0@[0], "expression"@, w@)
            &&& v->Object_0@[1].0@ == "result"@
            &&& v->Object_0@[1].1 is Object
            &&& v->Object_0@[1].1->Object_0@.len() == 2
            &&& entry_is_text(
                v->Object_0@[1].1->Object_0@[0],
                "result"@,
                variable_value_chars(rec),
            )
            &&& entry_is_text(v->Object_0@[1].1->Object_0@[1], "type"@, variable_type_chars(rec))
        },
        None => false,
    }
}

/// The payload carrying the full evaluated watch list.
pub open spec fn watch_payload_list_matches(
    p: JsonValue,
    watches: Seq<String>,
    recs: Seq<JsonValue>,
) -> bool {
    &&& ok_payload_with(p, "watch"@)
    &&& p->Object_0@[1].1 is Array
    &&& p->Object_0@[1].1->Array_0@.len() == watches.len()
    &&& forall|i: int|
        0 <= i < watches.len() ==> watch_entry_payload_matches(
            #[trigger] p->Object_0@[1].1->Array_0@[i],
            watches[i],
            recs,
        )
}

/// What completing a command does: how the session state advances from `s0`
/// to `s1` and what the call returns, given the backend response.
pub open spec fn finish_spec(
    s0: DebugSession,
    s1: DebugSession,
    cmd: LlmCommand,
    resp: BackendResponse,
    r: Result<JsonValue, DebugSessionError>,
) -> bool {
    match cmd {
        LlmCommand::Stacktrace => s1 == s0 && (resp matches BackendResponse::Values(vs) ==> (
        r matches Ok(p) && stacktrace_payload_matches(p, vs@))),
        LlmCommand::Threads => s1 == s0 && (resp matches BackendResponse::Values(vs) ==> (
        r matches Ok(p) && passthrough_payload_matches(p, "threads"@, vs@))),
        LlmCommand::Scopes => s1 == s0 && (resp matches BackendResponse::Values(vs) ==> (
        r matches Ok(p) && passthrough_payload_matches(p, "scopes"@, vs@))),
        LlmCommand::Locals => s1 == s0 && (resp matches BackendResponse::Values(vs) ==> (
        r matches Ok(p) && variables_payload_matches(p, "locals"@, vs@))),
        LlmCommand::Variables { .. } => s1 == s0 && (resp matches BackendResponse::Values(vs)
            ==> (r matches Ok(p) && variables_payload_matches(p, "variables"@, vs@))),
        LlmCommand::Continue => s1 == s0 && stepping_finish(resp, r),
        LlmCommand::Next => s1 == s0 && stepping_finish(resp, r),
        LlmCommand::StepIn => s1 == s0 && stepping_finish(resp, r),
        LlmCommand::SetBreakpoint { file, line } => resp matches BackendResponse::Outcome(sync)
            ==> ({
            &&& s1.spec_file_lines(file@) == insert_line(s0.spec_file_lines(file@), line as i64)
            &&& forall|f: Seq<char>|
                f != file@ ==> #[trigger] s1.spec_file_lines(f) == s0.spec_file_lines(f)
            &&& s1.spec_watches() == s0.spec_watches()
            &&& s1.spec_thread_id() == s0.spec_thread_id()
            &&& s1.spec_program() == s0.spec_program()
            &&& match sync {
                Ok(u) => ({
                    &&& r matches Ok(p) && ok_payload_with(p, "breakpoint_id"@) && entry_is_int(
                        p->Object_0@[1],
                        "breakpoint_id"@,
                        s0.spec_next_breakpoint_id() as int,
                    )
                    &&& spec_set_breakpoint_ok(s0, s1, file@, line, s0.spec_next_breakpoint_id())
                }),
                Err(m) => ({
                    &&& r matches Err(DebugSessionError::Backend(b)) && b@ == m@
                    &&& s1.spec_next_breakpoint_id() == s0.spec_next_breakpoint_id()
                }),
            }
        }),
        LlmCommand::Evaluate { expression } => s1 == s0 && evaluate_finish(expression, resp, r),
        LlmCommand::EvaluateSwift { expression } => s1 == s0 && evaluate_finish(
            expression,
            resp,
            r,
        ),
        LlmCommand::WatchExpression { expression } => {
            &&& s1.spec_thread_id() == s0.spec_thread_id()
            &&& s1.spec_next_breakpoint_id() == s0.spec_next_breakpoint_id()
            &&& s1.spec_program() == s0.spec_program()
            &&& forall|f: Seq<char>|
                #[trigger] s1.spec_file_lines(f) == s0.spec_file_lines(f)
            &&& trimmed(expression@).len() == 0 ==> s1.spec_watches() == s0.spec_watches() && (
            r matches Err(DebugSessionError::UnsupportedExpression(e)) && e@ == expression@)
            &&& trimmed(expression@).len() > 0 ==> match resp {
                BackendResponse::Values(vs) => ({
                    &&& watch_views(s1.spec_watches()) == spec_register_watch(
                        watch_views(s0.spec_watches()),
                        trimmed(expression@),
                    )
                    &&& match first_unresolved_record(s1.spec_watches(), vs@) {
                        Some(e) => r matches Err(DebugSessionError::UnsupportedExpression(x))
                            && x@ == e,
                        None => r matches Ok(p) && watch_payload_list_matches(
                            p,
                            s1.spec_watches(),
                            vs@,
                        ),
                    }
                }),
                _ => true,
            }
        },
        LlmCommand::Disconnect => s1 == s0 && (resp matches BackendResponse::Outcome(out)
            ==> match out {
            Ok(u) => r matches Ok(p) && ok_payload(p),
            Err(m) => r matches Err(DebugSessionError::Backend(b)) && b@ == m@,
        }),
        LlmCommand::SelectThread { thread_id } => {
            &&& s1.spec_thread_id() == if thread_id >= 1 {
                thread_id
            } else {
                1
            }
            &&& s1.spec_next_breakpoint_id() == s0.spec_next_breakpoint_id()
            &&& s1.spec_watches() == s0.spec_watches()
            &&& s1.spec_program() == s0.spec_program()
            &&& forall|f: Seq<char>|
                #[trigger] s1.spec_file_lines(f) == s0.spec_file_lines(f)
            &&& r matches Ok(p) && ok_payload_with(p, "threadId"@) && entry_is_int(
                p->Object_0@[1],
                "threadId"@,
                thread_id as int,
            )
        },
        LlmCommand::Restart => false,
        LlmCommand::Launch => false,
        LlmCommand::Build => false,
    }
}

/// Completion of the three stepping commands.
pub open spec fn stepping_finish(resp: BackendResponse, r: Result<
    JsonValue,
    DebugSessionError,
>) -> bool {
    resp matches BackendResponse::Stop(out) ==> match out {
        Ok(None) => r matches Ok(p) && ok_payload(p),
        Ok(Some(rec)) => r matches Ok(p) && ok_payload_with(p, "stop"@) && stop_payload_matches(
            p->Object_0@[1].1,
            rec,
        ),
        Err(m) => r matches Err(DebugSessionError::Backend(b)) && b@ == m@,
    }
}

/// Completion of the two evaluation commands.
pub open spec fn evaluate_finish(
    expression: String,
    resp: BackendResponse,
    r: Result<JsonValue, DebugSessionError>,
) -> bool {
    &&& trimmed(expression@).len() == 0 ==> (r matches Err(
        DebugSessionError::UnsupportedExpression(e),
    ) && e@ == expression@)
    &&& trimmed(expression@).len() > 0 ==> match resp {
        BackendResponse::Values(vs) => match find_local_record(vs@, trimmed(expression@)) {
            Some(rec) => r matches Ok(p) && evaluate_payload_matches(
                p,
                variable_value_chars(rec),
                variable_type_chars(rec),
            ),
            None => r matches Err(DebugSessionError::UnsupportedExpression(e)) && e@
                == expression@,
        },
        _ => true,
    }
}

/// The entries of a fresh success payload: just `ok: true`.
fn ok_entries() -> (r: Vec<(String, JsonValue)>)
    ensures
        r@.len() == 1,
        entry_is_bool(r@[0], "ok"@, true),
{
    let mut v: Vec<(String, JsonValue)> = Vec::new();
    v.push((String::from_str("ok"), JsonValue::Bool(true)));
    v
}

/// `{"ok": true}`.
fn payload_ok() -> (r: JsonValue)
    ensures
        ok_payload(r),
{
    JsonValue::Object(ok_entries())
}

/// `{"ok": true, key: value}`.
fn payload_with(key: &str, value: JsonValue) -> (r: JsonValue)
    ensures
        ok_payload_with(r, key@),
        r->Object_0@[1].1 == value,
{
    let mut entries = ok_entries();
    entries.push((String::from_str(key), value));
    JsonValue::Object(entries)
}

/// Serialize one frame.
fn frame_json(f: &Frame) -> (r: JsonValue)
    requires
        f.frame_index <= i64::MAX,
    ensures
        r is Object,
        r->Object_0@.len() == 4,
        entry_is_int(r->Object_0@[0], "frame_index"@, f.frame_index as int),
        entry_is_text(r->Object_0@[1], "function"@, f.function@),
        entry_is_text(r->Object_0@[2], "file"@, f.file@),
        entry_is_int(r->Object_0@[3], "line"@, f.line as int),
{
    let mut entries: Vec<(String, JsonValue)> = Vec::new();
    entries.push((String::from_str("frame_index"), JsonValue::Int(f.frame_index as i64)));
    entries.push((String::from_str("function"), JsonValue::Text(f.function.clone())));
    entries.push((String::from_str("file"), JsonValue::Text(f.file.clone())));
    entries.push((String::from_str("line"), JsonValue::Int(f.line as i64)));
    JsonValue::Object(entries)
}

/// Serialize one variable.
fn variable_json(v: &Variable) -> (r: JsonValue)
    ensures
        r is Object,
        r->Object_0@.len() == 3,
        entry_is_text(r->Object_0@[0], "name"@, v.name@),
        entry_is_text(r->Object_0@[1], "type"@, v.ty@),
        entry_is_text(r->Object_0@[2], "value"@, v.value@),
{
    let mut entries: Vec<(String, JsonValue)> = Vec::new();
    entries.push((String::from_str("name"), JsonValue::Text(v.name.clone())));
    entries.push((String::from_str("type"), JsonValue::Text(v.ty.clone())));
    entries.push((String::from_str("value"), JsonValue::Text(v.value.clone())));
    JsonValue::Object(entries)
}

/// Serialize one evaluated watch entry.
fn watch_json(wv: &WatchValue) -> (r: JsonValue)
    ensures
        r is Object,
        r->Object_0@.len() == 2,
        entry_is_text(r->Object_0@[0], "expression"@, wv.expression@),
        r->Object_0@[1].0@ == "result"@,
        r->Object_0@[1].1 is Object,
        r->Object_0@[1].1->Object_0@.len() == 2,
        entry_is_text(r->Object_0@[1].1->Object_0@[0], "result"@, wv.result.result@),
        entry_is_text(r->Object_0@[1].1->Object_0@[1], "type"@, wv.result.ty@),
{
    let mut inner: Vec<(String, JsonValue)> = Vec::new();
    inner.push((String::from_str("result"), JsonValue::Text(wv.result.result.clone())));
    inner.push((String::from_str("type"), JsonValue::Text(wv.result.ty.clone())));
    let mut entries: Vec<(String, JsonValue)> = Vec::new();
    entries.push((String::from_str("expression"), JsonValue::Text(wv.expression.clone())));
    entries.push((String::from_str("result"), JsonValue::Object(inner)));
    JsonValue::Object(entries)
}

/// Complete a command once its backend call (if any) has been made: update
/// the session and build the response payload, or surface the error.
pub fn command_finish(session: &mut DebugSession, cmd: LlmCommand, resp: BackendResponse) -> (r:
    Result<JsonValue, DebugSessionError>)
    requires
        old(session).wf(),
        response_matches(cmd, resp),
        resp matches BackendResponse::Values(vs) ==> vs@.len() <= i64::MAX,
    ensures
        final(session).wf(),
        finish_spec(*old(session), *final(session), cmd, resp, r),
{
    match cmd {
        LlmCommand::Stacktrace => {
            match resp {
                BackendResponse::Values(vs) => {
                    let frames = session.stacktrace(&vs);
                    let mut arr: Vec<JsonValue> = Vec::new();
                    let mut i: usize = 0;
                    while i < frames.len()
                        invariant
                            frames@.len() == vs@.len(),
                            vs@.len() <= i64::MAX,
                            forall|k: int|
                                0 <= k < vs@.len() ==> frame_matches(
                                    #[trigger] frames@[k],
                                    k,
                                    vs@[k],
                                ),
                            i <= frames@.len(),
                            arr@.len() == i,
                            forall|k: int|
                                0 <= k < i ==> frame_payload_matches(
                                    #[trigger] arr@[k],
                                    k,
                                    vs@[k],
                                ),
                        decreases frames@.len() - i,
                    {
                        arr.push(frame_json(&frames[i]));
                        i = i + 1;
                    }
                    Ok(payload_with("stacktrace", JsonValue::Array(arr)))
                },
                _ => vstd::pervasive::unreached(),
            }
        },
        LlmCommand::Threads => {
            match resp {
                BackendResponse::Values(vs) => Ok(payload_with("threads", JsonValue::Array(vs))),
                _ => vstd::pervasive::unreached(),
            }
        },
        LlmCommand::Scopes => {
            match resp {
                BackendResponse::Values(vs) => Ok(payload_with("scopes", JsonValue::Array(vs))),
                _ => vstd::pervasive::unreached(),
            }
        },
        LlmCommand::Locals => {
            match resp {
                BackendResponse::Values(vs) => Ok(
                    payload_with("locals", variables_array(session, &vs)),
                ),
                _ => vstd::pervasive::unreached(),
            }
        },
        LlmCommand::Variables { .. } => {
            match resp {
                BackendResponse::Values(vs) => Ok(
                    payload_with("variables", variables_array(session, &vs)),
                ),
                _ => vstd::pervasive::unreached(),
            }
        },
        LlmCommand::Continue => {
            match resp {
                BackendResponse::Stop(out) => stepping_payload(session.continue_execution(out)),
                _ => vstd::pervasive::unreached(),
            }
        },
        LlmCommand::Next => {
            match resp {
                BackendResponse::Stop(out) => stepping_payload(session.next(out)),
                _ => vstd::pervasive::unreached(),
            }
        },
        LlmCommand::StepIn => {
            match resp {
                BackendResponse::Stop(out) => stepping_payload(session.step_in(out)),
                _ => vstd::pervasive::unreached(),
            }
        },
        LlmCommand::SetBreakpoint { file, line } => {
            match resp {
                BackendResponse::Outcome(sync) => {
                    match session.set_breakpoint(file.as_str(), line, sync) {
                        Ok(bp) => Ok(
                            payload_with("breakpoint_id", JsonValue::Int(bp.id as i64)),
                        ),
                        Err(e) => Err(e),
                    }
                },
                _ => vstd::pervasive::unreached(),
            }
        },
        LlmCommand::Evaluate { expression } => {
            match resp {
                BackendResponse::NoCall => Err(
                    DebugSessionError::UnsupportedExpression(expression),
                ),
                BackendResponse::Values(vs) => evaluate_payload(session, vs, expression),
                _ => vstd::pervasive::unreached(),
            }
        },
        LlmCommand::EvaluateSwift { expression } => {
            match resp {
                BackendResponse::NoCall => Err(
                    DebugSessionError::UnsupportedExpression(expression),
                ),
                BackendResponse::Values(vs) => evaluate_payload(session, vs, expression),
                _ => vstd::pervasive::unreached(),
            }
        },
        LlmCommand::WatchExpression { expression } => {
            match resp {
                BackendResponse::NoCall => {
                    let t = crate::text::trim_str(expression.as_str());
                    if t.unicode_len() == 0 {
                        Err(DebugSessionError::UnsupportedExpression(expression))
                    } else {
                        vstd::pervasive::unreached()
                    }
                },
                BackendResponse::Values(vs) => {
                    let locals = session.locals(&vs);
                    let res = session.add_watch_expression(&locals, expression.as_str());
                    proof {
                        lemma_first_unresolved_bridge(
                            final(session).spec_watches(),
                            locals@,
                            vs@,
                        );
                    }
                    match res {
                        Ok(wvs) => {
                            let ghost watches = final(session).spec_watches();
                            let mut arr: Vec<JsonValue> = Vec::new();
                            let mut i: usize = 0;
                            while i < wvs.len()
                                invariant
                                    locals@.len() == vs@.len(),
                                    forall|k: int|
                                        0 <= k < vs@.len() ==> variable_matches(
                                            #[trigger] locals@[k],
                                            vs@[k],
                                        ),
                                    wvs@.len() == watches.len(),
                                    forall|k: int|
                                        0 <= k < wvs@.len() ==> watch_value_matches(
                                            #[trigger] wvs@[k],
                                            watches[k],
                                            locals@,
                                        ),
                                    i <= wvs@.len(),
                                    arr@.len() == i,
                                    forall|k: int|
                                        0 <= k < i ==> watch_entry_payload_matches(
                                            #[trigger] arr@[k],
                                            watches[k],
                                            vs@,
                                        ),
                                decreases wvs@.len() - i,
                            {
                                let v = watch_json(&wvs[i]);
                                proof {
                                    lemma_find_local_bridge(
                                        locals@,
                                        vs@,
                                        trimmed(watches[i as int]@),
                                    );
                                }
                                arr.push(v);
                                i = i + 1;
                            }
                            Ok(payload_with("watch", JsonValue::Array(arr)))
                        },
                        Err(e) => Err(e),
                    }
                },
                _ => vstd::pervasive::unreached(),
            }
        },
        LlmCommand::Disconnect => {
            match resp {
                BackendResponse::Outcome(out) => {
                    match session.disconnect(out) {
                        Ok(u) => Ok(payload_ok()),
                        Err(e) => Err(e),
                    }
                },
                _ => vstd::pervasive::unreached(),
            }
        },
        LlmCommand::SelectThread { thread_id } => {
            session.select_thread(thread_id);
            Ok(payload_with("threadId", JsonValue::Int(thread_id)))
        },
        LlmCommand::Restart => vstd::pervasive::unreached(),
        LlmCommand::Launch => vstd::pervasive::unreached(),
        LlmCommand::Build => vstd::pervasive::unreached(),
    }
}

/// Serialize the variable records under a reference.
fn variables_array(session: &DebugSession, vs: &Vec<JsonValue>) -> (r: JsonValue)
    ensures
        r is Array,
        r->Array_0@.len() == vs@.len(),
        forall|i: int|
            0 <= i < vs@.len() ==> variable_payload_matches(#[trigger] r->Array_0@[i], vs@[i]),
{
    let variables = session.variables_for_reference(vs);
    let mut arr: Vec<JsonValue> = Vec::new();
    let mut i: usize = 0;
    while i < variables.len()
        invariant
            variables@.len() == vs@.len(),
            forall|k: int|
                0 <= k < vs@.len() ==> variable_matches(#[trigger] variables@[k], vs@[k]),
            i <= variables@.len(),
            arr@.len() == i,
            forall|k: int|
                0 <= k < i ==> variable_payload_matches(#[trigger] arr@[k], vs@[k]),
        decreases variables@.len() - i,
    {
        arr.push(variable_json(&variables[i]));
        i = i + 1;
    }
    JsonValue::Array(arr)
}

/// Serialize a stepping result.
fn stepping_payload(res: Result<Option<crate::session::SessionStop>, DebugSessionError>) -> (r:
    Result<JsonValue, DebugSessionError>)
    ensures
        match res {
            Ok(None) => r matches Ok(p) && ok_payload(p),
            Ok(Some(s)) => r matches Ok(p) && ok_payload_with(p, "stop"@) && ({
                let v = p->Object_0@[1].1;
                &&& v is Object
                &&& v->Object_0@.len() == 3
                &&& entry_is_text(v->Object_0@[0], "reason"@, s.reason@)
                &&& entry_is_text(v->Object_0@[1], "description"@, s.description@)
                &&& entry_is_int(v->Object_0@[2], "thread_id"@, s.thread_id as int)
            }),
            Err(e) => r matches Err(e2) && e2 == e,
        },
{
    match res {
        Ok(None) => Ok(payload_ok()),
        Ok(Some(s)) => {
            let mut inner: Vec<(String, JsonValue)> = Vec::new();
            inner.push((String::from_str("reason"), JsonValue::Text(s.reason.clone())));
            inner.push((String::from_str("description"), JsonValue::Text(s.description.clone())));
            inner.push((String::from_str("thread_id"), JsonValue::Int(s.thread_id)));
            Ok(payload_with("stop", JsonValue::Object(inner)))
        },
        Err(e) => Err(e),
    }
}

/// Evaluate against the records and serialize the result.
fn evaluate_payload(session: &DebugSession, vs: Vec<JsonValue>, expression: String) -> (r: Result<
    JsonValue,
    DebugSessionError,
>)
    ensures
        evaluate_finish(expression, BackendResponse::Values(vs), r),
{
    let locals = session.locals(&vs);
    let res = session.evaluate(&locals, expression.as_str());
    proof {
        lemma_find_local_bridge(locals@, vs@, trimmed(expression@));
    }
    match res {
        Ok(ev) => {
            let mut entries = ok_entries();
            entries.push((String::from_str("result"), JsonValue::Text(ev.result)));
            entries.push((String::from_str("type"), JsonValue::Text(ev.ty)));
            Ok(JsonValue::Object(entries))
        },
        Err(e) => Err(e),
    }
}

} // verus!
