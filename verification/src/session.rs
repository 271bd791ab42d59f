//! The debug-session state machine.
//!
//! The session owns the selected thread, the breakpoint book-keeping and the
//! watch list, and turns primitive backend query results — handed in as plain
//! values by the caller that talks to the backend — into structured domain
//! objects.  The session never performs I/O itself: for an operation that
//! needs the backend, the caller makes the backend call and passes its
//! outcome in.

use vstd::prelude::*;
use crate::json::{JsonValue, spec_get, spec_as_text, spec_as_i64};
use crate::text::{trimmed, trim_str, str_eq, lemma_trimmed_idempotent};

verus! {

/// Session-local breakpoint handles are small integers.
pub type BreakpointId = u32;

/// Errors a session operation can surface.
#[derive(Debug)]
pub enum DebugSessionError {
    /// Opaque failure text passed through from the backend.
    Backend(String),
    /// The given expression is empty or matches no local variable.
    UnsupportedExpression(String),
}

impl DebugSessionError {
    /// The human-readable message for this error.
    pub fn message(&self) -> (r: String)
        ensures
            match self {
                DebugSessionError::Backend(m) => r@ == m@,
                DebugSessionError::UnsupportedExpression(e) => r@ == "expression `"@ + e@
                    + "` is not supported"@,
            },
    {
        match self {
            DebugSessionError::Backend(m) => m.clone(),
            DebugSessionError::UnsupportedExpression(e) => {
                let mut s = String::from_str("expression `");
                s.append(e.as_str());
                s.append("` is not supported");
                s
            },
        }
    }
}

/// A stop notification as the backend reports it.
#[derive(Debug, Clone)]
pub struct StopRecord {
    pub reason: String,
    pub description: String,
    pub thread_id: i64,
}

/// A stop notification as the session reports it to its callers.
#[derive(Debug, Clone)]
pub struct SessionStop {
    pub reason: String,
    pub description: String,
    pub thread_id: i64,
}

impl SessionStop {
    /// The session-level copy of a backend stop record.
    pub fn of_record(record: StopRecord) -> (r: SessionStop)
        ensures
            r.reason@ == record.reason@,
            r.description@ == record.description@,
            r.thread_id == record.thread_id,
    {
        SessionStop { reason: record.reason, description: record.description, thread_id: record.thread_id }
    }
}

/// One stack frame, derived fresh from a backend record.
#[derive(Debug, Clone)]
pub struct Frame {
    pub frame_index: usize,
    pub function: String,
    pub file: String,
    pub line: u32,
}

/// The function name a backend frame record carries, or the sentinel.
pub open spec fn frame_function_chars(v: JsonValue) -> Seq<char> {
    match spec_get(v, "name"@) {
        Some(n) => match spec_as_text(n) {
            Some(s) => s,
            None => "<unknown>"@,
        },
        None => "<unknown>"@,
    }
}

/// The source path a backend frame record carries, or the sentinel.
pub open spec fn frame_file_chars(v: JsonValue) -> Seq<char> {
    match spec_get(v, "source"@) {
        Some(src) => match spec_get(src, "path"@) {
            Some(p) => match spec_as_text(p) {
                Some(s) => s,
                None => "<unknown>"@,
            },
            None => "<unknown>"@,
        },
        None => "<unknown>"@,
    }
}

/// The line number a backend frame record carries, defaulted to zero and
/// clamped to be non-negative before the narrowing cast.
pub open spec fn frame_line(v: JsonValue) -> u32 {
    let n = match spec_get(v, "line"@) {
        Some(l) => match spec_as_i64(l) {
            Some(x) => x,
            None => 0,
        },
        None => 0,
    };
    if n <= 0 {
        0u32
    } else {
        n as u32
    }
}

/// The fields of `f` are exactly what the backend record `v` yields for
/// frame index `i`.
pub open spec fn frame_matches(f: Frame, i: int, v: JsonValue) -> bool {
    &&& f.frame_index == i
    &&& f.function@ == frame_function_chars(v)
    &&& f.file@ == frame_file_chars(v)
    &&& f.line == frame_line(v)
}

impl Frame {
    /// Build the frame for index `index` from one backend record.
    pub fn from_backend_value(index: usize, value: &JsonValue) -> (r: Frame)
        ensures
            frame_matches(r, index as int, *value),
    {
        let function: String = match value.get("name") {
            Some(n) => match n.as_str() {
                Some(s) => s.clone(),
                None => String::from_str("<unknown>"),
            },
            None => String::from_str("<unknown>"),
        };
        let file: String = match value.get("source") {
            Some(src) => match src.get("path") {
                Some(p) => match p.as_str() {
                    Some(s) => s.clone(),
                    None => String::from_str("<unknown>"),
                },
                None => String::from_str("<unknown>"),
            },
            None => String::from_str("<unknown>"),
        };
        let line_i: i64 = match value.get("line") {
            Some(l) => match l.as_i64() {
                Some(x) => x,
                None => 0,
            },
            None => 0,
        };
        let line: u32 = if line_i <= 0 {
            0
        } else {
            #[verifier::truncate] (line_i as u32)
        };
        Frame { frame_index: index, function, file, line }
    }
}

/// One variable, derived from a backend record.
#[derive(Debug, Clone)]
pub struct Variable {
    pub name: String,
    pub ty: String,
    pub value: String,
}

/// The variable name a backend record carries, or the sentinel.
pub open spec fn variable_name_chars(v: JsonValue) -> Seq<char> {
    match spec_get(v, "name"@) {
        Some(n) => match spec_as_text(n) {
            Some(s) => s,
            None => "<unnamed>"@,
        },
        None => "<unnamed>"@,
    }
}

/// The type name a backend record carries, or the sentinel.
pub open spec fn variable_type_chars(v: JsonValue) -> Seq<char> {
    match spec_get(v, "type"@) {
        Some(t) => match spec_as_text(t) {
            Some(s) => s,
            None => "<unknown>"@,
        },
        None => "<unknown>"@,
    }
}

/// The value text a backend record carries, or the empty string.
pub open spec fn variable_value_chars(v: JsonValue) -> Seq<char> {
    match spec_get(v, "value"@) {
        Some(t) => match spec_as_text(t) {
            Some(s) => s,
            None => Seq::<char>::empty(),
        },
        None => Seq::<char>::empty(),
    }
}

/// The fields of `r` are exactly what the backend record `v` yields.
pub open spec fn variable_matches(r: Variable, v: JsonValue) -> bool {
    &&& r.name@ == variable_name_chars(v)
    &&& r.ty@ == variable_type_chars(v)
    &&& r.value@ == variable_value_chars(v)
}

impl Variable {
    /// Build one variable from one backend record.
    pub fn from_backend_value(value: &JsonValue) -> (r: Variable)
        ensures
            variable_matches(r, *value),
    {
        let name: String = match value.get("name") {
            Some(n) => match n.as_str() {
                Some(s) => s.clone(),
                None => String::from_str("<unnamed>"),
            },
            None => String::from_str("<unnamed>"),
        };
        let ty: String = match value.get("type") {
            Some(t) => match t.as_str() {
                Some(s) => s.clone(),
                None => String::from_str("<unknown>"),
            },
            None => String::from_str("<unknown>"),
        };
        let val: String = match value.get("value") {
            Some(t) => match t.as_str() {
                Some(s) => s.clone(),
                None => String::new(),
            },
            None => String::new(),
        };
        Variable { name, ty, value: val }
    }
}

/// The result of evaluating an expression against the locals.
#[derive(Debug, Clone)]
pub struct EvalResult {
    pub result: String,
    pub ty: String,
}

/// One evaluated watch expression.
#[derive(Debug, Clone)]
pub struct WatchValue {
    pub expression: String,
    pub result: EvalResult,
}

/// A session-local breakpoint handle.
#[derive(Debug, Clone)]
pub struct Breakpoint {
    pub id: BreakpointId,
    pub file: String,
    pub line: u32,
}

/// First local variable whose name is exactly `name`.
pub open spec fn find_local(locals: Seq<Variable>, name: Seq<char>) -> Option<Variable>
    decreases locals.len(),
{
    if locals.len() == 0 {
        None
    } else if locals[0].name@ == name {
        Some(locals[0])
    } else {
        find_local(locals.drop_first(), name)
    }
}

proof fn lemma_find_local_skip(locals: Seq<Variable>, name: Seq<char>, i: int)
    requires
        0 <= i <= locals.len(),
        forall|k: int| 0 <= k < i ==> locals[k].name@ != name,
    ensures
        find_local(locals, name) == find_local(locals.skip(i), name),
    decreases i,
{
    if i == 0 {
        assert(locals.skip(0) =~= locals);
    } else {
        lemma_find_local_skip(locals.drop_first(), name, i - 1);
        assert(locals.drop_first().skip(i - 1) =~= locals.skip(i));
    }
}

/// Strictly increasing line numbers: sorted and free of duplicates.
pub open spec fn sorted_strict(s: Seq<i64>) -> bool {
    forall|i: int, j: int| 0 <= i < j < s.len() ==> s[i] < s[j]
}

/// Sorted insertion of a line into a strictly sorted line set; inserting a
/// line that is already present changes nothing.
pub open spec fn insert_line(s: Seq<i64>, x: i64) -> Seq<i64>
    decreases s.len(),
{
    if s.len() == 0 {
        seq![x]
    } else if x < s[0] {
        seq![x] + s
    } else if x == s[0] {
        s
    } else {
        seq![s[0]] + insert_line(s.drop_first(), x)
    }
}

/// Sorted insertion keeps the set strictly sorted and adds exactly the new
/// line to its contents.
pub proof fn lemma_insert_line_props(s: Seq<i64>, x: i64)
    requires
        sorted_strict(s),
    ensures
        sorted_strict(insert_line(s, x)),
        forall|y: i64| insert_line(s, x).contains(y) <==> (s.contains(y) || y == x),
        insert_line(s, x).contains(x),
    decreases s.len(),
{
    let r = insert_line(s, x);
    if s.len() == 0 {
        assert(r == seq![x]);
        assert(r[0] == x);
        assert forall|y: i64| r.contains(y) <==> (s.contains(y) || y == x) by {
            if r.contains(y) {
                let k = choose|k: int| 0 <= k < r.len() && r[k] == y;
                assert(k == 0);
            }
            if y == x {
                assert(r[0] == y);
            }
        }
    } else if x < s[0] {
        assert(r == seq![x] + s);
        assert forall|i: int, j: int| 0 <= i < j < r.len() implies r[i] < r[j] by {
            if i == 0 {
                assert(r[0] == x);
                assert(r[j] == s[j - 1]);
                if j > 1 {
                    assert(s[0] < s[j - 1]);
                }
            } else {
                assert(r[i] == s[i - 1]);
                assert(r[j] == s[j - 1]);
            }
        }
        assert forall|y: i64| r.contains(y) <==> (s.contains(y) || y == x) by {
            if r.contains(y) {
                let k = choose|k: int| 0 <= k < r.len() && r[k] == y;
                if k == 0 {
                    assert(y == x);
                } else {
                    assert(s[k - 1] == y);
                }
            }
            if s.contains(y) {
                let k = choose|k: int| 0 <= k < s.len() && s[k] == y;
                assert(r[k + 1] == y);
            }
            if y == x {
                assert(r[0] == y);
            }
        }
    } else if x == s[0] {
        assert(r == s);
        assert(s[0] == x);
    } else {
        let t = s.drop_first();
        assert(forall|i: int, j: int| 0 <= i < j < t.len() ==> t[i] < t[j]);
        lemma_insert_line_props(t, x);
        let it = insert_line(t, x);
        assert(r == seq![s[0]] + it);
        assert forall|i: int, j: int| 0 <= i < j < r.len() implies r[i] < r[j] by {
            if i == 0 {
                assert(r[j] == it[j - 1]);
                assert(it.contains(it[j - 1]));
                if it[j - 1] == x {
                    assert(s[0] < x);
                } else {
                    assert(t.contains(it[j - 1]));
                    let k = choose|k: int| 0 <= k < t.len() && t[k] == it[j - 1];
                    assert(s[k + 1] == it[j - 1]);
                    assert(s[0] < s[k + 1]);
                }
            } else {
                assert(r[i] == it[i - 1]);
                assert(r[j] == it[j - 1]);
            }
        }
        assert forall|y: i64| r.contains(y) <==> (s.contains(y) || y == x) by {
            if r.contains(y) {
                let k = choose|k: int| 0 <= k < r.len() && r[k] == y;
                if k == 0 {
                    assert(s[0] == y);
                } else {
                    assert(it[k - 1] == y);
                    assert(it.contains(y));
                    if t.contains(y) {
                        let m = choose|m: int| 0 <= m < t.len() && t[m] == y;
                        assert(s[m + 1] == y);
                    }
                }
            }
            if s.contains(y) {
                let k = choose|k: int| 0 <= k < s.len() && s[k] == y;
                if k == 0 {
                    assert(r[0] == y);
                } else {
                    assert(t[k - 1] == y);
                    assert(t.contains(y));
                    assert(it.contains(y));
                    let m = choose|m: int| 0 <= m < it.len() && it[m] == y;
                    assert(r[m + 1] == y);
                }
            }
            if y == x {
                assert(it.contains(x));
                let m = choose|m: int| 0 <= m < it.len() && it[m] == y;
                assert(r[m + 1] == y);
            }
        }
        assert(r.contains(x)) by {
            assert(it.contains(x));
            let m = choose|m: int| 0 <= m < it.len() && it[m] == x;
            assert(r[m + 1] == x);
        }
    }
}

proof fn lemma_insert_line_at(s: Seq<i64>, x: i64, p: int)
    requires
        sorted_strict(s),
        0 <= p <= s.len(),
        forall|k: int| 0 <= k < p ==> s[k] < x,
        p == s.len() || s[p] >= x,
    ensures
        insert_line(s, x) == if p < s.len() && s[p] == x {
            s
        } else {
            s.subrange(0, p) + seq![x] + s.subrange(p, s.len() as int)
        },
    decreases p,
{
    if p == 0 {
        if s.len() == 0 {
            assert(insert_line(s, x) == seq![x]);
            assert(s.subrange(0, 0) + seq![x] + s.subrange(0, 0) =~= seq![x]);
        } else if s[0] == x {
        } else {
            assert(x < s[0]);
            assert(s.subrange(0, 0) + seq![x] + s.subrange(0, s.len() as int) =~= seq![x] + s);
        }
    } else {
        assert(s[0] < x);
        let t = s.drop_first();
        lemma_insert_line_at(t, x, p - 1);
        if p < s.len() && s[p] == x {
            assert(t[p - 1] == x);
            assert(insert_line(s, x) == seq![s[0]] + insert_line(t, x));
            assert(seq![s[0]] + t =~= s);
        } else {
            assert(insert_line(s, x) == seq![s[0]] + (t.subrange(0, p - 1) + seq![x]
                + t.subrange(p - 1, t.len() as int)));
            assert(seq![s[0]] + (t.subrange(0, p - 1) + seq![x] + t.subrange(
                p - 1,
                t.len() as int,
            )) =~= s.subrange(0, p) + seq![x] + s.subrange(p, s.len() as int));
        }
    }
}

/// Sorted insertion into a line vector, in place.
fn insert_sorted(lines: &mut Vec<i64>, x: i64)
    requires
        sorted_strict(old(lines)@),
    ensures
        final(lines)@ == insert_line(old(lines)@, x),
        sorted_strict(final(lines)@),
{
    let mut pos: usize = 0;
    while pos < lines.len()
        invariant
            *lines == *old(lines),
            pos <= lines@.len(),
            forall|k: int| 0 <= k < pos ==> lines@[k] < x,
        ensures
            *lines == *old(lines),
            pos <= lines@.len(),
            forall|k: int| 0 <= k < pos ==> lines@[k] < x,
            pos == lines@.len() || lines@[pos as int] >= x,
        decreases lines@.len() - pos,
    {
        if lines[pos] >= x {
            break ;
        }
        pos = pos + 1;
    }
    proof {
        lemma_insert_line_at(lines@, x, pos as int);
        lemma_insert_line_props(lines@, x);
    }
    if pos < lines.len() && lines[pos] == x {
    } else {
        lines.insert(pos, x);
        proof {
            assert(final(lines)@ =~= old(lines)@.subrange(0, pos as int) + seq![x]
                + old(lines)@.subrange(pos as int, old(lines)@.len() as int));
        }
    }
}

/// Saturating advance of the breakpoint counter: ids are never reused, and
/// the counter stops at the largest id rather than wrapping.
pub open spec fn sat_inc(n: u32) -> u32 {
    if n == u32::MAX {
        n
    } else {
        (n + 1) as u32
    }
}

/// The line set tracked for `file`: empty when the file has no entry.
spec fn file_lines_of(entries: Seq<(String, Vec<i64>)>, file: Seq<char>) -> Seq<i64>
    decreases entries.len(),
{
    if entries.len() == 0 {
        Seq::empty()
    } else if entries[0].0@ == file {
        entries[0].1@
    } else {
        file_lines_of(entries.drop_first(), file)
    }
}

proof fn lemma_file_lines_skip(entries: Seq<(String, Vec<i64>)>, file: Seq<char>, i: int)
    requires
        0 <= i <= entries.len(),
        forall|k: int| 0 <= k < i ==> entries[k].0@ != file,
    ensures
        file_lines_of(entries, file) == file_lines_of(entries.skip(i), file),
    decreases i,
{
    if i == 0 {
        assert(entries.skip(0) =~= entries);
    } else {
        lemma_file_lines_skip(entries.drop_first(), file, i - 1);
        assert(entries.drop_first().skip(i - 1) =~= entries.skip(i));
    }
}

proof fn lemma_file_lines_update(
    entries: Seq<(String, Vec<i64>)>,
    k: int,
    e: (String, Vec<i64>),
    f: Seq<char>,
)
    requires
        0 <= k < entries.len(),
        e.0@ == entries[k].0@,
        forall|j: int| 0 <= j < k ==> entries[j].0@ != entries[k].0@,
    ensures
        file_lines_of(entries.update(k, e), f) == if f == entries[k].0@ {
            e.1@
        } else {
            file_lines_of(entries, f)
        },
    decreases k,
{
    let u = entries.update(k, e);
    if k == 0 {
        assert(u[0] == e);
        assert(u.drop_first() =~= entries.drop_first());
    } else {
        assert(u[0] == entries[0]);
        if entries[0].0@ == f {
        } else {
            assert(u.drop_first() =~= entries.drop_first().update(k - 1, e));
            lemma_file_lines_update(entries.drop_first(), k - 1, e, f);
        }
    }
}

proof fn lemma_file_lines_push(entries: Seq<(String, Vec<i64>)>, e: (String, Vec<i64>), f: Seq<char>)
    requires
        forall|j: int| 0 <= j < entries.len() ==> entries[j].0@ != e.0@,
    ensures
        file_lines_of(entries.push(e), f) == if f == e.0@ {
            e.1@
        } else {
            file_lines_of(entries, f)
        },
    decreases entries.len(),
{
    let u = entries.push(e);
    assert(u.len() == entries.len() + 1);
    if entries.len() == 0 {
        assert(u[0] == e);
        assert(u.drop_first() =~= Seq::<(String, Vec<i64>)>::empty());
        if u[0].0@ == f {
            assert(file_lines_of(u, f) == e.1@);
        } else {
            assert(file_lines_of(u, f) == file_lines_of(u.drop_first(), f));
            assert(file_lines_of(u.drop_first(), f) == Seq::<i64>::empty());
        }
    } else {
        assert(u[0] == entries[0]);
        assert(u.drop_first() =~= entries.drop_first().push(e));
        lemma_file_lines_push(entries.drop_first(), e, f);
        if u[0].0@ == f {
            assert(file_lines_of(u, f) == entries[0].1@);
            assert(file_lines_of(entries, f) == entries[0].1@);
            assert(f != e.0@);
        } else {
            assert(file_lines_of(u, f) == file_lines_of(u.drop_first(), f));
            assert(file_lines_of(entries, f) == file_lines_of(entries.drop_first(), f));
        }
    }
}

proof fn lemma_file_lines_of_cases(entries: Seq<(String, Vec<i64>)>, f: Seq<char>)
    ensures
        file_lines_of(entries, f) == Seq::<i64>::empty() || exists|i: int|
            0 <= i < entries.len() && entries[i].0@ == f && file_lines_of(entries, f)
                == #[trigger] entries[i].1@,
    decreases entries.len(),
{
    if entries.len() > 0 {
        if entries[0].0@ == f {
            assert(entries[0].1@ == file_lines_of(entries, f));
        } else {
            lemma_file_lines_of_cases(entries.drop_first(), f);
            if file_lines_of(entries, f) != Seq::<i64>::empty() {
                let t = entries.drop_first();
                let i = choose|i: int|
                    0 <= i < t.len() && t[i].0@ == f && file_lines_of(t, f) == #[trigger] t[i].1@;
                assert(entries[i + 1].0@ == f && file_lines_of(entries, f) == entries[i + 1].1@);
            }
        }
    }
}

/// The program path named in a configuration document, if any.
pub open spec fn spec_program_from_config(v: JsonValue) -> Option<Seq<char>> {
    match spec_get(v, "program"@) {
        Some(p) => spec_as_text(p),
        None => None,
    }
}

/// Read the `program` member of a parsed configuration document.
pub fn program_from_config(config: &JsonValue) -> (r: Option<String>)
    ensures
        match r {
            Some(s) => spec_program_from_config(*config) == Some(s@),
            None => spec_program_from_config(*config) is None,
        },
{
    if let Some(p) = config.get("program") {
        if let Some(s) = p.as_str() {
            return Some(s.clone());
        }
    }
    None
}

/// The reference id reserved for the locals scope.
pub const LOCALS_REFERENCE: i64 = 1;

/// Relates a unit backend outcome to the session-level result: success
/// passes through, failure text becomes a `Backend` error.
pub open spec fn outcome_matches(r: Result<(), DebugSessionError>, outcome: Result<
    (),
    String,
>) -> bool {
    match outcome {
        Ok(u) => r is Ok,
        Err(m) => r matches Err(DebugSessionError::Backend(b)) && b@ == m@,
    }
}

/// Relates a stepping outcome to the session-level result: an absent stop
/// stays absent, a stop record is copied field for field, failure text
/// becomes a `Backend` error.
pub open spec fn stop_outcome_matches(
    r: Result<Option<SessionStop>, DebugSessionError>,
    outcome: Result<Option<StopRecord>, String>,
) -> bool {
    match outcome {
        Ok(None) => r matches Ok(None),
        Ok(Some(rec)) => r matches Ok(Some(s)) && s.reason@ == rec.reason@ && s.description@
            == rec.description@ && s.thread_id == rec.thread_id,
        Err(m) => r matches Err(DebugSessionError::Backend(b)) && b@ == m@,
    }
}

/// Registration step of the watch list, over views: an expression already
/// present is not added again.
pub open spec fn spec_register_watch(ws: Seq<Seq<char>>, t: Seq<char>) -> Seq<Seq<char>> {
    if ws.contains(t) {
        ws
    } else {
        ws.push(t)
    }
}

/// The views of the registered watch expressions.
pub open spec fn watch_views(ws: Seq<String>) -> Seq<Seq<char>> {
    Seq::new(ws.len(), |i: int| ws[i]@)
}

/// The expression view of the first registered watch that resolves against
/// no local, if any.
pub open spec fn first_unresolved(watches: Seq<String>, locals: Seq<Variable>) -> Option<
    Seq<char>,
>
    decreases watches.len(),
{
    if watches.len() == 0 {
        None
    } else if find_local(locals, trimmed(watches[0]@)) is None {
        Some(watches[0]@)
    } else {
        first_unresolved(watches.drop_first(), locals)
    }
}

proof fn lemma_first_unresolved_skip(watches: Seq<String>, locals: Seq<Variable>, i: int)
    requires
        0 <= i <= watches.len(),
        forall|k: int| 0 <= k < i ==> find_local(locals, trimmed(watches[k]@)) is Some,
    ensures
        first_unresolved(watches, locals) == first_unresolved(watches.skip(i), locals),
    decreases i,
{
    if i == 0 {
        assert(watches.skip(0) =~= watches);
    } else {
        lemma_first_unresolved_skip(watches.drop_first(), locals, i - 1);
        assert(watches.drop_first().skip(i - 1) =~= watches.skip(i));
    }
}

/// The state transition of a successful breakpoint registration: the id
/// handed out is the current counter, the counter advances saturating, and
/// the file's tracked line set gains the line.
pub open spec fn spec_set_breakpoint_ok(
    s0: DebugSession,
    s1: DebugSession,
    file: Seq<char>,
    line: u32,
    id: BreakpointId,
) -> bool {
    &&& id == s0.spec_next_breakpoint_id()
    &&& s1.spec_next_breakpoint_id() == sat_inc(s0.spec_next_breakpoint_id())
    &&& s1.spec_file_lines(file) == insert_line(s0.spec_file_lines(file), line as i64)
}

/// The debug-session state machine.
pub struct DebugSession {
    thread_id: i64,
    next_breakpoint_id: BreakpointId,
    file_breakpoints: Vec<(String, Vec<i64>)>,
    watch_expressions: Vec<String>,
    program: String,
}

impl DebugSession {
    /// The currently selected thread (at least 1).
    pub closed spec fn spec_thread_id(self) -> i64 {
        self.thread_id
    }

    /// The id the next successful breakpoint registration returns.
    pub closed spec fn spec_next_breakpoint_id(self) -> BreakpointId {
        self.next_breakpoint_id
    }

    /// The registered watch expressions, in first-registration order.
    pub closed spec fn spec_watches(self) -> Seq<String> {
        self.watch_expressions@
    }

    /// The program path this session was configured with.
    pub closed spec fn spec_program(self) -> Seq<char> {
        self.program@
    }

    /// The ordered line set tracked for a file; empty when the file has no
    /// breakpoints.
    pub closed spec fn spec_file_lines(self, file: Seq<char>) -> Seq<i64> {
        file_lines_of(self.file_breakpoints@, file)
    }

    /// Internal invariant: the thread id and the breakpoint counter are at
    /// least 1, file entries have distinct names and strictly sorted line
    /// sets, and watch expressions are trimmed, non-empty and distinct.
    pub closed spec fn wf(self) -> bool {
        &&& self.thread_id >= 1
        &&& self.next_breakpoint_id >= 1
        &&& forall|i: int, j: int|
            #![trigger self.file_breakpoints@[i], self.file_breakpoints@[j]]
            0 <= i < j < self.file_breakpoints@.len() ==> self.file_breakpoints@[i].0@
                != self.file_breakpoints@[j].0@
        &&& forall|i: int|
            0 <= i < self.file_breakpoints@.len() ==> sorted_strict(
                #[trigger] self.file_breakpoints@[i].1@,
            )
        &&& forall|i: int|
            0 <= i < self.watch_expressions@.len() ==> trimmed(
                #[trigger] self.watch_expressions@[i]@,
            ) == self.watch_expressions@[i]@ && self.watch_expressions@[i]@.len() > 0
        &&& forall|i: int, j: int|
            #![trigger self.watch_expressions@[i], self.watch_expressions@[j]]
            0 <= i < j < self.watch_expressions@.len() ==> self.watch_expressions@[i]@
                != self.watch_expressions@[j]@
    }

    /// Every tracked line set is strictly sorted.
    pub proof fn lemma_file_lines_sorted(self, file: Seq<char>)
        requires
            self.wf(),
        ensures
            sorted_strict(self.spec_file_lines(file)),
    {
        lemma_file_lines_of_cases(self.file_breakpoints@, file);
        if self.spec_file_lines(file) != Seq::<i64>::empty() {
        } else {
            assert(sorted_strict(Seq::<i64>::empty()));
        }
    }

    /// A fresh session: thread 1 selected, breakpoint ids start at 1, no
    /// breakpoints, no watches.
    pub fn new(program: String) -> (r: DebugSession)
        ensures
            r.wf(),
            r.spec_thread_id() == 1,
            r.spec_next_breakpoint_id() == 1,
            r.spec_watches() == Seq::<String>::empty(),
            forall|f: Seq<char>| #[trigger] r.spec_file_lines(f) == Seq::<i64>::empty(),
            r.spec_program() == program@,
    {
        let r = DebugSession {
            thread_id: 1,
            next_breakpoint_id: 1,
            file_breakpoints: Vec::new(),
            watch_expressions: Vec::new(),
            program,
        };
        proof {
            assert(r.watch_expressions@ =~= Seq::<String>::empty());
        }
        r
    }

    /// The program path bound to this session.
    pub fn program_path(&self) -> (r: &String)
        ensures
            r@ == self.spec_program(),
    {
        &self.program
    }

    /// The currently selected thread id.
    pub fn selected_thread(&self) -> (r: i64)
        ensures
            r == self.spec_thread_id(),
    {
        self.thread_id
    }

    /// Select the active thread, clamped to at least 1; the id is not
    /// validated against the threads the backend knows.
    pub fn select_thread(&mut self, thread_id: i64)
        requires
            old(self).wf(),
        ensures
            final(self).wf(),
            final(self).spec_thread_id() == if thread_id >= 1 {
                thread_id
            } else {
                1
            },
            final(self).spec_next_breakpoint_id() == old(self).spec_next_breakpoint_id(),
            final(self).spec_watches() == old(self).spec_watches(),
            final(self).spec_program() == old(self).spec_program(),
            forall|f: Seq<char>|
                #[trigger] final(self).spec_file_lines(f) == old(self).spec_file_lines(f),
    {
        if thread_id >= 1 {
            self.thread_id = thread_id;
        } else {
            self.thread_id = 1;
        }
    }

    /// Report the outcome of the backend connect call.
    pub fn connect_debugserver(&self, outcome: Result<(), String>) -> (r: Result<
        (),
        DebugSessionError,
    >)
        ensures
            outcome_matches(r, outcome),
    {
        match outcome {
            Ok(u) => Ok(u),
            Err(m) => Err(DebugSessionError::Backend(m)),
        }
    }

    /// Report the outcome of the backend disconnect call.
    pub fn disconnect(&self, outcome: Result<(), String>) -> (r: Result<(), DebugSessionError>)
        ensures
            outcome_matches(r, outcome),
    {
        match outcome {
            Ok(u) => Ok(u),
            Err(m) => Err(DebugSessionError::Backend(m)),
        }
    }

    /// Report the outcome of the backend continue call.
    pub fn continue_execution(&self, outcome: Result<Option<StopRecord>, String>) -> (r: Result<
        Option<SessionStop>,
        DebugSessionError,
    >)
        ensures
            stop_outcome_matches(r, outcome),
    {
        map_stop_outcome(outcome)
    }

    /// Report the outcome of the backend step-over call.
    pub fn next(&self, outcome: Result<Option<StopRecord>, String>) -> (r: Result<
        Option<SessionStop>,
        DebugSessionError,
    >)
        ensures
            stop_outcome_matches(r, outcome),
    {
        map_stop_outcome(outcome)
    }

    /// Report the outcome of the backend step-in call.
    pub fn step_in(&self, outcome: Result<Option<StopRecord>, String>) -> (r: Result<
        Option<SessionStop>,
        DebugSessionError,
    >)
        ensures
            stop_outcome_matches(r, outcome),
    {
        map_stop_outcome(outcome)
    }

    /// Turn the backend's frame records for the selected thread into frames,
    /// innermost first.
    pub fn stacktrace(&self, values: &Vec<JsonValue>) -> (r: Vec<Frame>)
        ensures
            r@.len() == values@.len(),
            forall|i: int|
                0 <= i < values@.len() ==> frame_matches(#[trigger] r@[i], i, values@[i]),
    {
        let mut out: Vec<Frame> = Vec::new();
        let mut i: usize = 0;
        while i < values.len()
            invariant
                i <= values@.len(),
                out@.len() == i,
                forall|k: int|
                    0 <= k < i ==> frame_matches(#[trigger] out@[k], k, values@[k]),
            decreases values@.len() - i,
        {
            out.push(Frame::from_backend_value(i, &values[i]));
            i = i + 1;
        }
        out
    }

    /// Turn the backend's variable records for a reference into variables.
    pub fn variables_for_reference(&self, values: &Vec<JsonValue>) -> (r: Vec<Variable>)
        ensures
            r@.len() == values@.len(),
            forall|i: int|
                0 <= i < values@.len() ==> variable_matches(#[trigger] r@[i], values@[i]),
    {
        let mut out: Vec<Variable> = Vec::new();
        let mut i: usize = 0;
        while i < values.len()
            invariant
                i <= values@.len(),
                out@.len() == i,
                forall|k: int| 0 <= k < i ==> variable_matches(#[trigger] out@[k], values@[k]),
            decreases values@.len() - i,
        {
            out.push(Variable::from_backend_value(&values[i]));
            i = i + 1;
        }
        out
    }

    /// The locals: the variables under the reserved locals reference.
    pub fn locals(&self, values: &Vec<JsonValue>) -> (r: Vec<Variable>)
        ensures
            r@.len() == values@.len(),
            forall|i: int|
                0 <= i < values@.len() ==> variable_matches(#[trigger] r@[i], values@[i]),
    {
        self.variables_for_reference(values)
    }

    /// The full line set the backend must be sent if `line` is registered
    /// for `file` now: the tracked set with `line` inserted, never the new
    /// line alone.
    pub fn breakpoint_sync_lines(&self, file: &str, line: u32) -> (r: Vec<i64>)
        requires
            self.wf(),
        ensures
            r@ == insert_line(self.spec_file_lines(file@), line as i64),
    {
        proof {
            self.lemma_file_lines_sorted(file@);
        }
        let mut out: Vec<i64> = Vec::new();
        let mut idx: usize = 0;
        while idx < self.file_breakpoints.len()
            invariant
                idx <= self.file_breakpoints@.len(),
                forall|j: int| 0 <= j < idx ==> self.file_breakpoints@[j].0@ != file@,
            ensures
                idx <= self.file_breakpoints@.len(),
                forall|j: int| 0 <= j < idx ==> self.file_breakpoints@[j].0@ != file@,
                idx == self.file_breakpoints@.len() || self.file_breakpoints@[idx as int].0@
                    == file@,
            decreases self.file_breakpoints@.len() - idx,
        {
            if str_eq(self.file_breakpoints[idx].0.as_str(), file) {
                break ;
            }
            idx = idx + 1;
        }
        proof {
            lemma_file_lines_skip(self.file_breakpoints@, file@, idx as int);
        }
        if idx < self.file_breakpoints.len() {
            proof {
                assert(self.file_breakpoints@.skip(idx as int)[0]
                    == self.file_breakpoints@[idx as int]);
            }
            let src = &self.file_breakpoints[idx].1;
            let mut k: usize = 0;
            while k < src.len()
                invariant
                    k <= src@.len(),
                    out@ =~= src@.subrange(0, k as int),
                decreases src@.len() - k,
            {
                out.push(src[k]);
                k = k + 1;
            }
            proof {
                assert(out@ =~= src@);
            }
        } else {
            proof {
                assert(self.file_breakpoints@.skip(idx as int).len() == 0);
            }
        }
        insert_sorted(&mut out, line as i64);
        out
    }

    /// Register `line` for `file` and report the outcome of the full-set
    /// backend sync.  The line is tracked either way; a breakpoint id is
    /// handed out only when the sync succeeded.
    pub fn set_breakpoint(&mut self, file: &str, line: u32, sync: Result<(), String>) -> (r:
        Result<Breakpoint, DebugSessionError>)
        requires
            old(self).wf(),
        ensures
            final(self).wf(),
            final(self).spec_file_lines(file@) == insert_line(
                old(self).spec_file_lines(file@),
                line as i64,
            ),
            forall|f: Seq<char>|
                f != file@ ==> #[trigger] final(self).spec_file_lines(f) == old(
                    self,
                ).spec_file_lines(f),
            final(self).spec_watches() == old(self).spec_watches(),
            final(self).spec_thread_id() == old(self).spec_thread_id(),
            final(self).spec_program() == old(self).spec_program(),
            match sync {
                Ok(u) => r matches Ok(bp) && bp.file@ == file@ && bp.line == line
                    && spec_set_breakpoint_ok(*old(self), *final(self), file@, line, bp.id),
                Err(m) => ({
                    &&& r matches Err(DebugSessionError::Backend(b)) && b@ == m@
                    &&& final(self).spec_next_breakpoint_id() == old(
                        self,
                    ).spec_next_breakpoint_id()
                }),
            },
    {
        let ghost entries0 = self.file_breakpoints@;
        let mut idx: usize = 0;
        while idx < self.file_breakpoints.len()
            invariant
                *self == *old(self),
                idx <= self.file_breakpoints@.len(),
                forall|j: int| 0 <= j < idx ==> self.file_breakpoints@[j].0@ != file@,
            ensures
                *self == *old(self),
                idx <= self.file_breakpoints@.len(),
                forall|j: int| 0 <= j < idx ==> self.file_breakpoints@[j].0@ != file@,
                idx == self.file_breakpoints@.len() || self.file_breakpoints@[idx as int].0@
                    == file@,
            decreases self.file_breakpoints@.len() - idx,
        {
            if str_eq(self.file_breakpoints[idx].0.as_str(), file) {
                break ;
            }
            idx = idx + 1;
        }
        proof {
            lemma_file_lines_skip(entries0, file@, idx as int);
        }
        if idx < self.file_breakpoints.len() {
            proof {
                assert(entries0.skip(idx as int)[0] == entries0[idx as int]);
            }
            let entry = &mut self.file_breakpoints[idx];
            insert_sorted(&mut entry.1, line as i64);
            proof {
                let e2 = (entries0[idx as int].0, final(entry).1);
                assert(self.file_breakpoints@ == entries0.update(idx as int, e2));
                assert forall|f: Seq<char>| true implies #[trigger] file_lines_of(
                    self.file_breakpoints@,
                    f,
                ) == if f == file@ {
                    insert_line(entries0[idx as int].1@, line as i64)
                } else {
                    file_lines_of(entries0, f)
                } by {
                    lemma_file_lines_update(entries0, idx as int, e2, f);
                }
            }
        } else {
            let mut nl: Vec<i64> = Vec::new();
            nl.push(line as i64);
            self.file_breakpoints.push((file.to_owned(), nl));
            proof {
                let e = (self.file_breakpoints@.last().0, self.file_breakpoints@.last().1);
                assert(insert_line(Seq::<i64>::empty(), line as i64) =~= seq![line as i64]);
                assert forall|f: Seq<char>| true implies #[trigger] file_lines_of(
                    self.file_breakpoints@,
                    f,
                ) == if f == file@ {
                    insert_line(Seq::<i64>::empty(), line as i64)
                } else {
                    file_lines_of(entries0, f)
                } by {
                    assert(self.file_breakpoints@ == entries0.push(
                        self.file_breakpoints@.last(),
                    ));
                    lemma_file_lines_push(entries0, self.file_breakpoints@.last(), f);
                }
                assert(self.file_breakpoints@.last().1@ == seq![line as i64]);
            }
        }
        proof {
            assert(sorted_strict(self.spec_file_lines(file@))) by {
                lemma_insert_line_props(old(self).spec_file_lines(file@), line as i64);
                old(self).lemma_file_lines_sorted(file@);
            }
        }
        match sync {
            Ok(u) => {
                let id = self.next_breakpoint_id;
                if self.next_breakpoint_id != u32::MAX {
                    self.next_breakpoint_id = self.next_breakpoint_id + 1;
                }
                Ok(Breakpoint { id, file: file.to_owned(), line })
            },
            Err(m) => Err(DebugSessionError::Backend(m)),
        }
    }

    /// Evaluate an expression against the current locals: an exact,
    /// case-sensitive match on a variable name yields that variable's value
    /// and type; anything else is unsupported.
    pub fn evaluate(&self, locals: &Vec<Variable>, expression: &str) -> (r: Result<
        EvalResult,
        DebugSessionError,
    >)
        ensures
            trimmed(expression@).len() == 0 ==> (r matches Err(
                DebugSessionError::UnsupportedExpression(e),
            ) && e@ == expression@),
            trimmed(expression@).len() > 0 ==> match find_local(locals@, trimmed(expression@)) {
                Some(v) => r matches Ok(res) && res.result@ == v.value@ && res.ty@ == v.ty@,
                None => r matches Err(DebugSessionError::UnsupportedExpression(e)) && e@
                    == expression@,
            },
    {
        let t = trim_str(expression);
        if t.unicode_len() == 0 {
            return Err(DebugSessionError::UnsupportedExpression(expression.to_owned()));
        }
        let mut i: usize = 0;
        while i < locals.len()
            invariant
                i <= locals@.len(),
                t@ == trimmed(expression@),
                t@.len() > 0,
                forall|k: int| 0 <= k < i ==> locals@[k].name@ != t@,
            decreases locals@.len() - i,
        {
            if str_eq(locals[i].name.as_str(), t) {
                proof {
                    lemma_find_local_skip(locals@, t@, i as int);
                    assert(locals@.skip(i as int)[0] == locals@[i as int]);
                }
                return Ok(
                    EvalResult {
                        result: locals[i].value.clone(),
                        ty: locals[i].ty.clone(),
                    },
                );
            }
            i = i + 1;
        }
        proof {
            lemma_find_local_skip(locals@, t@, i as int);
            assert(locals@.skip(i as int).len() == 0);
        }
        Err(DebugSessionError::UnsupportedExpression(expression.to_owned()))
    }

    /// Identical to [`DebugSession::evaluate`].
    pub fn evaluate_swift(&self, locals: &Vec<Variable>, expression: &str) -> (r: Result<
        EvalResult,
        DebugSessionError,
    >)
        ensures
            trimmed(expression@).len() == 0 ==> (r matches Err(
                DebugSessionError::UnsupportedExpression(e),
            ) && e@ == expression@),
            trimmed(expression@).len() > 0 ==> match find_local(locals@, trimmed(expression@)) {
                Some(v) => r matches Ok(res) && res.result@ == v.value@ && res.ty@ == v.ty@,
                None => r matches Err(DebugSessionError::UnsupportedExpression(e)) && e@
                    == expression@,
            },
    {
        self.evaluate(locals, expression)
    }

    /// Evaluate every registered watch expression against the locals; the
    /// whole call fails on the first expression that resolves to no local.
    pub fn evaluate_watch_expressions(&self, locals: &Vec<Variable>) -> (r: Result<
        Vec<WatchValue>,
        DebugSessionError,
    >)
        requires
            self.wf(),
        ensures
            match first_unresolved(self.spec_watches(), locals@) {
                Some(e) => r matches Err(DebugSessionError::UnsupportedExpression(x)) && x@ == e,
                None => r matches Ok(vs) && vs@.len() == self.spec_watches().len() && forall|
                    i: int,
                |
                    0 <= i < vs@.len() ==> watch_value_matches(
                        #[trigger] vs@[i],
                        self.spec_watches()[i],
                        locals@,
                    ),
            },
    {
        let mut out: Vec<WatchValue> = Vec::new();
        let mut i: usize = 0;
        while i < self.watch_expressions.len()
            invariant
                self.wf(),
                i <= self.watch_expressions@.len(),
                out@.len() == i,
                forall|k: int|
                    0 <= k < i ==> find_local(
                        locals@,
                        trimmed(#[trigger] self.watch_expressions@[k]@),
                    ) is Some,
                forall|k: int|
                    0 <= k < i ==> watch_value_matches(
                        #[trigger] out@[k],
                        self.watch_expressions@[k],
                        locals@,
                    ),
            decreases self.watch_expressions@.len() - i,
        {
            let w = &self.watch_expressions[i];
            let res = self.evaluate(locals, w.as_str());
            match res {
                Ok(value) => {
                    out.push(WatchValue { expression: w.clone(), result: value });
                },
                Err(e) => {
                    proof {
                        lemma_first_unresolved_skip(self.watch_expressions@, locals@, i as int);
                        assert(self.watch_expressions@.skip(i as int)[0]
                            == self.watch_expressions@[i as int]);
                    }
                    return Err(e);
                },
            }
            i = i + 1;
        }
        proof {
            lemma_first_unresolved_skip(self.watch_expressions@, locals@, i as int);
            assert(self.watch_expressions@.skip(i as int).len() == 0);
        }
        Ok(out)
    }

    /// Register a watch expression (once: re-registering is a no-op), then
    /// evaluate the whole watch list against the locals.  An empty
    /// expression is unsupported and registers nothing.
    pub fn add_watch_expression(&mut self, locals: &Vec<Variable>, expression: &str) -> (r:
        Result<Vec<WatchValue>, DebugSessionError>)
        requires
            old(self).wf(),
        ensures
            final(self).wf(),
            final(self).spec_thread_id() == old(self).spec_thread_id(),
            final(self).spec_next_breakpoint_id() == old(self).spec_next_breakpoint_id(),
            final(self).spec_program() == old(self).spec_program(),
            forall|f: Seq<char>|
                #[trigger] final(self).spec_file_lines(f) == old(self).spec_file_lines(f),
            trimmed(expression@).len() == 0 ==> final(self).spec_watches() == old(
                self,
            ).spec_watches() && (r matches Err(DebugSessionError::UnsupportedExpression(e)) && e@
                == expression@),
            trimmed(expression@).len() > 0 ==> ({
                &&& watch_views(final(self).spec_watches()) == spec_register_watch(
                    watch_views(old(self).spec_watches()),
                    trimmed(expression@),
                )
                &&& match first_unresolved(final(self).spec_watches(), locals@) {
                    Some(e) => r matches Err(DebugSessionError::UnsupportedExpression(x)) && x@
                        == e,
                    None => r matches Ok(vs) && vs@.len() == final(self).spec_watches().len()
                        && forall|i: int|
                        0 <= i < vs@.len() ==> watch_value_matches(
                            #[trigger] vs@[i],
                            final(self).spec_watches()[i],
                            locals@,
                        ),
                }
            }),
    {
        let t = trim_str(expression);
        if t.unicode_len() == 0 {
            return Err(DebugSessionError::UnsupportedExpression(expression.to_owned()));
        }
        let ghost ws0 = self.watch_expressions@;
        let mut present = false;
        let mut i: usize = 0;
        while i < self.watch_expressions.len()
            invariant
                *self == *old(self),
                i <= self.watch_expressions@.len(),
                t@ == trimmed(expression@),
                present == exists|k: int|
                    0 <= k < i && (#[trigger] self.watch_expressions@[k]@) == t@,
            decreases self.watch_expressions@.len() - i,
        {
            if str_eq(self.watch_expressions[i].as_str(), t) {
                present = true;
            }
            i = i + 1;
        }
        proof {
            assert(watch_views(ws0).len() == ws0.len());
            assert(forall|k: int|
                0 <= k < ws0.len() ==> watch_views(ws0)[k] == #[trigger] ws0[k]@);
            if present {
                assert(watch_views(ws0).contains(t@));
            } else {
                if watch_views(ws0).contains(t@) {
                    let k = choose|k: int|
                        0 <= k < watch_views(ws0).len() && watch_views(ws0)[k] == t@;
                    assert(ws0[k]@ == t@);
                }
            }
        }
        if !present {
            proof {
                lemma_trimmed_idempotent(expression@);
            }
            self.watch_expressions.push(t.to_owned());
            proof {
                assert(watch_views(self.watch_expressions@) =~= watch_views(ws0).push(t@));
            }
        } else {
            proof {
                assert(watch_views(self.watch_expressions@) == watch_views(ws0));
            }
        }
        self.evaluate_watch_expressions(locals)
    }
}

/// The watch entry `wv` pairs the stored expression with its evaluation
/// against `locals`.
pub open spec fn watch_value_matches(wv: WatchValue, w: String, locals: Seq<Variable>) -> bool {
    &&& wv.expression@ == w@
    &&& match find_local(locals, trimmed(w@)) {
        Some(v) => wv.result.result@ == v.value@ && wv.result.ty@ == v.ty@,
        None => false,
    }
}

fn map_stop_outcome(outcome: Result<Option<StopRecord>, String>) -> (r: Result<
    Option<SessionStop>,
    DebugSessionError,
>)
    ensures
        stop_outcome_matches(r, outcome),
{
    match outcome {
        Ok(Some(rec)) => Ok(Some(SessionStop::of_record(rec))),
        Ok(None) => Ok(None),
        Err(m) => Err(DebugSessionError::Backend(m)),
    }
}

/// Re-sending the full set: registering line `l1` and then line `l2` for
/// the same file leaves the file's tracked set — which is exactly what the
/// next sync of that file carries — holding both lines and everything
/// tracked before, never `l2` alone.
pub proof fn lemma_full_set_sync(s0: DebugSession, file: Seq<char>, l1: i64, l2: i64)
    requires
        s0.wf(),
    ensures
        ({
            let lines0 = s0.spec_file_lines(file);
            let after_both = insert_line(insert_line(lines0, l1), l2);
            &&& after_both.contains(l1)
            &&& after_both.contains(l2)
            &&& forall|y: i64|
                after_both.contains(y) <==> (lines0.contains(y) || y == l1 || y == l2)
        }),
{
    let lines0 = s0.spec_file_lines(file);
    s0.lemma_file_lines_sorted(file);
    lemma_insert_line_props(lines0, l1);
    lemma_insert_line_props(insert_line(lines0, l1), l2);
}

/// Breakpoint ids start at 1 and strictly increase over successful
/// registrations — whatever files and lines are touched — as long as the
/// counter has not saturated.
pub proof fn lemma_breakpoint_ids_strictly_increase(
    s0: DebugSession,
    s1: DebugSession,
    s2: DebugSession,
    f1: Seq<char>,
    line1: u32,
    id1: BreakpointId,
    f2: Seq<char>,
    line2: u32,
    id2: BreakpointId,
)
    requires
        s0.wf(),
        s0.spec_next_breakpoint_id() < u32::MAX,
        spec_set_breakpoint_ok(s0, s1, f1, line1, id1),
        spec_set_breakpoint_ok(s1, s2, f2, line2, id2),
    ensures
        1 <= id1 < id2,
        s0.spec_next_breakpoint_id() == 1 ==> id1 == 1,
{
}

/// Registering the same watch expression twice registers it once, so the
/// watch list length counts the distinct trimmed expressions ever
/// registered.
pub proof fn lemma_watch_registration_idempotent(ws: Seq<Seq<char>>, t: Seq<char>)
    ensures
        spec_register_watch(spec_register_watch(ws, t), t) == spec_register_watch(ws, t),
        spec_register_watch(ws, t).len() == if ws.contains(t) {
            ws.len()
        } else {
            ws.len() + 1
        },
{
    let w1 = spec_register_watch(ws, t);
    if !ws.contains(t) {
        assert(w1[ws.len() as int] == t);
        assert(w1.contains(t));
    }
}

} // verus!
