//! The resolved server configuration and the read-only decisions made from
//! it: the health snapshot and the strict-mode escalation for missing
//! line-level debug information.

use vstd::prelude::*;
use crate::json::JsonValue;

verus! {

/// The resolved configuration of one server run.  Plain data; the
/// command-line surface that fills it lives outside.
pub struct Config {
    pub host: String,
    pub port: u16,
    pub debugserver_port: u16,
    pub program: String,
    pub device: Option<String>,
    pub bundle_id: Option<String>,
    pub require_dwarf: bool,
    pub manage_bridge: bool,
    pub ios_llm_devicectl: String,
    pub ios_llm_devicectl_args: Vec<String>,
    pub state_file: Option<String>,
    pub app_bundle: Option<String>,
    pub enable_log_stream: bool,
    pub devicectl_bin: String,
    pub devicectl_subcommand: String,
    pub build_command: Option<Vec<String>>,
}

impl Config {
    /// The program path used for symbolication.
    pub fn program(&self) -> (r: &String)
        ensures
            r@ == self.program@,
    {
        &self.program
    }
}

/// An empty build-command list means no build command was configured.
pub fn normalize_build_command(cmds: Vec<String>) -> (r: Option<Vec<String>>)
    ensures
        cmds@.len() == 0 ==> r is None,
        cmds@.len() > 0 ==> r == Some(cmds),
{
    if cmds.len() == 0 {
        None
    } else {
        Some(cmds)
    }
}

/// What to do about missing line-level debug information.
#[derive(Debug, Clone, Copy, PartialEq, Eq, Structural)]
pub enum DwarfPolicy {
    /// Line info is present: start normally.
    Proceed,
    /// Line info is missing: warn, breakpoints may fail.
    WarnOnly,
    /// Line info is missing and strict mode is on: refuse to start.
    Fatal,
}

/// Missing line info is a warning by default and fatal only under the
/// explicit strict-mode setting.
pub fn dwarf_policy(has_line_info: bool, require_dwarf: bool) -> (r: DwarfPolicy)
    ensures
        has_line_info ==> r == DwarfPolicy::Proceed,
        !has_line_info && !require_dwarf ==> r == DwarfPolicy::WarnOnly,
        !has_line_info && require_dwarf ==> r == DwarfPolicy::Fatal,
{
    if has_line_info {
        DwarfPolicy::Proceed
    } else if require_dwarf {
        DwarfPolicy::Fatal
    } else {
        DwarfPolicy::WarnOnly
    }
}

/// The read-only health snapshot: the configured program, ports, device and
/// bundle identifiers — no side effects.
pub fn health_snapshot(config: &Config) -> (r: JsonValue)
    ensures
        r is Object,
        r->Object_0@.len() == 7,
        r->Object_0@[0].0@ == "ok"@,
        r->Object_0@[0].1 == JsonValue::Bool(true),
        r->Object_0@[1].0@ == "program"@,
        (r->Object_0@[1].1 matches JsonValue::Text(t) && t@ == config.program@),
        r->Object_0@[2].0@ == "debugserverPort"@,
        r->Object_0@[2].1 == JsonValue::Int(config.debugserver_port as i64),
        r->Object_0@[3].0@ == "device"@,
        match config.device {
            Some(d) => r->Object_0@[3].1 matches JsonValue::Text(t) && t@ == d@,
            None => r->Object_0@[3].1 is Null,
        },
        r->Object_0@[4].0@ == "bundleId"@,
        match config.bundle_id {
            Some(b) => r->Object_0@[4].1 matches JsonValue::Text(t) && t@ == b@,
            None => r->Object_0@[4].1 is Null,
        },
        r->Object_0@[5].0@ == "host"@,
        (r->Object_0@[5].1 matches JsonValue::Text(t) && t@ == config.host@),
        r->Object_0@[6].0@ == "port"@,
        r->Object_0@[6].1 == JsonValue::Int(config.port as i64),
{
    let mut entries: Vec<(String, JsonValue)> = Vec::new();
    entries.push((String::from_str("ok"), JsonValue::Bool(true)));
    entries.push((String::from_str("program"), JsonValue::Text(config.program.clone())));
    entries.push(
        (String::from_str("debugserverPort"), JsonValue::Int(config.debugserver_port as i64)),
    );
    let device = match &config.device {
        Some(d) => JsonValue::Text(d.clone()),
        None => JsonValue::Null,
    };
    entries.push((String::from_str("device"), device));
    let bundle = match &config.bundle_id {
        Some(b) => JsonValue::Text(b.clone()),
        None => JsonValue::Null,
    };
    entries.push((String::from_str("bundleId"), bundle));
    entries.push((String::from_str("host"), JsonValue::Text(config.host.clone())));
    entries.push((String::from_str("port"), JsonValue::Int(config.port as i64)));
    JsonValue::Object(entries)
}

} // verus!
