//! Decisions of the device-side launcher: the argument vectors handed to
//! the external device tool, the probing of its JSON launch output for the
//! process id and the app binary path, and the session-metadata record.
//! Spawning, file I/O and the JSON parsing itself happen outside; this
//! module works on plain values.

use vstd::prelude::*;
use crate::json::{JsonValue, spec_get, spec_as_text, spec_find_i64};
use crate::text::{string_views, trimmed, trim_str, dec_chars_signed, i64_to_dec, u64_to_dec, dec_chars};

verus! {

/// The wrapper subcommand, when one is configured: `[]` or `[sub]`.
pub open spec fn spec_base_args(subcommand: Seq<char>) -> Seq<Seq<char>> {
    if subcommand.len() == 0 {
        Seq::empty()
    } else {
        seq![subcommand]
    }
}

/// The leading arguments selecting the wrapper's subcommand.
pub fn base_args(subcommand: &str) -> (r: Vec<String>)
    ensures
        string_views(r@) == spec_base_args(subcommand@),
{
    let mut out: Vec<String> = Vec::new();
    if subcommand.unicode_len() != 0 {
        out.push(subcommand.to_owned());
    }
    proof {
        assert(string_views(out@) =~= spec_base_args(subcommand@));
    }
    out
}

/// The argument vector that installs an app bundle on the device.
pub fn install_command_args(subcommand: &str, device: &str, app_path: &str) -> (r: Vec<String>)
    ensures
        string_views(r@) == spec_base_args(subcommand@) + seq!["device"@, "install"@, "--device"@, device@, app_path@],
{
    let mut out = base_args(subcommand);
    out.push(String::from_str("device"));
    out.push(String::from_str("install"));
    out.push(String::from_str("--device"));
    out.push(device.to_owned());
    out.push(app_path.to_owned());
    proof {
        assert(string_views(out@) =~= spec_base_args(subcommand@) + seq!["device"@, "install"@, "--device"@, device@, app_path@]);
    }
    out
}

/// The argument vector that launches the app suspended, with the extra
/// launch arguments in the middle and the JSON output path before the
/// bundle id.
pub fn launch_command_args(
    subcommand: &str,
    device: &str,
    launch_args: &Vec<String>,
    json_path: &str,
    bundle_id: &str,
) -> (r: Vec<String>)
    ensures
        string_views(r@) == spec_base_args(subcommand@) + seq!["device"@, "process"@, "launch"@, "--device"@, device@, "--start-stopped"@, "--terminate-existing"@]
            + string_views(launch_args@) + seq!["-j"@, json_path@, bundle_id@],
{
    let mut out = base_args(subcommand);
    out.push(String::from_str("device"));
    out.push(String::from_str("process"));
    out.push(String::from_str("launch"));
    out.push(String::from_str("--device"));
    out.push(device.to_owned());
    out.push(String::from_str("--start-stopped"));
    out.push(String::from_str("--terminate-existing"));
    let mut i: usize = 0;
    let ghost mid = out@;
    while i < launch_args.len()
        invariant
            i <= launch_args@.len(),
            out@.len() == mid.len() + i,
            forall|k: int| 0 <= k < mid.len() ==> out@[k] == mid[k],
            forall|k: int|
                mid.len() <= k < out@.len() ==> (#[trigger] out@[k]@) == launch_args@[k
                    - mid.len()]@,
        decreases launch_args@.len() - i,
    {
        out.push(launch_args[i].clone());
        i = i + 1;
    }
    let ghost full = out@;
    out.push(String::from_str("-j"));
    out.push(json_path.to_owned());
    out.push(bundle_id.to_owned());
    proof {
        let rhs = spec_base_args(subcommand@) + seq!["device"@, "process"@, "launch"@, "--device"@, device@, "--start-stopped"@, "--terminate-existing"@]
            + string_views(launch_args@) + seq!["-j"@, json_path@, bundle_id@];
        assert(out@.len() == mid.len() + launch_args@.len() + 3);
        assert(mid.len() == spec_base_args(subcommand@).len() + 7);
        assert(full.len() == mid.len() + launch_args@.len());
        assert forall|k: int| 0 <= k < out@.len() implies string_views(out@)[k] == rhs[k] by {
            if k < mid.len() {
                assert(out@[k] == full[k]);
                assert(full[k] == mid[k]);
            } else if k < mid.len() + launch_args@.len() {
                assert(out@[k] == full[k]);
                assert(full[k]@ == launch_args@[k - mid.len()]@);
                assert(rhs[k] == string_views(launch_args@)[k - mid.len()]);
            }
        }
        assert(string_views(out@) =~= rhs);
    }
    out
}

/// The argument vector that runs the on-device debug stub attached to the
/// suspended process.
pub fn debugserver_command_args(
    subcommand: &str,
    device: &str,
    debugserver_path: &str,
    pid: i64,
) -> (r: Vec<String>)
    ensures
        string_views(r@) == spec_base_args(subcommand@) + seq!["device"@, "process"@, "launch"@, "--device"@, device@, "--console"@, debugserver_path@, "stdio"@, "--attach="@ + dec_chars_signed(pid as int)],
{
    let mut out = base_args(subcommand);
    out.push(String::from_str("device"));
    out.push(String::from_str("process"));
    out.push(String::from_str("launch"));
    out.push(String::from_str("--device"));
    out.push(device.to_owned());
    out.push(String::from_str("--console"));
    out.push(debugserver_path.to_owned());
    out.push(String::from_str("stdio"));
    let mut attach = String::from_str("--attach=");
    let digits = i64_to_dec(pid);
    attach.append(digits.as_str());
    out.push(attach);
    proof {
        assert(string_views(out@) =~= spec_base_args(subcommand@) + seq!["device"@, "process"@, "launch"@, "--device"@, device@, "--console"@, debugserver_path@, "stdio"@, "--attach="@ + dec_chars_signed(pid as int)]);
    }
    out
}

/// The argument vector that streams the device log.
pub fn log_stream_args(subcommand: &str, device: &str) -> (r: Vec<String>)
    ensures
        string_views(r@) == spec_base_args(subcommand@) + seq!["device"@, "log"@, "stream"@, "--device"@, device@],
{
    let mut out = base_args(subcommand);
    out.push(String::from_str("device"));
    out.push(String::from_str("log"));
    out.push(String::from_str("stream"));
    out.push(String::from_str("--device"));
    out.push(device.to_owned());
    proof {
        assert(string_views(out@) =~= spec_base_args(subcommand@) + seq!["device"@, "log"@, "stream"@, "--device"@, device@]);
    }
    out
}

/// The process id in the launch output: `processIdentifier` anywhere in the
/// document, else `pid`.
pub open spec fn spec_extract_pid(v: JsonValue) -> Option<i64> {
    match spec_find_i64(v, "processIdentifier"@) {
        Some(n) => Some(n),
        None => spec_find_i64(v, "pid"@),
    }
}

/// Probe the launch output for the process id.
pub fn extract_process_identifier(value: &JsonValue) -> (r: Option<i64>)
    ensures
        r == spec_extract_pid(*value),
{
    match value.find_i64("processIdentifier") {
        Some(n) => Some(n),
        None => value.find_i64("pid"),
    }
}

/// The trimmed text under `key`, when the member is a text node.
pub open spec fn binary_text_at(v: JsonValue, key: Seq<char>) -> Option<Seq<char>> {
    match spec_get(v, key) {
        Some(x) => match spec_as_text(x) {
            Some(s) => Some(trimmed(s)),
            None => None,
        },
        None => None,
    }
}

/// A direct member of this object naming the app binary, probed under the
/// fixed priority list of key names, first match wins.
pub open spec fn direct_binary(v: JsonValue) -> Option<Seq<char>> {
    if binary_text_at(v, "app_binary"@) is Some {
        binary_text_at(v, "app_binary"@)
    } else if binary_text_at(v, "appBinary"@) is Some {
        binary_text_at(v, "appBinary"@)
    } else if binary_text_at(v, "executablePath"@) is Some {
        binary_text_at(v, "executablePath"@)
    } else if binary_text_at(v, "executableURL"@) is Some {
        binary_text_at(v, "executableURL"@)
    } else if binary_text_at(v, "appExecutable"@) is Some {
        binary_text_at(v, "appExecutable"@)
    } else {
        binary_text_at(v, "program"@)
    }
}

/// Depth-first search for the app binary path: on an object, the direct
/// keys win, then every member value is searched in order; arrays are
/// searched element by element.
pub open spec fn spec_extract_binary(v: JsonValue) -> Option<Seq<char>>
    decreases v,
{
    match v {
        JsonValue::Object(entries) => {
            if direct_binary(v) is Some {
                direct_binary(v)
            } else {
                extract_binary_entries(entries@)
            }
        },
        JsonValue::Array(items) => extract_binary_items(items@),
        _ => None,
    }
}

/// Search the member values of an object, in order.
pub open spec fn extract_binary_entries(entries: Seq<(String, JsonValue)>) -> Option<Seq<char>>
    decreases entries,
{
    if entries.len() == 0 {
        None
    } else {
        match spec_extract_binary(entries[0].1) {
            Some(s) => Some(s),
            None => extract_binary_entries(entries.drop_first()),
        }
    }
}

/// Search the elements of an array, in order.
pub open spec fn extract_binary_items(items: Seq<JsonValue>) -> Option<Seq<char>>
    decreases items,
{
    if items.len() == 0 {
        None
    } else {
        match spec_extract_binary(items[0]) {
            Some(s) => Some(s),
            None => extract_binary_items(items.drop_first()),
        }
    }
}

proof fn lemma_extract_entries_skip(entries: Seq<(String, JsonValue)>, i: int)
    requires
        0 <= i <= entries.len(),
        forall|k: int| 0 <= k < i ==> spec_extract_binary(#[trigger] entries[k].1) is None,
    ensures
        extract_binary_entries(entries) == extract_binary_entries(entries.skip(i)),
    decreases i,
{
    if i == 0 {
        assert(entries.skip(0) =~= entries);
    } else {
        lemma_extract_entries_skip(entries.drop_first(), i - 1);
        assert(entries.drop_first().skip(i - 1) =~= entries.skip(i));
    }
}

proof fn lemma_extract_items_skip(items: Seq<JsonValue>, i: int)
    requires
        0 <= i <= items.len(),
        forall|k: int| 0 <= k < i ==> spec_extract_binary(#[trigger] items[k]) is None,
    ensures
        extract_binary_items(items) == extract_binary_items(items.skip(i)),
    decreases i,
{
    if i == 0 {
        assert(items.skip(0) =~= items);
    } else {
        lemma_extract_items_skip(items.drop_first(), i - 1);
        assert(items.drop_first().skip(i - 1) =~= items.skip(i));
    }
}

/// The trimmed text under `key`, as [`binary_text_at`] describes.
fn binary_at(value: &JsonValue, key: &str) -> (r: Option<String>)
    ensures
        match r {
            Some(s) => binary_text_at(*value, key@) == Some(s@),
            None => binary_text_at(*value, key@) is None,
        },
{
    if let Some(x) = value.get(key) {
        if let Some(s) = x.as_str() {
            return Some(trim_str(s.as_str()).to_owned());
        }
    }
    None
}

/// Probe the launch output for the app binary path, as
/// [`spec_extract_binary`] describes.
pub fn extract_app_binary(value: &JsonValue) -> (r: Option<String>)
    ensures
        match r {
            Some(s) => spec_extract_binary(*value) == Some(s@),
            None => spec_extract_binary(*value) is None,
        },
    decreases *value,
{
    match value {
        JsonValue::Object(entries) => {
            if let Some(s) = binary_at(value, "app_binary") {
                return Some(s);
            }
            if let Some(s) = binary_at(value, "appBinary") {
                return Some(s);
            }
            if let Some(s) = binary_at(value, "executablePath") {
                return Some(s);
            }
            if let Some(s) = binary_at(value, "executableURL") {
                return Some(s);
            }
            if let Some(s) = binary_at(value, "appExecutable") {
                return Some(s);
            }
            if let Some(s) = binary_at(value, "program") {
                return Some(s);
            }
            let mut i: usize = 0;
            while i < entries.len()
                invariant
                    *value == JsonValue::Object(*entries),
                    direct_binary(*value) is None,
                    spec_extract_binary(*value) == extract_binary_entries(entries@),
                    i <= entries.len(),
                    forall|k: int|
                        0 <= k < i ==> spec_extract_binary(#[trigger] entries@[k].1) is None,
                decreases entries@.len() - i,
            {
                proof {
                    assert(decreases_to!(*value => *entries));
                    assert(decreases_to!(*entries => entries@));
                    assert(decreases_to!(entries@ => entries@[i as int]));
                    assert(decreases_to!(entries@[i as int] => entries@[i as int].1));
                }
                let r = extract_app_binary(&entries[i].1);
                if let Some(s) = r {
                    proof {
                        lemma_extract_entries_skip(entries@, i as int);
                        assert(entries@.skip(i as int)[0] == entries@[i as int]);
                    }
                    return Some(s);
                }
                i = i + 1;
            }
            proof {
                lemma_extract_entries_skip(entries@, i as int);
                assert(entries@.skip(i as int).len() == 0);
            }
            None
        },
        JsonValue::Array(items) => {
            let mut i: usize = 0;
            while i < items.len()
                invariant
                    *value == JsonValue::Array(*items),
                    i <= items.len(),
                    forall|k: int|
                        0 <= k < i ==> spec_extract_binary(#[trigger] items@[k]) is None,
                decreases items@.len() - i,
            {
                proof {
                    assert(decreases_to!(*value => *items));
                    assert(decreases_to!(*items => items@));
                    assert(decreases_to!(items@ => items@[i as int]));
                }
                let r = extract_app_binary(&items[i]);
                if let Some(s) = r {
                    proof {
                        lemma_extract_items_skip(items@, i as int);
                        assert(items@.skip(i as int)[0] == items@[i as int]);
                    }
                    return Some(s);
                }
                i = i + 1;
            }
            proof {
                lemma_extract_items_skip(items@, i as int);
                assert(items@.skip(i as int).len() == 0);
            }
            None
        },
        _ => None,
    }
}

/// The session-metadata record written after a successful launch:
/// `{device, bundle_id, listen_port, app_binary}`, with a null binary when
/// none was detected.
pub fn session_state_record(
    device: &str,
    bundle_id: &str,
    listen_port: u16,
    app_binary: Option<String>,
) -> (r: JsonValue)
    ensures
        r is Object,
        r->Object_0@.len() == 4,
        r->Object_0@[0].0@ == "device"@,
        (r->Object_0@[0].1 matches JsonValue::Text(t) && t@ == device@),
        r->Object_0@[1].0@ == "bundle_id"@,
        (r->Object_0@[1].1 matches JsonValue::Text(t) && t@ == bundle_id@),
        r->Object_0@[2].0@ == "listen_port"@,
        r->Object_0@[2].1 == JsonValue::Int(listen_port as i64),
        r->Object_0@[3].0@ == "app_binary"@,
        match app_binary {
            Some(p) => r->Object_0@[3].1 matches JsonValue::Text(t) && t@ == p@,
            None => r->Object_0@[3].1 is Null,
        },
{
    let mut entries: Vec<(String, JsonValue)> = Vec::new();
    entries.push((String::from_str("device"), JsonValue::text(device)));
    entries.push((String::from_str("bundle_id"), JsonValue::text(bundle_id)));
    entries.push((String::from_str("listen_port"), JsonValue::Int(listen_port as i64)));
    let binary = match app_binary {
        Some(p) => JsonValue::Text(p),
        None => JsonValue::Null,
    };
    entries.push((String::from_str("app_binary"), binary));
    JsonValue::Object(entries)
}

/// The name of the temporary JSON output file for one launch:
/// `ios_llm_<prefix>_<stamp>.json`.
pub fn temp_json_name(prefix: &str, stamp: u64) -> (r: String)
    ensures
        r@ == "ios_llm_"@ + prefix@ + "_"@ + dec_chars(stamp as nat) + ".json"@,
{
    let mut s = String::from_str("ios_llm_");
    s.append(prefix);
    s.append("_");
    let digits = u64_to_dec(stamp);
    s.append(digits.as_str());
    s.append(".json");
    proof {
        assert(s@ =~= "ios_llm_"@ + prefix@ + "_"@ + dec_chars(stamp as nat) + ".json"@);
    }
    s
}

} // verus!
