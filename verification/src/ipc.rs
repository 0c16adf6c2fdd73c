//! What is logged around each command the user interface invokes: the request
//! it belongs to, the lines written at its start and end, and the settings that
//! tune logging.
use vstd::prelude::*;

use crate::error::DbCommandError;
use crate::import::opt_text;
use crate::num::{dec, dec_int, fmt_i64, fmt_u64, parse_u64};
use crate::text::{
    ascii_lower, chars_of, chars_eq, concat_all, join_strs, split_on, string_of, str_texts,
    to_ascii_lower, trim, trim_chars,
};

verus! {

/// The request a command is running for, as set by the user interface.
#[derive(Debug, Clone)]
pub struct RequestContext {
    pub request_id: Option<String>,
}

impl RequestContext {
    /// A context with no request.
    pub fn new() -> (r: RequestContext)
        ensures
            r.request_id is None,
    {
        RequestContext { request_id: None }
    }
}

/// Records the request that the following commands run for.
pub fn set_request_id(ctx: &mut RequestContext, id: Option<String>)
    ensures
        final(ctx).request_id == id,
{
    ctx.request_id = id;
}

/// The request recorded, left in place.
pub fn peek_request_id(ctx: &RequestContext) -> (r: Option<String>)
    ensures
        opt_text(r) == opt_text(ctx.request_id),
{
    match &ctx.request_id {
        Some(s) => Some(s.clone()),
        None => None,
    }
}

/// Forgets the recorded request.
pub fn clear_request_id(ctx: &mut RequestContext)
    ensures
        final(ctx).request_id is None,
{
    ctx.request_id = None;
}

/// What a read of the request gives back: the id last set, until it is cleared.
pub proof fn law_request_id_read_back(id: Option<String>)
    ensures
        opt_text((RequestContext { request_id: id }).request_id) == opt_text(id),
{
}

/// The request part of a log line: ` rid=` and the id, or nothing.
pub open spec fn rid_text(rid: Option<Seq<char>>) -> Seq<char> {
    match rid {
        Some(r) => " rid="@ + r,
        None => Seq::empty(),
    }
}

/// The request part of a log line.
pub fn format_rid(rid: &Option<String>) -> (r: String)
    ensures
        r@ == rid_text(opt_text(*rid)),
{
    match rid {
        Some(r) => {
            let parts = [" rid=", r.as_str()];
            let s = join_strs(&parts);
            proof {
                reveal_with_fuel(concat_all, 3);
            }
            s
        },
        None => String::new(),
    }
}

/// The line logged when a command starts.
pub open spec fn start_line(command: Seq<char>, seq: u64, rid: Option<Seq<char>>) -> Seq<char> {
    "invoke_start seq="@ + dec(seq as nat) + rid_text(rid) + " command="@ + command
}

/// The line logged when a command succeeds.
pub open spec fn ok_line(command: Seq<char>, seq: u64, rid: Option<Seq<char>>, elapsed_ms: u64) -> Seq<
    char,
> {
    "invoke_ok seq="@ + dec(seq as nat) + rid_text(rid) + " command="@ + command + " elapsed_ms="@
        + dec(elapsed_ms as nat)
}

/// The line logged when a successful command took at least the slow threshold.
pub open spec fn slow_line(
    command: Seq<char>,
    seq: u64,
    rid: Option<Seq<char>>,
    elapsed_ms: u64,
    threshold_ms: u64,
) -> Seq<char> {
    "invoke_slow seq="@ + dec(seq as nat) + rid_text(rid) + " command="@ + command
        + " elapsed_ms="@ + dec(elapsed_ms as nat) + " threshold_ms="@ + dec(threshold_ms as nat)
}

/// The line logged when a command fails: the error's kind and its details.
pub open spec fn error_line(
    command: Seq<char>,
    seq: u64,
    rid: Option<Seq<char>>,
    elapsed_ms: u64,
    err: DbCommandError,
) -> Seq<char> {
    let head = "invoke_err seq="@ + dec(seq as nat) + rid_text(rid) + " command="@ + command
        + " elapsed_ms="@ + dec(elapsed_ms as nat);
    match err {
        DbCommandError::NotFound { entity, id } => head + " code=not_found entity="@ + entity@
            + " id="@ + dec_int(id as int),
        DbCommandError::Migration { version, message } => head + " code=migration version="@
            + dec_int(version as int) + " message="@ + message@,
        _ => head + " code="@ + err.code_text() + " message="@ + err.display_text(),
    }
}

fn num_text(n: u64) -> (r: String)
    ensures
        r@ == dec(n as nat),
{
    string_of(&fmt_u64(n))
}

fn int_text(n: i64) -> (r: String)
    ensures
        r@ == dec_int(n as int),
{
    string_of(&fmt_i64(n))
}

/// The line logged when a command starts.
pub fn start_log_line(command: &str, seq: u64, rid: &Option<String>) -> (r: String)
    ensures
        r@ == start_line(command@, seq, opt_text(*rid)),
{
    let s = num_text(seq);
    let rs = format_rid(rid);
    let parts = ["invoke_start seq=", s.as_str(), rs.as_str(), " command=", command];
    let line = join_strs(&parts);
    proof {
        reveal_with_fuel(concat_all, 6);
    }
    line
}

/// The line logged when a command succeeds.
pub fn ok_log_line(command: &str, seq: u64, rid: &Option<String>, elapsed_ms: u64) -> (r: String)
    ensures
        r@ == ok_line(command@, seq, opt_text(*rid), elapsed_ms),
{
    let s = num_text(seq);
    let rs = format_rid(rid);
    let e = num_text(elapsed_ms);
    let parts = [
        "invoke_ok seq=",
        s.as_str(),
        rs.as_str(),
        " command=",
        command,
        " elapsed_ms=",
        e.as_str(),
    ];
    let line = join_strs(&parts);
    proof {
        reveal_with_fuel(concat_all, 8);
    }
    line
}

/// The line logged when a successful command was slow.
pub fn slow_log_line(
    command: &str,
    seq: u64,
    rid: &Option<String>,
    elapsed_ms: u64,
    threshold_ms: u64,
) -> (r: String)
    ensures
        r@ == slow_line(command@, seq, opt_text(*rid), elapsed_ms, threshold_ms),
{
    let s = num_text(seq);
    let rs = format_rid(rid);
    let e = num_text(elapsed_ms);
    let t = num_text(threshold_ms);
    let parts = [
        "invoke_slow seq=",
        s.as_str(),
        rs.as_str(),
        " command=",
        command,
        " elapsed_ms=",
        e.as_str(),
        " threshold_ms=",
        t.as_str(),
    ];
    let line = join_strs(&parts);
    proof {
        reveal_with_fuel(concat_all, 10);
    }
    line
}

/// The line logged when a command fails.
pub fn error_log_line(
    command: &str,
    seq: u64,
    rid: &Option<String>,
    elapsed_ms: u64,
    err: &DbCommandError,
) -> (r: String)
    ensures
        r@ == error_line(command@, seq, opt_text(*rid), elapsed_ms, *err),
{
    let s = num_text(seq);
    let rs = format_rid(rid);
    let e = num_text(elapsed_ms);
    match err {
        DbCommandError::NotFound { entity, id } => {
            let i = int_text(*id);
            let parts = [
                "invoke_err seq=",
                s.as_str(),
                rs.as_str(),
                " command=",
                command,
                " elapsed_ms=",
                e.as_str(),
                " code=not_found entity=",
                entity.as_str(),
                " id=",
                i.as_str(),
            ];
            let line = join_strs(&parts);
            proof {
                reveal_with_fuel(concat_all, 12);
            }
            line
        },
        DbCommandError::Migration { version, message } => {
            let v = int_text(*version as i64);
            let parts = [
                "invoke_err seq=",
                s.as_str(),
                rs.as_str(),
                " command=",
                command,
                " elapsed_ms=",
                e.as_str(),
                " code=migration version=",
                v.as_str(),
                " message=",
                message.as_str(),
            ];
            let line = join_strs(&parts);
            proof {
                reveal_with_fuel(concat_all, 12);
            }
            line
        },
        _ => {
            let m = err.to_display_string();
            let parts = [
                "invoke_err seq=",
                s.as_str(),
                rs.as_str(),
                " command=",
                command,
                " elapsed_ms=",
                e.as_str(),
                " code=",
                err.code(),
                " message=",
                m.as_str(),
            ];
            let line = join_strs(&parts);
            proof {
                reveal_with_fuel(concat_all, 12);
            }
            line
        },
    }
}

/// The slow-command threshold in milliseconds from its setting: a positive whole
/// number, else 1500.
pub open spec fn slow_threshold_of(raw: Option<Seq<char>>) -> int {
    match raw {
        Some(v) => match parse_u64(trim(v)) {
            Some(n) => if n > 0 {
                n
            } else {
                1500
            },
            None => 1500,
        },
        None => 1500,
    }
}

/// The slow-command threshold in milliseconds from its setting (see [`slow_threshold_of`]).
pub fn slow_threshold_ms(raw: Option<&str>) -> (r: u64)
    ensures
        r == slow_threshold_of(
            match raw {
                Some(v) => Some(v@),
                None => None,
            },
        ),
{
    match raw {
        None => 1500,
        Some(v) => {
            let t = trim_chars(&chars_of(v));
            match crate::num::parse_int_chars(&t, false, 0, 0xFFFF_FFFF_FFFF_FFFF) {
                Some(n) => if n > 0 {
                    n as u64
                } else {
                    1500
                },
                None => 1500,
            }
        },
    }
}

/// How much the application logs.
#[derive(Debug, Clone, Copy, PartialEq, Eq, Structural)]
pub enum LogLevel {
    Off,
    Error,
    Warn,
    Info,
    Debug,
    Trace,
}

/// The level that a level setting names: its first comma-separated entry, after
/// any `=`, trimmed and lower-cased, when that is a level name; else the default
/// (`debug` in development builds, `info` otherwise). An empty setting gives the
/// default too.
pub open spec fn level_of_setting(raw: Seq<char>, debug_build: bool) -> LogLevel {
    let fallback = if debug_build {
        LogLevel::Debug
    } else {
        LogLevel::Info
    };
    let key = trim(raw);
    if key.len() == 0 {
        fallback
    } else {
        let first = split_on(key, ',')[0];
        let pieces = split_on(first, '=');
        let name = ascii_lower(trim(pieces[pieces.len() - 1]));
        level_named(name, fallback)
    }
}

/// The level called `name` (`trace`, `debug`, `info`, `warn`, `error` or `off`),
/// else `fallback`.
pub open spec fn level_named(name: Seq<char>, fallback: LogLevel) -> LogLevel {
    if name == "trace"@ {
        LogLevel::Trace
    } else if name == "debug"@ {
        LogLevel::Debug
    } else if name == "info"@ {
        LogLevel::Info
    } else if name == "warn"@ {
        LogLevel::Warn
    } else if name == "error"@ {
        LogLevel::Error
    } else if name == "off"@ {
        LogLevel::Off
    } else {
        fallback
    }
}

/// The level that a level setting names (see [`level_of_setting`]).
pub fn max_level_from_setting(raw: &str, debug_build: bool) -> (r: LogLevel)
    ensures
        r == level_of_setting(raw@, debug_build),
{
    let fallback = if debug_build {
        LogLevel::Debug
    } else {
        LogLevel::Info
    };
    let key = trim_chars(&chars_of(raw));
    if key.len() == 0 {
        return fallback;
    }
    let entries = crate::text::split_chars(&key, ',');
    assert(crate::text::views_of(entries@)[0] == entries@[0]@);
    let pieces = crate::text::split_chars(&entries[0], '=');
    let last = pieces.len() - 1;
    assert(crate::text::views_of(pieces@)[last as int] == pieces@[last as int]@);
    let name = to_ascii_lower(&trim_chars(&pieces[last]));
    if chars_eq(&name, &chars_of("trace")) {
        LogLevel::Trace
    } else if chars_eq(&name, &chars_of("debug")) {
        LogLevel::Debug
    } else if chars_eq(&name, &chars_of("info")) {
        LogLevel::Info
    } else if chars_eq(&name, &chars_of("warn")) {
        LogLevel::Warn
    } else if chars_eq(&name, &chars_of("error")) {
        LogLevel::Error
    } else if chars_eq(&name, &chars_of("off")) {
        LogLevel::Off
    } else {
        fallback
    }
}

/// Whether a JSON-logging setting switches JSON lines on.
pub open spec fn json_setting_on(raw: Seq<char>) -> bool {
    let v = trim(raw);
    v == "1"@ || v == "true"@ || v == "TRUE"@ || v == "yes"@ || v == "YES"@ || v == "on"@ || v
        == "ON"@
}

/// Whether a JSON-logging setting switches JSON lines on.
pub fn json_logs_enabled(raw: Option<&str>) -> (r: bool)
    ensures
        r == match raw {
            Some(v) => json_setting_on(v@),
            None => false,
        },
{
    match raw {
        None => false,
        Some(v) => {
            let t = trim_chars(&chars_of(v));
            chars_eq(&t, &chars_of("1")) || chars_eq(&t, &chars_of("true")) || chars_eq(
                &t,
                &chars_of("TRUE"),
            ) || chars_eq(&t, &chars_of("yes")) || chars_eq(&t, &chars_of("YES")) || chars_eq(
                &t,
                &chars_of("on"),
            ) || chars_eq(&t, &chars_of("ON"))
        },
    }
}

/// The lines logged when a command ends, each with its level: the success line
/// (info) or the error line (warn), followed, whatever the outcome, by the slow
/// line (warn) when the command took at least the threshold.
pub open spec fn end_lines<T>(
    command: Seq<char>,
    seq: u64,
    rid: Option<Seq<char>>,
    elapsed_ms: u64,
    slow_ms: u64,
    result: Result<T, DbCommandError>,
) -> Seq<(LogLevel, Seq<char>)> {
    let first = match result {
        Ok(_) => (LogLevel::Info, ok_line(command, seq, rid, elapsed_ms)),
        Err(e) => (LogLevel::Warn, error_line(command, seq, rid, elapsed_ms, e)),
    };
    if elapsed_ms >= slow_ms {
        seq![first, (LogLevel::Warn, slow_line(command, seq, rid, elapsed_ms, slow_ms))]
    } else {
        seq![first]
    }
}

/// The lines to log when a command ends (see [`end_lines`]).
pub fn end_log_lines<T>(
    command: &str,
    seq: u64,
    rid: &Option<String>,
    elapsed_ms: u64,
    slow_ms: u64,
    result: &Result<T, DbCommandError>,
) -> (r: Vec<(LogLevel, String)>)
    ensures
        r@.map_values(|p: (LogLevel, String)| (p.0, p.1@)) == end_lines(
            command@,
            seq,
            opt_text(*rid),
            elapsed_ms,
            slow_ms,
            *result,
        ),
{
    let mut out: Vec<(LogLevel, String)> = Vec::new();
    match result {
        Ok(_) => {
            out.push((LogLevel::Info, ok_log_line(command, seq, rid, elapsed_ms)));
        },
        Err(e) => {
            out.push((LogLevel::Warn, error_log_line(command, seq, rid, elapsed_ms, e)));
        },
    }
    if elapsed_ms >= slow_ms {
        out.push((LogLevel::Warn, slow_log_line(command, seq, rid, elapsed_ms, slow_ms)));
    }
    assert(out@.map_values(|p: (LogLevel, String)| (p.0, p.1@)) =~= end_lines(
        command@,
        seq,
        opt_text(*rid),
        elapsed_ms,
        slow_ms,
        *result,
    ));
    out
}

/// The slow-command threshold is 1500 ms unless the setting is a positive whole
/// number, which then is the threshold; it is never zero.
pub proof fn law_slow_threshold(raw: Option<Seq<char>>)
    ensures
        slow_threshold_of(raw) >= 1,
        raw is None ==> slow_threshold_of(raw) == 1500,
        raw matches Some(v) ==> (parse_u64(trim(v)) matches Some(n) ==> (n > 0 ==> slow_threshold_of(
            raw,
        ) == n)),
        raw matches Some(v) && !(parse_u64(trim(v)) matches Some(n) && n > 0) ==> slow_threshold_of(
            raw,
        ) == 1500,
{
}

/// The log level names: `trace`, `debug`, `info`, `warn`, `error` and `off` name
/// their levels, and an empty setting gives `debug` in development builds and
/// `info` otherwise.
pub proof fn law_level_names(fallback: LogLevel, raw: Seq<char>, debug_build: bool)
    ensures
        level_named("trace"@, fallback) == LogLevel::Trace,
        level_named("debug"@, fallback) == LogLevel::Debug,
        level_named("info"@, fallback) == LogLevel::Info,
        level_named("warn"@, fallback) == LogLevel::Warn,
        level_named("error"@, fallback) == LogLevel::Error,
        level_named("off"@, fallback) == LogLevel::Off,
        trim(raw).len() == 0 && debug_build ==> level_of_setting(raw, debug_build)
            == LogLevel::Debug,
        trim(raw).len() == 0 && !debug_build ==> level_of_setting(raw, debug_build)
            == LogLevel::Info,
{
    reveal_strlit("trace");
    reveal_strlit("debug");
    reveal_strlit("info");
    reveal_strlit("warn");
    reveal_strlit("error");
    reveal_strlit("off");
    assert("trace"@[0] == 't' && "debug"@[0] == 'd' && "info"@[0] == 'i' && "warn"@[0] == 'w'
        && "error"@[0] == 'e' && "off"@[0] == 'o');
}

} // verus!
