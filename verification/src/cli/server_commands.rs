//! `reed server:io`: the server settings it would start with.
use vstd::prelude::*;
use crate::reedstream::{ReedError, ReedResponse, ReedResult};
use crate::string_map::StringMap;
use crate::build::version::{all_digits, digits_value, lemma_digits_value_nonneg};
use crate::text::{
    char_is_ascii_digit, char_is_ws, chars_to_string, copy_string, is_ws, lemma_split_nonempty, push_str, split_on,
    split_to_strings, str_to_string, to_chars,
};

verus! {

/// The mode and bind address: a Unix socket with `--socket`, else HTTP on
/// `127.0.0.1` and `--port` (default 8333).
pub open spec fn server_binding(flags: StringMap) -> (Seq<char>, Seq<char>) {
    match flags.lookup("socket"@) {
        Some(s) => ("Unix socket"@, s),
        None => ("HTTP"@, "127.0.0.1:"@ + match flags.lookup("port"@) {
            Some(p) => p,
            None => "8333"@,
        }),
    }
}

/// The report of `server:io`.
pub open spec fn server_io_text(flags: StringMap) -> Seq<char> {
    let (mode, bind) = server_binding(flags);
    let workers = match flags.lookup("workers"@) {
        Some(w) => w,
        None => "4"@,
    };
    "🚀 Starting ReedCMS server...\n\n"@ + "✓ Configuration validated\n"@ + "✓ Mode: "@ + mode + "\n"@
        + "✓ Address: "@ + bind + "\n"@ + "✓ Workers: "@ + workers + "\n\n"@
        + "⚠ Server implementation not yet ready (requires REED-06-01)\n"@
        + "   Full HTTP/Socket server will be available when server foundation is complete.\n\n"@
        + "Would start server with:\n"@ + "- Mode: "@ + mode + "\n"@ + "- Bind: "@ + bind + "\n"@ + "- Workers: "@
        + workers + "\n"@
}

/// `reed server:io [--socket <path>] [--port <n>] [--workers <n>]`.
pub fn server_io(args: &Vec<String>, flags: &StringMap) -> (r: ReedResult<ReedResponse<String>>)
    requires
        flags.wf(),
    ensures
        r matches Ok(resp) && resp.source@ == "cli::server_io"@ && resp.data@ == server_io_text(*flags),
{
    let (mode, bind) = match flags.get("socket") {
        Some(s) => (str_to_string("Unix socket"), copy_string(s)),
        None => {
            let mut b = str_to_string("127.0.0.1:");
            match flags.get("port") {
                Some(p) => push_str(&mut b, p.as_str()),
                None => push_str(&mut b, "8333"),
            }
            (str_to_string("HTTP"), b)
        },
    };
    let workers = match flags.get("workers") {
        Some(w) => copy_string(w),
        None => str_to_string("4"),
    };
    let mut out = str_to_string("🚀 Starting ReedCMS server...\n\n");
    push_str(&mut out, "✓ Configuration validated\n");
    push_str(&mut out, "✓ Mode: ");
    push_str(&mut out, mode.as_str());
    push_str(&mut out, "\n");
    push_str(&mut out, "✓ Address: ");
    push_str(&mut out, bind.as_str());
    push_str(&mut out, "\n");
    push_str(&mut out, "✓ Workers: ");
    push_str(&mut out, workers.as_str());
    push_str(&mut out, "\n\n");
    push_str(&mut out, "⚠ Server implementation not yet ready (requires REED-06-01)\n");
    push_str(&mut out, "   Full HTTP/Socket server will be available when server foundation is complete.\n\n");
    push_str(&mut out, "Would start server with:\n");
    push_str(&mut out, "- Mode: ");
    push_str(&mut out, mode.as_str());
    push_str(&mut out, "\n");
    push_str(&mut out, "- Bind: ");
    push_str(&mut out, bind.as_str());
    push_str(&mut out, "\n");
    push_str(&mut out, "- Workers: ");
    push_str(&mut out, workers.as_str());
    push_str(&mut out, "\n");
    Ok(ReedResponse::new(out, "cli::server_io"))
}

// ---------------------------------------------------------------------------
// The background server: start, stop, restart, status, logs
// ---------------------------------------------------------------------------

/// What `.reed/server.pid` says: no file, or a process id whose process
/// runs or not.
#[derive(Debug, Clone)]
pub enum PidState {
    Missing,
    Running(String),
    Stale(String),
}

pub open spec fn server_error_is(e: ReedError, component: Seq<char>, reason: Seq<char>) -> bool {
    e matches ReedError::ServerError { component: c, reason: r } && c@ == component && r@ == reason
}

fn server_error(component: &str, reason: String) -> (e: ReedError)
    ensures
        server_error_is(e, component@, reason@),
{
    ReedError::ServerError { component: str_to_string(component), reason }
}

/// The report of `server:start` for an environment.
pub open spec fn server_start_text(environment: Seq<char>) -> Seq<char> {
    "🚀 Starting ReedCMS server in background...\n\n"@ + "✓ Configuration validated\n"@ + "✓ Environment: "@
        + environment + "\n\n"@ + "⚠ Server daemon mode not yet implemented (requires REED-06-01)\n"@
        + "   Background server will be available when server foundation is complete.\n\n"@
        + "Would start background server with:\n"@ + "- Environment: "@ + environment + "\n"@
        + "- PID file: .reed/server.pid\n"@ + "- Log file: .reed/flow/server.log\n"@
}

/// `reed server:start [--environment <env>]` (default `PROD`); refused
/// while a server runs. The caller removes a stale PID file.
pub fn server_start(args: &Vec<String>, flags: &StringMap, state: &PidState) -> (r: ReedResult<ReedResponse<String>>)
    requires
        flags.wf(),
    ensures
        match state {
            PidState::Running(pid) => r matches Err(e) && server_error_is(
                e,
                "server_start"@,
                "Server already running (PID: "@ + pid@ + ")"@,
            ),
            _ => r matches Ok(resp) && resp.source@ == "cli::server_start"@ && resp.data@ == server_start_text(
                match flags.lookup("environment"@) {
                    Some(env) => env,
                    None => "PROD"@,
                },
            ),
        },
{
    match state {
        PidState::Running(pid) => {
            let mut reason = str_to_string("Server already running (PID: ");
            push_str(&mut reason, pid.as_str());
            push_str(&mut reason, ")");
            return Err(server_error("server_start", reason));
        },
        _ => {},
    }
    let environment = match flags.get("environment") {
        Some(env) => copy_string(env),
        None => str_to_string("PROD"),
    };
    let mut out = str_to_string("🚀 Starting ReedCMS server in background...\n\n");
    push_str(&mut out, "✓ Configuration validated\n");
    push_str(&mut out, "✓ Environment: ");
    push_str(&mut out, environment.as_str());
    push_str(&mut out, "\n\n");
    push_str(&mut out, "⚠ Server daemon mode not yet implemented (requires REED-06-01)\n");
    push_str(&mut out, "   Background server will be available when server foundation is complete.\n\n");
    push_str(&mut out, "Would start background server with:\n");
    push_str(&mut out, "- Environment: ");
    push_str(&mut out, environment.as_str());
    push_str(&mut out, "\n");
    push_str(&mut out, "- PID file: .reed/server.pid\n");
    push_str(&mut out, "- Log file: .reed/flow/server.log\n");
    Ok(ReedResponse::new(out, "cli::server_start"))
}

/// The process `server:stop` stops: refused without a PID file or when
/// its process is gone (the caller then removes the stale file).
pub fn server_stop_target(state: &PidState) -> (r: ReedResult<String>)
    ensures
        match state {
            PidState::Missing => r matches Err(e) && server_error_is(
                e,
                "server_stop"@,
                "Server not running (no PID file found)"@,
            ),
            PidState::Stale(pid) => r matches Err(e) && server_error_is(
                e,
                "server_stop"@,
                "Server not running (stale PID: "@ + pid@ + ")"@,
            ),
            PidState::Running(pid) => r matches Ok(p) && p@ == pid@,
        },
{
    match state {
        PidState::Missing => Err(server_error("server_stop", str_to_string("Server not running (no PID file found)"))),
        PidState::Stale(pid) => {
            let mut reason = str_to_string("Server not running (stale PID: ");
            push_str(&mut reason, pid.as_str());
            push_str(&mut reason, ")");
            Err(server_error("server_stop", reason))
        },
        PidState::Running(pid) => Ok(copy_string(pid)),
    }
}

/// The report of `server:stop` once the PID file was removed: whether the
/// stop signal could be sent and whether the server then ended within
/// the grace period (else it was killed).
pub open spec fn server_stop_text(pid: Seq<char>, signalled: bool, graceful: bool) -> Seq<char> {
    "🛑 Stopping ReedCMS server...\n\n"@ + "✓ Found running server (PID: "@ + pid + ")\n"@ + (if signalled {
        "✓ Sent shutdown signal (SIGTERM)\n"@ + if graceful {
            "✓ Server stopped gracefully\n"@
        } else {
            "⚠ Server did not stop gracefully, forcing shutdown...\n"@
        }
    } else {
        Seq::empty()
    }) + "✓ PID file removed\n\n"@ + "Server stopped successfully.\n"@
}

pub fn server_stop_report(pid: &str, signalled: bool, graceful: bool) -> (r: ReedResponse<String>)
    ensures
        r.data@ == server_stop_text(pid@, signalled, graceful),
        r.source@ == "cli::server_stop"@,
{
    let mut out = str_to_string("🛑 Stopping ReedCMS server...\n\n");
    push_str(&mut out, "✓ Found running server (PID: ");
    push_str(&mut out, pid);
    push_str(&mut out, ")\n");
    if signalled {
        push_str(&mut out, "✓ Sent shutdown signal (SIGTERM)\n");
        if graceful {
            push_str(&mut out, "✓ Server stopped gracefully\n");
        } else {
            push_str(&mut out, "⚠ Server did not stop gracefully, forcing shutdown...\n");
        }
    }
    push_str(&mut out, "✓ PID file removed\n\n");
    push_str(&mut out, "Server stopped successfully.\n");
    ReedResponse::new(out, "cli::server_stop")
}

/// The report of `server:restart`: whether a server was stopped, then the
/// report of the start.
pub fn server_restart_report(stopped: bool, start_report: &str) -> (r: ReedResponse<String>)
    ensures
        r.data@ == "🔄 Restarting ReedCMS server...\n\n"@ + "✓ Stopping current server...\n"@ + (if stopped {
            "✓ Server stopped\n\n"@
        } else {
            "⚠ No server was running\n\n"@
        }) + "✓ Starting new server...\n"@ + start_report@,
        r.source@ == "cli::server_restart"@,
{
    let mut out = str_to_string("🔄 Restarting ReedCMS server...\n\n");
    push_str(&mut out, "✓ Stopping current server...\n");
    if stopped {
        push_str(&mut out, "✓ Server stopped\n\n");
    } else {
        push_str(&mut out, "⚠ No server was running\n\n");
    }
    push_str(&mut out, "✓ Starting new server...\n");
    push_str(&mut out, start_report);
    ReedResponse::new(out, "cli::server_restart")
}

/// The maximal runs of non-white-space characters (`str::split_whitespace`).
pub open spec fn ws_tokens(s: Seq<char>) -> Seq<Seq<char>>
    decreases s.len(),
{
    if s.len() == 0 {
        Seq::empty()
    } else {
        let t = ws_tokens(s.drop_last());
        let c = s.last();
        if is_ws(c) {
            t
        } else if s.len() >= 2 && !is_ws(s[s.len() - 2]) {
            t.update(t.len() - 1, t.last().push(c))
        } else {
            t.push(seq![c])
        }
    }
}

proof fn lemma_ws_tokens_nonempty(s: Seq<char>)
    requires
        s.len() > 0,
        !is_ws(s.last()),
    ensures
        ws_tokens(s).len() > 0,
    decreases s.len(),
{
    if s.len() >= 2 && !is_ws(s[s.len() - 2]) {
        assert(s.drop_last().last() == s[s.len() - 2]);
        lemma_ws_tokens_nonempty(s.drop_last());
    }
}

/// The first two white-space separated tokens of `s`, if there are two.
pub fn first_two_tokens(s: &str) -> (r: Option<(String, String)>)
    ensures
        match r {
            Some((a, b)) => ws_tokens(s@).len() >= 2 && a@ == ws_tokens(s@)[0] && b@ == ws_tokens(s@)[1],
            None => ws_tokens(s@).len() < 2,
        },
{
    let v = to_chars(s);
    let mut toks: Vec<Vec<char>> = Vec::new();
    let mut i: usize = 0;
    while i < v.len()
        invariant
            i <= v@.len(),
            v@ == s@,
            toks@.len() == ws_tokens(v@.take(i as int)).len(),
            forall|k: int| 0 <= k < toks@.len() ==> (#[trigger] toks@[k])@ == ws_tokens(v@.take(i as int))[k],
        decreases v.len() - i,
    {
        let ghost t = v@.take(i + 1);
        proof {
            assert(t.drop_last() =~= v@.take(i as int));
            assert(t.last() == v@[i as int]);
            if i >= 1 {
                assert(t[t.len() - 2] == v@[i - 1]);
            }
        }
        let c = v[i];
        if !char_is_ws(c) {
            if i >= 1 && !char_is_ws(v[i - 1]) {
                proof {
                    lemma_ws_tokens_nonempty(v@.take(i as int));
                    assert(v@.take(i as int).last() == v@[i - 1]);
                }
                let last = toks.len() - 1;
                let mut cur = toks.pop().unwrap();
                cur.push(c);
                toks.push(cur);
                proof {
                    assert forall|k: int| 0 <= k < toks@.len() implies (#[trigger] toks@[k])@ == ws_tokens(t)[k] by {
                        if k < last {
                        }
                    }
                }
            } else {
                let mut cur: Vec<char> = Vec::new();
                cur.push(c);
                assert(cur@ =~= seq![c]);
                toks.push(cur);
            }
        }
        i += 1;
    }
    assert(v@.take(i as int) =~= s@);
    if toks.len() < 2 {
        return None;
    }
    let a = chars_to_string(toks[0].as_slice(), 0, toks[0].len());
    let b = chars_to_string(toks[1].as_slice(), 0, toks[1].len());
    assert(toks@[0]@.subrange(0, toks@[0]@.len() as int) =~= toks@[0]@);
    assert(toks@[1]@.subrange(0, toks@[1]@.len() as int) =~= toks@[1]@);
    Some((a, b))
}

/// The report of `server:status`; `ps_output` is what `ps` printed of a
/// running server (uptime and memory), if it ran.
pub open spec fn server_status_text(state: PidState, ps_output: Option<Seq<char>>) -> Seq<char> {
    "📊 ReedCMS Server Status\n\n"@ + match state {
        PidState::Missing => "Status: ❌ Not running\n"@ + "PID file: Not found\n"@,
        PidState::Running(pid) => "Status: ✅ Running\n"@ + "PID: "@ + pid@ + "\n"@ + "PID file: .reed/server.pid\n"@
            + match ps_output {
            Some(o) => if ws_tokens(o).len() >= 2 {
                "Uptime: "@ + ws_tokens(o)[0] + "\n"@ + "Memory: "@ + ws_tokens(o)[1] + " KB\n"@
            } else {
                Seq::empty()
            },
            None => Seq::empty(),
        },
        PidState::Stale(pid) => "Status: ⚠ Stale PID file\n"@ + "PID: "@ + pid@ + " (not running)\n"@
            + "\nTip: Remove stale PID file with: rm .reed/server.pid\n"@,
    }
}

pub fn server_status(state: &PidState, ps_output: Option<&str>) -> (r: ReedResponse<String>)
    ensures
        r.data@ == server_status_text(
            *state,
            match ps_output {
                Some(o) => Some(o@),
                None => None,
            },
        ),
        r.source@ == "cli::server_status"@,
{
    let mut out = str_to_string("📊 ReedCMS Server Status\n\n");
    match state {
        PidState::Missing => {
            push_str(&mut out, "Status: ❌ Not running\n");
            push_str(&mut out, "PID file: Not found\n");
        },
        PidState::Running(pid) => {
            push_str(&mut out, "Status: ✅ Running\n");
            push_str(&mut out, "PID: ");
            push_str(&mut out, pid.as_str());
            push_str(&mut out, "\n");
            push_str(&mut out, "PID file: .reed/server.pid\n");
            match ps_output {
                Some(o) => match first_two_tokens(o) {
                    Some((uptime, memory)) => {
                        push_str(&mut out, "Uptime: ");
                        push_str(&mut out, uptime.as_str());
                        push_str(&mut out, "\n");
                        push_str(&mut out, "Memory: ");
                        push_str(&mut out, memory.as_str());
                        push_str(&mut out, " KB\n");
                    },
                    None => {},
                },
                None => {},
            }
        },
        PidState::Stale(pid) => {
            push_str(&mut out, "Status: ⚠ Stale PID file\n");
            push_str(&mut out, "PID: ");
            push_str(&mut out, pid.as_str());
            push_str(&mut out, " (not running)\n");
            push_str(&mut out, "\nTip: Remove stale PID file with: rm .reed/server.pid\n");
        },
    }
    ReedResponse::new(out, "cli::server_status")
}

/// A line without a trailing carriage return.
pub open spec fn strip_cr(l: Seq<char>) -> Seq<char> {
    if l.len() > 0 && l.last() == '\r' { l.drop_last() } else { l }
}

/// The lines of a text as `str::lines` gives them: split at `\n`, a final
/// empty piece dropped, a trailing `\r` removed from each.
pub open spec fn text_lines(s: Seq<char>) -> Seq<Seq<char>> {
    let parts = split_on(s, '\n');
    let ps = if parts.last().len() == 0 { parts.drop_last() } else { parts };
    ps.map_values(|l: Seq<char>| strip_cr(l))
}

/// What `str::parse::<usize>` gives: an optional `+`, then one or more
/// decimal digits whose value fits in `usize`.
pub open spec fn parse_usize_spec(s: Seq<char>) -> Option<usize> {
    let d = if s.len() > 0 && s[0] == '+' { s.drop_first() } else { s };
    if d.len() == 0 || !all_digits(d) || digits_value(d) > usize::MAX {
        None
    } else {
        Some(digits_value(d) as usize)
    }
}

/// Parses an unsigned decimal number as `str::parse::<usize>` does.
pub fn parse_usize(s: &str) -> (r: Option<usize>)
    ensures
        r == parse_usize_spec(s@),
{
    let v = to_chars(s);
    let start: usize = if v.len() > 0 && v[0] == '+' { 1 } else { 0 };
    let ghost d = if s@.len() > 0 && s@[0] == '+' { s@.drop_first() } else { s@ };
    assert(d =~= v@.subrange(start as int, v@.len() as int));
    if start == v.len() {
        return None;
    }
    let mut acc: u128 = 0;
    let mut overflow = false;
    let mut i = start;
    while i < v.len()
        invariant
            start <= i <= v@.len(),
            d == v@.subrange(start as int, v@.len() as int),
            d == (if s@.len() > 0 && s@[0] == '+' { s@.drop_first() } else { s@ }),
            all_digits(d.take(i - start)),
            overflow ==> digits_value(d.take(i - start)) > usize::MAX,
            !overflow ==> acc == digits_value(d.take(i - start)) && acc <= usize::MAX,
        decreases v.len() - i,
    {
        let c = v[i];
        if !char_is_ascii_digit(c) {
            assert(d[i - start] == c);
            assert(!all_digits(d));
            return None;
        }
        let ghost k = (i - start) as int;
        assert(d.take(k + 1).drop_last() =~= d.take(k));
        assert(d.take(k + 1).last() == c);
        assert(all_digits(d.take(k + 1)));
        proof {
            lemma_digits_value_nonneg(d.take(k));
        }
        if !overflow {
            let digit = (c as u32 - '0' as u32) as u128;
            acc = acc * 10 + digit;
            if acc > usize::MAX as u128 {
                overflow = true;
            }
        }
        i += 1;
    }
    assert(d.take(v@.len() - start) =~= d);
    if overflow {
        None
    } else {
        Some(acc as usize)
    }
}

/// The report of `server:logs [--follow] [--tail <n>]`; `content` is the
/// log's text, read when the log exists and the mode is not follow.
pub open spec fn server_logs_text(flags: StringMap, file_exists: bool, content: Seq<char>) -> Seq<char> {
    if !file_exists {
        "No server log file found.\nLog file: .reed/flow/server.log\n"@
    } else if flags.lookup("follow"@) is Some {
        "Following server logs (Ctrl+C to stop)...\n\n"@ + "⚠ Follow mode not yet implemented\n"@
            + "   Use: tail -f .reed/flow/server.log\n"@
    } else {
        match flags.lookup("tail"@) {
            Some(t) => {
                let n: int = match parse_usize_spec(t) {
                    Some(n) => n as int,
                    None => 10,
                };
                let lines = text_lines(content);
                let start: int = if lines.len() > n { lines.len() - n } else { 0 };
                "Last "@ + t + " lines of server log:\n\n"@ + line_block(lines.subrange(start, lines.len() as int))
            },
            None => "Server log:\n\n"@ + content,
        }
    }
}

/// Every line followed by `\n`.
pub open spec fn line_block(lines: Seq<Seq<char>>) -> Seq<char>
    decreases lines.len(),
{
    if lines.len() == 0 { Seq::empty() } else { line_block(lines.drop_last()) + lines.last() + "\n"@ }
}

/// The lines of a text, as `str::lines` gives them.
pub fn lines_of(s: &str) -> (r: Vec<String>)
    ensures
        crate::cli::parser::strings_view(r@) == text_lines(s@),
{
    let parts = split_to_strings(s, '\n');
    proof {
        lemma_split_nonempty(s@, '\n');
    }
    let n = parts.len();
    let keep = if parts[n - 1].as_str().unicode_len() == 0 { n - 1 } else { n };
    let ghost ps = split_on(s@, '\n');
    let ghost kept = if ps.last().len() == 0 { ps.drop_last() } else { ps };
    assert(crate::cli::parser::strings_view(parts@)[n - 1] == parts@[n - 1]@);
    assert(kept.len() == keep);
    let mut r: Vec<String> = Vec::new();
    let mut i: usize = 0;
    while i < keep
        invariant
            i <= keep,
            keep <= parts@.len(),
            crate::cli::parser::strings_view(parts@) == ps,
            kept.len() == keep,
            forall|j: int| 0 <= j < keep ==> kept[j] == ps[j],
            crate::cli::parser::strings_view(r@) == kept.take(i as int).map_values(|l: Seq<char>| strip_cr(l)),
        decreases keep - i,
    {
        let v = to_chars(parts[i].as_str());
        let m = v.len();
        let line = if m > 0 && v[m - 1] == '\r' {
            chars_to_string(v.as_slice(), 0, m - 1)
        } else {
            chars_to_string(v.as_slice(), 0, m)
        };
        proof {
            assert(kept[i as int] == parts@[i as int]@);
            if m > 0 && v@[m - 1] == '\r' {
                assert(v@.subrange(0, m - 1) =~= parts@[i as int]@.drop_last());
            } else {
                assert(v@.subrange(0, m as int) =~= parts@[i as int]@);
            }
        }
        let ghost before = crate::cli::parser::strings_view(r@);
        r.push(line);
        assert(crate::cli::parser::strings_view(r@) =~= before.push(line@));
        assert(kept.take(i + 1).map_values(|l: Seq<char>| strip_cr(l)) =~= kept.take(i as int).map_values(
            |l: Seq<char>| strip_cr(l),
        ).push(strip_cr(kept[i as int])));
        i += 1;
    }
    assert(kept.take(keep as int) =~= kept);
    r
}

pub fn server_logs(flags: &StringMap, file_exists: bool, content: &str) -> (r: ReedResponse<String>)
    requires
        flags.wf(),
    ensures
        r.data@ == server_logs_text(*flags, file_exists, content@),
        r.source@ == "cli::server_logs"@,
{
    if !file_exists {
        return ReedResponse::new(
            str_to_string("No server log file found.\nLog file: .reed/flow/server.log\n"),
            "cli::server_logs",
        );
    }
    let mut out = String::new();
    if flags.contains_key("follow") {
        push_str(&mut out, "Following server logs (Ctrl+C to stop)...\n\n");
        push_str(&mut out, "⚠ Follow mode not yet implemented\n");
        push_str(&mut out, "   Use: tail -f .reed/flow/server.log\n");
        return ReedResponse::new(out, "cli::server_logs");
    }
    match flags.get("tail") {
        Some(t) => {
            let n: usize = match parse_usize(t.as_str()) {
                Some(n) => n,
                None => 10,
            };
            let lines = lines_of(content);
            let ghost lv = crate::cli::parser::strings_view(lines@);
            let start = if lines.len() > n { lines.len() - n } else { 0 };
            push_str(&mut out, "Last ");
            push_str(&mut out, t.as_str());
            push_str(&mut out, " lines of server log:\n\n");
            let ghost head = out@;
            let mut i = start;
            while i < lines.len()
                invariant
                    start <= i <= lines@.len(),
                    lv == crate::cli::parser::strings_view(lines@),
                    out@ == head + line_block(lv.subrange(start as int, i as int)),
                decreases lines.len() - i,
            {
                assert(lv.subrange(start as int, i + 1).drop_last() =~= lv.subrange(start as int, i as int));
                assert(lv.subrange(start as int, i + 1).last() == lines@[i as int]@);
                push_str(&mut out, lines[i].as_str());
                push_str(&mut out, "\n");
                i += 1;
            }
        },
        None => {
            push_str(&mut out, "Server log:\n\n");
            push_str(&mut out, content);
        },
    }
    ReedResponse::new(out, "cli::server_logs")
}

} // verus!
