use reedcms::cli::server_commands::{
    first_two_tokens, lines_of, parse_usize, server_io, server_logs, server_restart_report,
    server_start, server_status, server_stop_report, server_stop_target, PidState,
};
use reedcms::reedstream::ReedError;
use reedcms::string_map::StringMap;

fn flags(pairs: &[(&str, &str)]) -> StringMap {
    let mut f = StringMap::new();
    for (k, v) in pairs {
        f.insert(k.to_string(), v.to_string());
    }
    f
}

#[test]
fn server_io_reports_binding() {
    let r = server_io(&vec![], &flags(&[("port", "9000")])).unwrap();
    assert!(r.data.contains("✓ Address: 127.0.0.1:9000\n"));
    let r = server_io(&vec![], &flags(&[("socket", "/tmp/reed.sock")])).unwrap();
    assert!(r.data.contains("✓ Mode: Unix socket\n"));
}

#[test]
fn start_is_refused_while_running() {
    match server_start(&vec![], &StringMap::new(), &PidState::Running("42".to_string())) {
        Err(ReedError::ServerError { component, reason }) => {
            assert_eq!(component, "server_start");
            assert_eq!(reason, "Server already running (PID: 42)");
        }
        other => panic!("unexpected {:?}", other),
    }
    let r = server_start(&vec![], &flags(&[("environment", "DEV")]), &PidState::Stale("7".to_string())).unwrap();
    assert!(r.data.contains("✓ Environment: DEV\n"));
    assert!(r.data.ends_with("- Log file: .reed/flow/server.log\n"));
}

#[test]
fn stop_needs_a_running_server() {
    assert!(server_stop_target(&PidState::Missing).is_err());
    assert!(server_stop_target(&PidState::Stale("9".to_string())).is_err());
    assert_eq!(server_stop_target(&PidState::Running("9".to_string())).unwrap(), "9");
    let r = server_stop_report("9", true, false);
    assert!(r.data.contains("✓ Found running server (PID: 9)\n✓ Sent shutdown signal (SIGTERM)\n⚠ Server did not stop gracefully"));
    assert!(r.data.ends_with("Server stopped successfully.\n"));
    let r = server_restart_report(false, "started");
    assert!(r.data.contains("⚠ No server was running\n\n✓ Starting new server...\nstarted"));
}

#[test]
fn status_shows_process_info() {
    let r = server_status(&PidState::Running("123".to_string()), Some("  01:02:03   20480\n"));
    assert!(r.data.contains("Status: ✅ Running\nPID: 123\n"));
    assert!(r.data.ends_with("Uptime: 01:02:03\nMemory: 20480 KB\n"));
    let r = server_status(&PidState::Missing, None);
    assert!(r.data.ends_with("Status: ❌ Not running\nPID file: Not found\n"));
    let r = server_status(&PidState::Stale("5".to_string()), None);
    assert!(r.data.contains("PID: 5 (not running)"));
}

#[test]
fn tokens_and_lines() {
    assert_eq!(first_two_tokens(" a  b c"), Some(("a".to_string(), "b".to_string())));
    assert_eq!(first_two_tokens("only"), None);
    assert_eq!(lines_of("one\r\ntwo\n\nthree\n"), vec!["one", "two", "", "three"]);
    assert_eq!(lines_of(""), Vec::<String>::new());
    assert_eq!(parse_usize("+12"), Some(12));
    assert_eq!(parse_usize("x"), None);
    assert_eq!(parse_usize("18446744073709551615"), Some(usize::MAX));
    assert_eq!(parse_usize("18446744073709551616"), None);
}

#[test]
fn logs_tail_and_modes() {
    let log = "l1\nl2\nl3\nl4\n";
    let r = server_logs(&flags(&[("tail", "2")]), true, log);
    assert_eq!(r.data, "Last 2 lines of server log:\n\nl3\nl4\n");
    let r = server_logs(&flags(&[("tail", "many")]), true, log);
    assert_eq!(r.data, "Last many lines of server log:\n\nl1\nl2\nl3\nl4\n");
    let r = server_logs(&StringMap::new(), true, log);
    assert_eq!(r.data, "Server log:\n\nl1\nl2\nl3\nl4\n");
    let r = server_logs(&StringMap::new(), false, "");
    assert!(r.data.starts_with("No server log file found."));
    let r = server_logs(&flags(&[("follow", "")]), true, "");
    assert!(r.data.starts_with("Following server logs"));
}
