use reedcms::cli::debug_commands::{debug_config_handler, debug_request_handler, debug_route_handler};
use reedcms::debug::config_inspector::inspect_config;
use reedcms::debug::request_inspector::{inspect_request, RequestInspection};
use reedcms::debug::route_tester::{resolve_url, route_template_path, test_route, RouteTest};
use reedcms::reedstream::ReedError;
use reedcms::string_map::StringMap;

#[test]
fn test_inspect_request_format() {
    let text = inspect_request("/knowledge").format();
    assert_eq!(
        text,
        "🔍 Request Inspector: /knowledge\n\nRequest:\n  Method: GET\n  URL: /knowledge\n\n\
Request Headers:\n  User-Agent: ReedCMS-Debug/1.0\n  Accept: */*\n  Host: localhost:8333\n\n\
Response:\n  Status: 200 OK\n\nResponse Headers:\n  Content-Type: text/html; charset=utf-8\n  \
Cache-Control: public, max-age=3600\n\nTiming Breakdown:\n  routing: 2.0ms\n  reedbase: 8.0ms\n  \
rendering: 32.0ms\n  Total: 42.0ms\n\nNote: This is a simulated inspection.\n\
For live inspection, use profiler middleware during server runtime.\n"
    );
}

#[test]
fn test_set_timing_replaces_existing_phase() {
    let mut r = RequestInspection::new("/");
    r.set_timing("routing", 1000);
    r.set_timing("total", 2550);
    r.set_timing("routing", 1250);
    assert_eq!(r.timing, vec![("routing".to_string(), 1250), ("total".to_string(), 2550)]);
    let text = r.format();
    assert!(text.contains("Timing Breakdown:\n  routing: 1.3ms\n  Total: 2.6ms\n"));
}

#[test]
fn test_debug_request_handler_requires_url() {
    match debug_request_handler(&vec![], &StringMap::new()) {
        Err(ReedError::ValidationError { field, value, constraint }) => {
            assert_eq!(field, "url");
            assert_eq!(value, "");
            assert_eq!(constraint, "URL argument required");
        }
        other => panic!("unexpected: {:?}", other),
    }
    let resp = debug_request_handler(&vec!["/x".to_string()], &StringMap::new()).unwrap();
    assert_eq!(resp.source, "debug::request");
    assert!(resp.data.starts_with("🔍 Request Inspector: /x\n"));
}

#[test]
fn test_resolve_url_with_language() {
    assert_eq!(resolve_url("/de/wissen"), (Some("de".to_string()), Some("wissen".to_string())));
    assert_eq!(resolve_url("/knowledge"), (Some("en".to_string()), Some("knowledge".to_string())));
    assert_eq!(resolve_url("/"), (None, None));
    assert_eq!(resolve_url("/fr"), (Some("fr".to_string()), None));
}

#[test]
fn test_route_template_path() {
    assert_eq!(
        route_template_path("/de/wissen"),
        Some("templates/layouts/wissen/wissen.mouse.jinja".to_string())
    );
    assert_eq!(route_template_path("//"), None);
}

#[test]
fn test_test_route_found_template() {
    let t = test_route("/knowledge", true);
    assert!(t.matched);
    assert!(t.errors.is_empty());
    assert_eq!(
        t.format(),
        "🛣️  Route Test: /knowledge\n\nResolution:\n  ✓ Route matched\n  Layout: knowledge\n  Language: en\n\n\
Template:\n  Path: templates/layouts/knowledge/knowledge.mouse.jinja\n  ✓ Template exists\n\n\
Note: For complete route testing, use reed server:start with --debug flag.\n"
    );
}

#[test]
fn test_test_route_missing_template_and_layout() {
    let t = test_route("/de/blog", false);
    assert_eq!(t.errors, vec!["Template not found: templates/layouts/blog/blog.mouse.jinja".to_string()]);
    let none = test_route("/", false);
    assert!(!none.matched);
    assert_eq!(none.errors, vec!["No layout matched for URL".to_string()]);
    assert_eq!(
        none.format(),
        "🛣️  Route Test: /\n\nResolution:\n  ✗ No route match\n\nTemplate:\n  Path: \n  ✗ Template not found\n\n\
⚠ Errors:\n  - No layout matched for URL\n\nNote: For complete route testing, use reed server:start with --debug flag.\n"
    );
}

#[test]
fn test_debug_route_handler() {
    let resp = debug_route_handler(&vec!["/de/wissen".to_string()], &StringMap::new(), true).unwrap();
    assert_eq!(resp.source, "debug::route");
    assert!(resp.data.contains("  Layout: wissen\n  Language: de\n"));
    assert!(debug_route_handler(&vec![], &StringMap::new(), true).is_err());
}

#[test]
fn test_inspect_config_defaults_and_values() {
    let text = inspect_config(None, Some("true".to_string()), None).format();
    assert_eq!(
        text,
        "⚙️  Configuration Inspector\n\nProject Configuration:\n  name: ReedCMS\n  version: 0.1.0\n\n\
Server Configuration:\n  port: 8333\n  workers: 4\n\nEnvironment Variables:\n  ENVIRONMENT: dev\n  \
REED_PROFILE: true\n  REED_SLOW_THRESHOLD: 100\n\nConfiguration Files:\n  - .reed/project.csv (runtime configuration)\n  \
- .reed/server.csv (server settings)\n  - Reed.toml (bootstrap configuration)\n  - .env (environment control)\n\n\
Note: For complete configuration, see reed config:show command.\n"
    );
}

#[test]
fn test_debug_config_handler() {
    let resp =
        debug_config_handler(&vec![], &StringMap::new(), Some("prod".to_string()), None, Some("250".to_string()))
            .unwrap();
    assert_eq!(resp.source, "debug::config");
    assert!(resp.data.contains("  ENVIRONMENT: prod\n  REED_PROFILE: false\n  REED_SLOW_THRESHOLD: 250\n"));
}

#[test]
fn test_simulate_keeps_layout_the_url_does_not_name() {
    let mut t = RouteTest::new("/de");
    t.layout = Some("blog".to_string());
    t.simulate(true);
    assert_eq!(t.language, Some("de".to_string()));
    assert_eq!(t.layout, Some("blog".to_string()));
    assert!(t.matched);
    assert_eq!(t.template_path, "templates/layouts/blog/blog.mouse.jinja");
    assert!(t.errors.is_empty());

    let mut empty = RouteTest::new("/");
    empty.layout = Some("news".to_string());
    empty.simulate(false);
    assert_eq!(empty.language, None);
    assert_eq!(empty.layout, Some("news".to_string()));
    assert!(empty.matched);
    assert_eq!(empty.errors, vec!["Template not found: templates/layouts/news/news.mouse.jinja".to_string()]);
}

#[test]
fn test_simulate_timing_twice_is_once() {
    let mut r = RequestInspection::new("/x");
    r.set_timing("db", 5);
    r.set_timing("total", 1);
    r.simulate_timing();
    let once = r.timing.clone();
    assert_eq!(
        once,
        vec![
            ("db".to_string(), 5),
            ("total".to_string(), 42000),
            ("routing".to_string(), 2000),
            ("reedbase".to_string(), 8000),
            ("rendering".to_string(), 32000),
        ]
    );
    r.simulate_timing();
    assert_eq!(r.timing, once);
}

#[test]
fn test_inspect_request_has_the_four_phases() {
    let r = inspect_request("/blog");
    assert_eq!(
        r.timing,
        vec![
            ("routing".to_string(), 2000),
            ("reedbase".to_string(), 8000),
            ("rendering".to_string(), 32000),
            ("total".to_string(), 42000),
        ]
    );
    assert!(r.format().contains("  URL: /blog\n"));
    assert!(r.format().contains("  Total: 42.0ms\n"));
}
