use reedcms::cli::config_commands::{
    config_export, config_file_path, config_show, config_sync, config_validate, export_toml_content,
    sync_report,
};
use reedcms::config::toml_parser::{
    validate_config, AssetConfig, BuildConfig, LanguageConfig, ProjectConfig, ReedConfig, RoutingConfig,
    ServerConfig, ServerEnvironmentConfig, TemplateConfig,
};
use reedcms::config::toml_to_csv::{request_keys, sync_toml_to_csv};
use reedcms::csv::record::CsvRecord;
use reedcms::reedstream::ReedError;
use reedcms::string_map::StringMap;

fn environment(origins: Vec<&str>) -> ServerEnvironmentConfig {
    ServerEnvironmentConfig {
        domain: "localhost".to_string(),
        io: "127.0.0.1:8333".to_string(),
        enable_cors: true,
        allowed_origins: origins.into_iter().map(|s| s.to_string()).collect(),
        enable_rate_limit: false,
        requests_per_minute: 60,
        enable_compression: true,
        enable_http2: false,
        keep_alive: 75,
    }
}

fn sample_config() -> ReedConfig {
    ReedConfig {
        project: ProjectConfig {
            name: "Demo".to_string(),
            url: "https://example.com".to_string(),
            description: None,
            languages: LanguageConfig {
                default: "de".to_string(),
                available: vec!["de".to_string(), "en".to_string()],
                fallback_chain: true,
            },
            routing: RoutingConfig { url_prefix: true, trailing_slash: false },
            templates: TemplateConfig { auto_reload: true, cache_templates: false },
            assets: AssetConfig { css_minify: true, css_bundle: true },
            build: BuildConfig { clean_before: false, parallel: true },
        },
        server: ServerConfig { workers: 4, dev: environment(vec!["http://localhost"]), prod: environment(vec![]) },
    }
}

fn flags(pairs: &[(&str, &str)]) -> StringMap {
    let mut m = StringMap::new();
    for (k, v) in pairs {
        m.insert(k.to_string(), v.to_string());
    }
    m
}

fn record(key: &str, value: &str) -> CsvRecord {
    CsvRecord { key: key.to_string(), value: value.to_string(), description: None }
}

#[test]
fn test_config_file_path_default_and_flag() {
    assert_eq!(config_file_path(&flags(&[])), "Reed.toml");
    assert_eq!(config_file_path(&flags(&[("file", "conf/Reed.toml")])), "conf/Reed.toml");
}

#[test]
fn test_validate_config_accepts_sample() {
    assert!(validate_config(&sample_config()).is_ok());
}

#[test]
fn test_validate_config_rejects_bad_url() {
    let mut c = sample_config();
    c.project.url = "example.com".to_string();
    match validate_config(&c) {
        Err(ReedError::ValidationError { field, value, constraint }) => {
            assert_eq!(field, "project.url");
            assert_eq!(value, "example.com");
            assert_eq!(constraint, "Must start with http:// or https://");
        }
        other => panic!("unexpected: {:?}", other),
    }
}

#[test]
fn test_validate_config_rejects_empty_name() {
    let mut c = sample_config();
    c.project.name = String::new();
    match validate_config(&c) {
        Err(ReedError::ValidationError { field, constraint, .. }) => {
            assert_eq!(field, "project.name");
            assert_eq!(constraint, "1-100 characters");
        }
        other => panic!("unexpected: {:?}", other),
    }
}

#[test]
fn test_config_sync_missing_file() {
    match config_sync(&flags(&[]), false, Ok(sample_config())) {
        Err(ReedError::FileNotFound { path, reason }) => {
            assert_eq!(path, "Reed.toml");
            assert_eq!(reason, "Reed.toml configuration file not found");
        }
        other => panic!("unexpected: {:?}", other),
    }
}

#[test]
fn test_config_sync_requires_force() {
    match config_sync(&flags(&[]), true, Ok(sample_config())) {
        Err(ReedError::ConfigError { component, reason }) => {
            assert_eq!(component, "config:sync");
            assert!(reason.contains("Reading from: Reed.toml\n"));
            assert!(reason.ends_with("Continue? (y/N): Use --force flag to skip confirmation"));
        }
        other => panic!("unexpected: {:?}", other),
    }
}

#[test]
fn test_config_sync_with_force_writes_every_setting() {
    let requests = config_sync(&flags(&[("force", "true")]), true, Ok(sample_config())).unwrap();
    // 13 project settings (no description), then 1 + 2 * 9 server settings.
    assert_eq!(requests.len(), 13 + 19);
    assert_eq!(requests[0].key, "project.name");
    assert_eq!(requests[0].value.as_deref(), Some("Demo"));
    assert_eq!(requests[0].context.as_deref(), Some("project"));
    assert_eq!(requests[0].description.as_deref(), Some("project.name from Reed.toml"));
    assert_eq!(requests[3].key, "project.languages.available");
    assert_eq!(requests[3].value.as_deref(), Some("de,en"));
    assert_eq!(requests[13].key, "server.workers");
    assert_eq!(requests[13].value.as_deref(), Some("4"));
    assert_eq!(requests[13].context.as_deref(), Some("server"));
    assert_eq!(requests[17].key, "server.dev.allowed_origins");
    assert_eq!(requests[17].value.as_deref(), Some("http://localhost"));
}

#[test]
fn test_config_sync_invalid_config_is_refused() {
    let mut c = sample_config();
    c.project.languages.default = "fr".to_string();
    match config_sync(&flags(&[("force", "true")]), true, Ok(c)) {
        Err(ReedError::ValidationError { field, value, constraint }) => {
            assert_eq!(field, "project.languages.default");
            assert_eq!(value, "fr");
            assert_eq!(constraint, "Must be one of: de, en");
        }
        other => panic!("unexpected: {:?}", other),
    }
}

#[test]
fn test_sync_toml_to_csv_keys_and_report() {
    let requests = sync_toml_to_csv(&sample_config());
    let keys = request_keys(&requests);
    assert_eq!(keys.len(), requests.len());
    assert_eq!(keys[1], "project.url");
    let report = sync_report(&vec!["a.b".to_string(), "c.d".to_string()]);
    assert_eq!(
        report.data,
        "✓ Successfully synchronised 2 configuration values from Reed.toml → CSV\n\nUpdated keys:\n  - a.b\n  - c.d\n"
    );
    assert_eq!(report.source, "config:sync");
}

#[test]
fn test_config_show_project_section() {
    let resp = config_show(&flags(&[("section", "project")]), true, Ok(sample_config())).unwrap();
    assert_eq!(
        resp.data,
        "Reed.toml Configuration (Reed.toml)\n\n[project]\n  name: Demo\n  url: https://example.com\n  \
description: (not set)\n\n  [project.languages]\n    default: de\n    available: de, en\n    \
fallback_chain: true\n\n  [project.routing]\n    url_prefix: true\n    trailing_slash: false\n\n  \
[project.templates]\n    auto_reload: true\n    cache_templates: false\n\n  [project.assets]\n    \
css_minify: true\n    css_bundle: true\n\n  [project.build]\n    clean_before: false\n    parallel: true"
    );
}

#[test]
fn test_config_show_server_section() {
    let resp = config_show(&flags(&[("section", "server")]), true, Ok(sample_config())).unwrap();
    assert!(resp.data.starts_with("Reed.toml Configuration (Reed.toml)\n\n[server]\n  workers: 4 (0 = auto)\n"));
    assert!(resp.data.contains("    allowed_origins: http://localhost\n"));
    assert!(resp.data.ends_with("    keep_alive: 75"));
}

#[test]
fn test_config_show_unknown_section() {
    match config_show(&flags(&[("section", "build")]), true, Ok(sample_config())) {
        Err(ReedError::ConfigError { component, reason }) => {
            assert_eq!(component, "config:show");
            assert_eq!(reason, "Unknown section: build. Valid sections: project, server");
        }
        other => panic!("unexpected: {:?}", other),
    }
}

#[test]
fn test_config_validate_valid_and_missing() {
    let resp = config_validate(&flags(&[]), true, Ok(sample_config())).unwrap();
    assert_eq!(resp.data, "✓ Reed.toml configuration is valid (Reed.toml)");
    assert!(matches!(config_validate(&flags(&[]), false, Ok(sample_config())), Err(ReedError::FileNotFound { .. })));
}

#[test]
fn test_export_toml_content_lists_and_tables() {
    let project = flags(&[
        ("project.name", "Demo"),
        ("project.url", "https://example.com"),
        ("project.languages.default", "de"),
        ("project.languages.available", "de,en"),
        ("project.languages.fallback_chain", "true"),
        ("project.routing.url_prefix", "true"),
        ("project.routing.trailing_slash", "false"),
    ]);
    let server = flags(&[
        ("server.workers", "4"),
        ("server.dev.domain", "localhost"),
        ("server.dev.enable_cors", "true"),
        ("server.dev.allowed_origins", "http://a,http://b"),
        ("server.dev.keep_alive", "75"),
        ("server.prod.io", "/tmp/reed.sock"),
    ]);
    let content = export_toml_content(&project, &server);
    assert_eq!(
        content,
        "# Reed.toml - Exported Configuration\n# Generated by: reed config:export\n# Source: .reed/*.csv files\n\n\
[project]\nname = \"Demo\"\nurl = \"https://example.com\"\n\n[project.languages]\ndefault = \"de\"\n\
available = [\"de\", \"en\"]\nfallback_chain = true\n\n[project.routing]\nurl_prefix = true\ntrailing_slash = false\n\n\
[server]\nworkers = 4\n\n[server.dev]\ndomain = \"localhost\"\nenable_cors = true\n\
allowed_origins = [\"http://a\", \"http://b\"]\nkeep_alive = 75\n\n[server.prod]\nio = \"/tmp/reed.sock\"\n\n"
    );
}

#[test]
fn test_export_toml_content_empty_origins() {
    let server = flags(&[("server.prod.enable_cors", "false"), ("server.prod.allowed_origins", "")]);
    let content = export_toml_content(&StringMap::new(), &server);
    assert!(content.ends_with("[server]\n\n[server.prod]\nenable_cors = false\nallowed_origins = []\n\n"));
}

#[test]
fn test_config_export_refuses_existing_file() {
    match config_export(&flags(&[]), true, None, None) {
        Err(ReedError::ConfigError { component, reason }) => {
            assert_eq!(component, "config:export");
            assert_eq!(reason, "File already exists: Reed.toml. Use --force to overwrite");
        }
        other => panic!("unexpected: {:?}", other),
    }
}

#[test]
fn test_config_export_counts_distinct_keys() {
    let project = vec![record("project.name", "Old"), record("project.name", "New"), record("project.url", "https://x")];
    let server = vec![record("server.workers", "2")];
    let (content, resp) =
        config_export(&flags(&[("force", "true")]), true, Some(Ok(project)), Some(Ok(server))).unwrap();
    assert!(content.contains("name = \"New\"\n"));
    assert!(!content.contains("Old"));
    assert_eq!(
        resp.data,
        "✓ Successfully exported 3 configuration values from CSV → Reed.toml\nOutput file: Reed.toml"
    );
    assert_eq!(resp.source, "config:export");
}

#[test]
fn test_config_export_passes_read_error_on() {
    let err = ReedError::ParseError { input: "x".to_string(), reason: "bad".to_string() };
    match config_export(&flags(&[]), false, Some(Err(err)), None) {
        Err(ReedError::ParseError { input, reason }) => {
            assert_eq!(input, "x");
            assert_eq!(reason, "bad");
        }
        other => panic!("unexpected: {:?}", other),
    }
}

#[test]
fn test_validate_config_counts_characters() {
    let mut c = sample_config();
    c.project.name = "ä".repeat(60);
    assert!(validate_config(&c).is_ok());
    c.project.name = "€".repeat(100);
    assert!(validate_config(&c).is_ok());
    c.project.name = "x".repeat(101);
    assert!(matches!(validate_config(&c), Err(ReedError::ValidationError { .. })));
}

#[test]
fn test_config_export_carries_synced_server_values() {
    let requests = sync_toml_to_csv(&sample_config());
    let mut project = Vec::new();
    let mut server = Vec::new();
    for r in &requests {
        let rec = record(&r.key, r.value.as_deref().unwrap());
        if r.context.as_deref() == Some("project") {
            project.push(rec);
        } else {
            server.push(rec);
        }
    }
    let (content, resp) =
        config_export(&flags(&[("force", "true")]), true, Some(Ok(project)), Some(Ok(server))).unwrap();
    assert!(content.ends_with(
        "[server]\nworkers = 4\n\n[server.dev]\ndomain = \"localhost\"\nio = \"127.0.0.1:8333\"\nenable_cors = true\n\
allowed_origins = [\"http://localhost\"]\nenable_rate_limit = false\nrequests_per_minute = 60\n\
enable_compression = true\nenable_http2 = false\nkeep_alive = 75\n\n[server.prod]\ndomain = \"localhost\"\n\
io = \"127.0.0.1:8333\"\nenable_cors = true\nallowed_origins = []\nenable_rate_limit = false\n\
requests_per_minute = 60\nenable_compression = true\nenable_http2 = false\nkeep_alive = 75\n\n"
    ));
    assert!(resp.data.starts_with("✓ Successfully exported 32 configuration values"));
}
