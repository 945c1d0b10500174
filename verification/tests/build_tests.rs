use reedcms::build::cache_bust::{
    generate_cache_busting_manifest, AssetFile, busted_filename, calculate_content_hash, get_hashed_filename, insert_hash_into_filename,
    is_already_hashed, is_bust_candidate, AssetManifest,
};
use reedcms::build::change_detect::{detect_rebuild_scope, extract_layout_variant, RebuildScope};
use reedcms::build::compiler::BuildInfo;
use reedcms::build::digest::{md5_hex, sha256_hex};
use reedcms::build::packager::{archive_path, package_dir, package_name, PackageInfo};
use reedcms::build::pipeline::{
    first_stage, next_stage, stage_done_line, stage_failure, stage_heading, BuildMode, BuildReport,
    CssBundleResult, JsBundleResult, PipelineStage,
};
use reedcms::build::version::{
    get_build_metadata, get_version, get_version_with_suffix, is_compatible, parse_version,
};

// ---------------------------------------------------------------------------
// Cache busting
// ---------------------------------------------------------------------------

#[test]
fn test_insert_hash_into_filename() {
    let result = insert_hash_into_filename("knowledge.mouse.css", "a7f3k9s2");
    assert_eq!(result, "knowledge.mouse.a7f3k9s2.css");

    let result = insert_hash_into_filename("blog.touch.js", "b4k7p2m9");
    assert_eq!(result, "blog.touch.b4k7p2m9.js");

    let result = insert_hash_into_filename("noext", "12345678");
    assert_eq!(result, "noext.12345678");
}

#[test]
fn test_is_already_hashed() {
    assert!(is_already_hashed("knowledge.mouse.a7f3k9s2.css"));
    assert!(is_already_hashed("blog.touch.b4k7p2m9.js"));

    assert!(!is_already_hashed("knowledge.mouse.css"));
    assert!(!is_already_hashed("blog.touch.js"));

    assert!(!is_already_hashed("file.abc.css"));
    assert!(!is_already_hashed("file.123.css"));

    assert!(!is_already_hashed("file.abcdefgh.css"));
}

#[test]
fn test_asset_manifest_new() {
    let manifest = AssetManifest::new();
    assert!(manifest.entries.is_empty());
}

#[test]
fn test_asset_manifest_insert() {
    let mut manifest = AssetManifest::new();
    manifest.entries.insert("file.css".to_string(), "file.abc123.css".to_string());

    assert_eq!(manifest.entries.len(), 1);
    assert_eq!(manifest.entries.get("file.css"), Some(&"file.abc123.css".to_string()));
}

#[test]
fn content_hash_is_first_eight_hex_digits_of_sha256() {
    let hash = calculate_content_hash(b"body { margin: 0; }");
    assert_eq!(hash.len(), 8);
    assert!(hash.chars().all(|c| c.is_ascii_hexdigit()));
    let full = sha256_hex(b"body { margin: 0; }");
    assert!(full.starts_with(&hash));
    assert_eq!(calculate_content_hash(b"body { margin: 0; }"), hash);
    assert_ne!(calculate_content_hash(b"body { margin: 1; }"), hash);
}

#[test]
fn digests_have_known_values() {
    assert_eq!(md5_hex(b""), "d41d8cd98f00b204e9800998ecf8427e");
    assert_eq!(
        sha256_hex(b"abc"),
        "ba7816bf8f01cfea414140de5dae2223b00361a396177a9cb410ff61f20015ad"
    );
}

#[test]
fn bust_candidates_skip_maps_compressed_and_hashed_files() {
    assert!(is_bust_candidate("app.css"));
    assert!(!is_bust_candidate("app.css.map"));
    assert!(!is_bust_candidate("app.css.gz"));
    assert!(!is_bust_candidate("app.css.br"));
    assert!(!is_bust_candidate("app.a7f3k9s2.css"));
    let name = busted_filename("app.css", b"x");
    assert!(name.starts_with("app."));
    assert!(name.ends_with(".css"));
    assert_eq!(name.len(), "app..css".len() + 8);
}

#[test]
fn hashed_filename_lookup() {
    let mut manifest = AssetManifest::new();
    manifest.entries.insert("a.css".to_string(), "a.12345678.css".to_string());
    assert_eq!(get_hashed_filename(&manifest, "a.css").unwrap(), "a.12345678.css");
    assert!(get_hashed_filename(&manifest, "b.css").is_err());
}

// ---------------------------------------------------------------------------
// Change detection
// ---------------------------------------------------------------------------

#[test]
fn test_core_css_triggers_all_css() {
    let scope = detect_rebuild_scope("assets/css/core/reset.css");
    assert_eq!(scope, RebuildScope::AllCss);
}

#[test]
fn test_component_css_triggers_all_css() {
    let scope = detect_rebuild_scope("assets/css/components/atoms/button/button.css");
    assert_eq!(scope, RebuildScope::AllCss);
}

#[test]
fn test_layout_css_triggers_specific() {
    let scope = detect_rebuild_scope("assets/css/layouts/knowledge/knowledge.mouse.css");
    match scope {
        RebuildScope::SpecificCss { layout, variant } => {
            assert_eq!(layout, "knowledge");
            assert_eq!(variant, "mouse");
        }
        _ => panic!("Expected SpecificCss"),
    }
}

#[test]
fn test_core_js_triggers_all_js() {
    let scope = detect_rebuild_scope("assets/js/core/utils.js");
    assert_eq!(scope, RebuildScope::AllJs);
}

#[test]
fn test_component_js_triggers_all_js() {
    let scope = detect_rebuild_scope("assets/js/components/molecules/slider/slider.js");
    assert_eq!(scope, RebuildScope::AllJs);
}

#[test]
fn test_layout_js_triggers_specific() {
    let scope = detect_rebuild_scope("assets/js/layouts/blog/blog.touch.js");
    match scope {
        RebuildScope::SpecificJs { layout, variant } => {
            assert_eq!(layout, "blog");
            assert_eq!(variant, "touch");
        }
        _ => panic!("Expected SpecificJs"),
    }
}

#[test]
fn test_template_change() {
    let scope = detect_rebuild_scope("templates/layouts/knowledge/knowledge.mouse.jinja");
    match scope {
        RebuildScope::Template { path } => {
            assert!(path.starts_with("templates/"));
        }
        _ => panic!("Expected Template"),
    }
}

#[test]
fn test_config_change() {
    let scope = detect_rebuild_scope(".reed/text.csv");
    match scope {
        RebuildScope::Config { path } => {
            assert!(path.starts_with(".reed/"));
        }
        _ => panic!("Expected Config"),
    }
}

#[test]
fn test_unknown_file() {
    let scope = detect_rebuild_scope("some/random/file.txt");
    assert_eq!(scope, RebuildScope::Nothing);
}

#[test]
fn test_extract_layout_variant_css() {
    let result = extract_layout_variant("assets/css/layouts/knowledge/knowledge.mouse.css", "css");
    assert_eq!(result, Some(("knowledge".to_string(), "mouse".to_string())));
}

#[test]
fn test_extract_layout_variant_js() {
    let result = extract_layout_variant("assets/js/layouts/blog/blog.touch.js", "js");
    assert_eq!(result, Some(("blog".to_string(), "touch".to_string())));
}

#[test]
fn test_extract_layout_variant_reader() {
    let result = extract_layout_variant("assets/css/layouts/landing/landing.reader.css", "css");
    assert_eq!(result, Some(("landing".to_string(), "reader".to_string())));
}

#[test]
fn test_extract_layout_variant_malformed() {
    let result = extract_layout_variant("assets/css/layouts/invalid", "css");
    assert_eq!(result, None);
}

#[test]
fn test_extract_layout_variant_core() {
    let result = extract_layout_variant("assets/css/core/reset.css", "css");
    assert_eq!(result, None);
}

#[test]
fn test_rebuild_scope_debug() {
    let scope = RebuildScope::AllCss;
    let debug = format!("{:?}", scope);
    assert!(debug.contains("AllCss"));
}

#[test]
fn test_rebuild_scope_clone() {
    let scope = RebuildScope::AllCss;
    let cloned = scope.clone();
    assert_eq!(scope, cloned);
}

#[test]
fn test_rebuild_scope_equality() {
    let scope1 = RebuildScope::AllCss;
    let scope2 = RebuildScope::AllCss;
    let scope3 = RebuildScope::AllJs;
    assert_eq!(scope1, scope2);
    assert_ne!(scope1, scope3);
}

#[test]
fn test_specific_css_equality() {
    let scope1 = RebuildScope::SpecificCss { layout: "knowledge".to_string(), variant: "mouse".to_string() };
    let scope2 = RebuildScope::SpecificCss { layout: "knowledge".to_string(), variant: "mouse".to_string() };
    assert_eq!(scope1, scope2);
}

#[test]
fn test_different_variants_not_equal() {
    let scope1 = RebuildScope::SpecificCss { layout: "knowledge".to_string(), variant: "mouse".to_string() };
    let scope2 = RebuildScope::SpecificCss { layout: "knowledge".to_string(), variant: "touch".to_string() };
    assert_ne!(scope1, scope2);
}

#[test]
fn test_watcher_module_exists() {
    assert!(true);
}

#[test]
fn test_rebuild_scope_accessible() {
    let scope = RebuildScope::AllCss;
    assert_eq!(scope, RebuildScope::AllCss);
}

#[test]
fn test_change_detect_accessible() {
    let scope = detect_rebuild_scope("assets/css/core/reset.css");
    assert!(matches!(scope, RebuildScope::AllCss));
}

// ---------------------------------------------------------------------------
// Release build and packaging records
// ---------------------------------------------------------------------------

#[test]
fn test_build_info_structure() {
    let build_info = BuildInfo {
        version: "0.1.0".to_string(),
        binary_path: "target/release/reedcms".to_string(),
        original_size: 15_000_000,
        compressed_size: Some(6_000_000),
        sha256: "a".repeat(64),
        md5: "b".repeat(32),
        build_time: "2025-02-04T12:00:00Z".to_string(),
        build_duration_secs: 180,
    };

    assert_eq!(build_info.version, "0.1.0");
    assert_eq!(build_info.original_size, 15_000_000);
    assert_eq!(build_info.compressed_size, Some(6_000_000));
    assert_eq!(build_info.sha256.len(), 64);
    assert_eq!(build_info.md5.len(), 32);
    assert_eq!(build_info.final_size(), 6_000_000);
}

#[test]
fn test_package_info_structure() {
    let package_info = PackageInfo {
        package_name: "reedcms-v0.1.0-linux-x86_64".to_string(),
        archive_path: "target/release/reedcms-v0.1.0-linux-x86_64.tar.gz".to_string(),
        archive_size: 10_000_000,
        sha256: "a".repeat(64),
    };

    assert!(package_info.package_name.contains("reedcms"));
    assert!(package_info.package_name.contains("v0.1.0"));
    assert!(package_info.archive_path.ends_with(".tar.gz"));
    assert_eq!(package_info.archive_size, 10_000_000);
    assert_eq!(package_info.sha256.len(), 64);
}

#[test]
fn package_names_and_paths() {
    let name = package_name("0.1.0", "linux", "x86_64");
    assert_eq!(name, "reedcms-v0.1.0-linux-x86_64");
    assert_eq!(package_dir(&name), "target/release/reedcms-v0.1.0-linux-x86_64");
    assert_eq!(archive_path(&name), "target/release/reedcms-v0.1.0-linux-x86_64.tar.gz");
}

// ---------------------------------------------------------------------------
// Build report
// ---------------------------------------------------------------------------

#[test]
fn test_build_report_initialization() {
    let report = BuildReport::new();
    assert_eq!(report.total_files, 0);
    assert_eq!(report.original_size, 0);
    assert_eq!(report.total_size, 0);
    assert_eq!(report.css_bundles.len(), 0);
    assert_eq!(report.js_bundles.len(), 0);
    assert_eq!(report.compressed_files, 0);
    assert_eq!(report.size_reduction_percent, 0);
}

#[test]
fn test_build_report_calculate_totals() {
    let mut report = BuildReport::new();
    report.css_bundles = vec![
        CssBundleResult {
            output_path: "public/css/test1.mouse.css".to_string(),
            original_size: 1000,
            minified_size: 800,
            reduction_percent: 20,
        },
        CssBundleResult {
            output_path: "public/css/test2.touch.css".to_string(),
            original_size: 2000,
            minified_size: 1600,
            reduction_percent: 20,
        },
    ];
    report.js_bundles = vec![JsBundleResult {
        output_path: "public/js/test1.mouse.js".to_string(),
        original_size: 3000,
        shaken_size: 2800,
        minified_size: 2400,
        reduction_percent: 20,
    }];

    report.calculate_totals();

    assert_eq!(report.total_files, 3);
    assert_eq!(report.original_size, 6000);
    assert_eq!(report.total_size, 4800);
    assert_eq!(report.size_reduction_percent, 20);
}

#[test]
fn test_build_mode_variants() {
    let full = BuildMode::Full;
    let incremental = BuildMode::Incremental;
    assert_eq!(full, BuildMode::Full);
    assert_eq!(incremental, BuildMode::Incremental);
    assert_ne!(full, incremental);
}

#[test]
fn test_clean_public_directory_basic() {
    assert!(true);
}

#[test]
fn test_build_report_duration() {
    let mut report = BuildReport::new();
    report.build_duration_secs = 5;
    assert_eq!(report.build_duration_secs, 5);
}

#[test]
fn test_build_report_compressed_files() {
    let mut report = BuildReport::new();
    report.compressed_files = 10;
    assert_eq!(report.compressed_files, 10);
}

#[test]
fn test_build_report_size_reduction() {
    let mut report = BuildReport::new();
    report.original_size = 10000;
    report.total_size = 7000;
    report.calculate_totals();
    assert_eq!(report.size_reduction_percent, 30);
}

#[test]
fn test_build_report_zero_original_size() {
    let mut report = BuildReport::new();
    report.original_size = 0;
    report.total_size = 0;
    report.calculate_totals();
    assert_eq!(report.size_reduction_percent, 0);
}

#[test]
fn test_build_mode_debug() {
    let full = BuildMode::Full;
    let debug_str = format!("{:?}", full);
    assert!(debug_str.contains("Full"));
}

#[test]
fn test_build_report_clone() {
    let report = BuildReport::new();
    let cloned = report.clone();
    assert_eq!(cloned.total_files, report.total_files);
    assert_eq!(cloned.original_size, report.original_size);
}

#[test]
fn reduction_rounds_down() {
    let mut report = BuildReport::new();
    report.css_bundles = vec![CssBundleResult {
        output_path: "a.css".to_string(),
        original_size: 3,
        minified_size: 2,
        reduction_percent: 0,
    }];
    report.calculate_totals();
    assert_eq!(report.original_size, 3);
    assert_eq!(report.total_size, 2);
    assert_eq!(report.size_reduction_percent, 34);
}

// ---------------------------------------------------------------------------
// Versions
// ---------------------------------------------------------------------------

#[test]
fn test_get_version() {
    let version = get_version();
    assert!(!version.is_empty());
    assert!(version.contains('.'));
}

#[test]
fn test_get_build_metadata() {
    let metadata = get_build_metadata();
    assert_eq!(metadata.name, "reedcms");
    assert!(!metadata.version.is_empty());
    assert!(!metadata.authors.is_empty());
    assert_eq!(metadata.license, "Apache-2.0");
}

#[test]
fn test_get_version_with_suffix() {
    let version_no_suffix = get_version_with_suffix(None);
    assert_eq!(version_no_suffix, get_version());

    let version_beta = get_version_with_suffix(Some("beta"));
    assert!(version_beta.ends_with("-beta"));
    assert!(version_beta.starts_with(get_version()));

    let version_rc = get_version_with_suffix(Some("rc1"));
    assert!(version_rc.ends_with("-rc1"));
}

#[test]
fn test_parse_version() {
    assert_eq!(parse_version("1.2.3"), Some((1, 2, 3)));
    assert_eq!(parse_version("0.1.0"), Some((0, 1, 0)));
    assert_eq!(parse_version("10.20.30"), Some((10, 20, 30)));

    assert_eq!(parse_version("1.2"), None);
    assert_eq!(parse_version("1.2.3.4"), None);
    assert_eq!(parse_version("a.b.c"), None);
    assert_eq!(parse_version(""), None);
}

#[test]
fn test_is_compatible() {
    assert!(is_compatible("1.2.3", "1.9.0"));
    assert!(is_compatible("1.0.0", "1.9.9"));
    assert!(is_compatible("2.1.0", "2.5.3"));

    assert!(!is_compatible("1.2.3", "2.0.0"));
    assert!(!is_compatible("0.9.0", "1.0.0"));
    assert!(!is_compatible("2.0.0", "3.0.0"));

    assert!(!is_compatible("1.2.3", "invalid"));
    assert!(!is_compatible("invalid", "1.2.3"));
    assert!(!is_compatible("1.2", "1.2.3"));
}

#[test]
fn compatibility_is_symmetric_and_reflexive_on_examples() {
    assert_eq!(is_compatible("1.2.3", "1.0.0"), is_compatible("1.0.0", "1.2.3"));
    assert!(is_compatible("4.5.6", "4.5.6"));
    assert!(!is_compatible("x", "x"));
}

#[test]
fn parse_version_accepts_plus_sign_like_u32_parse() {
    assert_eq!(parse_version("+1.2.3"), Some((1, 2, 3)));
    assert_eq!(parse_version("1.2.4294967296"), None);
}

#[test]
fn test_build_metadata_full_version() {
    let metadata = get_build_metadata();
    let full = metadata.full_version();
    assert!(full.contains(&metadata.name));
    assert!(full.contains(&metadata.version));
    assert_eq!(full, format!("{} {}", metadata.name, metadata.version));
}

#[test]
fn test_build_metadata_build_info_string() {
    let metadata = get_build_metadata();
    let info = metadata.build_info_string();
    assert!(info.contains(&metadata.name));
    assert!(info.contains(&metadata.version));
    assert!(info.contains(&metadata.authors));
    assert!(info.contains(&metadata.license));
    assert!(info.contains(&metadata.repository));
    assert!(info.contains('\n'));
}

#[test]
fn test_version_format() {
    let version = get_version();
    let parts: Vec<&str> = version.split('.').collect();
    assert_eq!(parts.len(), 3, "Version should be in x.y.z format");
    for part in parts {
        assert!(part.parse::<u32>().is_ok(), "Version parts should be numbers");
    }
}

#[test]
fn test_calculate_content_hash() {
    let content = b"body { margin: 0; }";
    let hash = calculate_content_hash(content);

    assert_eq!(hash.len(), 8);
    assert!(hash.chars().all(|c| c.is_ascii_hexdigit()));

    let hash2 = calculate_content_hash(content);
    assert_eq!(hash, hash2);
}

#[test]
fn test_calculate_content_hash_different_content() {
    let hash1 = calculate_content_hash(b"content 1");
    let hash2 = calculate_content_hash(b"content 2");

    assert_ne!(hash1, hash2);
}

#[test]
fn cache_busting_manifest_maps_candidates() {
    let files = vec![
        AssetFile { name: "knowledge.mouse.css".to_string(), content: b"body { margin: 0; }".to_vec() },
        AssetFile { name: "knowledge.mouse.css.map".to_string(), content: b"{}".to_vec() },
        AssetFile { name: "blog.touch.js".to_string(), content: b"let a = 1;".to_vec() },
        AssetFile { name: "blog.touch.js.gz".to_string(), content: vec![1, 2, 3] },
    ];
    let manifest = generate_cache_busting_manifest(&files);
    assert_eq!(manifest.entries.len(), 2);
    let css_hash = calculate_content_hash(b"body { margin: 0; }");
    assert_eq!(
        manifest.entries.get("knowledge.mouse.css"),
        Some(&format!("knowledge.mouse.{}.css", css_hash))
    );
    assert!(manifest.entries.get("blog.touch.js").unwrap().starts_with("blog.touch."));
    assert!(manifest.entries.get("knowledge.mouse.css.map").is_none());
}

#[test]
fn pipeline_stages_run_in_order() {
    let mut s = first_stage(BuildMode::Full);
    let mut headings = Vec::new();
    while s != PipelineStage::Finished {
        headings.push(stage_heading(s));
        s = next_stage(s);
    }
    assert_eq!(headings.len(), 5);
    assert_eq!(headings[0], "[1/5] Cleaning previous build...");
    assert_eq!(first_stage(BuildMode::Incremental), PipelineStage::Css);
    match stage_failure(PipelineStage::Js, "boom") {
        Some(reedcms::reedstream::ReedError::BuildError { component, reason }) => {
            assert_eq!(component, "js_bundler");
            assert_eq!(reason, "JS bundling failed: boom");
        }
        other => panic!("unexpected {:?}", other),
    }
    assert!(stage_failure(PipelineStage::Clean, "x").is_none());
    assert_eq!(
        stage_done_line(PipelineStage::Compress, 12),
        Some("✓ 12 files compressed (gzip + brotli)\n".to_string())
    );
}

#[test]
fn kernel_build_plan_and_report() {
    use_kernel();
}

fn use_kernel() {
    let mut flags = reedcms::string_map::StringMap::new();
    flags.insert("release".to_string(), "true".to_string());
    flags.insert("target".to_string(), "x86_64-unknown-linux-musl".to_string());
    let plan = reedcms::cli::build_commands::build_kernel(&vec![], &flags);
    assert_eq!(plan.profile, "release");
    assert_eq!(
        plan.cargo_args,
        vec!["build", "--release", "--target", "x86_64-unknown-linux-musl"]
    );
    assert_eq!(plan.binary_path, "target/x86_64-unknown-linux-musl/release/reed");
    assert!(plan.report.ends_with("✓ Target: x86_64-unknown-linux-musl\n  Compiling reedcms...\n"));
    let report = reedcms::cli::build_commands::kernel_build_report(&plan, Some("15.0"), "61.2");
    assert!(report.data.contains("\n  Finished release in 61.2s\n\n"));
    assert!(report.data.contains("✓ Binary created: target/x86_64-unknown-linux-musl/release/reed (15.0 MB)\n"));
    assert!(report.data.ends_with("- Profile: release\n- Duration: 61.2s\n"));
    let debug = reedcms::cli::build_commands::build_kernel(&vec![], &reedcms::string_map::StringMap::new());
    assert_eq!(debug.binary_path, "target/debug/reed");
    let report = reedcms::cli::build_commands::kernel_build_report(&debug, None, "0.0");
    assert!(report.data.contains("⚠ Binary not found at: target/debug/reed\n"));
}

#[test]
fn test_build_complete_report_without_debug_log() {
    let flags = reedcms::string_map::StringMap::new();
    let (resp, log) = reedcms::cli::build_commands::build_complete_report(&flags, "k", "p", "1.3");
    assert_eq!(
        resp.data,
        "🚀 Running complete ReedCMS build...\n\n[1/2] Building kernel...\n✓ Kernel built\n\n\
[2/2] Building public assets...\n✓ Assets processed (placeholder)\n\n🎉 Complete build finished!\n\n\
Build summary:\n- Total duration: 1.3s\n"
    );
    assert_eq!(resp.source, "cli::build_complete");
    assert!(log.is_none());
}

#[test]
fn test_build_complete_report_with_debug_log() {
    let mut flags = reedcms::string_map::StringMap::new();
    flags.insert("debug".to_string(), "build.log".to_string());
    let (resp, log) = reedcms::cli::build_commands::build_complete_report(&flags, "KOUT", "POUT", "0.0");
    let head = "🚀 Running complete ReedCMS build...\n\n[1/2] Building kernel...\n✓ Kernel built\n\n\
[2/2] Building public assets...\n✓ Assets processed (placeholder)\n\n🎉 Complete build finished!\n\n\
Build summary:\n- Total duration: 0.0s\n";
    assert_eq!(resp.data, format!("{}- Debug log: build.log\n", head));
    assert_eq!(log.unwrap(), format!("{}\n\nKernel Output:\nKOUT\n\nPublic Output:\nPOUT\n", head));
}

#[test]
fn test_build_public_report_with_minify() {
    let mut flags = reedcms::string_map::StringMap::new();
    flags.insert("minify".to_string(), "true".to_string());
    let resp = reedcms::cli::build_commands::build_public(&vec![], &flags, "0.3").unwrap();
    assert_eq!(
        resp.data,
        "🎨 Building public assets...\n\n✓ Minification enabled\n\n\
⚠ Asset bundling not yet implemented (requires REED-08-01, REED-08-02)\n   \
This command will bundle CSS and JS files when asset pipeline is ready.\n\n\
Build summary:\n- Status: Placeholder\n- Duration: 0.3s\n"
    );
    assert_eq!(resp.source, "cli::build_public");
}

#[test]
fn test_build_watch_report_with_flags() {
    let mut flags = reedcms::string_map::StringMap::new();
    flags.insert("templates-only".to_string(), "true".to_string());
    flags.insert("debounce".to_string(), "500".to_string());
    let resp = reedcms::cli::build_commands::build_watch(&vec![], &flags).unwrap();
    assert!(resp.data.starts_with("👀 Watch mode requested...\n\n✓ Mode: Templates only\n✓ Debounce: 500ms\n\n"));
    assert!(resp.data.ends_with("  - .reed/*.csv (Data files)\n"));
    assert_eq!(resp.source, "cli::build_watch");
}
