use reedcms::cli::validation_commands::{
    is_valid_route, split_lang, validate_consistency, validate_references, validate_routes,
    text_completeness, validate_text, ProjectFiles,
};
use reedcms::csv::record::CsvRecord;
use reedcms::string_map::StringMap;

fn make_flags(pairs: &[(&str, &str)]) -> StringMap {
    let mut flags = StringMap::new();
    for (k, v) in pairs {
        flags.insert(k.to_string(), v.to_string());
    }
    flags
}

fn no_files() -> ProjectFiles {
    ProjectFiles {
        text: None,
        routes: None,
        meta: None,
        registry: None,
        existing_templates: Vec::new(),
        duration: "0.00".to_string(),
    }
}

fn rec(k: &str, v: &str) -> CsvRecord {
    CsvRecord::new(k.to_string(), v.to_string(), None)
}

#[test]
fn test_validate_routes_no_flags() {
    let flags = StringMap::new();
    let result = validate_routes(&flags, no_files());
    let _ = result;
}

#[test]
fn test_validate_routes_with_fix() {
    let flags = make_flags(&[("fix", "")]);
    let result = validate_routes(&flags, no_files());
    let _ = result;
}

#[test]
fn test_validate_consistency_no_flags() {
    let flags = StringMap::new();
    let result = validate_consistency(&flags, no_files());
    let _ = result;
}

#[test]
fn test_validate_text_missing_language() {
    let flags = StringMap::new();
    let result = validate_text(&flags, no_files(), "100.0");
    assert!(result.is_err());
}

#[test]
fn test_validate_text_with_language_de() {
    let flags = make_flags(&[("language", "de")]);
    let result = validate_text(&flags, no_files(), "100.0");
    let _ = result;
}

#[test]
fn test_validate_text_with_language_en() {
    let flags = make_flags(&[("language", "en")]);
    let result = validate_text(&flags, no_files(), "100.0");
    let _ = result;
}

#[test]
fn test_validate_text_with_language_fr() {
    let flags = make_flags(&[("language", "fr")]);
    let result = validate_text(&flags, no_files(), "100.0");
    let _ = result;
}

#[test]
fn test_validate_references_no_flags() {
    let flags = StringMap::new();
    let result = validate_references(&flags, no_files());
    let _ = result;
}

// Own tests

#[test]
fn missing_files_are_reported() {
    let r = validate_routes(&StringMap::new(), no_files()).unwrap();
    assert_eq!(r.data, "🔍 Validating routes...\n\n⚠ No routes.csv found\n");
    let t = validate_text(&make_flags(&[("language", "de")]), no_files(), "100.0").unwrap();
    assert!(t.data.contains("⚠ No text.csv found"));
}

#[test]
fn routes_report_finds_duplicates_and_missing_layouts() {
    let mut files = no_files();
    files.routes = Some(Ok(vec![
        rec("wissen", "blog"),
        rec("wissen", "blog"),
        rec("news", "missing"),
        rec("bad route!", "blog"),
    ]));
    files.registry = Some(Ok(vec![rec("blog", "x")]));
    files.existing_templates = vec![
        "templates/layouts/blog/blog.mouse.jinja".to_string(),
        "templates/layouts/blog/blog.touch.jinja".to_string(),
        "templates/layouts/blog/blog.reader.jinja".to_string(),
    ];
    let r = validate_routes(&StringMap::new(), files).unwrap();
    assert!(r.data.contains("📊 Total routes: 4"));
    assert!(r.data.contains("⚠ Route uniqueness: 1 duplicate(s) found"));
    assert!(r.data.contains("  - wissen → 2 layout(s): blog, blog"));
    assert!(r.data.contains("⚠ Layout references: 1 missing layout(s)\n  - news → missing"));
    assert!(r.data.contains("✓ Template files: OK (all templates exist)"));
    assert!(r.data.contains("⚠ Route format: 1 invalid route(s)"));
    assert_eq!(r.source, "validation");
}

#[test]
fn text_report_counts_missing_translations() {
    let mut files = no_files();
    files.text = Some(Ok(vec![
        rec("page.title@de", "Titel"),
        rec("page.title@en", "Title"),
        rec("page.body@en", "Body"),
        rec("page.empty@de", ""),
    ]));
    let records = match &files.text {
        Some(Ok(rs)) => rs.clone(),
        _ => unreachable!(),
    };
    assert_eq!(text_completeness(&records, "de"), (2, 3));
    let percent = format!("{:.1}", 2.0f64 / 3.0 * 100.0);
    let r = validate_text(&make_flags(&[("language", "de")]), files, &percent).unwrap();
    assert!(r.data.contains("📊 Total entries: 4"));
    assert!(r.data.contains("⚠ Missing translations: 1 found"));
    assert!(r.data.contains("⚠ Empty values: 1 found"));
    assert!(r.data.contains("Completeness: 66.7% (2 of 3 base keys)"));
}

#[test]
fn unreadable_file_is_the_error() {
    let mut files = no_files();
    files.routes = Some(Err(reedcms::reedstream::invalid_command("x", "y".to_string())));
    assert!(validate_routes(&StringMap::new(), files).is_err());
}

#[test]
fn route_and_key_helpers() {
    assert!(is_valid_route("wissen/artikel_1-a"));
    assert!(!is_valid_route("bad route"));
    let (base, lang) = split_lang("page.title@de").unwrap();
    assert_eq!(base, "page.title");
    assert_eq!(lang, "de");
    assert!(split_lang("page.title").is_none());
}

#[test]
fn consistency_and_references_run_on_loaded_files() {
    let mut files = no_files();
    files.text = Some(Ok(vec![rec("blog.title@de", "T")]));
    files.routes = Some(Ok(vec![rec("blog@de", "blog")]));
    files.meta = Some(Ok(vec![rec("blog.cache.ttl", "3600")]));
    files.registry = Some(Ok(vec![rec("blog", "x")]));
    assert!(validate_consistency(&StringMap::new(), files).is_ok());
    let mut files = no_files();
    files.text = Some(Ok(vec![rec("blog.title@de", "T")]));
    assert!(validate_references(&StringMap::new(), files).is_ok());
}

#[test]
fn text_completeness_counts_base_keys_and_report_uses_given_figure() {
    let mut records = Vec::new();
    for i in 0..80 {
        records.push(rec(&format!("k{}@en", i), "x"));
        if i < 23 {
            records.push(rec(&format!("k{}@de", i), "y"));
        }
    }
    assert_eq!(text_completeness(&records, "de"), (23, 80));
    let percent = format!("{:.1}", 23f64 / 80f64 * 100.0);
    assert_eq!(percent, "28.7");
    let mut files = no_files();
    files.text = Some(Ok(records));
    files.duration = "0.12".to_string();
    let r = validate_text(&make_flags(&[("language", "de")]), files, &percent).unwrap();
    assert!(r.data.contains("Completeness: 28.7% (23 of 80 base keys)\nDuration: 0.12s\n"));
}
