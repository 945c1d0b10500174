use reedcms::cli::data_commands::{
    get_meta, get_route, get_text, list_meta, list_route, list_text, lookup_report,
    matches_pattern, set_meta, set_report, set_route, set_text, DataKind,
};
use reedcms::csv::record::CsvRecord;
use reedcms::string_map::StringMap;

fn flags_with_desc(desc: &str) -> StringMap {
    let mut flags = StringMap::new();
    flags.insert("desc".to_string(), desc.to_string());
    flags
}

#[test]
fn test_set_text_missing_args() {
    let args = vec!["only_one_arg".to_string()];
    let flags = StringMap::new();

    let result = set_text(&args, &flags);
    assert!(result.is_err());
}

#[test]
fn test_set_text_missing_desc_flag() {
    let args = vec!["test.key@en".to_string(), "Test Value".to_string()];
    let flags = StringMap::new();

    let result = set_text(&args, &flags);
    assert!(result.is_err());
}

#[test]
fn test_set_text_desc_too_short() {
    let args = vec!["test.key@en".to_string(), "Test Value".to_string()];
    let mut flags = StringMap::new();
    flags.insert("desc".to_string(), "short".to_string());

    let result = set_text(&args, &flags);
    assert!(result.is_err());
}

#[test]
fn test_get_text_no_args() {
    let args: Vec<String> = vec![];
    let result = get_text(&args);
    assert!(result.is_err());
}

// Own tests

#[test]
fn set_text_builds_request_and_report() {
    let args = vec!["test.key@en".to_string(), "Test Value".to_string()];
    let flags = flags_with_desc("Test description for text");
    let request = set_text(&args, &flags).unwrap();
    assert_eq!(request.key, "test.key@en");
    assert_eq!(request.value, Some("Test Value".to_string()));
    assert_eq!(request.context, Some("text".to_string()));
    assert_eq!(request.description, Some("Test description for text".to_string()));

    let response = set_report(DataKind::Text, &request);
    assert!(response.data.contains("✓ Text set"));
    assert!(response.data.contains("test.key@en"));
    assert!(response.data.contains("Test Value"));
    assert_eq!(
        response.data,
        "✓ Text set: test.key@en = \"Test Value\"\n  Description: Test description for text"
    );
    assert_eq!(response.source, "cli::data_commands::set_text");
}

#[test]
fn set_route_and_meta_reports() {
    let args = vec!["knowledge@en".to_string(), "knowledge".to_string()];
    let flags = flags_with_desc("English route for knowledge page");
    let request = set_route(&args, &flags).unwrap();
    let response = set_report(DataKind::Route, &request);
    assert!(response.data.contains("✓ Route set"));
    assert!(response.data.contains("knowledge@en → \"knowledge\""));

    let args = vec!["cache.ttl".to_string(), "3600".to_string()];
    let flags = flags_with_desc("Cache time-to-live in seconds");
    let request = set_meta(&args, &flags).unwrap();
    let response = set_report(DataKind::Meta, &request);
    assert!(response.data.contains("✓ Meta set"));
}

#[test]
fn description_of_exactly_ten_characters_is_accepted() {
    let args = vec!["k".to_string(), "v".to_string()];
    assert!(set_meta(&args, &flags_with_desc("0123456789")).is_ok());
    assert!(set_meta(&args, &flags_with_desc("012345678")).is_err());
}

#[test]
fn lookup_finds_last_record_with_key() {
    let records = vec![
        CsvRecord::new("test.key@en".to_string(), "Old".to_string(), None),
        CsvRecord::new("other@en".to_string(), "X".to_string(), None),
        CsvRecord::new("test.key@en".to_string(), "Test Value".to_string(), None),
    ];
    let request = get_text(&vec!["test.key@en".to_string()]).unwrap();
    let response = lookup_report(DataKind::Text, &request, &records, ".reed/text.csv").unwrap();
    assert!(response.data.contains("Test Value"));
    assert!(response.data.contains("source:"));
    assert_eq!(response.data, "Test Value\n(source: .reed/text.csv)");
}

#[test]
fn lookup_of_missing_key_is_not_found() {
    let request = get_route(&vec!["nonexistent.key@en".to_string()]).unwrap();
    let result = lookup_report(DataKind::Route, &request, &vec![], ".reed/routes.csv");
    assert!(result.is_err());
    assert!(get_meta(&vec![]).is_err());
}

#[test]
fn patterns_match_as_globs() {
    assert!(matches_pattern("page.title@en", "*"));
    assert!(matches_pattern("page.title@en", "page.*"));
    assert!(matches_pattern("page.title@en", "*@en"));
    assert!(matches_pattern("page.title@en", "*title*"));
    assert!(matches_pattern("page.title@en", "page.title@en"));
    assert!(!matches_pattern("page.title@en", "page.title@de"));
    assert!(!matches_pattern("page.title@en", "*@de"));
    assert!(!matches_pattern("page.title@en", "blog.*"));
}

#[test]
fn listings_count_matching_keys() {
    let records = vec![
        CsvRecord::new("page.title@en".to_string(), "A".to_string(), None),
        CsvRecord::new("page.title@de".to_string(), "B".to_string(), None),
        CsvRecord::new("blog.title@en".to_string(), "C".to_string(), None),
    ];
    let all = list_text(&vec![], &records);
    assert_eq!(all.data, "page.title@en\npage.title@de\nblog.title@en\n(3 entries found)");
    let en = list_route(&vec!["*@en".to_string()], &records);
    assert_eq!(en.data, "page.title@en\nblog.title@en\n(2 entries found)");
    let none = list_meta(&vec!["x*".to_string()], &records);
    assert_eq!(none.data, "(0 entries found)");
}
