use reedcms::csv::content::{build_csv_content, parse_csv_content};
use reedcms::csv::record::{create_row, parse_row, CsvRecord};

#[test]
fn test_csv_record_new() {
    let record = CsvRecord::new(
        "test.key@en".to_string(),
        "test value".to_string(),
        Some("test description".to_string()),
    );

    assert_eq!(record.key, "test.key@en");
    assert_eq!(record.value, "test value");
    assert_eq!(record.description, Some("test description".to_string()));
}

#[test]
fn test_csv_record_new_no_description() {
    let record = CsvRecord::new("test.key@en".to_string(), "test value".to_string(), None);

    assert_eq!(record.key, "test.key@en");
    assert_eq!(record.value, "test value");
    assert_eq!(record.description, None);
}

#[test]
fn test_csv_record_new_with_description() {
    let record = CsvRecord::new(
        "page.title@en".to_string(),
        "Welcome".to_string(),
        Some("Homepage title".to_string()),
    );

    assert_eq!(record.key, "page.title@en");
    assert_eq!(record.value, "Welcome");
    assert_eq!(record.description, Some("Homepage title".to_string()));
}

#[test]
fn test_csv_record_new_without_description() {
    let record = CsvRecord::new("page.title@en".to_string(), "Welcome".to_string(), None);

    assert_eq!(record.key, "page.title@en");
    assert_eq!(record.value, "Welcome");
    assert_eq!(record.description, None);
}

#[test]
fn test_parse_row_three_fields() {
    let result = parse_row("page.title@en|Welcome|Homepage title");
    assert!(result.is_ok());

    let record = result.unwrap();
    assert_eq!(record.key, "page.title@en");
    assert_eq!(record.value, "Welcome");
    assert_eq!(record.description, Some("Homepage title".to_string()));
}

#[test]
fn test_parse_row_two_fields() {
    let result = parse_row("page.title@en|Welcome");
    assert!(result.is_ok());

    let record = result.unwrap();
    assert_eq!(record.key, "page.title@en");
    assert_eq!(record.value, "Welcome");
    assert_eq!(record.description, None);
}

#[test]
fn test_parse_row_with_whitespace() {
    let result = parse_row("  page.title@en  |  Welcome  |  Homepage title  ");
    assert!(result.is_ok());

    let record = result.unwrap();
    assert_eq!(record.key, "page.title@en");
    assert_eq!(record.value, "Welcome");
    assert_eq!(record.description, Some("Homepage title".to_string()));
}

#[test]
fn test_parse_row_empty_description() {
    let result = parse_row("page.title@en|Welcome|");
    assert!(result.is_ok());

    let record = result.unwrap();
    assert_eq!(record.key, "page.title@en");
    assert_eq!(record.value, "Welcome");
    assert_eq!(record.description, None);
}

#[test]
fn test_parse_row_one_field_error() {
    let result = parse_row("page.title@en");
    assert!(result.is_err());
}

#[test]
fn test_parse_row_empty_key_error() {
    let result = parse_row("|Welcome|Description");
    assert!(result.is_err());
}

#[test]
fn test_parse_row_whitespace_key_error() {
    let result = parse_row("   |Welcome|Description");
    assert!(result.is_err());
}

#[test]
fn test_parse_row_empty_line_error() {
    let result = parse_row("");
    assert!(result.is_err());
}

#[test]
fn test_parse_row_with_pipes_in_value() {
    let result = parse_row("key|value|with|pipes|description");
    assert!(result.is_ok());

    let record = result.unwrap();
    assert_eq!(record.key, "key");
    assert_eq!(record.value, "value");
    assert_eq!(record.description, Some("with".to_string()));
}

#[test]
fn test_create_row_with_description() {
    let record = CsvRecord::new(
        "page.title@en".to_string(),
        "Welcome".to_string(),
        Some("Homepage title".to_string()),
    );

    let row = create_row(&record);
    assert_eq!(row, "page.title@en|Welcome|Homepage title");
}

#[test]
fn test_create_row_without_description() {
    let record = CsvRecord::new("page.title@en".to_string(), "Welcome".to_string(), None);

    let row = create_row(&record);
    assert_eq!(row, "page.title@en|Welcome");
}

#[test]
fn test_round_trip_with_description() {
    let original = "page.title@en|Welcome|Homepage title";
    let record = parse_row(original).unwrap();
    let recreated = create_row(&record);
    assert_eq!(recreated, original);
}

#[test]
fn test_round_trip_without_description() {
    let original = "page.title@en|Welcome";
    let record = parse_row(original).unwrap();
    let recreated = create_row(&record);
    assert_eq!(recreated, original);
}

#[test]
fn test_parse_row_performance() {
    let start = std::time::Instant::now();
    for _ in 0..10000 {
        let _ = parse_row("page.title@en|Welcome|Homepage title");
    }
    let duration = start.elapsed();

    assert!(
        duration.as_millis() < 100,
        "parse_row too slow: {:?}",
        duration
    );
}

#[test]
fn test_create_row_performance() {
    let record = CsvRecord::new(
        "page.title@en".to_string(),
        "Welcome".to_string(),
        Some("Homepage title".to_string()),
    );

    let start = std::time::Instant::now();
    for _ in 0..10000 {
        let _ = create_row(&record);
    }
    let duration = start.elapsed();

    assert!(
        duration.as_millis() < 10,
        "create_row too slow: {:?}",
        duration
    );
}

// Own tests

#[test]
fn parse_row_error_names_row_and_reason() {
    let err = parse_row("only").unwrap_err();
    let text = err.describe();
    assert!(text.contains("only"));
    assert!(text.contains("Expected at least 2 fields, found 1"));
    let err = parse_row(" |x").unwrap_err();
    assert!(err.describe().contains("Key cannot be empty"));
}

#[test]
fn csv_content_round_trip() {
    let records = vec![
        CsvRecord::new("a.b@en".to_string(), "One".to_string(), None),
        CsvRecord::new("c.d@de".to_string(), "Zwei".to_string(), Some("second".to_string())),
    ];
    let content = build_csv_content(&records);
    let parsed = parse_csv_content(&content, "x.csv").unwrap();
    assert_eq!(parsed, records);
}

#[test]
fn csv_content_skips_comments_and_blank_lines() {
    let content = "# comment\n\nkey|value|desc\n  \nk2|v2\n";
    let parsed = parse_csv_content(content, "file.csv").unwrap();
    assert_eq!(parsed.len(), 2);
    assert_eq!(parsed[0].key, "key");
    assert_eq!(parsed[1].value, "v2");
}

#[test]
fn csv_content_bad_line_is_refused() {
    let result = parse_csv_content("key|value\nbroken\n", "file.csv");
    assert!(result.is_err());
}
