use reedcms::cli::data_commands::{get_text, lookup_report, set_text, DataKind};
use reedcms::csv::record::CsvRecord;
use reedcms::csv::store::{apply_requests, write_record};
use reedcms::string_map::StringMap;

fn rec(k: &str, v: &str, d: Option<&str>) -> CsvRecord {
    CsvRecord::new(k.to_string(), v.to_string(), d.map(|s| s.to_string()))
}

#[test]
fn write_replaces_existing_key_in_place() {
    let mut records = vec![rec("a@de", "A", Some("first")), rec("b@de", "B", None)];
    write_record(&mut records, "a@de", "Neu", None);
    assert_eq!(records, vec![rec("a@de", "Neu", Some("first")), rec("b@de", "B", None)]);
    write_record(&mut records, "b@de", "Beta", Some("second"));
    assert_eq!(records[1], rec("b@de", "Beta", Some("second")));
}

#[test]
fn write_appends_new_key() {
    let mut records = vec![rec("a@de", "A", None)];
    write_record(&mut records, "c@de", "C", Some("third"));
    assert_eq!(records.len(), 2);
    assert_eq!(records[1], rec("c@de", "C", Some("third")));
}

#[test]
fn get_after_set_reads_the_value() {
    let mut flags = StringMap::new();
    flags.insert("desc".to_string(), "Test description for text".to_string());
    let request = set_text(&vec!["test.key@en".to_string(), "Test Value".to_string()], &flags).unwrap();
    let existing = vec![rec("test.key@en", "Old", None), rec("other@en", "X", None)];
    let written = apply_requests(&existing, &vec![request]);
    assert_eq!(written.len(), 2);
    let lookup = get_text(&vec!["test.key@en".to_string()]).unwrap();
    let response = lookup_report(DataKind::Text, &lookup, &written, ".reed/text.csv").unwrap();
    assert_eq!(response.data, "Test Value\n(source: .reed/text.csv)");
    let other = get_text(&vec!["other@en".to_string()]).unwrap();
    assert!(lookup_report(DataKind::Text, &other, &written, ".reed/text.csv").unwrap().data.starts_with("X\n"));
}
