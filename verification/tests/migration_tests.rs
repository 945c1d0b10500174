use reedcms::cli::migration_commands::{
    is_text_csv_name, migrate_routes, migrate_text, plan_route_migration, plan_text_migration,
    route_migration_report, text_migration_report, MigrationOptions, SourceFile,
};
use reedcms::csv::record::CsvRecord;
use reedcms::reedstream::ReedError;
use reedcms::string_map::StringMap;

fn make_flags(pairs: &[(&str, &str)]) -> StringMap {
    let mut flags = StringMap::new();
    for (k, v) in pairs {
        flags.insert(k.to_string(), v.to_string());
    }
    flags
}

fn rec(k: &str, v: &str) -> CsvRecord {
    CsvRecord::new(k.to_string(), v.to_string(), None)
}

fn options(dry_run: bool, backup: bool, force: bool) -> MigrationOptions {
    MigrationOptions { path: "src".to_string(), recursive: false, dry_run, backup, force }
}

#[test]
fn test_migrate_text_missing_args() {
    let args = vec![];
    let flags = StringMap::new();

    let result = migrate_text(&args, &flags, false);
    assert!(result.is_err());
}

#[test]
fn test_migrate_text_nonexistent_path() {
    let args = vec!["/nonexistent/path".to_string()];
    let flags = StringMap::new();

    let result = migrate_text(&args, &flags, false);
    assert!(result.is_err());
}

#[test]
fn test_migrate_text_dry_run() {
    let args = vec!["templates/".to_string()];
    let flags = make_flags(&[("dry-run", "")]);

    let result = migrate_text(&args, &flags, true);
    let _ = result;
}

#[test]
fn test_migrate_text_recursive() {
    let args = vec!["templates/".to_string()];
    let flags = make_flags(&[("recursive", "")]);

    let result = migrate_text(&args, &flags, true);
    let _ = result;
}

#[test]
fn test_migrate_text_no_backup() {
    let args = vec!["templates/".to_string()];
    let flags = make_flags(&[("no-backup", "")]);

    let result = migrate_text(&args, &flags, true);
    let _ = result;
}

#[test]
fn test_migrate_text_combined_flags() {
    let args = vec!["templates/".to_string()];
    let flags = make_flags(&[("recursive", ""), ("dry-run", "")]);

    let result = migrate_text(&args, &flags, true);
    let _ = result;
}

#[test]
fn test_migrate_routes_missing_args() {
    let args = vec![];
    let flags = StringMap::new();

    let result = migrate_routes(&args, &flags, false);
    assert!(result.is_err());
}

#[test]
fn test_migrate_routes_nonexistent_file() {
    let args = vec!["/nonexistent/routes.csv".to_string()];
    let flags = StringMap::new();

    let result = migrate_routes(&args, &flags, false);
    assert!(result.is_err());
}

#[test]
fn test_migrate_routes_dry_run() {
    let args = vec!["data/routes.csv".to_string()];
    let flags = make_flags(&[("dry-run", "")]);

    let result = migrate_routes(&args, &flags, true);
    let _ = result;
}

#[test]
fn test_migrate_routes_force() {
    let args = vec!["data/routes.csv".to_string()];
    let flags = make_flags(&[("force", "")]);

    let result = migrate_routes(&args, &flags, true);
    let _ = result;
}

#[test]
fn test_migrate_routes_no_backup() {
    let args = vec!["data/routes.csv".to_string()];
    let flags = make_flags(&[("no-backup", "")]);

    let result = migrate_routes(&args, &flags, true);
    let _ = result;
}

#[test]
fn test_migrate_routes_combined_flags() {
    let args = vec!["data/routes.csv".to_string()];
    let flags = make_flags(&[("dry-run", ""), ("force", "")]);

    let result = migrate_routes(&args, &flags, true);
    let _ = result;
}

// Own tests

#[test]
fn migration_options_follow_flags() {
    let o = migrate_text(
        &vec!["templates/".to_string()],
        &make_flags(&[("recursive", ""), ("no-backup", "")]),
        true,
    )
    .unwrap();
    assert_eq!(o.path, "templates/");
    assert!(o.recursive && !o.dry_run && !o.backup && !o.force);
    match migrate_routes(&vec!["x.csv".to_string()], &StringMap::new(), false) {
        Err(ReedError::NotFound { resource, context }) => {
            assert_eq!(resource, "path: x.csv");
            assert_eq!(context, Some("File does not exist".to_string()));
        }
        other => panic!("unexpected {:?}", other),
    }
}

#[test]
fn text_csv_names() {
    assert!(is_text_csv_name("text.csv"));
    assert!(is_text_csv_name("page-header.text.csv"));
    assert!(!is_text_csv_name("routes.csv"));
    assert!(!is_text_csv_name("text.csv.bak"));
}

#[test]
fn text_plan_without_files() {
    let plan = plan_text_migration(&options(false, true, false), &vec![], &vec![], true);
    assert!(!plan.proceed);
    assert_eq!(plan.report, "No .text.csv files found in src");
    assert!(!plan.write);
}

#[test]
fn text_plan_imports_new_keys_only() {
    let files = vec![
        SourceFile {
            name: "a.text.csv".to_string(),
            records: Ok(vec![rec("page.title@de", "Titel"), rec("nolang", "x"), rec("page.body@de", "Text")]),
        },
        SourceFile {
            name: "b.text.csv".to_string(),
            records: Err(ReedError::FileNotFound { path: "b.text.csv".to_string(), reason: "gone".to_string() }),
        },
    ];
    let existing = vec![rec("page.title@de", "Alt")];
    let plan = plan_text_migration(&options(false, true, false), &files, &existing, true);
    assert!(plan.proceed);
    assert_eq!(plan.new_entries.len(), 1);
    assert_eq!(plan.new_entries[0].key, "page.body@de");
    assert_eq!(plan.merged.len(), 2);
    assert!(plan.write && plan.backup);
    assert!(plan.report.contains("✓ Found 2 .text.csv file(s)"));
    assert!(plan.report.contains("Processing: a.text.csv\n"));
    assert!(plan.report.contains("  ⚠ Key missing @lang suffix: nolang\n"));
    assert!(plan.report.contains("  ⊘ Skipped duplicate: page.title@de\n"));
    assert!(plan.report.contains("  ⚠ Error reading file: "));
    assert!(plan.report.contains("✓ Total entries: 3\n"));
    assert!(plan.report.contains("✓ To import: 1\n"));
    assert!(plan.report.contains("⊘ Skipped (duplicates): 1\n"));
    assert!(plan.report.contains("⚠ Errors: 2\n"));
    let report = text_migration_report(&plan, "1.23");
    assert!(report.ends_with("✓ Backup created\n✓ Imported 1 entries to .reed/text.csv\n\nDuration: 1.23s\n"));
}

#[test]
fn text_plan_dry_run_writes_nothing() {
    let files = vec![SourceFile { name: "t.text.csv".to_string(), records: Ok(vec![rec("a@de", "A")]) }];
    let plan = plan_text_migration(&options(true, true, false), &files, &vec![], false);
    assert!(!plan.write);
    assert!(plan.report.ends_with("🔍 Dry-run mode: No changes applied\n"));
    assert!(text_migration_report(&plan, "0.00").ends_with("No changes applied\n\nDuration: 0.00s\n"));
}

#[test]
fn route_conflicts_abort_without_force() {
    let source = vec![rec("wissen@de", "blog"), rec("news@de", "news")];
    let existing = vec![rec("wissen@de", "knowledge")];
    let plan = plan_route_migration(&options(false, true, false), &source, &existing, true);
    assert!(!plan.proceed);
    assert!(!plan.write);
    assert!(plan.report.contains("⚠ Found 1 route conflict(s):\n  - wissen@de → existing: knowledge, new: blog\n\n"));
    assert!(plan.report.ends_with("❌ Migration aborted. Use --force to override conflicts.\n"));

    let forced = plan_route_migration(&options(false, false, true), &source, &existing, true);
    assert!(forced.proceed && forced.write && !forced.backup);
    assert_eq!(forced.new_entries.len(), 1);
    assert!(forced.report.contains("⚠ Proceeding with --force flag\n\n"));
    assert!(forced.report.contains("✓ To import: 1\n⊘ Skipped (duplicates): 1\n"));
    let report = route_migration_report(&forced, "0.01");
    assert!(report.ends_with("✓ Imported 1 route(s) to .reed/routes.csv\n\nDuration: 0.01s\n"));
}

#[test]
fn route_same_layout_is_skipped_without_conflict() {
    let source = vec![rec("wissen@de", "knowledge")];
    let existing = vec![rec("wissen@de", "knowledge")];
    let plan = plan_route_migration(&options(false, true, false), &source, &existing, true);
    assert!(plan.proceed);
    assert!(!plan.write);
    assert!(!plan.report.contains("conflict"));
}
