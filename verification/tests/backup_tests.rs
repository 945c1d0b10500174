use reedcms::cli::backup_commands::{
    backup_csv_path, backup_list_handler, backup_path_arg, backup_prune_handler,
    backup_restore_report, backup_verify_report, format_backup_list, format_bytes, restore_target,
    text_less, BackupInfo,
};

fn backup(name: &str, ts: &str, size: u64) -> BackupInfo {
    BackupInfo {
        original_name: name.to_string(),
        timestamp: ts.to_string(),
        size,
        path: format!(".reed/backups/{}.{}.xz", name, ts),
    }
}

#[test]
fn sizes_match_float_formatting() {
    assert_eq!(format_bytes(0), "0 B");
    assert_eq!(format_bytes(1023), "1023 B");
    assert_eq!(format_bytes(1024), "1.0 KB");
    assert_eq!(format_bytes(1536), "1.5 KB");
    assert_eq!(format_bytes(5 * 1024 * 1024), "5.0 MB");
    assert_eq!(format_bytes(3 * 1024 * 1024 * 1024), "3.0 GB");
    for bytes in (1024u64..300_000).step_by(7).chain([1075, 1126, 2099, 2150, 104857, 1048576 + 52429, 1280, 1792, 2304, 2816, 1048576 + 52428 + 1, 1048576 + 104857]) {
        let expected = if bytes < 1024 * 1024 {
            format!("{:.1} KB", bytes as f64 / 1024.0)
        } else {
            format!("{:.1} MB", bytes as f64 / (1024.0 * 1024.0))
        };
        assert_eq!(format_bytes(bytes), expected, "bytes = {}", bytes);
    }
}

#[test]
fn listing_groups_by_file_in_order() {
    let backups = vec![
        backup("text.csv", "2025-01-02", 2048),
        backup("meta.csv", "2025-01-01", 100),
        backup("text.csv", "2025-01-01", 1024),
    ];
    let text = format_backup_list(&backups);
    assert_eq!(
        text,
        "📦 Available Backups\n\nmeta.csv (1 backups):\n  1. 2025-01-01 - 100 B\n      Path: .reed/backups/meta.csv.2025-01-01.xz\n\ntext.csv (2 backups):\n  1. 2025-01-02 - 2.0 KB\n      Path: .reed/backups/text.csv.2025-01-02.xz\n  2. 2025-01-01 - 1.0 KB\n      Path: .reed/backups/text.csv.2025-01-01.xz\n\n"
    );
    assert_eq!(backup_list_handler(&vec![], 5).data, "No backups found.");
}

#[test]
fn listing_shows_ten_per_file() {
    let backups: Vec<BackupInfo> = (0..12).map(|i| backup("text.csv", &format!("t{:02}", i), 10)).collect();
    let text = format_backup_list(&backups);
    assert!(text.contains("text.csv (12 backups):\n"));
    assert!(text.contains("  10. t09 - 10 B\n"));
    assert!(!text.contains("t10"));
    assert!(text.ends_with("  ... and 2 more\n\n"));
}

#[test]
fn text_order() {
    assert!(text_less("meta.csv", "text.csv"));
    assert!(text_less("a", "ab"));
    assert!(!text_less("ab", "a"));
    assert!(!text_less("a", "a"));
    assert!(text_less("Z", "a"));
    assert!(text_less("z", "ä"));
}

#[test]
fn paths_and_messages() {
    assert_eq!(backup_csv_path(&vec![]), ".reed/text.csv");
    assert_eq!(backup_csv_path(&vec!["routes.csv".to_string()]), ".reed/routes.csv");
    assert!(backup_path_arg(&vec![]).is_err());
    assert_eq!(restore_target("text.csv.20250102_143022.xz"), ".reed/text.csv");
    assert_eq!(backup_prune_handler(0, 1).data, "No backups to prune (retention limit not exceeded).");
    assert_eq!(backup_prune_handler(3, 1).data, "✓ Pruned 3 backup(s)");
    let r = backup_restore_report("b.xz", Some(".reed/text.csv"), 9);
    assert_eq!(r.data, "✓ Backup restored successfully\nSource: b.xz\nTarget: .reed/text.csv");
    assert_eq!(r.metrics.unwrap().csv_files_accessed, 1);
    assert_eq!(backup_restore_report("b.xz", None, 9).data, "✓ Dry run successful\nBackup is valid: b.xz");
    assert!(backup_verify_report("b.xz", Some("missing"), 1).data.ends_with("  Error: missing"));
}
