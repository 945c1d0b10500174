use reedcms::cli::debug_commands::debug_cache_handler;
use reedcms::debug::cache_viewer::{CacheEntry, CacheListing};
use reedcms::string_map::StringMap;

#[test]
fn cache_view_without_entries() {
    let mut flags = StringMap::new();
    flags.insert("search".to_string(), "knowledge".to_string());
    let listing = debug_cache_handler(&vec!["text".to_string()], &flags);
    let text = listing.format("0.0");
    assert_eq!(
        text,
        "📦 ReedBase Cache Viewer\n\nCache Type: text\nSearch: \"knowledge\"\n\nCache Statistics:\n  Hit Rate: 0.0%\n  Avg Lookup Time: 0μs\n\nNo entries to display.\nNote: Direct cache access requires runtime integration.\n"
    );
}

#[test]
fn cache_view_lists_twenty_entries() {
    let entries: Vec<CacheEntry> = (0..25)
        .map(|i| CacheEntry { key: format!("k{}", i), value: format!("v{}", i), cache_type: "text".to_string() })
        .collect();
    let listing = CacheListing { cache_type: None, search_term: None, entries, avg_lookup_time_us: 7 };
    let text = listing.format("95.5");
    assert!(text.contains("  Hit Rate: 95.5%\n  Avg Lookup Time: 7μs\n"));
    assert!(text.contains("\nEntries (25):\n  1. [text] k0 = \"v0\"\n"));
    assert!(text.contains("  20. [text] k19 = \"v19\"\n  ... and 5 more\n"));
    assert!(!text.contains("k20"));
}
