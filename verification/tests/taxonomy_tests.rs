use reedcms::cli::taxonomy_commands::{
    assign, assigned_message, create, created_message, delete, deleted_message, entities,
    entities_output, format_entities_csv, format_entities_table, format_term_details,
    format_terms_csv, format_terms_table, list, list_output, parse_entity, search, search_output,
    show, truncate, unassign, unassigned_message, update, updated_message, usage, usage_report,
    EntityTerms, EntityType, TermInfo,
};
use reedcms::string_map::StringMap;

fn make_flags(pairs: &[(&str, &str)]) -> StringMap {
    let mut flags = StringMap::new();
    for (k, v) in pairs {
        flags.insert(k.to_string(), v.to_string());
    }
    flags
}

fn term(id: &str, name: &str, category: &str) -> TermInfo {
    TermInfo {
        term_id: id.to_string(),
        term: name.to_string(),
        category: category.to_string(),
        parent_id: None,
        description: None,
        color: None,
        icon: None,
        status: "active".to_string(),
        created_by: "system".to_string(),
        usage_count: 3,
        created_at: "2025-01-01".to_string(),
        updated_at: "2025-01-02".to_string(),
    }
}

#[test]
fn test_create_term_missing_args() {
    let args = vec![];
    let flags = make_flags(&[("category", "Programming")]);

    let result = create(&args, &flags);
    assert!(result.is_err());
}

#[test]
fn test_create_term_missing_category() {
    let args = vec!["Rust".to_string()];
    let flags = StringMap::new();

    let result = create(&args, &flags);
    assert!(result.is_err());
}

#[test]
fn test_create_term_success() {
    let args = vec!["Rust".to_string()];
    let flags = make_flags(&[
        ("category", "Programming"),
        ("description", "Systems programming language"),
    ]);

    let result = create(&args, &flags);
    if let Ok(request) = result {
        let created = TermInfo {
            term: request.term.clone(),
            category: request.category.clone(),
            description: request.description.clone(),
            ..term("Programming:Rust", "Rust", "Programming")
        };
        assert!(created_message(&created).contains("Term created"));
    }
}

#[test]
fn test_create_term_with_parent() {
    let args = vec!["Async".to_string()];
    let flags = make_flags(&[("category", "Programming"), ("parent", "Programming:Rust")]);

    let result = create(&args, &flags);
    let _ = result;
}

#[test]
fn test_list_terms_no_filters() {
    let flags = StringMap::new();
    let result = list(&flags);
    let _ = result;
}

#[test]
fn test_list_terms_with_category() {
    let flags = make_flags(&[("category", "Programming")]);
    let result = list(&flags);
    let _ = result;
}

#[test]
fn test_list_terms_root_only() {
    let flags = make_flags(&[("parent", "root")]);
    let result = list(&flags);
    let _ = result;
}

#[test]
fn test_list_terms_json_format() {
    let flags = make_flags(&[("format", "json")]);
    let result = list(&flags);
    let _ = result;
}

#[test]
fn test_list_terms_csv_format() {
    let flags = make_flags(&[("format", "csv")]);
    let result = list(&flags);
    let _ = result;
}

#[test]
fn test_show_term_missing_args() {
    let args = vec![];
    let result = show(&args);
    assert!(result.is_err());
}

#[test]
fn test_show_term() {
    let args = vec!["Programming:Rust".to_string()];
    let result = show(&args);
    let _ = result;
}

#[test]
fn test_search_missing_query() {
    let args = vec![];
    let flags = StringMap::new();
    let result = search(&args, &flags);
    assert!(result.is_err());
}

#[test]
fn test_search_with_query() {
    let args = vec!["rust".to_string()];
    let flags = StringMap::new();
    let result = search(&args, &flags);
    let _ = result;
}

#[test]
fn test_search_with_category() {
    let args = vec!["programming".to_string()];
    let flags = make_flags(&[("category", "Programming")]);
    let result = search(&args, &flags);
    let _ = result;
}

#[test]
fn test_search_json_format() {
    let args = vec!["rust".to_string()];
    let flags = make_flags(&[("format", "json")]);
    let result = search(&args, &flags);
    let _ = result;
}

#[test]
fn test_update_missing_args() {
    let args = vec![];
    let flags = make_flags(&[("description", "Updated")]);
    let result = update(&args, &flags);
    assert!(result.is_err());
}

#[test]
fn test_update_description() {
    let args = vec!["Programming:Rust".to_string()];
    let flags = make_flags(&[("description", "Updated description")]);
    let result = update(&args, &flags);
    let _ = result;
}

#[test]
fn test_update_remove_parent() {
    let args = vec!["Programming:Rust".to_string()];
    let flags = make_flags(&[("parent", "none")]);
    let result = update(&args, &flags);
    let _ = result;
}

#[test]
fn test_update_status() {
    let args = vec!["Programming:Rust".to_string()];
    let flags = make_flags(&[("status", "inactive")]);
    let result = update(&args, &flags);
    let _ = result;
}

#[test]
fn test_delete_missing_args() {
    let args = vec![];
    let flags = StringMap::new();
    let result = delete(&args, &flags);
    assert!(result.is_err());
}

#[test]
fn test_delete_term() {
    let args = vec!["Programming:Rust".to_string()];
    let flags = StringMap::new();
    let result = delete(&args, &flags);
    let _ = result;
}

#[test]
fn test_delete_with_force() {
    let args = vec!["Programming".to_string()];
    let flags = make_flags(&[("force", "")]);
    let result = delete(&args, &flags);
    let _ = result;
}

#[test]
fn test_assign_missing_args() {
    let args = vec![];
    let flags = StringMap::new();
    let result = assign(&args, &flags);
    assert!(result.is_err());
}

#[test]
fn test_assign_invalid_entity_format() {
    let args = vec!["invalid".to_string(), "Programming:Rust".to_string()];
    let flags = StringMap::new();
    let result = assign(&args, &flags);
    assert!(result.is_err());
}

#[test]
fn test_assign_single_term() {
    let args = vec![
        "content:post-123".to_string(),
        "Programming:Rust".to_string(),
    ];
    let flags = StringMap::new();
    let result = assign(&args, &flags);
    let _ = result;
}

#[test]
fn test_assign_multiple_terms() {
    let args = vec![
        "content:post-123".to_string(),
        "Programming:Rust".to_string(),
        "Programming:Async".to_string(),
    ];
    let flags = make_flags(&[("assigned-by", "admin")]);
    let result = assign(&args, &flags);
    let _ = result;
}

#[test]
fn test_unassign_missing_args() {
    let args = vec![];
    let result = unassign(&args);
    assert!(result.is_err());
}

#[test]
fn test_unassign_invalid_entity_format() {
    let args = vec!["invalid".to_string()];
    let result = unassign(&args);
    assert!(result.is_err());
}

#[test]
fn test_unassign_all_terms() {
    let args = vec!["content:post-123".to_string()];
    let result = unassign(&args);
    let _ = result;
}

#[test]
fn test_unassign_specific_terms() {
    let args = vec![
        "content:post-123".to_string(),
        "Programming:Rust".to_string(),
    ];
    let result = unassign(&args);
    let _ = result;
}

#[test]
fn test_entities_missing_args() {
    let args = vec![];
    let flags = StringMap::new();
    let result = entities(&args, &flags);
    assert!(result.is_err());
}

#[test]
fn test_entities_list() {
    let args = vec!["Programming:Rust".to_string()];
    let flags = StringMap::new();
    let result = entities(&args, &flags);
    let _ = result;
}

#[test]
fn test_entities_filter_by_type() {
    let args = vec!["Programming:Rust".to_string()];
    let flags = make_flags(&[("type", "content")]);
    let result = entities(&args, &flags);
    let _ = result;
}

#[test]
fn test_entities_json_format() {
    let args = vec!["Programming:Rust".to_string()];
    let flags = make_flags(&[("format", "json")]);
    let result = entities(&args, &flags);
    let _ = result;
}

#[test]
fn test_usage_missing_args() {
    let args = vec![];
    let result = usage(&args);
    assert!(result.is_err());
}

#[test]
fn test_usage_statistics() {
    let args = vec!["Programming:Rust".to_string()];
    let result = usage(&args);
    let _ = result;
}

// Own tests

#[test]
fn create_takes_flags_and_defaults() {
    let args = vec!["Async".to_string()];
    let flags = make_flags(&[("category", "Programming"), ("parent", "Programming:Rust")]);
    let request = create(&args, &flags).unwrap();
    assert_eq!(request.term, "Async");
    assert_eq!(request.category, "Programming");
    assert_eq!(request.parent_id, Some("Programming:Rust".to_string()));
    assert_eq!(request.created_by, "system");
    assert_eq!(
        created_message(&term("Programming:Async", "Async", "Programming")),
        "Term created: Async (active)\nID: Programming:Async\nCategory: Programming"
    );
}

#[test]
fn queries_read_their_flags() {
    let q = list(&StringMap::new());
    assert_eq!(q.format, "table");
    assert!(q.category.is_none());
    let q = list(&make_flags(&[("parent", "root"), ("format", "csv")]));
    assert_eq!(q.parent_id, Some("root".to_string()));
    assert_eq!(q.format, "csv");
    let (text, q) = search(&vec!["rust".to_string()], &make_flags(&[("category", "Programming")])).unwrap();
    assert_eq!(text, "rust");
    assert_eq!(q.category, Some("Programming".to_string()));
}

#[test]
fn update_distinguishes_none_from_values() {
    let u = update(&vec!["Programming:Rust".to_string()], &make_flags(&[("parent", "none"), ("color", "#fff")])).unwrap();
    assert_eq!(u.parent_id, Some(None));
    assert_eq!(u.color, Some(Some("#fff".to_string())));
    assert_eq!(u.description, None);
    assert!(updated_message(&term("Programming:Rust", "Rust", "Programming")).contains("Rust"));
}

#[test]
fn delete_and_messages() {
    let (id, force) = delete(&vec!["Programming".to_string()], &make_flags(&[("force", "")])).unwrap();
    assert_eq!(id, "Programming");
    assert!(force);
    assert_eq!(deleted_message("Programming", true), "Term and children deleted: Programming");
    assert_eq!(deleted_message("Programming:Rust", false), "Term deleted: Programming:Rust");
}

#[test]
fn entity_references() {
    let (t, id) = parse_entity(&"content:post-123".to_string()).unwrap();
    assert_eq!(t, EntityType::Content);
    assert_eq!(id, "post-123");
    assert!(parse_entity(&"unknown:1".to_string()).is_err());
    assert!(parse_entity(&"a:b:c".to_string()).is_err());
    assert_eq!(EntityType::from_str("template").unwrap().as_str(), "template");
}

#[test]
fn assignments_and_messages() {
    let a = assign(
        &vec!["content:post-123".to_string(), "Programming:Rust".to_string(), "Programming:Async".to_string()],
        &make_flags(&[("assigned-by", "admin")]),
    )
    .unwrap();
    assert_eq!(a.entity_id, "post-123");
    assert_eq!(a.term_ids.len(), 2);
    assert_eq!(a.assigned_by, "admin");
    assert!(assigned_message(&a).contains("post-123"));

    let u = unassign(&vec!["content:post-123".to_string()]).unwrap();
    assert!(u.term_ids.is_none());
    assert_eq!(unassigned_message(&u), "Removed all terms from content:post-123");
    let u = unassign(&vec!["content:post-123".to_string(), "Programming:Rust".to_string()]).unwrap();
    assert_eq!(
        unassigned_message(&u),
        "Removed 1 term(s) from content:post-123\nTerms: Programming:Rust"
    );
}

#[test]
fn entities_checks_type_filter() {
    let (id, t, f) = entities(&vec!["Programming:Rust".to_string()], &make_flags(&[("type", "content")])).unwrap();
    assert_eq!(id, "Programming:Rust");
    assert_eq!(t, Some(EntityType::Content));
    assert_eq!(f, "table");
    assert!(entities(&vec!["x".to_string()], &make_flags(&[("type", "bogus")])).is_err());
}

#[test]
fn term_details_and_usage_report() {
    let t = term("Programming:Rust", "Rust", "Programming");
    let details = format_term_details(&t);
    assert!(details.contains("Term ID: Programming:Rust"));
    assert!(details.contains("Parent: (none)"));
    let es = vec![
        EntityTerms {
            entity_type: EntityType::Content,
            entity_id: "post-1".to_string(),
            term_ids: vec!["Programming:Rust".to_string()],
            assigned_by: "admin".to_string(),
            assigned_at: "2025".to_string(),
        },
        EntityTerms {
            entity_type: EntityType::Content,
            entity_id: "post-2".to_string(),
            term_ids: vec!["Programming:Rust".to_string()],
            assigned_by: "admin".to_string(),
            assigned_at: "2025".to_string(),
        },
    ];
    let report = usage_report(&t, &es);
    assert!(report.contains("Total usage count: 3"));
    assert!(report.contains("Total entities: 2"));
    assert!(report.contains("  content: 2"));
}

#[test]
fn truncate_cuts_long_texts() {
    assert_eq!(truncate("short", 10), "short");
    assert_eq!(truncate("exactly10!", 10), "exactly10!");
    assert_eq!(truncate("Programming:Rust:Async:Tokio", 24), "Programming:Rust:Asyn...");
    assert_eq!(truncate("abcdef", 2), "...");
    assert_eq!(truncate("äöüäöü", 7), "äö...");
}

#[test]
fn terms_table_and_csv() {
    assert_eq!(format_terms_table(&vec![]), "No terms found.");
    let mut t = term("Programming:Rust", "Rust", "Programming");
    t.parent_id = Some("Programming".to_string());
    let table = format_terms_table(&vec![t.clone()]);
    assert!(table.starts_with("Term ID                  | Term"));
    assert!(table.ends_with(
        "Programming:Rust         | Rust              | Programming   | Programming    | active   | 3\n"
    ));
    let csv = format_terms_csv(&vec![t.clone()], false);
    assert_eq!(
        csv,
        "term_id,term,category,parent_id,status,usage_count\nProgramming:Rust,Rust,Programming,Programming,active,3\n"
    );
    let csv = format_terms_csv(&vec![t], true);
    assert!(csv.ends_with("Programming:Rust,Rust,Programming,,active,3\n"));
}

#[test]
fn listing_outputs_follow_format() {
    let terms = vec![term("Programming:Rust", "Rust", "Programming")];
    let q = list(&make_flags(&[("format", "json")]));
    assert!(list_output(&q, &terms).is_none());
    let q = list(&make_flags(&[("format", "csv")]));
    assert!(list_output(&q, &terms).unwrap().starts_with("term_id,term,category,parent_id"));
    let (text, q) = search(&vec!["rust".to_string()], &StringMap::new()).unwrap();
    assert!(search_output(&text, &q, &terms).unwrap().starts_with("Found 1 term(s) matching 'rust':\n\n"));
    assert_eq!(search_output(&text, &q, &vec![]).unwrap(), "No terms found matching 'rust'");
}

#[test]
fn entity_listings() {
    let es = vec![EntityTerms {
        entity_type: EntityType::Content,
        entity_id: "post-123".to_string(),
        term_ids: vec!["Programming:Rust".to_string(), "Programming:Async".to_string()],
        assigned_by: "admin".to_string(),
        assigned_at: "2025-01-01T00:00:00Z-long-suffix".to_string(),
    }];
    let table = format_entities_table(&es);
    assert!(table.ends_with("content     | post-123            | 2          | admin          | 2025-01-01T00:00...\n"));
    assert_eq!(format_entities_table(&vec![]), "No entities found.");
    assert!(format_entities_csv(&es).ends_with("content,post-123,2,admin,2025-01-01T00:00:00Z-long-suffix\n"));
    assert!(entities_output("Programming:Rust", "json", &es).is_none());
    assert!(entities_output("Programming:Rust", "table", &es)
        .unwrap()
        .starts_with("Found 1 entit(ies) with term 'Programming:Rust':\n\n"));
    assert_eq!(
        entities_output("X", "table", &vec![]).unwrap(),
        "No entities found with term 'X'"
    );
}
