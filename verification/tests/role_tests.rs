use reedcms::cli::role_commands::{
    apply_permission_edit, create_role, delete_role, describe_permissions, format_permissions,
    format_role_csv, format_role_details, format_role_table, list_roles, manage_permissions,
    parse_permissions, permissions_report, role_created_message, show_role, update_role,
    Permission, PermissionEdit, RoleInfo,
};
use reedcms::string_map::StringMap;

fn perm(resource: &str, read: bool, write: bool, execute: bool) -> Permission {
    Permission { resource: resource.to_string(), read, write, execute }
}

fn role(name: &str, perms: Vec<Permission>, inherits: Option<&str>) -> RoleInfo {
    RoleInfo {
        rolename: name.to_string(),
        permissions: perms,
        inherits: inherits.map(|s| s.to_string()),
        desc: "Test role".to_string(),
        is_active: true,
        created_at: 1700000000,
        updated_at: 1700000000,
    }
}

#[test]
fn test_create_role_missing_rolename() {
    let args = vec![];
    let flags = StringMap::new();

    let result = create_role(&args, &flags);
    assert!(result.is_err());
}

#[test]
fn test_create_role_missing_permissions() {
    let args = vec!["testrole".to_string()];
    let mut flags = StringMap::new();
    flags.insert("desc".to_string(), "Test description".to_string());

    let result = create_role(&args, &flags);
    assert!(result.is_err());
}

#[test]
fn test_create_role_missing_desc() {
    let args = vec!["testrole".to_string()];
    let mut flags = StringMap::new();
    flags.insert("permissions".to_string(), "text[rwx]".to_string());

    let result = create_role(&args, &flags);
    assert!(result.is_err());
}

#[test]
fn test_show_role_missing_rolename() {
    let args = vec![];
    let result = show_role(&args);
    assert!(result.is_err());
}

#[test]
fn test_update_role_missing_rolename() {
    let args = vec![];
    let flags = StringMap::new();
    let result = update_role(&args, &flags);
    assert!(result.is_err());
}

#[test]
fn test_update_role_no_flags() {
    let args = vec!["testrole".to_string()];
    let flags = StringMap::new();
    let result = update_role(&args, &flags);
    assert!(result.is_err());
}

#[test]
fn test_delete_role_missing_rolename() {
    let args = vec![];
    let flags = StringMap::new();
    let result = delete_role(&args, &flags);
    assert!(result.is_err());
}

#[test]
fn test_delete_role_missing_force() {
    let args = vec!["testrole".to_string()];
    let flags = StringMap::new();
    let result = delete_role(&args, &flags);
    assert!(result.is_err());
}

#[test]
fn test_manage_permissions_missing_rolename() {
    let args = vec![];
    let flags = StringMap::new();
    let result = manage_permissions(&args, &flags);
    assert!(result.is_err());
}

// Own tests

#[test]
fn create_role_builds_request_with_json_context() {
    let args = vec!["editor".to_string()];
    let mut flags = StringMap::new();
    flags.insert("permissions".to_string(), "text[rwx]".to_string());
    flags.insert("desc".to_string(), "Content \"editor\"\n".to_string());
    flags.insert("inherit".to_string(), "viewer".to_string());
    let request = create_role(&args, &flags).unwrap();
    assert_eq!(request.key, "editor");
    assert_eq!(request.value, Some("text[rwx]".to_string()));
    assert_eq!(request.description, Some("Content \"editor\"\n".to_string()));
    assert_eq!(
        request.context,
        Some("{\"desc\":\"Content \\\"editor\\\"\\n\",\"inherits\":\"viewer\"}".to_string())
    );
}

#[test]
fn create_role_without_parent_sends_empty_inherits() {
    let args = vec!["viewer".to_string()];
    let mut flags = StringMap::new();
    flags.insert("permissions".to_string(), "*[r--]".to_string());
    flags.insert("desc".to_string(), "Read-only viewer".to_string());
    let request = create_role(&args, &flags).unwrap();
    assert_eq!(
        request.context,
        Some("{\"desc\":\"Read-only viewer\",\"inherits\":\"\"}".to_string())
    );
}

#[test]
fn role_created_message_lists_permissions_and_parent() {
    let r = role("testrole", vec![perm("text", true, true, true), perm("route", true, true, false)], None);
    let response = role_created_message("testrole", &r);
    assert!(response.data.contains("✓ Role 'testrole' created"));
    assert!(response.data.contains("text[rwx]"));
    assert_eq!(
        response.data,
        "✓ Role 'testrole' created successfully\n  Permissions: text[rwx], route[rw-]"
    );
    let child = role("editor", vec![perm("text", true, true, true)], Some("viewer"));
    assert!(role_created_message("editor", &child).data.contains("Inherits: viewer"));
    let empty_parent = role("editor", vec![], Some(""));
    assert!(!role_created_message("editor", &empty_parent).data.contains("Inherits"));
}

#[test]
fn permissions_parse_and_format() {
    let perms = parse_permissions("text[rwx],route[rw-]").unwrap();
    assert_eq!(perms.len(), 2);
    assert_eq!(perms[0].resource, "text");
    assert!(perms[1].read && perms[1].write && !perms[1].execute);
    assert_eq!(format_permissions(&perms), "text[rwx], route[rw-]");
    assert!(parse_permissions("text").is_err());
    assert!(parse_permissions("text[abc]").is_err());
    assert_eq!(describe_permissions(&perm("x", true, false, false)), "Read-only");
}

#[test]
fn permission_edits() {
    let current = vec![perm("text", true, true, true)];
    let added = apply_permission_edit(&current, &PermissionEdit::Add(vec![perm("route", true, true, false), perm("text", true, false, false)]));
    assert_eq!(format_permissions(&added), "text[rwx], route[rw-]");
    let removed = apply_permission_edit(&added, &PermissionEdit::Remove(vec![perm("route", true, true, false)]));
    assert_eq!(format_permissions(&removed), "text[rwx]");
    let replaced = apply_permission_edit(&current, &PermissionEdit::Replace(vec![perm("content", true, false, false)]));
    assert_eq!(format_permissions(&replaced), "content[r--]");
}

#[test]
fn manage_permissions_show_and_set_reports() {
    let current = vec![perm("text", true, true, true)];
    let show = manage_permissions(&vec!["testrole".to_string()], &StringMap::new()).unwrap();
    let report = permissions_report(&show, &current);
    assert!(report.data.contains("Current permissions"));

    let mut flags = StringMap::new();
    flags.insert("set".to_string(), "text[r--],route[r--],content[r--]".to_string());
    let set = manage_permissions(&vec!["testrole".to_string()], &flags).unwrap();
    let report = permissions_report(&set, &current);
    assert!(report.data.contains("New permissions"));
    assert!(report.data.contains("- content[r--]"));
}

#[test]
fn update_role_parses_permissions() {
    let mut flags = StringMap::new();
    flags.insert("permissions".to_string(), "text[rwx],route[rw-]".to_string());
    flags.insert("desc".to_string(), "Updated description".to_string());
    let update = update_role(&vec!["testrole".to_string()], &flags).unwrap();
    assert_eq!(update.permissions.unwrap().len(), 2);
    assert_eq!(update.desc, Some("Updated description".to_string()));
    let mut bad = StringMap::new();
    bad.insert("permissions".to_string(), "text[rwz]".to_string());
    assert!(update_role(&vec!["testrole".to_string()], &bad).is_err());
}

#[test]
fn role_listings() {
    let roles = vec![role("testrole", vec![perm("text", true, true, true)], None)];
    let details = format_role_details(&roles[0]);
    assert!(details.contains("Role: testrole"));
    let table = format_role_table(&roles, true);
    assert!(table.contains("Role"));
    assert!(table.contains("1 role(s) total"));
    assert_eq!(format_role_table(&vec![], false), "No roles found");
    assert!(format_role_csv(&roles).contains("rolename,permissions"));

    let mut csv = StringMap::new();
    csv.insert("format".to_string(), "csv".to_string());
    assert!(list_roles(&csv, &roles).unwrap().data.contains("rolename,permissions"));
    let mut json = StringMap::new();
    json.insert("format".to_string(), "json".to_string());
    assert!(list_roles(&json, &roles).is_none());
}
