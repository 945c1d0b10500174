use reedcms::cli::user_commands::{
    apply_role_edit, change_password, create_user, delete_user, format_user_csv,
    format_user_details, format_user_table, list_users, manage_roles, password_changed_message,
    roles_report, show_user, update_user, user_created_message, user_done_message, RoleEdit,
    UserInfo,
};
use reedcms::string_map::StringMap;

fn user(name: &str, roles: &[&str]) -> UserInfo {
    UserInfo {
        username: name.to_string(),
        email: format!("{}@example.com", name),
        roles: roles.iter().map(|r| r.to_string()).collect(),
        firstname: "John".to_string(),
        lastname: "Doe".to_string(),
        mobile: None,
        is_active: true,
        created_at: 1700000000,
        updated_at: 1700000000,
        last_login: None,
    }
}

#[test]
fn test_create_user_missing_username() {
    let args = vec![];
    let flags = StringMap::new();

    let result = create_user(&args, &flags);
    assert!(result.is_err());
}

#[test]
fn test_create_user_missing_email() {
    let args = vec!["testuser".to_string()];
    let mut flags = StringMap::new();
    flags.insert("password".to_string(), "SecurePassword123!".to_string());
    flags.insert("roles".to_string(), "editor".to_string());

    let result = create_user(&args, &flags);
    assert!(result.is_err());
}

#[test]
fn test_create_user_missing_password() {
    let args = vec!["testuser".to_string()];
    let mut flags = StringMap::new();
    flags.insert("email".to_string(), "test@example.com".to_string());
    flags.insert("roles".to_string(), "editor".to_string());

    let result = create_user(&args, &flags);
    assert!(result.is_err());
}

#[test]
fn test_create_user_missing_roles() {
    let args = vec!["testuser".to_string()];
    let mut flags = StringMap::new();
    flags.insert("email".to_string(), "test@example.com".to_string());
    flags.insert("password".to_string(), "SecurePassword123!".to_string());

    let result = create_user(&args, &flags);
    assert!(result.is_err());
}

#[test]
fn test_show_user_missing_username() {
    let args = vec![];
    let result = show_user(&args);
    assert!(result.is_err());
}

#[test]
fn test_update_user_missing_username() {
    let args = vec![];
    let flags = StringMap::new();
    let result = update_user(&args, &flags);
    assert!(result.is_err());
}

#[test]
fn test_update_user_no_flags() {
    let args = vec!["testuser".to_string()];
    let flags = StringMap::new();
    let result = update_user(&args, &flags);
    assert!(result.is_err());
}

#[test]
fn test_delete_user_missing_username() {
    let args = vec![];
    let flags = StringMap::new();
    let result = delete_user(&args, &flags);
    assert!(result.is_err());
}

#[test]
fn test_delete_user_missing_force() {
    let args = vec!["testuser".to_string()];
    let flags = StringMap::new();
    let result = delete_user(&args, &flags);
    assert!(result.is_err());
}

#[test]
fn test_change_password_missing_username() {
    let args = vec![];
    let flags = StringMap::new();
    let result = change_password(&args, &flags);
    assert!(result.is_err());
}

#[test]
fn test_change_password_missing_new() {
    let args = vec!["testuser".to_string()];
    let flags = StringMap::new();
    let result = change_password(&args, &flags);
    assert!(result.is_err());
}

#[test]
fn test_manage_roles_missing_username() {
    let args = vec![];
    let flags = StringMap::new();
    let result = manage_roles(&args, &flags);
    assert!(result.is_err());
}

// Own tests

#[test]
fn create_user_builds_request_and_message() {
    let args = vec!["testuser".to_string()];
    let mut flags = StringMap::new();
    flags.insert("email".to_string(), "test@example.com".to_string());
    flags.insert("password".to_string(), "SecurePassword123!".to_string());
    flags.insert("roles".to_string(), "editor, author".to_string());
    flags.insert("firstname".to_string(), "John".to_string());
    flags.insert("mobile".to_string(), "+44123456789".to_string());
    let new_user = create_user(&args, &flags).unwrap();
    assert_eq!(new_user.request.key, "testuser");
    assert_eq!(new_user.request.value, Some("SecurePassword123!".to_string()));
    assert_eq!(new_user.request.description, Some("User: testuser".to_string()));
    assert_eq!(
        new_user.request.context,
        Some(
            "{\"email\":\"test@example.com\",\"firstname\":\"John\",\"lastname\":\"\",\"mobile\":\"+44123456789\",\"roles\":[\"editor\",\"author\"]}"
                .to_string()
        )
    );
    assert_eq!(new_user.roles, vec!["editor".to_string(), "author".to_string()]);
    let response = user_created_message(&new_user);
    assert!(response.data.contains("✓ User 'testuser' created"));
    assert!(response.data.contains("test@example.com"));
    assert!(response.data.contains("Roles: editor, author"));
}

#[test]
fn create_user_escapes_json_context() {
    let args = vec!["u".to_string()];
    let mut flags = StringMap::new();
    flags.insert("email".to_string(), "a\\b".to_string());
    flags.insert("password".to_string(), "p".to_string());
    flags.insert("roles".to_string(), "x".to_string());
    flags.insert("lastname".to_string(), "tab\there".to_string());
    let new_user = create_user(&args, &flags).unwrap();
    let context = new_user.request.context.unwrap();
    assert!(context.starts_with("{\"email\":\"a\\\\b\""));
    assert!(context.contains("\"lastname\":\"tab\\there\""));
}

#[test]
fn role_edits_of_a_user() {
    let current = vec!["editor".to_string()];
    let added = apply_role_edit(&current, &RoleEdit::Add(vec!["author".to_string(), "editor".to_string()]));
    assert_eq!(added, vec!["editor".to_string(), "author".to_string()]);
    let removed = apply_role_edit(&added, &RoleEdit::Remove(vec!["editor".to_string()]));
    assert_eq!(removed, vec!["author".to_string()]);
    let replaced = apply_role_edit(&current, &RoleEdit::Replace(vec!["admin".to_string()]));
    assert_eq!(replaced, vec!["admin".to_string()]);
}

#[test]
fn manage_roles_reports() {
    let current = vec!["editor".to_string()];
    let show = manage_roles(&vec!["testuser".to_string()], &StringMap::new()).unwrap();
    assert!(roles_report(&show, &current).data.contains("editor"));
    let mut flags = StringMap::new();
    flags.insert("add".to_string(), "author".to_string());
    let add = manage_roles(&vec!["testuser".to_string()], &flags).unwrap();
    let report = roles_report(&add, &current);
    assert!(report.data.contains("author"));
}

#[test]
fn user_messages_and_listings() {
    assert_eq!(
        user_done_message("bob", "deleted successfully", "src").data,
        "✓ User 'bob' deleted successfully"
    );
    assert!(password_changed_message("bob").data.contains("bob"));
    let users = vec![user("alice", &["editor"]), user("bob", &["admin", "author"])];
    let details = format_user_details(&users[0]);
    assert!(details.contains("alice"));
    let table = format_user_table(&users);
    assert!(table.contains("alice"));
    assert!(table.contains("bob"));
    let csv = format_user_csv(&users);
    assert!(csv.contains("alice@example.com"));
    let mut flags = StringMap::new();
    flags.insert("format".to_string(), "json".to_string());
    assert!(list_users(&flags, &users).is_none());
    assert!(list_users(&StringMap::new(), &users).is_some());
}

#[test]
fn update_user_takes_given_flags() {
    let mut flags = StringMap::new();
    flags.insert("email".to_string(), "new@example.com".to_string());
    let update = update_user(&vec!["testuser".to_string()], &flags).unwrap();
    assert_eq!(update.email, Some("new@example.com".to_string()));
    assert_eq!(update.firstname, None);
    let mut force = StringMap::new();
    force.insert("force".to_string(), "true".to_string());
    assert_eq!(delete_user(&vec!["testuser".to_string()], &force).unwrap(), "testuser");
    let mut pw = StringMap::new();
    pw.insert("new".to_string(), "Strong#Pass1".to_string());
    assert_eq!(change_password(&vec!["bob".to_string()], &pw).unwrap().new_password, "Strong#Pass1");
}
