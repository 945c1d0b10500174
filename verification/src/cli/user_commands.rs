//! User management commands: `reed user:*`.
//!
//! Each command checks its arguments and flags and gives what the user
//! service is asked to do; the answers are formatted from what the service
//! returns (`UserInfo`).
use vstd::prelude::*;
use crate::cli::checks::{comma_list, first_arg, flag_or_invalid, optional_flag, split_trimmed};
use crate::cli::parser::strings_view;
use crate::lists::contains_string;
use crate::json::{json_quoted, json_string_array, push_json_string, push_json_string_array};
use crate::reedstream::{
    invalid_command, is_invalid_command, opt_str_view, ReedRequest, ReedResponse, ReedResult,
};
use crate::report::{join_seqs, join_strings, pad_right, push_padded, push_repeated, repeat_char};
use crate::string_map::StringMap;
use crate::text::{copy_string, decimal, push_str, push_u64, push_usize, str_to_string};

verus! {

/// A user as the user service reports it.
#[derive(Debug, Clone)]
pub struct UserInfo {
    pub username: String,
    pub email: String,
    pub roles: Vec<String>,
    pub firstname: String,
    pub lastname: String,
    pub mobile: Option<String>,
    pub is_active: bool,
    pub created_at: u64,
    pub updated_at: u64,
    pub last_login: Option<u64>,
}

/// A profile update for one user.
#[derive(Debug, Clone)]
pub struct UserUpdate {
    pub username: String,
    pub email: Option<String>,
    pub firstname: Option<String>,
    pub lastname: Option<String>,
    pub mobile: Option<String>,
}

/// A password change for one user.
#[derive(Debug, Clone)]
pub struct PasswordChange {
    pub username: String,
    pub new_password: String,
}

/// What `user:roles` does to a user's roles.
#[derive(Debug, Clone)]
pub enum RoleEdit {
    /// No flag: show the roles.
    Show,
    /// `--add`: append the roles not yet held.
    Add(Vec<String>),
    /// `--remove`: drop these roles.
    Remove(Vec<String>),
    /// `--set`: replace all roles.
    Replace(Vec<String>),
    /// Other flags only: the roles stay as they are.
    Keep,
}

/// A role change for one user.
#[derive(Debug, Clone)]
pub struct RoleChange {
    pub username: String,
    pub edit: RoleEdit,
}

pub open spec fn missing_username(command: Seq<char>) -> (Seq<char>, Seq<char>) {
    (command, "Requires username argument"@)
}

/// The value of a flag, or the empty text without it.
pub open spec fn flag_or_empty(flags: StringMap, name: Seq<char>) -> Seq<char> {
    match flags.lookup(name) {
        Some(v) => v,
        None => Seq::empty(),
    }
}

/// The context that `user:create` sends: the user's data as a JSON object,
/// keys in order, without spaces.
pub open spec fn user_context(
    email: Seq<char>,
    firstname: Seq<char>,
    lastname: Seq<char>,
    mobile: Seq<char>,
    roles: Seq<Seq<char>>,
) -> Seq<char> {
    "{\"email\":"@ + json_quoted(email) + ",\"firstname\":"@ + json_quoted(firstname) + ",\"lastname\":"@
        + json_quoted(lastname) + ",\"mobile\":"@ + json_quoted(mobile) + ",\"roles\":"@ + json_string_array(roles)
        + "}"@
}

/// A user to create: the request for the user service, and the email and
/// roles that the answer repeats.
#[derive(Debug, Clone)]
pub struct NewUser {
    pub request: ReedRequest,
    pub email: String,
    pub roles: Vec<String>,
}

/// Checks `reed user:create <username> --email <e> --password <p> --roles
/// <r1,r2> [--firstname ..] [--lastname ..] [--mobile ..]` and gives the
/// request: the username as key, the password as value, `User: <name>` as
/// description, and the user's data as JSON context.
pub fn create_user(args: &Vec<String>, flags: &StringMap) -> (r: ReedResult<NewUser>)
    requires
        flags.wf(),
    ensures
        args@.len() == 0 ==> (r matches Err(e) && is_invalid_command(e, "user:create"@, "Requires username argument"@)),
        args@.len() > 0 ==> match (flags.lookup("email"@), flags.lookup("password"@), flags.lookup("roles"@)) {
            (None, _, _) => r matches Err(e) && is_invalid_command(e, "user:create"@, "--email flag is required"@),
            (Some(_), None, _) => r matches Err(e) && is_invalid_command(
                e,
                "user:create"@,
                "--password flag is required"@,
            ),
            (Some(_), Some(_), None) => r matches Err(e) && is_invalid_command(
                e,
                "user:create"@,
                "--roles flag is required"@,
            ),
            (Some(em), Some(pw), Some(rs)) => r matches Ok(u) && u.request.key@ == args@[0]@
                && u.request.language is None && u.request.environment is None && opt_str_view(u.request.value)
                == Some(pw) && opt_str_view(u.request.description) == Some("User: "@ + args@[0]@)
                && opt_str_view(u.request.context) == Some(
                user_context(
                    em,
                    flag_or_empty(*flags, "firstname"@),
                    flag_or_empty(*flags, "lastname"@),
                    flag_or_empty(*flags, "mobile"@),
                    comma_list(rs),
                ),
            ) && u.email@ == em && strings_view(u.roles@) == comma_list(rs),
        },
{
    let username = first_arg(args, "user:create", "Requires username argument")?;
    let email = flag_or_invalid(flags, "email", "user:create", "--email flag is required")?;
    let password = flag_or_invalid(flags, "password", "user:create", "--password flag is required")?;
    let roles_text = flag_or_invalid(flags, "roles", "user:create", "--roles flag is required")?;
    let roles = split_trimmed(roles_text.as_str());
    let mut context = str_to_string("{\"email\":");
    push_json_string(&mut context, email.as_str());
    push_str(&mut context, ",\"firstname\":");
    push_json_flag(&mut context, flags, "firstname");
    push_str(&mut context, ",\"lastname\":");
    push_json_flag(&mut context, flags, "lastname");
    push_str(&mut context, ",\"mobile\":");
    push_json_flag(&mut context, flags, "mobile");
    push_str(&mut context, ",\"roles\":");
    push_json_string_array(&mut context, &roles);
    push_str(&mut context, "}");
    let mut description = str_to_string("User: ");
    push_str(&mut description, username.as_str());
    let request = ReedRequest {
        key: username,
        language: None,
        environment: None,
        context: Some(context),
        value: Some(password),
        description: Some(description),
    };
    Ok(NewUser { request, email, roles })
}

/// Appends the JSON string of a flag's value, or `""` without the flag.
pub fn push_json_flag(out: &mut String, flags: &StringMap, name: &str)
    requires
        flags.wf(),
    ensures
        final(out)@ == old(out)@ + json_quoted(flag_or_empty(*flags, name@)),
{
    match flags.get(name) {
        Some(v) => push_json_string(out, v.as_str()),
        None => {
            let empty = String::new();
            push_json_string(out, empty.as_str());
        },
    }
}

/// The answer once a user was created.
pub open spec fn user_created_text(username: Seq<char>, email: Seq<char>, roles: Seq<Seq<char>>) -> Seq<char> {
    "✓ User '"@ + username + "' created successfully\n  Email: "@ + email + "\n  Roles: "@ + join_seqs(
        roles,
        ", "@,
    )
}

pub fn user_created_message(user: &NewUser) -> (r: ReedResponse<String>)
    ensures
        r.data@ == user_created_text(user.request.key@, user.email@, strings_view(user.roles@)),
        r.source@ == "cli::user_commands::create_user"@,
{
    let mut out = str_to_string("✓ User '");
    push_str(&mut out, user.request.key.as_str());
    push_str(&mut out, "' created successfully\n  Email: ");
    push_str(&mut out, user.email.as_str());
    push_str(&mut out, "\n  Roles: ");
    let roles = join_strings(&user.roles, ", ");
    push_str(&mut out, roles.as_str());
    ReedResponse::new(out, "cli::user_commands::create_user")
}

/// Checks `reed user:show <username>`; gives the user to show.
pub fn show_user(args: &Vec<String>) -> (r: ReedResult<String>)
    ensures
        args@.len() == 0 ==> (r matches Err(e) && is_invalid_command(e, "user:show"@, "Requires username argument"@)),
        args@.len() > 0 ==> (r matches Ok(u) && u@ == args@[0]@),
{
    first_arg(args, "user:show", "Requires username argument")
}

/// Checks `reed user:update <username> [--email ..] [--firstname ..]
/// [--lastname ..] [--mobile ..]`; at least one flag is required.
pub fn update_user(args: &Vec<String>, flags: &StringMap) -> (r: ReedResult<UserUpdate>)
    requires
        flags.wf(),
    ensures
        args@.len() == 0 ==> (r matches Err(e) && is_invalid_command(e, "user:update"@, "Requires username argument"@)),
        args@.len() > 0 && flags.entries().len() == 0 ==> (r matches Err(e) && is_invalid_command(
            e,
            "user:update"@,
            "Requires at least one update flag (--email, --firstname, --lastname, --mobile)"@,
        )),
        args@.len() > 0 && flags.entries().len() > 0 ==> (r matches Ok(u) && u.username@ == args@[0]@
            && opt_str_view(u.email) == flags.lookup("email"@) && opt_str_view(u.firstname)
            == flags.lookup("firstname"@) && opt_str_view(u.lastname) == flags.lookup("lastname"@)
            && opt_str_view(u.mobile) == flags.lookup("mobile"@)),
{
    let username = first_arg(args, "user:update", "Requires username argument")?;
    if flags.is_empty() {
        return Err(
            invalid_command(
                "user:update",
                str_to_string("Requires at least one update flag (--email, --firstname, --lastname, --mobile)"),
            ),
        );
    }
    Ok(UserUpdate {
        username,
        email: optional_flag(flags, "email"),
        firstname: optional_flag(flags, "firstname"),
        lastname: optional_flag(flags, "lastname"),
        mobile: optional_flag(flags, "mobile"),
    })
}

/// Checks `reed user:delete <username> --force`; gives the user to delete.
pub fn delete_user(args: &Vec<String>, flags: &StringMap) -> (r: ReedResult<String>)
    requires
        flags.wf(),
    ensures
        args@.len() == 0 ==> (r matches Err(e) && is_invalid_command(e, "user:delete"@, "Requires username argument"@)),
        args@.len() > 0 && flags.lookup("force"@) is None ==> (r matches Err(e) && is_invalid_command(
            e,
            "user:delete"@,
            "--force flag required to confirm deletion"@,
        )),
        args@.len() > 0 && flags.lookup("force"@) is Some ==> (r matches Ok(u) && u@ == args@[0]@),
{
    let username = first_arg(args, "user:delete", "Requires username argument")?;
    if !flags.contains_key("force") {
        return Err(invalid_command("user:delete", str_to_string("--force flag required to confirm deletion")));
    }
    Ok(username)
}

/// Checks `reed user:passwd <username> --new <password>`; gives the change
/// for the password service, which judges the password's strength.
pub fn change_password(args: &Vec<String>, flags: &StringMap) -> (r: ReedResult<PasswordChange>)
    requires
        flags.wf(),
    ensures
        args@.len() == 0 ==> (r matches Err(e) && is_invalid_command(e, "user:passwd"@, "Requires username argument"@)),
        args@.len() > 0 ==> match flags.lookup("new"@) {
            None => r matches Err(e) && is_invalid_command(e, "user:passwd"@, "--new flag is required"@),
            Some(p) => r matches Ok(c) && c.username@ == args@[0]@ && c.new_password@ == p,
        },
{
    let username = first_arg(args, "user:passwd", "Requires username argument")?;
    let new_password = flag_or_invalid(flags, "new", "user:passwd", "--new flag is required")?;
    Ok(PasswordChange { username, new_password })
}

/// What the flags of `user:roles` ask for: `--add`, else `--remove`, else
/// `--set`; no flag at all shows the roles.
pub open spec fn role_edit_is(e: RoleEdit, flags: StringMap) -> bool {
    if flags.entries().len() == 0 {
        e is Show
    } else {
        match flags.lookup("add"@) {
            Some(a) => e matches RoleEdit::Add(v) && strings_view(v@) == comma_list(a),
            None => match flags.lookup("remove"@) {
                Some(x) => e matches RoleEdit::Remove(v) && strings_view(v@) == comma_list(x),
                None => match flags.lookup("set"@) {
                    Some(s) => e matches RoleEdit::Replace(v) && strings_view(v@) == comma_list(s),
                    None => e is Keep,
                },
            },
        }
    }
}

/// Checks `reed user:roles <username> [--add|--remove|--set <roles>]`.
pub fn manage_roles(args: &Vec<String>, flags: &StringMap) -> (r: ReedResult<RoleChange>)
    requires
        flags.wf(),
    ensures
        args@.len() == 0 ==> (r matches Err(e) && is_invalid_command(e, "user:roles"@, "Requires username argument"@)),
        args@.len() > 0 ==> (r matches Ok(c) && c.username@ == args@[0]@ && role_edit_is(c.edit, *flags)),
{
    let username = first_arg(args, "user:roles", "Requires username argument")?;
    let edit = if flags.is_empty() {
        RoleEdit::Show
    } else {
        match flags.get("add") {
            Some(a) => RoleEdit::Add(split_trimmed(a.as_str())),
            None => match flags.get("remove") {
                Some(x) => RoleEdit::Remove(split_trimmed(x.as_str())),
                None => match flags.get("set") {
                    Some(s) => RoleEdit::Replace(split_trimmed(s.as_str())),
                    None => RoleEdit::Keep,
                },
            },
        }
    };
    Ok(RoleChange { username, edit })
}

/// `cur` with each of `adds` appended that is not yet among them.
pub open spec fn add_unique(cur: Seq<Seq<char>>, adds: Seq<Seq<char>>) -> Seq<Seq<char>>
    decreases adds.len(),
{
    if adds.len() == 0 {
        cur
    } else {
        let p = add_unique(cur, adds.drop_last());
        if p.contains(adds.last()) { p } else { p.push(adds.last()) }
    }
}

/// `cur` without the items that occur in `rem`.
pub open spec fn remove_all(cur: Seq<Seq<char>>, rem: Seq<Seq<char>>) -> Seq<Seq<char>>
    decreases cur.len(),
{
    if cur.len() == 0 {
        Seq::empty()
    } else {
        let p = remove_all(cur.drop_last(), rem);
        if rem.contains(cur.last()) { p } else { p.push(cur.last()) }
    }
}

/// Adding roles keeps those a user holds, in order, and afterwards the
/// user holds every role added.
pub proof fn lemma_add_roles(cur: Seq<Seq<char>>, adds: Seq<Seq<char>>)
    ensures
        add_unique(cur, adds).len() >= cur.len(),
        add_unique(cur, adds).subrange(0, cur.len() as int) == cur,
        forall|j: int| 0 <= j < adds.len() ==> add_unique(cur, adds).contains(#[trigger] adds[j]),
    decreases adds.len(),
{
    if adds.len() == 0 {
        assert(cur.subrange(0, cur.len() as int) =~= cur);
    } else {
        let q = adds.drop_last();
        lemma_add_roles(cur, q);
        let p = add_unique(cur, q);
        let r = add_unique(cur, adds);
        assert(r.subrange(0, cur.len() as int) =~= p.subrange(0, cur.len() as int));
        assert forall|j: int| 0 <= j < adds.len() implies r.contains(#[trigger] adds[j]) by {
            if j < adds.len() - 1 {
                assert(q[j] == adds[j]);
                assert(p.contains(q[j]));
                let k = choose|k: int| 0 <= k < p.len() && p[k] == q[j];
                assert(r[k] == p[k]);
            } else if p.contains(adds.last()) {
                let k = choose|k: int| 0 <= k < p.len() && p[k] == adds.last();
                assert(r[k] == p[k]);
            } else {
                assert(r[p.len() as int] == adds.last());
            }
        }
    }
}

/// Removing roles leaves none of them and keeps every other role the user
/// held.
pub proof fn lemma_remove_roles(cur: Seq<Seq<char>>, rem: Seq<Seq<char>>)
    ensures
        forall|j: int| 0 <= j < rem.len() ==> !remove_all(cur, rem).contains(#[trigger] rem[j]),
        forall|i: int| 0 <= i < cur.len() && !rem.contains(cur[i]) ==> remove_all(cur, rem).contains(#[trigger] cur[i]),
    decreases cur.len(),
{
    if cur.len() > 0 {
        let c = cur.drop_last();
        lemma_remove_roles(c, rem);
        let p = remove_all(c, rem);
        let r = remove_all(cur, rem);
        assert forall|j: int| 0 <= j < rem.len() implies !r.contains(#[trigger] rem[j]) by {
            assert(!p.contains(rem[j]));
            if r.contains(rem[j]) {
                let k = choose|k: int| 0 <= k < r.len() && r[k] == rem[j];
                if k < p.len() {
                    assert(r[k] == p[k]);
                } else {
                    assert(r[k] == cur.last());
                }
            }
        }
        assert forall|i: int| 0 <= i < cur.len() && !rem.contains(cur[i]) implies r.contains(#[trigger] cur[i]) by {
            if i < cur.len() - 1 {
                assert(c[i] == cur[i]);
                let k = choose|k: int| 0 <= k < p.len() && p[k] == c[i];
                assert(r[k] == p[k]);
            } else {
                assert(r[p.len() as int] == cur.last());
            }
        }
    }
}

/// The roles after the edit.
pub open spec fn edited_roles(cur: Seq<Seq<char>>, e: RoleEdit) -> Seq<Seq<char>> {
    match e {
        RoleEdit::Add(v) => add_unique(cur, strings_view(v@)),
        RoleEdit::Remove(v) => remove_all(cur, strings_view(v@)),
        RoleEdit::Replace(v) => strings_view(v@),
        _ => cur,
    }
}

fn copy_strings(v: &Vec<String>) -> (r: Vec<String>)
    ensures
        strings_view(r@) == strings_view(v@),
{
    let mut r: Vec<String> = Vec::new();
    let mut i: usize = 0;
    while i < v.len()
        invariant
            i <= v@.len(),
            strings_view(r@) == strings_view(v@).take(i as int),
        decreases v.len() - i,
    {
        let ghost before = r@;
        let s = copy_string(&v[i]);
        r.push(s);
        assert(strings_view(r@) =~= strings_view(before).push(s@));
        assert(strings_view(r@) =~= strings_view(v@).take(i + 1));
        i += 1;
    }
    assert(strings_view(v@).take(i as int) =~= strings_view(v@));
    r
}

/// The roles a user holds after the edit.
pub fn apply_role_edit(current: &Vec<String>, edit: &RoleEdit) -> (r: Vec<String>)
    ensures
        strings_view(r@) == edited_roles(strings_view(current@), *edit),
{
    match edit {
        RoleEdit::Add(adds) => {
            let mut r = copy_strings(current);
            let ghost cur = strings_view(current@);
            let ghost av = strings_view(adds@);
            let mut i: usize = 0;
            while i < adds.len()
                invariant
                    i <= adds@.len(),
                    cur == strings_view(current@),
                    av == strings_view(adds@),
                    strings_view(r@) == add_unique(cur, av.take(i as int)),
                decreases adds.len() - i,
            {
                proof {
                    assert(av.take(i + 1).drop_last() =~= av.take(i as int));
                    assert(av.take(i + 1).last() == adds@[i as int]@);
                }
                if !contains_string(&r, adds[i].as_str()) {
                    let ghost before = r@;
                    let s = copy_string(&adds[i]);
                    r.push(s);
                    assert(strings_view(r@) =~= strings_view(before).push(s@));
                }
                i += 1;
            }
            assert(strings_view(adds@).take(i as int) =~= strings_view(adds@));
            r
        },
        RoleEdit::Remove(rem) => {
            let mut r: Vec<String> = Vec::new();
            let ghost cur = strings_view(current@);
            let mut i: usize = 0;
            while i < current.len()
                invariant
                    i <= current@.len(),
                    cur == strings_view(current@),
                    strings_view(r@) == remove_all(cur.take(i as int), strings_view(rem@)),
                decreases current.len() - i,
            {
                proof {
                    assert(cur.take(i + 1).drop_last() =~= cur.take(i as int));
                    assert(cur.take(i + 1).last() == current@[i as int]@);
                }
                if !contains_string(rem, current[i].as_str()) {
                    let ghost before = r@;
                    let s = copy_string(&current[i]);
                    r.push(s);
                    assert(strings_view(r@) =~= strings_view(before).push(s@));
                }
                i += 1;
            }
            assert(strings_view(current@).take(i as int) =~= strings_view(current@));
            r
        },
        RoleEdit::Replace(v) => copy_strings(v),
        _ => copy_strings(current),
    }
}

/// The answer of `user:roles`: the roles held, or the roles after a change.
pub open spec fn roles_report_text(username: Seq<char>, e: RoleEdit, cur: Seq<Seq<char>>) -> Seq<char> {
    if e is Show {
        "Current roles for '"@ + username + "': "@ + join_seqs(cur, ", "@)
    } else {
        "✓ Roles updated for '"@ + username + "'\n  New roles: "@ + join_seqs(edited_roles(cur, e), ", "@)
    }
}

pub fn roles_report(change: &RoleChange, current: &Vec<String>) -> (r: ReedResponse<String>)
    ensures
        r.data@ == roles_report_text(change.username@, change.edit, strings_view(current@)),
        r.source@ == "cli::user_commands::manage_roles"@,
{
    let mut out = String::new();
    match &change.edit {
        RoleEdit::Show => {
            push_str(&mut out, "Current roles for '");
            push_str(&mut out, change.username.as_str());
            push_str(&mut out, "': ");
            let j = join_strings(current, ", ");
            push_str(&mut out, j.as_str());
        },
        _ => {
            let roles = apply_role_edit(current, &change.edit);
            push_str(&mut out, "✓ Roles updated for '");
            push_str(&mut out, change.username.as_str());
            push_str(&mut out, "'\n  New roles: ");
            let j = join_strings(&roles, ", ");
            push_str(&mut out, j.as_str());
        },
    }
    ReedResponse::new(out, "cli::user_commands::manage_roles")
}

/// `✓ User '<name>' <what>`, the answer of update and delete.
pub fn user_done_message(username: &str, what: &str, source: &str) -> (r: ReedResponse<String>)
    ensures
        r.data@ == "✓ User '"@ + username@ + "' "@ + what@,
        r.source@ == source@,
{
    let mut out = str_to_string("✓ User '");
    push_str(&mut out, username);
    push_str(&mut out, "' ");
    push_str(&mut out, what);
    ReedResponse::new(out, source)
}

/// The answer of `user:passwd`.
pub fn password_changed_message(username: &str) -> (r: ReedResponse<String>)
    ensures
        r.data@ == "✓ Password changed for user '"@ + username@ + "'"@,
        r.source@ == "cli::user_commands::change_password"@,
{
    let mut out = str_to_string("✓ Password changed for user '");
    push_str(&mut out, username);
    push_str(&mut out, "'");
    ReedResponse::new(out, "cli::user_commands::change_password")
}

// ---------------------------------------------------------------------------
// Listings
// ---------------------------------------------------------------------------

pub open spec fn status_text(active: bool) -> Seq<char> {
    if active { "active"@ } else { "inactive"@ }
}

fn status_str(active: bool) -> (r: &'static str)
    ensures
        r@ == status_text(active),
{
    if active { "active" } else { "inactive" }
}

/// The details of one user, as `user:show` prints them.
pub open spec fn user_details_text(u: UserInfo) -> Seq<char> {
    "User: "@ + u.username@ + "\nEmail: "@ + u.email@ + "\nFirst name: "@ + u.firstname@ + "\nLast name: "@
        + u.lastname@ + "\n"@ + (match u.mobile {
        Some(m) => "Mobile: "@ + m@ + "\n"@,
        None => Seq::empty(),
    }) + "Roles: "@ + join_seqs(strings_view(u.roles@), ", "@) + "\nStatus: "@ + status_text(u.is_active)
        + "\nCreated: "@ + decimal(u.created_at as nat) + "\nUpdated: "@ + decimal(u.updated_at as nat)
        + "\n"@ + match u.last_login {
        Some(t) => "Last login: "@ + decimal(t as nat) + "\n"@,
        None => Seq::empty(),
    }
}

/// The details of one user.
pub fn format_user_details(user: &UserInfo) -> (r: String)
    ensures
        r@ == user_details_text(*user),
{
    let mut out = str_to_string("User: ");
    push_str(&mut out, user.username.as_str());
    push_str(&mut out, "\nEmail: ");
    push_str(&mut out, user.email.as_str());
    push_str(&mut out, "\nFirst name: ");
    push_str(&mut out, user.firstname.as_str());
    push_str(&mut out, "\nLast name: ");
    push_str(&mut out, user.lastname.as_str());
    push_str(&mut out, "\n");
    let ghost a = out@;
    match &user.mobile {
        Some(m) => {
            push_str(&mut out, "Mobile: ");
            push_str(&mut out, m.as_str());
            push_str(&mut out, "\n");
        },
        None => {},
    }
    push_str(&mut out, "Roles: ");
    let roles = join_strings(&user.roles, ", ");
    push_str(&mut out, roles.as_str());
    push_str(&mut out, "\nStatus: ");
    push_str(&mut out, status_str(user.is_active));
    push_str(&mut out, "\nCreated: ");
    push_u64(&mut out, user.created_at);
    push_str(&mut out, "\nUpdated: ");
    push_u64(&mut out, user.updated_at);
    push_str(&mut out, "\n");
    match user.last_login {
        Some(t) => {
            push_str(&mut out, "Last login: ");
            push_u64(&mut out, t);
            push_str(&mut out, "\n");
        },
        None => {},
    }
    assert(out@ =~= user_details_text(*user));
    out
}

/// The answer of `user:show` for the user found.
pub fn show_user_report(user: &UserInfo) -> (r: ReedResponse<String>)
    ensures
        r.data@ == user_details_text(*user),
        r.source@ == "cli::user_commands::show_user"@,
{
    ReedResponse::new(format_user_details(user), "cli::user_commands::show_user")
}

/// One row of the user table.
pub open spec fn user_row(u: UserInfo) -> Seq<char> {
    pad_right(u.username@, 20) + " "@ + pad_right(u.email@, 30) + " "@ + pad_right(
        join_seqs(strings_view(u.roles@), ", "@),
        30,
    ) + " "@ + pad_right(status_text(u.is_active), 10) + "\n"@
}

pub open spec fn user_rows(us: Seq<UserInfo>) -> Seq<char>
    decreases us.len(),
{
    if us.len() == 0 { Seq::empty() } else { user_rows(us.drop_last()) + user_row(us.last()) }
}

/// The user table of `user:list`.
pub open spec fn user_table_text(us: Seq<UserInfo>) -> Seq<char> {
    if us.len() == 0 {
        "No users found"@
    } else {
        pad_right("Username"@, 20) + " "@ + pad_right("Email"@, 30) + " "@ + pad_right("Roles"@, 30) + " "@
            + pad_right("Status"@, 10) + "\n"@ + repeat_char('-', 92) + "\n"@ + user_rows(us) + "\n"@
            + decimal(us.len()) + " user(s) total"@
    }
}

fn push_user_row(out: &mut String, u: &UserInfo)
    ensures
        final(out)@ == old(out)@ + user_row(*u),
{
    let ghost start = out@;
    push_padded(out, u.username.as_str(), 20);
    push_str(out, " ");
    push_padded(out, u.email.as_str(), 30);
    push_str(out, " ");
    let roles = join_strings(&u.roles, ", ");
    push_padded(out, roles.as_str(), 30);
    push_str(out, " ");
    push_padded(out, status_str(u.is_active), 10);
    push_str(out, "\n");
    assert(out@ =~= start + user_row(*u));
}

fn push_user_csv_row(out: &mut String, u: &UserInfo)
    ensures
        final(out)@ == old(out)@ + user_csv_row(*u),
{
    let ghost start = out@;
    push_str(out, u.username.as_str());
    push_str(out, ",");
    push_str(out, u.email.as_str());
    push_str(out, ",");
    let roles = join_strings(&u.roles, ";");
    push_str(out, roles.as_str());
    push_str(out, ",");
    push_str(out, status_str(u.is_active));
    push_str(out, "\n");
    assert(out@ =~= start + user_csv_row(*u));
}

pub fn format_user_table(users: &Vec<UserInfo>) -> (r: String)
    ensures
        r@ == user_table_text(users@),
{
    if users.len() == 0 {
        return str_to_string("No users found");
    }
    let mut out = String::new();
    push_padded(&mut out, "Username", 20);
    push_str(&mut out, " ");
    push_padded(&mut out, "Email", 30);
    push_str(&mut out, " ");
    push_padded(&mut out, "Roles", 30);
    push_str(&mut out, " ");
    push_padded(&mut out, "Status", 10);
    push_str(&mut out, "\n");
    push_repeated(&mut out, '-', 92);
    push_str(&mut out, "\n");
    let ghost head = out@;
    let mut i: usize = 0;
    while i < users.len()
        invariant
            i <= users@.len(),
            out@ == head + user_rows(users@.take(i as int)),
        decreases users.len() - i,
    {
        push_user_row(&mut out, &users[i]);
        proof {
            assert(users@.take(i + 1).drop_last() =~= users@.take(i as int));
        }
        assert(out@ =~= head + user_rows(users@.take(i + 1)));
        i += 1;
    }
    assert(users@.take(i as int) =~= users@);
    push_str(&mut out, "\n");
    push_usize(&mut out, users.len());
    push_str(&mut out, " user(s) total");
    out
}

/// One row of the user CSV listing.
pub open spec fn user_csv_row(u: UserInfo) -> Seq<char> {
    u.username@ + ","@ + u.email@ + ","@ + join_seqs(strings_view(u.roles@), ";"@) + ","@ + status_text(
        u.is_active,
    ) + "\n"@
}

pub open spec fn user_csv_rows(us: Seq<UserInfo>) -> Seq<char>
    decreases us.len(),
{
    if us.len() == 0 { Seq::empty() } else { user_csv_rows(us.drop_last()) + user_csv_row(us.last()) }
}

pub fn format_user_csv(users: &Vec<UserInfo>) -> (r: String)
    ensures
        r@ == "username,email,roles,status\n"@ + user_csv_rows(users@),
{
    let mut out = str_to_string("username,email,roles,status\n");
    let ghost head = out@;
    let mut i: usize = 0;
    while i < users.len()
        invariant
            i <= users@.len(),
            out@ == head + user_csv_rows(users@.take(i as int)),
        decreases users.len() - i,
    {
        push_user_csv_row(&mut out, &users[i]);
        proof {
            assert(users@.take(i + 1).drop_last() =~= users@.take(i as int));
        }
        assert(out@ =~= head + user_csv_rows(users@.take(i + 1)));
        i += 1;
    }
    assert(users@.take(i as int) =~= users@);
    out
}

/// The listing format that `--format` asks for (table by default).
pub open spec fn list_format(flags: StringMap) -> Seq<char> {
    match flags.lookup("format"@) {
        Some(f) => f,
        None => "table"@,
    }
}

/// Lists users (`reed user:list [--format table|json|csv] [--role <r>]`)
/// from the users the service reported. JSON is serialised by the caller:
/// for `--format json` the answer is `None`.
pub fn list_users(flags: &StringMap, users: &Vec<UserInfo>) -> (r: Option<ReedResponse<String>>)
    requires
        flags.wf(),
    ensures
        list_format(*flags) == "json"@ <==> r is None,
        r matches Some(resp) ==> resp.source@ == "cli::user_commands::list_users"@ && resp.data@ == if list_format(
            *flags,
        ) == "csv"@ {
            "username,email,roles,status\n"@ + user_csv_rows(users@)
        } else {
            user_table_text(users@)
        },
{
    let format = match flags.get("format") {
        Some(f) => f.as_str(),
        None => "table",
    };
    if crate::text::str_eq(format, "json") {
        return None;
    }
    let data = if crate::text::str_eq(format, "csv") { format_user_csv(users) } else { format_user_table(users) };
    Some(ReedResponse::new(data, "cli::user_commands::list_users"))
}

} // verus!
