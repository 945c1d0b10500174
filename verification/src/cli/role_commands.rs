//! Role management commands: `reed role:*`.
//!
//! Permissions are written Unix-style per resource, `text[rwx]`,
//! `route[rw-]`, separated by commas. Each command checks its arguments
//! and gives what the role service is asked to do; answers are formatted
//! from what the service returns (`RoleInfo`).
use vstd::prelude::*;
use crate::cli::checks::{comma_list, first_arg, flag_or_invalid, optional_flag, split_trimmed};
use crate::json::{json_quoted, push_json_string};
use crate::cli::parser::strings_view;
use crate::reedstream::{
    invalid_command, is_invalid_command, is_validation_error, opt_str_view, validation_error, ErrorView,
    ReedRequest, ReedResponse, ReedResult,
};
use crate::report::{join_seqs, join_strings, pad_right, push_padded, push_repeated, repeat_char};
use crate::string_map::StringMap;
use crate::text::{
    chars_to_string, copy_string, decimal, push_char, push_str, push_u64, push_usize, str_eq,
    str_to_string, to_chars,
};
use crate::cli::user_commands::{flag_or_empty, list_format, push_json_flag, status_text};

verus! {

/// Access to one resource.
#[derive(Debug, Clone)]
pub struct Permission {
    pub resource: String,
    pub read: bool,
    pub write: bool,
    pub execute: bool,
}

/// A role as the role service reports it.
#[derive(Debug, Clone)]
pub struct RoleInfo {
    pub rolename: String,
    pub permissions: Vec<Permission>,
    pub inherits: Option<String>,
    pub desc: String,
    pub is_active: bool,
    pub created_at: u64,
    pub updated_at: u64,
}

/// A permission as resource name and its three switches.
pub type PermissionView = (Seq<char>, bool, bool, bool);

pub open spec fn perm_view(p: Permission) -> PermissionView {
    (p.resource@, p.read, p.write, p.execute)
}

pub open spec fn perms_view(ps: Seq<Permission>) -> Seq<PermissionView> {
    ps.map_values(|p: Permission| perm_view(p))
}

// ---------------------------------------------------------------------------
// Permission text
// ---------------------------------------------------------------------------

/// `resource[rwx]`, with `-` for each switch that is off.
pub open spec fn perm_text(p: PermissionView) -> Seq<char> {
    p.0 + "["@ + seq![if p.1 { 'r' } else { '-' }, if p.2 { 'w' } else { '-' }, if p.3 { 'x' } else { '-' }]
        + "]"@
}

/// The permissions written out, separated by `", "`.
pub open spec fn perms_text(ps: Seq<PermissionView>) -> Seq<char> {
    join_seqs(ps.map_values(|p: PermissionView| perm_text(p)), ", "@)
}

fn push_perm(out: &mut String, p: &Permission)
    ensures
        final(out)@ == old(out)@ + perm_text(perm_view(*p)),
{
    let ghost start = out@;
    push_str(out, p.resource.as_str());
    push_str(out, "[");
    push_char(out, if p.read { 'r' } else { '-' });
    push_char(out, if p.write { 'w' } else { '-' });
    push_char(out, if p.execute { 'x' } else { '-' });
    push_str(out, "]");
    assert(out@ =~= start + perm_text(perm_view(*p)));
}

fn perm_string(p: &Permission) -> (r: String)
    ensures
        r@ == perm_text(perm_view(*p)),
{
    let mut r = String::new();
    push_perm(&mut r, p);
    r
}

/// The permissions written out, separated by `", "`.
pub fn format_permissions(perms: &Vec<Permission>) -> (r: String)
    ensures
        r@ == perms_text(perms_view(perms@)),
{
    let mut texts: Vec<String> = Vec::new();
    let ghost items = perms_view(perms@).map_values(|p: PermissionView| perm_text(p));
    let mut i: usize = 0;
    while i < perms.len()
        invariant
            i <= perms@.len(),
            items == perms_view(perms@).map_values(|p: PermissionView| perm_text(p)),
            strings_view(texts@) == items.take(i as int),
        decreases perms.len() - i,
    {
        let ghost before = texts@;
        let t = perm_string(&perms[i]);
        texts.push(t);
        assert(strings_view(texts@) =~= strings_view(before).push(t@));
        assert(strings_view(texts@) =~= items.take(i + 1));
        i += 1;
    }
    assert(items.take(i as int) =~= items);
    join_strings(&texts, ", ")
}

/// What a permission grants, in words.
pub open spec fn describe_text(p: PermissionView) -> Seq<char> {
    if p.1 && p.2 && p.3 {
        "Full"@
    } else if p.1 && p.2 && !p.3 {
        "Read/write"@
    } else if p.1 && !p.2 && !p.3 {
        "Read-only"@
    } else if !p.1 && p.2 && !p.3 {
        "Write-only"@
    } else if !p.1 && !p.2 && p.3 {
        "Execute-only"@
    } else {
        "Custom"@
    }
}

/// Describes permission flags in human-readable form.
pub fn describe_permissions(perm: &Permission) -> (r: &'static str)
    ensures
        r@ == describe_text(perm_view(*perm)),
{
    if perm.read && perm.write && perm.execute {
        "Full"
    } else if perm.read && perm.write && !perm.execute {
        "Read/write"
    } else if perm.read && !perm.write && !perm.execute {
        "Read-only"
    } else if !perm.read && perm.write && !perm.execute {
        "Write-only"
    } else if !perm.read && !perm.write && perm.execute {
        "Execute-only"
    } else {
        "Custom"
    }
}

/// The permission a piece `resource[rwx]` writes, if it is one: a
/// non-empty resource and three switches, each its letter or `-`.
pub open spec fn perm_of(piece: Seq<char>) -> Option<PermissionView> {
    let n = piece.len();
    if n >= 6 && piece[n - 5] == '[' && piece[n - 1] == ']' && (piece[n - 4] == 'r' || piece[n - 4]
        == '-') && (piece[n - 3] == 'w' || piece[n - 3] == '-') && (piece[n - 2] == 'x' || piece[n
        - 2] == '-') {
        Some((piece.subrange(0, n - 5), piece[n - 4] == 'r', piece[n - 3] == 'w', piece[n - 2] == 'x'))
    } else {
        None
    }
}

/// The permissions of a comma-separated list (each piece trimmed), or the
/// first piece that is not a permission.
pub open spec fn parse_perms_spec(pieces: Seq<Seq<char>>) -> Result<Seq<PermissionView>, Seq<char>>
    decreases pieces.len(),
{
    if pieces.len() == 0 {
        Ok(Seq::empty())
    } else {
        match parse_perms_spec(pieces.drop_last()) {
            Err(bad) => Err(bad),
            Ok(ps) => match perm_of(pieces.last()) {
                Some(p) => Ok(ps.push(p)),
                None => Err(pieces.last()),
            },
        }
    }
}

/// Permission text round trip, one piece: a permission with a resource
/// name, written as `resource[rwx]`, parses back to itself; each switch
/// is on exactly when its own slot holds its letter.
pub proof fn lemma_perm_text_round_trip(p: PermissionView)
    requires
        p.0.len() > 0,
    ensures
        perm_of(perm_text(p)) == Some(p),
{
    reveal_strlit("[");
    reveal_strlit("]");
    let t = perm_text(p);
    let n = t.len();
    assert(n == p.0.len() + 5);
    assert(t[n - 5] == '[' && t[n - 1] == ']');
    assert(t[n - 4] == if p.1 { 'r' } else { '-' });
    assert(t[n - 3] == if p.2 { 'w' } else { '-' });
    assert(t[n - 2] == if p.3 { 'x' } else { '-' });
    assert(t.subrange(0, n - 5) =~= p.0);
}

/// Permission text round trip, the other way: a piece that parses is
/// what writing its permission out gives.
pub proof fn lemma_perm_of_written_back(piece: Seq<char>)
    requires
        perm_of(piece) is Some,
    ensures
        perm_text(perm_of(piece)->Some_0) == piece,
        perm_of(piece)->Some_0.0.len() > 0,
{
    reveal_strlit("[");
    reveal_strlit("]");
    let p = perm_of(piece)->Some_0;
    let n = piece.len();
    assert(perm_text(p) =~= piece);
}

/// Permission list round trip: a list of well-formed pieces parses to
/// permissions whose texts are the pieces, in order; and permissions with
/// resource names, written out, parse back to themselves.
pub proof fn lemma_perms_round_trip(pieces: Seq<Seq<char>>, ps: Seq<PermissionView>)
    ensures
        parse_perms_spec(pieces) == Ok::<Seq<PermissionView>, Seq<char>>(ps) ==> ps.map_values(
            |p: PermissionView| perm_text(p),
        ) == pieces,
        (forall|i: int| 0 <= i < ps.len() ==> (#[trigger] ps[i]).0.len() > 0) ==> parse_perms_spec(
            ps.map_values(|p: PermissionView| perm_text(p)),
        ) == Ok::<Seq<PermissionView>, Seq<char>>(ps),
    decreases pieces.len() + ps.len(),
{
    if pieces.len() > 0 && parse_perms_spec(pieces) == Ok::<Seq<PermissionView>, Seq<char>>(ps) {
        match parse_perms_spec(pieces.drop_last()) {
            Ok(prev) => {
                lemma_perms_round_trip(pieces.drop_last(), prev);
                lemma_perm_of_written_back(pieces.last());
                assert(ps == prev.push(perm_of(pieces.last())->Some_0));
                assert(ps.map_values(|p: PermissionView| perm_text(p)) =~= prev.map_values(
                    |p: PermissionView| perm_text(p),
                ).push(perm_text(perm_of(pieces.last())->Some_0)));
                assert(pieces =~= pieces.drop_last().push(pieces.last()));
            },
            Err(_) => {},
        }
    }
    if pieces.len() == 0 && parse_perms_spec(pieces) == Ok::<Seq<PermissionView>, Seq<char>>(ps) {
        assert(ps.map_values(|p: PermissionView| perm_text(p)) =~= pieces);
    }
    if ps.len() > 0 && (forall|i: int| 0 <= i < ps.len() ==> (#[trigger] ps[i]).0.len() > 0) {
        let texts = ps.map_values(|p: PermissionView| perm_text(p));
        let prev = ps.drop_last();
        assert forall|i: int| 0 <= i < prev.len() implies (#[trigger] prev[i]).0.len() > 0 by {
            assert(prev[i] == ps[i]);
        }
        lemma_perms_round_trip(Seq::empty(), prev);
        assert(texts.drop_last() =~= prev.map_values(|p: PermissionView| perm_text(p)));
        assert(ps.last() == ps[ps.len() - 1]);
        lemma_perm_text_round_trip(ps.last());
        assert(texts.last() == perm_text(ps.last()));
        assert(prev.push(ps.last()) =~= ps);
    }
    if ps.len() == 0 {
        assert(ps =~= Seq::<PermissionView>::empty());
        assert(ps.map_values(|p: PermissionView| perm_text(p)) =~= Seq::<Seq<char>>::empty());
    }
}

proof fn lemma_parse_perms_err_extends(pv: Seq<Seq<char>>, n: int)
    requires
        0 <= n <= pv.len(),
        parse_perms_spec(pv.take(n)) is Err,
    ensures
        parse_perms_spec(pv) == parse_perms_spec(pv.take(n)),
    decreases pv.len() - n,
{
    if n == pv.len() {
        assert(pv.take(n) =~= pv);
    } else {
        assert(pv.take(n + 1).drop_last() =~= pv.take(n));
        lemma_parse_perms_err_extends(pv, n + 1);
    }
}

pub open spec fn perms_format_constraint() -> Seq<char> {
    "Format: resource[rwx] (e.g., text[rw-])"@
}

fn parse_permission(piece: &str) -> (r: Option<Permission>)
    ensures
        match perm_of(piece@) {
            Some(p) => r matches Some(q) && perm_view(q) == p,
            None => r is None,
        },
{
    let cs = to_chars(piece);
    let n = cs.len();
    if n >= 6 && cs[n - 5] == '[' && cs[n - 1] == ']' && (cs[n - 4] == 'r' || cs[n - 4] == '-')
        && (cs[n - 3] == 'w' || cs[n - 3] == '-') && (cs[n - 2] == 'x' || cs[n - 2] == '-') {
        let resource = chars_to_string(cs.as_slice(), 0, n - 5);
        Some(Permission { resource, read: cs[n - 4] == 'r', write: cs[n - 3] == 'w', execute: cs[n - 2] == 'x' })
    } else {
        None
    }
}

/// Parses a comma-separated permission list such as `text[rwx],route[rw-]`.
pub fn parse_permissions(s: &str) -> (r: ReedResult<Vec<Permission>>)
    ensures
        match parse_perms_spec(comma_list(s@)) {
            Ok(ps) => r matches Ok(v) && perms_view(v@) == ps,
            Err(bad) => r matches Err(e) && is_validation_error(e, "permissions"@, bad, perms_format_constraint()),
        },
{
    let pieces = split_trimmed(s);
    let ghost pv = comma_list(s@);
    let mut out: Vec<Permission> = Vec::new();
    let mut i: usize = 0;
    assert(perms_view(out@) =~= Seq::<PermissionView>::empty());
    assert(pv.take(0) =~= Seq::<Seq<char>>::empty());
    while i < pieces.len()
        invariant
            i <= pieces@.len(),
            pv == strings_view(pieces@),
            pv == comma_list(s@),
            parse_perms_spec(pv.take(i as int)) == Ok::<Seq<PermissionView>, Seq<char>>(perms_view(out@)),
        decreases pieces.len() - i,
    {
        proof {
            assert(pv.take(i + 1).drop_last() =~= pv.take(i as int));
            assert(pv.take(i + 1).last() == pieces@[i as int]@);
        }
        match parse_permission(pieces[i].as_str()) {
            Some(p) => {
                let ghost before = out@;
                out.push(p);
                assert(perms_view(out@) =~= perms_view(before).push(perm_view(p)));
            },
            None => {
                proof {
                    lemma_parse_perms_err_extends(pv, i + 1);
                }
                return Err(
                    validation_error(
                        "permissions",
                        copy_string(&pieces[i]),
                        str_to_string("Format: resource[rwx] (e.g., text[rw-])"),
                    ),
                );
            },
        }
        i += 1;
    }
    assert(pv.take(i as int) =~= pv);
    Ok(out)
}

// ---------------------------------------------------------------------------
// Commands
// ---------------------------------------------------------------------------

/// The context that `role:create` sends: the description and the parent
/// role as a JSON object, keys in order, without spaces.
pub open spec fn role_context(desc: Seq<char>, inherits: Seq<char>) -> Seq<char> {
    "{\"desc\":"@ + json_quoted(desc) + ",\"inherits\":"@ + json_quoted(inherits) + "}"@
}

/// Checks `reed role:create <rolename> --permissions <perms> --desc <text>
/// [--inherit <role>]` and gives the request for the role service: the
/// rolename as key, the permissions text as value, the description, and
/// `{"desc":..,"inherits":..}` as context. The role service parses the
/// permissions.
pub fn create_role(args: &Vec<String>, flags: &StringMap) -> (r: ReedResult<ReedRequest>)
    requires
        flags.wf(),
    ensures
        args@.len() == 0 ==> (r matches Err(e) && is_invalid_command(e, "role:create"@, "Requires rolename argument"@)),
        args@.len() > 0 ==> match (flags.lookup("permissions"@), flags.lookup("desc"@)) {
            (None, _) => r matches Err(e) && is_invalid_command(
                e,
                "role:create"@,
                "--permissions flag is required"@,
            ),
            (Some(_), None) => r matches Err(e) && is_invalid_command(e, "role:create"@, "--desc flag is required"@),
            (Some(p), Some(d)) => r matches Ok(req) && req.key@ == args@[0]@ && req.language is None
                && req.environment is None && opt_str_view(req.value) == Some(p) && opt_str_view(req.description)
                == Some(d) && opt_str_view(req.context) == Some(role_context(d, flag_or_empty(*flags, "inherit"@))),
        },
{
    let rolename = first_arg(args, "role:create", "Requires rolename argument")?;
    let permissions = flag_or_invalid(flags, "permissions", "role:create", "--permissions flag is required")?;
    let desc = flag_or_invalid(flags, "desc", "role:create", "--desc flag is required")?;
    let mut context = str_to_string("{\"desc\":");
    push_json_string(&mut context, desc.as_str());
    push_str(&mut context, ",\"inherits\":");
    push_json_flag(&mut context, flags, "inherit");
    push_str(&mut context, "}");
    Ok(ReedRequest {
        key: rolename,
        language: None,
        environment: None,
        context: Some(context),
        value: Some(permissions),
        description: Some(desc),
    })
}

/// The answer once a role was created, from the role the service made.
pub open spec fn role_created_text(rolename: Seq<char>, role: RoleInfo) -> Seq<char> {
    "✓ Role '"@ + rolename + "' created successfully\n  Permissions: "@ + perms_text(perms_view(role.permissions@))
        + match role.inherits {
        Some(p) => if p@.len() > 0 {
            "\n  Inherits: "@ + p@
        } else {
            Seq::empty()
        },
        None => Seq::empty(),
    }
}

pub fn role_created_message(rolename: &str, role: &RoleInfo) -> (r: ReedResponse<String>)
    ensures
        r.data@ == role_created_text(rolename@, *role),
        r.source@ == "cli::role_commands::create_role"@,
{
    let mut out = str_to_string("✓ Role '");
    push_str(&mut out, rolename);
    push_str(&mut out, "' created successfully\n  Permissions: ");
    let perms = format_permissions(&role.permissions);
    push_str(&mut out, perms.as_str());
    match &role.inherits {
        Some(p) => {
            if p.as_str().unicode_len() > 0 {
                push_str(&mut out, "\n  Inherits: ");
                push_str(&mut out, p.as_str());
            }
        },
        None => {},
    }
    ReedResponse::new(out, "cli::role_commands::create_role")
}

/// An update of one role's properties.
#[derive(Debug, Clone)]
pub struct RoleUpdate {
    pub rolename: String,
    pub permissions: Option<Vec<Permission>>,
    pub inherits: Option<String>,
    pub desc: Option<String>,
}

/// Checks `reed role:show <rolename>`; gives the role to show.
pub fn show_role(args: &Vec<String>) -> (r: ReedResult<String>)
    ensures
        args@.len() == 0 ==> (r matches Err(e) && is_invalid_command(e, "role:show"@, "Requires rolename argument"@)),
        args@.len() > 0 ==> (r matches Ok(n) && n@ == args@[0]@),
{
    first_arg(args, "role:show", "Requires rolename argument")
}

/// Checks `reed role:update <rolename> [--permissions ..] [--inherit ..]
/// [--desc ..]`; at least one flag is required and the permissions must
/// parse.
pub fn update_role(args: &Vec<String>, flags: &StringMap) -> (r: ReedResult<RoleUpdate>)
    requires
        flags.wf(),
    ensures
        args@.len() == 0 ==> (r matches Err(e) && is_invalid_command(e, "role:update"@, "Requires rolename argument"@)),
        args@.len() > 0 && flags.entries().len() == 0 ==> (r matches Err(e) && is_invalid_command(
            e,
            "role:update"@,
            "Requires at least one update flag (--permissions, --inherit, --desc)"@,
        )),
        args@.len() > 0 && flags.entries().len() > 0 ==> match flags.lookup("permissions"@) {
            Some(p) => match parse_perms_spec(comma_list(p)) {
                Err(bad) => r matches Err(e) && is_validation_error(e, "permissions"@, bad, perms_format_constraint()),
                Ok(ps) => r matches Ok(u) && u.rolename@ == args@[0]@ && (u.permissions matches Some(v)
                    && perms_view(v@) == ps) && opt_str_view(u.inherits) == flags.lookup("inherit"@)
                    && opt_str_view(u.desc) == flags.lookup("desc"@),
            },
            None => r matches Ok(u) && u.rolename@ == args@[0]@ && u.permissions is None && opt_str_view(
                u.inherits,
            ) == flags.lookup("inherit"@) && opt_str_view(u.desc) == flags.lookup("desc"@),
        },
{
    let rolename = first_arg(args, "role:update", "Requires rolename argument")?;
    if flags.is_empty() {
        return Err(
            invalid_command(
                "role:update",
                str_to_string("Requires at least one update flag (--permissions, --inherit, --desc)"),
            ),
        );
    }
    let permissions = match flags.get("permissions") {
        Some(p) => Some(parse_permissions(p.as_str())?),
        None => None,
    };
    Ok(RoleUpdate {
        rolename,
        permissions,
        inherits: optional_flag(flags, "inherit"),
        desc: optional_flag(flags, "desc"),
    })
}

/// Checks `reed role:delete <rolename> --force`; gives the role to delete.
pub fn delete_role(args: &Vec<String>, flags: &StringMap) -> (r: ReedResult<String>)
    requires
        flags.wf(),
    ensures
        args@.len() == 0 ==> (r matches Err(e) && is_invalid_command(e, "role:delete"@, "Requires rolename argument"@)),
        args@.len() > 0 && flags.lookup("force"@) is None ==> (r matches Err(e) && is_invalid_command(
            e,
            "role:delete"@,
            "--force flag required to confirm deletion"@,
        )),
        args@.len() > 0 && flags.lookup("force"@) is Some ==> (r matches Ok(n) && n@ == args@[0]@),
{
    let rolename = first_arg(args, "role:delete", "Requires rolename argument")?;
    if !flags.contains_key("force") {
        return Err(invalid_command("role:delete", str_to_string("--force flag required to confirm deletion")));
    }
    Ok(rolename)
}

/// What `role:permissions` does to a role's permissions.
#[derive(Debug, Clone)]
pub enum PermissionEdit {
    /// No flag: show the permissions.
    Show,
    /// `--add`: append those whose resource has none yet.
    Add(Vec<Permission>),
    /// `--remove`: drop those for these resources.
    Remove(Vec<Permission>),
    /// `--set`: replace all permissions.
    Replace(Vec<Permission>),
    /// Other flags only: the permissions stay as they are.
    Keep,
}

/// A permission change for one role.
#[derive(Debug, Clone)]
pub struct PermissionChange {
    pub rolename: String,
    pub edit: PermissionEdit,
}

/// The flag that `role:permissions` acts on and its edit kind: `--add`,
/// else `--remove`, else `--set`.
pub open spec fn permission_flag(flags: StringMap) -> Option<(Seq<char>, nat)> {
    match flags.lookup("add"@) {
        Some(a) => Some((a, 0)),
        None => match flags.lookup("remove"@) {
            Some(x) => Some((x, 1)),
            None => match flags.lookup("set"@) {
                Some(s) => Some((s, 2)),
                None => None,
            },
        },
    }
}

pub open spec fn edit_is(e: PermissionEdit, kind: nat, ps: Seq<PermissionView>) -> bool {
    if kind == 0 {
        e matches PermissionEdit::Add(v) && perms_view(v@) == ps
    } else if kind == 1 {
        e matches PermissionEdit::Remove(v) && perms_view(v@) == ps
    } else {
        e matches PermissionEdit::Replace(v) && perms_view(v@) == ps
    }
}

/// Checks `reed role:permissions <rolename> [--add|--remove|--set <perms>]`.
pub fn manage_permissions(args: &Vec<String>, flags: &StringMap) -> (r: ReedResult<PermissionChange>)
    requires
        flags.wf(),
    ensures
        args@.len() == 0 ==> (r matches Err(e) && is_invalid_command(
            e,
            "role:permissions"@,
            "Requires rolename argument"@,
        )),
        args@.len() > 0 && flags.entries().len() == 0 ==> (r matches Ok(c) && c.rolename@ == args@[0]@
            && c.edit is Show),
        args@.len() > 0 && flags.entries().len() > 0 ==> match permission_flag(*flags) {
            None => r matches Ok(c) && c.rolename@ == args@[0]@ && c.edit is Keep,
            Some((text, kind)) => match parse_perms_spec(comma_list(text)) {
                Err(bad) => r matches Err(e) && is_validation_error(e, "permissions"@, bad, perms_format_constraint()),
                Ok(ps) => r matches Ok(c) && c.rolename@ == args@[0]@ && edit_is(c.edit, kind, ps),
            },
        },
{
    let rolename = first_arg(args, "role:permissions", "Requires rolename argument")?;
    if flags.is_empty() {
        return Ok(PermissionChange { rolename, edit: PermissionEdit::Show });
    }
    let edit = match flags.get("add") {
        Some(a) => PermissionEdit::Add(parse_permissions(a.as_str())?),
        None => match flags.get("remove") {
            Some(x) => PermissionEdit::Remove(parse_permissions(x.as_str())?),
            None => match flags.get("set") {
                Some(s) => PermissionEdit::Replace(parse_permissions(s.as_str())?),
                None => PermissionEdit::Keep,
            },
        },
    };
    Ok(PermissionChange { rolename, edit })
}

/// Some permission in `ps` is for resource `res`.
pub open spec fn has_resource(ps: Seq<PermissionView>, res: Seq<char>) -> bool {
    exists|i: int| 0 <= i < ps.len() && ps[i].0 == res
}

/// `cur` with each of `adds` appended whose resource has no permission yet.
pub open spec fn add_new_resources(cur: Seq<PermissionView>, adds: Seq<PermissionView>) -> Seq<PermissionView>
    decreases adds.len(),
{
    if adds.len() == 0 {
        cur
    } else {
        let p = add_new_resources(cur, adds.drop_last());
        if has_resource(p, adds.last().0) { p } else { p.push(adds.last()) }
    }
}

/// `cur` without the permissions for resources that `rem` names.
pub open spec fn remove_resources(cur: Seq<PermissionView>, rem: Seq<PermissionView>) -> Seq<PermissionView>
    decreases cur.len(),
{
    if cur.len() == 0 {
        Seq::empty()
    } else {
        let p = remove_resources(cur.drop_last(), rem);
        if has_resource(rem, cur.last().0) { p } else { p.push(cur.last()) }
    }
}

/// Adding permissions keeps those a role holds, in order, and afterwards
/// the role holds a permission for every resource added.
pub proof fn lemma_add_permissions(cur: Seq<PermissionView>, adds: Seq<PermissionView>)
    ensures
        add_new_resources(cur, adds).len() >= cur.len(),
        add_new_resources(cur, adds).subrange(0, cur.len() as int) == cur,
        forall|j: int| 0 <= j < adds.len() ==> has_resource(add_new_resources(cur, adds), #[trigger] adds[j].0),
    decreases adds.len(),
{
    if adds.len() == 0 {
        assert(cur.subrange(0, cur.len() as int) =~= cur);
    } else {
        let q = adds.drop_last();
        lemma_add_permissions(cur, q);
        let p = add_new_resources(cur, q);
        let r = add_new_resources(cur, adds);
        assert(r.subrange(0, cur.len() as int) =~= p.subrange(0, cur.len() as int));
        assert forall|j: int| 0 <= j < adds.len() implies has_resource(r, #[trigger] adds[j].0) by {
            if j < adds.len() - 1 {
                assert(q[j] == adds[j]);
                assert(has_resource(p, q[j].0));
                let k = choose|k: int| 0 <= k < p.len() && p[k].0 == q[j].0;
                assert(r[k] == p[k]);
            } else if has_resource(p, adds.last().0) {
                let k = choose|k: int| 0 <= k < p.len() && p[k].0 == adds.last().0;
                assert(r[k] == p[k]);
            } else {
                assert(r[p.len() as int] == adds.last());
            }
        }
    }
}

/// Removing permissions leaves none for the resources removed and keeps
/// every other permission the role held.
pub proof fn lemma_remove_permissions(cur: Seq<PermissionView>, rem: Seq<PermissionView>)
    ensures
        forall|j: int| 0 <= j < rem.len() ==> !has_resource(remove_resources(cur, rem), #[trigger] rem[j].0),
        forall|i: int| 0 <= i < cur.len() && !has_resource(rem, cur[i].0) ==> remove_resources(cur, rem).contains(
            #[trigger] cur[i],
        ),
    decreases cur.len(),
{
    if cur.len() > 0 {
        let c = cur.drop_last();
        lemma_remove_permissions(c, rem);
        let p = remove_resources(c, rem);
        let r = remove_resources(cur, rem);
        assert forall|j: int| 0 <= j < rem.len() implies !has_resource(r, #[trigger] rem[j].0) by {
            assert(!has_resource(p, rem[j].0));
            if has_resource(r, rem[j].0) {
                let k = choose|k: int| 0 <= k < r.len() && r[k].0 == rem[j].0;
                if k < p.len() {
                    assert(r[k] == p[k]);
                } else {
                    assert(r[k] == cur.last());
                    assert(has_resource(rem, cur.last().0));
                }
            }
        }
        assert forall|i: int| 0 <= i < cur.len() && !has_resource(rem, cur[i].0) implies r.contains(
            #[trigger] cur[i],
        ) by {
            if i < cur.len() - 1 {
                assert(c[i] == cur[i]);
                assert(p.contains(c[i]));
                let k = choose|k: int| 0 <= k < p.len() && p[k] == c[i];
                assert(r[k] == p[k]);
            } else {
                assert(r[p.len() as int] == cur.last());
            }
        }
    }
}

/// The permissions after the edit.
pub open spec fn edited_permissions(cur: Seq<PermissionView>, e: PermissionEdit) -> Seq<PermissionView> {
    match e {
        PermissionEdit::Add(v) => add_new_resources(cur, perms_view(v@)),
        PermissionEdit::Remove(v) => remove_resources(cur, perms_view(v@)),
        PermissionEdit::Replace(v) => perms_view(v@),
        _ => cur,
    }
}

fn copy_permission(p: &Permission) -> (r: Permission)
    ensures
        perm_view(r) == perm_view(*p),
{
    Permission { resource: copy_string(&p.resource), read: p.read, write: p.write, execute: p.execute }
}

fn copy_permissions(v: &Vec<Permission>) -> (r: Vec<Permission>)
    ensures
        perms_view(r@) == perms_view(v@),
{
    let mut r: Vec<Permission> = Vec::new();
    let mut i: usize = 0;
    while i < v.len()
        invariant
            i <= v@.len(),
            perms_view(r@) == perms_view(v@).take(i as int),
        decreases v.len() - i,
    {
        let ghost before = r@;
        let p = copy_permission(&v[i]);
        r.push(p);
        assert(perms_view(r@) =~= perms_view(before).push(perm_view(p)));
        assert(perms_view(r@) =~= perms_view(v@).take(i + 1));
        i += 1;
    }
    assert(perms_view(v@).take(i as int) =~= perms_view(v@));
    r
}

fn find_resource(ps: &Vec<Permission>, res: &str) -> (r: bool)
    ensures
        r == has_resource(perms_view(ps@), res@),
{
    let mut i: usize = 0;
    while i < ps.len()
        invariant
            i <= ps@.len(),
            forall|j: int| 0 <= j < i ==> ps@[j].resource@ != res@,
        decreases ps.len() - i,
    {
        if str_eq(ps[i].resource.as_str(), res) {
            assert(perms_view(ps@)[i as int].0 == res@);
            return true;
        }
        i += 1;
    }
    proof {
        if has_resource(perms_view(ps@), res@) {
            let j = choose|j: int| 0 <= j < perms_view(ps@).len() && perms_view(ps@)[j].0 == res@;
            assert(ps@[j].resource@ == res@);
        }
    }
    false
}

/// The permissions a role holds after the edit.
pub fn apply_permission_edit(current: &Vec<Permission>, edit: &PermissionEdit) -> (r: Vec<Permission>)
    ensures
        perms_view(r@) == edited_permissions(perms_view(current@), *edit),
{
    match edit {
        PermissionEdit::Add(adds) => {
            let mut r = copy_permissions(current);
            let ghost cur = perms_view(current@);
            let ghost av = perms_view(adds@);
            let mut i: usize = 0;
            while i < adds.len()
                invariant
                    i <= adds@.len(),
                    cur == perms_view(current@),
                    av == perms_view(adds@),
                    perms_view(r@) == add_new_resources(cur, av.take(i as int)),
                decreases adds.len() - i,
            {
                proof {
                    assert(av.take(i + 1).drop_last() =~= av.take(i as int));
                    assert(av.take(i + 1).last() == perm_view(adds@[i as int]));
                }
                if !find_resource(&r, adds[i].resource.as_str()) {
                    let ghost before = r@;
                    let p = copy_permission(&adds[i]);
                    r.push(p);
                    assert(perms_view(r@) =~= perms_view(before).push(perm_view(p)));
                }
                i += 1;
            }
            assert(av.take(i as int) =~= av);
            r
        },
        PermissionEdit::Remove(rem) => {
            let mut r: Vec<Permission> = Vec::new();
            let ghost cur = perms_view(current@);
            let mut i: usize = 0;
            while i < current.len()
                invariant
                    i <= current@.len(),
                    cur == perms_view(current@),
                    perms_view(r@) == remove_resources(cur.take(i as int), perms_view(rem@)),
                decreases current.len() - i,
            {
                proof {
                    assert(cur.take(i + 1).drop_last() =~= cur.take(i as int));
                    assert(cur.take(i + 1).last() == perm_view(current@[i as int]));
                }
                if !find_resource(rem, current[i].resource.as_str()) {
                    let ghost before = r@;
                    let p = copy_permission(&current[i]);
                    r.push(p);
                    assert(perms_view(r@) =~= perms_view(before).push(perm_view(p)));
                }
                i += 1;
            }
            assert(cur.take(i as int) =~= cur);
            r
        },
        PermissionEdit::Replace(v) => copy_permissions(v),
        _ => copy_permissions(current),
    }
}

/// The permissions as a bullet list: `- p1\n  - p2` (`- ` for none).
pub open spec fn perms_bullets(ps: Seq<PermissionView>) -> Seq<char> {
    if ps.len() == 0 {
        "- "@
    } else {
        join_seqs(ps.map_values(|p: PermissionView| "- "@ + perm_text(p)), "\n  "@)
    }
}

fn perms_bullet_text(perms: &Vec<Permission>) -> (r: String)
    ensures
        r@ == perms_bullets(perms_view(perms@)),
{
    if perms.len() == 0 {
        return str_to_string("- ");
    }
    let mut texts: Vec<String> = Vec::new();
    let ghost items = perms_view(perms@).map_values(|p: PermissionView| "- "@ + perm_text(p));
    let mut i: usize = 0;
    while i < perms.len()
        invariant
            i <= perms@.len(),
            items == perms_view(perms@).map_values(|p: PermissionView| "- "@ + perm_text(p)),
            strings_view(texts@) == items.take(i as int),
        decreases perms.len() - i,
    {
        let ghost before = texts@;
        let mut t = str_to_string("- ");
        push_perm(&mut t, &perms[i]);
        texts.push(t);
        assert(strings_view(texts@) =~= strings_view(before).push(t@));
        assert(strings_view(texts@) =~= items.take(i + 1));
        i += 1;
    }
    assert(items.take(i as int) =~= items);
    join_strings(&texts, "\n  ")
}

/// The answer of `role:permissions`: the permissions held, or those after
/// the change.
pub open spec fn permissions_report_text(rolename: Seq<char>, e: PermissionEdit, cur: Seq<PermissionView>) -> Seq<
    char,
> {
    if e is Show {
        "Current permissions for '"@ + rolename + "':\n  "@ + perms_bullets(cur)
    } else {
        "✓ Permissions updated for '"@ + rolename + "'\n  New permissions:\n  "@ + perms_bullets(
            edited_permissions(cur, e),
        )
    }
}

pub fn permissions_report(change: &PermissionChange, current: &Vec<Permission>) -> (r: ReedResponse<String>)
    ensures
        r.data@ == permissions_report_text(change.rolename@, change.edit, perms_view(current@)),
        r.source@ == "cli::role_commands::manage_permissions"@,
{
    let mut out = String::new();
    match &change.edit {
        PermissionEdit::Show => {
            push_str(&mut out, "Current permissions for '");
            push_str(&mut out, change.rolename.as_str());
            push_str(&mut out, "':\n  ");
            let b = perms_bullet_text(current);
            push_str(&mut out, b.as_str());
        },
        _ => {
            let perms = apply_permission_edit(current, &change.edit);
            push_str(&mut out, "✓ Permissions updated for '");
            push_str(&mut out, change.rolename.as_str());
            push_str(&mut out, "'\n  New permissions:\n  ");
            let b = perms_bullet_text(&perms);
            push_str(&mut out, b.as_str());
        },
    }
    ReedResponse::new(out, "cli::role_commands::manage_permissions")
}

/// `✓ Role '<name>' <what>`, the answer of update and delete.
pub fn role_done_message(rolename: &str, what: &str, source: &str) -> (r: ReedResponse<String>)
    ensures
        r.data@ == "✓ Role '"@ + rolename@ + "' "@ + what@,
        r.source@ == source@,
{
    let mut out = str_to_string("✓ Role '");
    push_str(&mut out, rolename);
    push_str(&mut out, "' ");
    push_str(&mut out, what);
    ReedResponse::new(out, source)
}

// ---------------------------------------------------------------------------
// Listings
// ---------------------------------------------------------------------------

/// One permission's line in the role details.
pub open spec fn perm_detail(p: PermissionView) -> Seq<char> {
    "  - "@ + perm_text(p) + ": "@ + describe_text(p) + " access to "@ + p.0 + "\n"@
}

pub open spec fn perm_details(ps: Seq<PermissionView>) -> Seq<char>
    decreases ps.len(),
{
    if ps.len() == 0 { Seq::empty() } else { perm_details(ps.drop_last()) + perm_detail(ps.last()) }
}

/// The details of one role, as `role:show` prints them.
pub open spec fn role_details_text(r: RoleInfo) -> Seq<char> {
    "Role: "@ + r.rolename@ + "\nDescription: "@ + r.desc@ + "\n"@ + "\nPermissions:\n"@ + perm_details(
        perms_view(r.permissions@),
    ) + (match r.inherits {
        Some(i) => if i@.len() > 0 { "\nInherits: "@ + i@ + "\n"@ } else { Seq::empty() },
        None => Seq::empty(),
    }) + "\nStatus: "@ + status_text(r.is_active) + "\n"@ + "Created: "@ + decimal(r.created_at as nat)
        + "\n"@ + "Updated: "@ + decimal(r.updated_at as nat) + "\n"@
}

fn push_perm_detail(out: &mut String, p: &Permission)
    ensures
        final(out)@ == old(out)@ + perm_detail(perm_view(*p)),
{
    let ghost start = out@;
    push_str(out, "  - ");
    push_perm(out, p);
    push_str(out, ": ");
    push_str(out, describe_permissions(p));
    push_str(out, " access to ");
    push_str(out, p.resource.as_str());
    push_str(out, "\n");
    assert(out@ =~= start + perm_detail(perm_view(*p)));
}

/// The details of one role.
pub fn format_role_details(role: &RoleInfo) -> (r: String)
    ensures
        r@ == role_details_text(*role),
{
    let mut out = str_to_string("Role: ");
    push_str(&mut out, role.rolename.as_str());
    push_str(&mut out, "\nDescription: ");
    push_str(&mut out, role.desc.as_str());
    push_str(&mut out, "\n");
    push_str(&mut out, "\nPermissions:\n");
    let ghost head = out@;
    let ghost pv = perms_view(role.permissions@);
    let mut i: usize = 0;
    while i < role.permissions.len()
        invariant
            i <= role.permissions@.len(),
            pv == perms_view(role.permissions@),
            out@ == head + perm_details(pv.take(i as int)),
        decreases role.permissions.len() - i,
    {
        push_perm_detail(&mut out, &role.permissions[i]);
        proof {
            assert(pv.take(i + 1).drop_last() =~= pv.take(i as int));
            assert(pv.take(i + 1).last() == perm_view(role.permissions@[i as int]));
        }
        assert(out@ =~= head + perm_details(pv.take(i + 1)));
        i += 1;
    }
    assert(pv.take(i as int) =~= pv);
    let ghost mid = out@;
    match &role.inherits {
        Some(inh) => {
            if !inh.as_str().is_empty() {
                push_str(&mut out, "\nInherits: ");
                push_str(&mut out, inh.as_str());
                push_str(&mut out, "\n");
            }
        },
        None => {},
    }
    push_str(&mut out, "\nStatus: ");
    push_str(&mut out, if role.is_active { "active" } else { "inactive" });
    push_str(&mut out, "\n");
    push_str(&mut out, "Created: ");
    push_u64(&mut out, role.created_at);
    push_str(&mut out, "\n");
    push_str(&mut out, "Updated: ");
    push_u64(&mut out, role.updated_at);
    push_str(&mut out, "\n");
    assert(out@ =~= role_details_text(*role));
    out
}

/// The answer of `role:show` for the role found.
pub fn show_role_report(role: &RoleInfo) -> (r: ReedResponse<String>)
    ensures
        r.data@ == role_details_text(*role),
        r.source@ == "cli::role_commands::show_role"@,
{
    ReedResponse::new(format_role_details(role), "cli::role_commands::show_role")
}

pub open spec fn inherits_text(r: RoleInfo) -> Seq<char> {
    match r.inherits {
        Some(i) => i@,
        None => Seq::empty(),
    }
}

/// One row of the role table.
pub open spec fn role_row(r: RoleInfo, show_permissions: bool) -> Seq<char> {
    if show_permissions {
        pad_right(r.rolename@, 15) + " "@ + pad_right(perms_text(perms_view(r.permissions@)), 40) + " "@
            + pad_right(inherits_text(r), 15) + " "@ + pad_right(status_text(r.is_active), 10) + "\n"@
    } else {
        pad_right(r.rolename@, 15) + " "@ + pad_right(inherits_text(r), 15) + " "@ + pad_right(
            status_text(r.is_active),
            10,
        ) + "\n"@
    }
}

pub open spec fn role_rows(rs: Seq<RoleInfo>, show_permissions: bool) -> Seq<char>
    decreases rs.len(),
{
    if rs.len() == 0 {
        Seq::empty()
    } else {
        role_rows(rs.drop_last(), show_permissions) + role_row(rs.last(), show_permissions)
    }
}

/// The header of the role table.
pub open spec fn role_table_head(show_permissions: bool) -> Seq<char> {
    if show_permissions {
        pad_right("Role"@, 15) + " "@ + pad_right("Permissions"@, 40) + " "@ + pad_right("Inherits"@, 15)
            + " "@ + pad_right("Status"@, 10) + "\n"@ + repeat_char('-', 82) + "\n"@
    } else {
        pad_right("Role"@, 15) + " "@ + pad_right("Inherits"@, 15) + " "@ + pad_right("Status"@, 10) + "\n"@
            + repeat_char('-', 42) + "\n"@
    }
}

/// The role table of `role:list`.
pub open spec fn role_table_text(rs: Seq<RoleInfo>, show_permissions: bool) -> Seq<char> {
    if rs.len() == 0 {
        "No roles found"@
    } else {
        role_table_head(show_permissions) + role_rows(rs, show_permissions) + "\n"@ + decimal(rs.len())
            + " role(s) total"@
    }
}

fn inherits_str(r: &RoleInfo) -> (s: &str)
    ensures
        s@ == inherits_text(*r),
{
    match &r.inherits {
        Some(i) => i.as_str(),
        None => {
            proof {
                reveal_strlit("");
            }
            ""
        },
    }
}

#[verifier::spinoff_prover]
#[verifier::rlimit(40)]
fn push_role_row(out: &mut String, r: &RoleInfo, show_permissions: bool)
    ensures
        final(out)@ == old(out)@ + role_row(*r, show_permissions),
{
    let ghost start = out@;
    push_padded(out, r.rolename.as_str(), 15);
    push_str(out, " ");
    let ghost name_part = pad_right(r.rolename@, 15) + " "@;
    assert(out@ =~= start + name_part);
    let ghost mut perm_part: Seq<char> = Seq::empty();
    if show_permissions {
        let ghost before = out@;
        let perms = format_permissions(&r.permissions);
        push_padded(out, perms.as_str(), 40);
        push_str(out, " ");
        proof {
            perm_part = pad_right(perms_text(perms_view(r.permissions@)), 40) + " "@;
        }
        assert(out@ =~= before + perm_part);
    }
    let ghost middle = out@;
    assert(middle =~= start + name_part + perm_part);
    push_padded(out, inherits_str(r), 15);
    push_str(out, " ");
    push_padded(out, if r.is_active { "active" } else { "inactive" }, 10);
    push_str(out, "\n");
    let ghost tail_part = pad_right(inherits_text(*r), 15) + " "@ + pad_right(status_text(r.is_active), 10) + "\n"@;
    assert(out@ =~= middle + tail_part);
    assert(out@ =~= start + role_row(*r, show_permissions));
}

fn push_role_table_head(out: &mut String, show_permissions: bool)
    ensures
        final(out)@ == old(out)@ + role_table_head(show_permissions),
{
    let ghost start = out@;
    push_padded(out, "Role", 15);
    push_str(out, " ");
    if show_permissions {
        push_padded(out, "Permissions", 40);
        push_str(out, " ");
    }
    push_padded(out, "Inherits", 15);
    push_str(out, " ");
    push_padded(out, "Status", 10);
    push_str(out, "\n");
    push_repeated(out, '-', if show_permissions { 82 } else { 42 });
    push_str(out, "\n");
    assert(out@ =~= start + role_table_head(show_permissions));
}

pub fn format_role_table(roles: &Vec<RoleInfo>, show_permissions: bool) -> (r: String)
    ensures
        r@ == role_table_text(roles@, show_permissions),
{
    if roles.len() == 0 {
        return str_to_string("No roles found");
    }
    let mut out = String::new();
    push_role_table_head(&mut out, show_permissions);
    let ghost head = out@;
    let mut i: usize = 0;
    while i < roles.len()
        invariant
            i <= roles@.len(),
            out@ == head + role_rows(roles@.take(i as int), show_permissions),
        decreases roles.len() - i,
    {
        push_role_row(&mut out, &roles[i], show_permissions);
        proof {
            assert(roles@.take(i + 1).drop_last() =~= roles@.take(i as int));
        }
        assert(out@ =~= head + role_rows(roles@.take(i + 1), show_permissions));
        i += 1;
    }
    assert(roles@.take(i as int) =~= roles@);
    push_str(&mut out, "\n");
    push_usize(&mut out, roles.len());
    push_str(&mut out, " role(s) total");
    out
}

/// `s` with every `,` turned into `;`.
pub open spec fn commas_to_semicolons(s: Seq<char>) -> Seq<char> {
    s.map_values(|c: char| if c == ',' { ';' } else { c })
}

fn replace_commas(s: &str) -> (r: String)
    ensures
        r@ == commas_to_semicolons(s@),
{
    let cs = to_chars(s);
    let mut r = String::new();
    let mut i: usize = 0;
    while i < cs.len()
        invariant
            cs@ == s@,
            i <= cs@.len(),
            r@ == commas_to_semicolons(s@).take(i as int),
        decreases cs.len() - i,
    {
        let c = cs[i];
        push_char(&mut r, if c == ',' { ';' } else { c });
        assert(r@ =~= commas_to_semicolons(s@).take(i + 1));
        i += 1;
    }
    assert(commas_to_semicolons(s@).take(i as int) =~= commas_to_semicolons(s@));
    r
}

/// One row of the role CSV listing.
pub open spec fn role_csv_row(r: RoleInfo) -> Seq<char> {
    r.rolename@ + ","@ + commas_to_semicolons(perms_text(perms_view(r.permissions@))) + ","@ + inherits_text(r)
        + ","@ + status_text(r.is_active) + "\n"@
}

pub open spec fn role_csv_rows(rs: Seq<RoleInfo>) -> Seq<char>
    decreases rs.len(),
{
    if rs.len() == 0 { Seq::empty() } else { role_csv_rows(rs.drop_last()) + role_csv_row(rs.last()) }
}

fn push_role_csv_row(out: &mut String, r: &RoleInfo)
    ensures
        final(out)@ == old(out)@ + role_csv_row(*r),
{
    let ghost start = out@;
    push_str(out, r.rolename.as_str());
    push_str(out, ",");
    let perms = format_permissions(&r.permissions);
    let perms = replace_commas(perms.as_str());
    push_str(out, perms.as_str());
    push_str(out, ",");
    push_str(out, inherits_str(r));
    push_str(out, ",");
    push_str(out, if r.is_active { "active" } else { "inactive" });
    push_str(out, "\n");
    assert(out@ =~= start + role_csv_row(*r));
}

pub fn format_role_csv(roles: &Vec<RoleInfo>) -> (r: String)
    ensures
        r@ == "rolename,permissions,inherits,status\n"@ + role_csv_rows(roles@),
{
    let mut out = str_to_string("rolename,permissions,inherits,status\n");
    let ghost head = out@;
    let mut i: usize = 0;
    while i < roles.len()
        invariant
            i <= roles@.len(),
            out@ == head + role_csv_rows(roles@.take(i as int)),
        decreases roles.len() - i,
    {
        push_role_csv_row(&mut out, &roles[i]);
        proof {
            assert(roles@.take(i + 1).drop_last() =~= roles@.take(i as int));
        }
        assert(out@ =~= head + role_csv_rows(roles@.take(i + 1)));
        i += 1;
    }
    assert(roles@.take(i as int) =~= roles@);
    out
}

/// Lists roles (`reed role:list [--format table|json|csv]
/// [--show-permissions]`) from the roles the service reported. JSON is
/// serialised by the caller: for `--format json` the answer is `None`.
pub fn list_roles(flags: &StringMap, roles: &Vec<RoleInfo>) -> (r: Option<ReedResponse<String>>)
    requires
        flags.wf(),
    ensures
        list_format(*flags) == "json"@ <==> r is None,
        r matches Some(resp) ==> resp.source@ == "cli::role_commands::list_roles"@ && resp.data@ == if list_format(
            *flags,
        ) == "csv"@ {
            "rolename,permissions,inherits,status\n"@ + role_csv_rows(roles@)
        } else {
            role_table_text(roles@, flags.lookup("show-permissions"@) is Some)
        },
{
    let format = match flags.get("format") {
        Some(f) => f.as_str(),
        None => "table",
    };
    if str_eq(format, "json") {
        return None;
    }
    let data = if str_eq(format, "csv") {
        format_role_csv(roles)
    } else {
        format_role_table(roles, flags.contains_key("show-permissions"))
    };
    Some(ReedResponse::new(data, "cli::role_commands::list_roles"))
}

} // verus!
