//! Taxonomy commands: `reed taxonomy:*`.
//!
//! Each command checks its arguments and flags and gives what the
//! taxonomy service is asked to do; the answers are formatted from what
//! the service returns (`TermInfo`, `EntityTerms`).
use vstd::prelude::*;
use crate::cli::checks::{first_arg, optional_flag};
use crate::cli::parser::strings_view;
use crate::lists::{contains_string, distinct, distinct_strings};
use crate::reedstream::{is_validation_error, opt_str_view, validation_error, ReedResult};
use crate::report::{join_seqs, join_strings, pad_right, push_padded};
use crate::string_map::StringMap;
use vstd::utf8::{decode_utf8, encode_utf8, is_char_boundary};
use vstd::string::StringSliceAdditionalSpecFns;
use crate::text::{
    byte_len, copy_string, decimal, push_str, push_u64, push_usize, split_on, split_to_strings, str_eq,
    str_to_string,
};

verus! {

/// The kinds of entity that terms are assigned to.
#[derive(Debug, Clone, Copy, PartialEq, Eq, Structural)]
pub enum EntityType {
    User,
    Content,
    Template,
    Route,
    Site,
    Project,
    Asset,
    Role,
}

pub open spec fn entity_text(t: EntityType) -> Seq<char> {
    match t {
        EntityType::User => "user"@,
        EntityType::Content => "content"@,
        EntityType::Template => "template"@,
        EntityType::Route => "route"@,
        EntityType::Site => "site"@,
        EntityType::Project => "project"@,
        EntityType::Asset => "asset"@,
        EntityType::Role => "role"@,
    }
}

pub open spec fn entity_named(s: Seq<char>) -> Option<EntityType> {
    if s == "user"@ {
        Some(EntityType::User)
    } else if s == "content"@ {
        Some(EntityType::Content)
    } else if s == "template"@ {
        Some(EntityType::Template)
    } else if s == "route"@ {
        Some(EntityType::Route)
    } else if s == "site"@ {
        Some(EntityType::Site)
    } else if s == "project"@ {
        Some(EntityType::Project)
    } else if s == "asset"@ {
        Some(EntityType::Asset)
    } else if s == "role"@ {
        Some(EntityType::Role)
    } else {
        None
    }
}

/// Entity type name round trip: every entity type's name parses back to
/// that type, so that `EntityType::from_str(t.as_str())` is `Ok(t)`; and
/// no two types share a name.
pub proof fn lemma_entity_round_trip(t: EntityType, u: EntityType)
    ensures
        entity_named(entity_text(t)) == Some(t),
        entity_text(t) == entity_text(u) ==> t == u,
{
    reveal_strlit("user");
    reveal_strlit("content");
    reveal_strlit("template");
    reveal_strlit("route");
    reveal_strlit("site");
    reveal_strlit("project");
    reveal_strlit("asset");
    reveal_strlit("role");
    assert("user"@[0] != "site"@[0] && "user"@[0] != "role"@[0] && "site"@[0] != "role"@[0]);
    assert("content"@[0] != "project"@[0]);
    assert("route"@[0] != "asset"@[0]);
    assert("user"@ != "site"@ && "user"@ != "role"@ && "site"@ != "role"@);
    assert("content"@ != "project"@);
    assert("route"@ != "asset"@);
    assert("user"@.len() == 4 && "content"@.len() == 7 && "template"@.len() == 8 && "route"@.len() == 5);
    assert("site"@.len() == 4 && "project"@.len() == 7 && "asset"@.len() == 5 && "role"@.len() == 4);
}

pub open spec fn entity_constraint() -> Seq<char> {
    "Must be one of: user, content, template, route, site, project, asset, role"@
}

impl EntityType {
    /// The entity type of a name: user, content, template, route, site,
    /// project, asset or role.
    pub fn from_str(s: &str) -> (r: ReedResult<EntityType>)
        ensures
            match entity_named(s@) {
                Some(t) => r matches Ok(x) && x == t,
                None => r matches Err(e) && is_validation_error(e, "entity_type"@, s@, entity_constraint()),
            },
    {
        if str_eq(s, "user") {
            Ok(EntityType::User)
        } else if str_eq(s, "content") {
            Ok(EntityType::Content)
        } else if str_eq(s, "template") {
            Ok(EntityType::Template)
        } else if str_eq(s, "route") {
            Ok(EntityType::Route)
        } else if str_eq(s, "site") {
            Ok(EntityType::Site)
        } else if str_eq(s, "project") {
            Ok(EntityType::Project)
        } else if str_eq(s, "asset") {
            Ok(EntityType::Asset)
        } else if str_eq(s, "role") {
            Ok(EntityType::Role)
        } else {
            Err(
                validation_error(
                    "entity_type",
                    str_to_string(s),
                    str_to_string("Must be one of: user, content, template, route, site, project, asset, role"),
                ),
            )
        }
    }

    /// The name of the entity type.
    pub fn as_str(&self) -> (r: &'static str)
        ensures
            r@ == entity_text(*self),
    {
        match self {
            EntityType::User => "user",
            EntityType::Content => "content",
            EntityType::Template => "template",
            EntityType::Route => "route",
            EntityType::Site => "site",
            EntityType::Project => "project",
            EntityType::Asset => "asset",
            EntityType::Role => "role",
        }
    }
}

/// A term as the taxonomy service reports it.
#[derive(Debug, Clone)]
pub struct TermInfo {
    pub term_id: String,
    pub term: String,
    pub category: String,
    pub parent_id: Option<String>,
    pub description: Option<String>,
    pub color: Option<String>,
    pub icon: Option<String>,
    pub status: String,
    pub created_by: String,
    pub usage_count: u64,
    pub created_at: String,
    pub updated_at: String,
}

/// The terms assigned to one entity.
#[derive(Debug, Clone)]
pub struct EntityTerms {
    pub entity_type: EntityType,
    pub entity_id: String,
    pub term_ids: Vec<String>,
    pub assigned_by: String,
    pub assigned_at: String,
}

/// A new term.
#[derive(Debug, Clone)]
pub struct TermCreate {
    pub term: String,
    pub category: String,
    pub parent_id: Option<String>,
    pub description: Option<String>,
    pub color: Option<String>,
    pub icon: Option<String>,
    pub created_by: String,
}

/// Checks `reed taxonomy:create <term> --category <c> [--parent ..]
/// [--description ..] [--color ..] [--icon ..] [--created-by ..]`.
pub fn create(args: &Vec<String>, flags: &StringMap) -> (r: ReedResult<TermCreate>)
    requires
        flags.wf(),
    ensures
        args@.len() == 0 ==> (r matches Err(e) && is_validation_error(e, "term"@, Seq::empty(), "term name required"@)),
        args@.len() > 0 ==> match flags.lookup("category"@) {
            None => r matches Err(e) && is_validation_error(e, "category"@, Seq::empty(), "--category flag required"@),
            Some(c) => r matches Ok(t) && t.term@ == args@[0]@ && t.category@ == c && opt_str_view(t.parent_id)
                == flags.lookup("parent"@) && opt_str_view(t.description) == flags.lookup("description"@)
                && opt_str_view(t.color) == flags.lookup("color"@) && opt_str_view(t.icon) == flags.lookup(
                "icon"@,
            ) && t.created_by@ == match flags.lookup("created-by"@) {
                Some(b) => b,
                None => "system"@,
            },
        },
{
    if args.len() == 0 {
        return Err(validation_error("term", String::new(), str_to_string("term name required")));
    }
    let category = match flags.get("category") {
        Some(c) => copy_string(c),
        None => {
            return Err(validation_error("category", String::new(), str_to_string("--category flag required")));
        },
    };
    let created_by = match flags.get("created-by") {
        Some(b) => copy_string(b),
        None => str_to_string("system"),
    };
    Ok(TermCreate {
        term: copy_string(&args[0]),
        category,
        parent_id: optional_flag(flags, "parent"),
        description: optional_flag(flags, "description"),
        color: optional_flag(flags, "color"),
        icon: optional_flag(flags, "icon"),
        created_by,
    })
}

/// The answer of `taxonomy:create` for the term created.
pub fn created_message(t: &TermInfo) -> (r: String)
    ensures
        r@ == "Term created: "@ + t.term@ + " ("@ + t.status@ + ")\nID: "@ + t.term_id@ + "\nCategory: "@
            + t.category@,
{
    let mut out = str_to_string("Term created: ");
    push_str(&mut out, t.term.as_str());
    push_str(&mut out, " (");
    push_str(&mut out, t.status.as_str());
    push_str(&mut out, ")\nID: ");
    push_str(&mut out, t.term_id.as_str());
    push_str(&mut out, "\nCategory: ");
    push_str(&mut out, t.category.as_str());
    out
}

fn term_id_arg(args: &Vec<String>) -> (r: ReedResult<String>)
    ensures
        args@.len() == 0 ==> (r matches Err(e) && is_validation_error(e, "term_id"@, Seq::empty(), "term_id required"@)),
        args@.len() > 0 ==> (r matches Ok(t) && t@ == args@[0]@),
{
    if args.len() == 0 {
        return Err(validation_error("term_id", String::new(), str_to_string("term_id required")));
    }
    Ok(copy_string(&args[0]))
}

/// Checks `reed taxonomy:show <term_id>`; gives the term to show.
pub fn show(args: &Vec<String>) -> (r: ReedResult<String>)
    ensures
        args@.len() == 0 ==> (r matches Err(e) && is_validation_error(e, "term_id"@, Seq::empty(), "term_id required"@)),
        args@.len() > 0 ==> (r matches Ok(t) && t@ == args@[0]@),
{
    term_id_arg(args)
}

pub open spec fn or_none(o: Option<String>) -> Seq<char> {
    match o {
        Some(s) => s@,
        None => "(none)"@,
    }
}

fn or_none_str(o: &Option<String>) -> (r: &str)
    ensures
        r@ == or_none(*o),
{
    match o {
        Some(s) => s.as_str(),
        None => "(none)",
    }
}

/// The details of a term, as `taxonomy:show` prints them.
pub open spec fn term_details_text(t: TermInfo) -> Seq<char> {
    "Term ID: "@ + t.term_id@ + "\nTerm: "@ + t.term@ + "\nCategory: "@ + t.category@ + "\nParent: "@
        + or_none(t.parent_id) + "\nDescription: "@ + or_none(t.description) + "\nColor: "@ + or_none(t.color)
        + "\nIcon: "@ + or_none(t.icon) + "\nStatus: "@ + t.status@ + "\nCreated By: "@ + t.created_by@
        + "\nUsage Count: "@ + decimal(t.usage_count as nat) + "\nCreated: "@ + t.created_at@ + "\nUpdated: "@
        + t.updated_at@
}

pub fn format_term_details(t: &TermInfo) -> (r: String)
    ensures
        r@ == term_details_text(*t),
{
    let mut out = str_to_string("Term ID: ");
    push_str(&mut out, t.term_id.as_str());
    push_str(&mut out, "\nTerm: ");
    push_str(&mut out, t.term.as_str());
    push_str(&mut out, "\nCategory: ");
    push_str(&mut out, t.category.as_str());
    push_str(&mut out, "\nParent: ");
    push_str(&mut out, or_none_str(&t.parent_id));
    push_str(&mut out, "\nDescription: ");
    push_str(&mut out, or_none_str(&t.description));
    push_str(&mut out, "\nColor: ");
    push_str(&mut out, or_none_str(&t.color));
    push_str(&mut out, "\nIcon: ");
    push_str(&mut out, or_none_str(&t.icon));
    push_str(&mut out, "\nStatus: ");
    push_str(&mut out, t.status.as_str());
    push_str(&mut out, "\nCreated By: ");
    push_str(&mut out, t.created_by.as_str());
    push_str(&mut out, "\nUsage Count: ");
    push_u64(&mut out, t.usage_count);
    push_str(&mut out, "\nCreated: ");
    push_str(&mut out, t.created_at.as_str());
    push_str(&mut out, "\nUpdated: ");
    push_str(&mut out, t.updated_at.as_str());
    out
}

/// A change to a term. Outer `None`: leave as is; `Some(None)`: remove.
#[derive(Debug, Clone)]
pub struct TermUpdate {
    pub term_id: String,
    pub term: Option<String>,
    pub parent_id: Option<Option<String>>,
    pub description: Option<Option<String>>,
    pub color: Option<Option<String>>,
    pub icon: Option<Option<String>>,
    pub status: Option<String>,
}

/// What a flag that can remove its field asks: absent, `none`, or a value.
pub open spec fn clearable(flag: Option<Seq<char>>, field: Option<Option<String>>) -> bool {
    match flag {
        None => field is None,
        Some(v) => if v == "none"@ {
            field == Some(None::<String>)
        } else {
            field matches Some(Some(s)) && s@ == v
        },
    }
}

fn clearable_flag(flags: &StringMap, name: &str) -> (r: Option<Option<String>>)
    requires
        flags.wf(),
    ensures
        clearable(flags.lookup(name@), r),
{
    match flags.get(name) {
        None => None,
        Some(v) => if str_eq(v.as_str(), "none") {
            Some(None)
        } else {
            Some(Some(copy_string(v)))
        },
    }
}

/// Checks `reed taxonomy:update <term_id> [--term ..] [--parent ..]
/// [--description ..] [--color ..] [--icon ..] [--status ..]`; `none`
/// removes the parent, description, color or icon.
pub fn update(args: &Vec<String>, flags: &StringMap) -> (r: ReedResult<TermUpdate>)
    requires
        flags.wf(),
    ensures
        args@.len() == 0 ==> (r matches Err(e) && is_validation_error(e, "term_id"@, Seq::empty(), "term_id required"@)),
        args@.len() > 0 ==> (r matches Ok(u) && u.term_id@ == args@[0]@ && opt_str_view(u.term) == flags.lookup(
            "term"@,
        ) && clearable(flags.lookup("parent"@), u.parent_id) && clearable(
            flags.lookup("description"@),
            u.description,
        ) && clearable(flags.lookup("color"@), u.color) && clearable(flags.lookup("icon"@), u.icon)
            && opt_str_view(u.status) == flags.lookup("status"@)),
{
    let term_id = term_id_arg(args)?;
    Ok(TermUpdate {
        term_id,
        term: optional_flag(flags, "term"),
        parent_id: clearable_flag(flags, "parent"),
        description: clearable_flag(flags, "description"),
        color: clearable_flag(flags, "color"),
        icon: clearable_flag(flags, "icon"),
        status: optional_flag(flags, "status"),
    })
}

/// The answer of `taxonomy:update` for the updated term.
pub fn updated_message(t: &TermInfo) -> (r: String)
    ensures
        r@ == "Term updated: "@ + t.term@ + "\nID: "@ + t.term_id@ + "\nCategory: "@ + t.category@ + "\nStatus: "@
            + t.status@,
{
    let mut out = str_to_string("Term updated: ");
    push_str(&mut out, t.term.as_str());
    push_str(&mut out, "\nID: ");
    push_str(&mut out, t.term_id.as_str());
    push_str(&mut out, "\nCategory: ");
    push_str(&mut out, t.category.as_str());
    push_str(&mut out, "\nStatus: ");
    push_str(&mut out, t.status.as_str());
    out
}

/// Checks `reed taxonomy:delete <term_id> [--force]`; gives the term and
/// whether its children go too.
pub fn delete(args: &Vec<String>, flags: &StringMap) -> (r: ReedResult<(String, bool)>)
    requires
        flags.wf(),
    ensures
        args@.len() == 0 ==> (r matches Err(e) && is_validation_error(e, "term_id"@, Seq::empty(), "term_id required"@)),
        args@.len() > 0 ==> (r matches Ok((t, force)) && t@ == args@[0]@ && force == flags.lookup("force"@) is Some),
{
    let term_id = term_id_arg(args)?;
    Ok((term_id, flags.contains_key("force")))
}

/// The answer of `taxonomy:delete`.
pub fn deleted_message(term_id: &str, force: bool) -> (r: String)
    ensures
        r@ == if force { "Term and children deleted: "@ + term_id@ } else { "Term deleted: "@ + term_id@ },
{
    let mut out = if force { str_to_string("Term and children deleted: ") } else { str_to_string("Term deleted: ") };
    push_str(&mut out, term_id);
    out
}

/// An entity named `type:id`.
pub open spec fn entity_ref(s: Seq<char>) -> Option<(Seq<char>, Seq<char>)> {
    let parts = split_on(s, ':');
    if parts.len() == 2 { Some((parts[0], parts[1])) } else { None }
}

/// What parsing `type:id` gives: the type and id, or the error.
pub open spec fn entity_outcome(s: Seq<char>, r: ReedResult<(EntityType, String)>) -> bool {
    match entity_ref(s) {
        None => r matches Err(e) && is_validation_error(e, "entity"@, s, "must be <entity_type>:<entity_id>"@),
        Some((t, id)) => match entity_named(t) {
            None => r matches Err(e) && is_validation_error(e, "entity_type"@, t, entity_constraint()),
            Some(et) => r matches Ok((x, i)) && x == et && i@ == id,
        },
    }
}

/// Parses `<entity_type>:<entity_id>`.
pub fn parse_entity(s: &String) -> (r: ReedResult<(EntityType, String)>)
    ensures
        entity_outcome(s@, r),
{
    let parts = split_to_strings(s.as_str(), ':');
    if parts.len() != 2 {
        return Err(
            validation_error("entity", copy_string(s), str_to_string("must be <entity_type>:<entity_id>")),
        );
    }
    let t = EntityType::from_str(parts[0].as_str())?;
    Ok((t, copy_string(&parts[1])))
}

/// Terms to assign to one entity.
#[derive(Debug, Clone)]
pub struct Assignment {
    pub entity_type: EntityType,
    pub entity_id: String,
    pub term_ids: Vec<String>,
    pub assigned_by: String,
}

/// Checks `reed taxonomy:assign <type>:<id> <term_id>... [--assigned-by ..]`.
pub fn assign(args: &Vec<String>, flags: &StringMap) -> (r: ReedResult<Assignment>)
    requires
        flags.wf(),
    ensures
        args@.len() < 2 ==> (r matches Err(e) && is_validation_error(
            e,
            "args"@,
            Seq::empty(),
            "usage: taxonomy:assign <entity_type>:<entity_id> <term_id> [<term_id> ...]"@,
        )),
        args@.len() >= 2 ==> match entity_ref(args@[0]@) {
            None => r matches Err(e) && is_validation_error(e, "entity"@, args@[0]@, "must be <entity_type>:<entity_id>"@),
            Some((t, id)) => match entity_named(t) {
                None => r matches Err(e) && is_validation_error(e, "entity_type"@, t, entity_constraint()),
                Some(et) => r matches Ok(a) && a.entity_type == et && a.entity_id@ == id && strings_view(a.term_ids@)
                    == strings_view(args@).skip(1) && a.assigned_by@ == match flags.lookup("assigned-by"@) {
                    Some(b) => b,
                    None => "system"@,
                },
            },
        },
{
    if args.len() < 2 {
        return Err(
            validation_error(
                "args",
                String::new(),
                str_to_string("usage: taxonomy:assign <entity_type>:<entity_id> <term_id> [<term_id> ...]"),
            ),
        );
    }
    let (entity_type, entity_id) = parse_entity(&args[0])?;
    let term_ids = rest_of(args);
    let assigned_by = match flags.get("assigned-by") {
        Some(b) => copy_string(b),
        None => str_to_string("system"),
    };
    Ok(Assignment { entity_type, entity_id, term_ids, assigned_by })
}

fn rest_of(args: &Vec<String>) -> (r: Vec<String>)
    requires
        args@.len() >= 1,
    ensures
        strings_view(r@) == strings_view(args@).skip(1),
{
    let mut r: Vec<String> = Vec::new();
    let mut i: usize = 1;
    while i < args.len()
        invariant
            1 <= i <= args@.len(),
            strings_view(r@) == strings_view(args@).subrange(1, i as int),
        decreases args.len() - i,
    {
        let ghost before = r@;
        let s = copy_string(&args[i]);
        r.push(s);
        assert(strings_view(r@) =~= strings_view(before).push(s@));
        assert(strings_view(r@) =~= strings_view(args@).subrange(1, i + 1));
        i += 1;
    }
    assert(strings_view(args@).subrange(1, i as int) =~= strings_view(args@).skip(1));
    r
}

/// The answer of `taxonomy:assign`.
pub open spec fn assigned_text(a: Assignment) -> Seq<char> {
    "Assigned "@ + decimal(a.term_ids@.len()) + " term(s) to "@ + entity_text(a.entity_type) + ":"@
        + a.entity_id@ + "\nTerms: "@ + join_seqs(strings_view(a.term_ids@), ", "@)
}

pub fn assigned_message(a: &Assignment) -> (r: String)
    ensures
        r@ == assigned_text(*a),
{
    let mut out = str_to_string("Assigned ");
    push_usize(&mut out, a.term_ids.len());
    push_str(&mut out, " term(s) to ");
    push_str(&mut out, a.entity_type.as_str());
    push_str(&mut out, ":");
    push_str(&mut out, a.entity_id.as_str());
    push_str(&mut out, "\nTerms: ");
    let j = join_strings(&a.term_ids, ", ");
    push_str(&mut out, j.as_str());
    out
}

/// Terms to remove from one entity (`None`: all of them).
#[derive(Debug, Clone)]
pub struct Unassignment {
    pub entity_type: EntityType,
    pub entity_id: String,
    pub term_ids: Option<Vec<String>>,
}

/// Checks `reed taxonomy:unassign <type>:<id> [<term_id>...]`.
pub fn unassign(args: &Vec<String>) -> (r: ReedResult<Unassignment>)
    ensures
        args@.len() == 0 ==> (r matches Err(e) && is_validation_error(
            e,
            "args"@,
            Seq::empty(),
            "usage: taxonomy:unassign <entity_type>:<entity_id> [<term_id> ...]"@,
        )),
        args@.len() > 0 ==> match entity_ref(args@[0]@) {
            None => r matches Err(e) && is_validation_error(e, "entity"@, args@[0]@, "must be <entity_type>:<entity_id>"@),
            Some((t, id)) => match entity_named(t) {
                None => r matches Err(e) && is_validation_error(e, "entity_type"@, t, entity_constraint()),
                Some(et) => r matches Ok(u) && u.entity_type == et && u.entity_id@ == id && if args@.len() > 1 {
                    u.term_ids matches Some(v) && strings_view(v@) == strings_view(args@).skip(1)
                } else {
                    u.term_ids is None
                },
            },
        },
{
    if args.len() == 0 {
        return Err(
            validation_error(
                "args",
                String::new(),
                str_to_string("usage: taxonomy:unassign <entity_type>:<entity_id> [<term_id> ...]"),
            ),
        );
    }
    let (entity_type, entity_id) = parse_entity(&args[0])?;
    let term_ids = if args.len() > 1 { Some(rest_of(args)) } else { None };
    Ok(Unassignment { entity_type, entity_id, term_ids })
}

/// The answer of `taxonomy:unassign`.
pub open spec fn unassigned_text(u: Unassignment) -> Seq<char> {
    match u.term_ids {
        Some(v) => "Removed "@ + decimal(v@.len()) + " term(s) from "@ + entity_text(u.entity_type) + ":"@
            + u.entity_id@ + "\nTerms: "@ + join_seqs(strings_view(v@), ", "@),
        None => "Removed all terms from "@ + entity_text(u.entity_type) + ":"@ + u.entity_id@,
    }
}

pub fn unassigned_message(u: &Unassignment) -> (r: String)
    ensures
        r@ == unassigned_text(*u),
{
    match &u.term_ids {
        Some(v) => {
            let mut out = str_to_string("Removed ");
            push_usize(&mut out, v.len());
            push_str(&mut out, " term(s) from ");
            push_str(&mut out, u.entity_type.as_str());
            push_str(&mut out, ":");
            push_str(&mut out, u.entity_id.as_str());
            push_str(&mut out, "\nTerms: ");
            let j = join_strings(v, ", ");
            push_str(&mut out, j.as_str());
            out
        },
        None => {
            let mut out = str_to_string("Removed all terms from ");
            push_str(&mut out, u.entity_type.as_str());
            push_str(&mut out, ":");
            push_str(&mut out, u.entity_id.as_str());
            out
        },
    }
}

/// Checks `reed taxonomy:usage <term_id>`; gives the term to report on.
pub fn usage(args: &Vec<String>) -> (r: ReedResult<String>)
    ensures
        args@.len() == 0 ==> (r matches Err(e) && is_validation_error(e, "term_id"@, Seq::empty(), "term_id required"@)),
        args@.len() > 0 ==> (r matches Ok(t) && t@ == args@[0]@),
{
    term_id_arg(args)
}

/// The entity types of the entities, in order.
pub open spec fn entity_types(es: Seq<EntityTerms>) -> Seq<Seq<char>> {
    es.map_values(|e: EntityTerms| entity_text(e.entity_type))
}

/// How often `t` occurs in `s`.
pub open spec fn count_of(s: Seq<Seq<char>>, t: Seq<char>) -> nat
    decreases s.len(),
{
    if s.len() == 0 {
        0
    } else {
        count_of(s.drop_last(), t) + if s.last() == t { 1nat } else { 0nat }
    }
}

/// `"  type: count\n"` for each entity type, in order of first occurrence.
pub open spec fn breakdown_lines(kinds: Seq<Seq<char>>, all: Seq<Seq<char>>) -> Seq<char>
    decreases kinds.len(),
{
    if kinds.len() == 0 {
        Seq::empty()
    } else {
        breakdown_lines(kinds.drop_last(), all) + "  "@ + kinds.last() + ": "@ + decimal(
            count_of(all, kinds.last()),
        ) + "\n"@
    }
}

/// The answer of `taxonomy:usage` for a term and its entities.
pub open spec fn usage_text(t: TermInfo, es: Seq<EntityTerms>) -> Seq<char> {
    "Usage statistics for term '"@ + t.term@ + "' ("@ + t.term_id@ + ")\n\nTotal usage count: "@ + decimal(
        t.usage_count as nat,
    ) + "\nTotal entities: "@ + decimal(es.len()) + "\n\nBreakdown by entity type:\n"@ + breakdown_lines(
        distinct(entity_types(es)),
        entity_types(es),
    )
}

proof fn lemma_count_le(s: Seq<Seq<char>>, t: Seq<char>)
    ensures
        count_of(s, t) <= s.len(),
    decreases s.len(),
{
    if s.len() > 0 {
        lemma_count_le(s.drop_last(), t);
    }
}

fn count_in(all: &Vec<String>, t: &str) -> (n: usize)
    ensures
        n == count_of(strings_view(all@), t@),
{
    let ghost av = strings_view(all@);
    let mut n: usize = 0;
    let mut i: usize = 0;
    while i < all.len()
        invariant
            i <= all@.len(),
            av == strings_view(all@),
            n == count_of(av.take(i as int), t@),
            n <= i,
        decreases all.len() - i,
    {
        proof {
            assert(av.take(i + 1).drop_last() =~= av.take(i as int));
            assert(av.take(i + 1).last() == all@[i as int]@);
        }
        if str_eq(all[i].as_str(), t) {
            n = n + 1;
        }
        i += 1;
    }
    assert(av.take(i as int) =~= av);
    n
}

pub fn usage_report(term: &TermInfo, entities: &Vec<EntityTerms>) -> (r: String)
    ensures
        r@ == usage_text(*term, entities@),
{
    let mut out = str_to_string("Usage statistics for term '");
    push_str(&mut out, term.term.as_str());
    push_str(&mut out, "' (");
    push_str(&mut out, term.term_id.as_str());
    push_str(&mut out, ")\n\nTotal usage count: ");
    push_u64(&mut out, term.usage_count);
    push_str(&mut out, "\nTotal entities: ");
    push_usize(&mut out, entities.len());
    push_str(&mut out, "\n\nBreakdown by entity type:\n");
    let mut all: Vec<String> = Vec::new();
    let mut i: usize = 0;
    while i < entities.len()
        invariant
            i <= entities@.len(),
            strings_view(all@) == entity_types(entities@).take(i as int),
        decreases entities.len() - i,
    {
        let ghost before = all@;
        let s = str_to_string(entities[i].entity_type.as_str());
        all.push(s);
        assert(strings_view(all@) =~= strings_view(before).push(s@));
        assert(strings_view(all@) =~= entity_types(entities@).take(i + 1));
        i += 1;
    }
    assert(entity_types(entities@).take(i as int) =~= entity_types(entities@));
    let kinds = distinct_strings(&all);
    let ghost kv = strings_view(kinds@);
    let ghost head = out@;
    let mut j: usize = 0;
    while j < kinds.len()
        invariant
            j <= kinds@.len(),
            kv == strings_view(kinds@),
            strings_view(all@) == entity_types(entities@),
            out@ == head + breakdown_lines(kv.take(j as int), strings_view(all@)),
        decreases kinds.len() - j,
    {
        proof {
            assert(kv.take(j + 1).drop_last() =~= kv.take(j as int));
            assert(kv.take(j + 1).last() == kinds@[j as int]@);
        }
        let n = count_in(&all, kinds[j].as_str());
        push_str(&mut out, "  ");
        push_str(&mut out, kinds[j].as_str());
        push_str(&mut out, ": ");
        push_usize(&mut out, n);
        push_str(&mut out, "\n");
        assert(out@ =~= head + breakdown_lines(kv.take(j + 1), strings_view(all@)));
        j += 1;
    }
    assert(kv.take(j as int) =~= kv);
    out
}

/// A query for terms: filters and the output format.
#[derive(Debug, Clone)]
pub struct TermQuery {
    pub category: Option<String>,
    pub parent_id: Option<String>,
    pub status: Option<String>,
    pub format: String,
}

/// Reads `reed taxonomy:list [--category ..] [--parent ..] [--status ..]
/// [--format table|json|csv]`.
pub fn list(flags: &StringMap) -> (r: TermQuery)
    requires
        flags.wf(),
    ensures
        opt_str_view(r.category) == flags.lookup("category"@),
        opt_str_view(r.parent_id) == flags.lookup("parent"@),
        opt_str_view(r.status) == flags.lookup("status"@),
        r.format@ == match flags.lookup("format"@) {
            Some(f) => f,
            None => "table"@,
        },
{
    let format = match flags.get("format") {
        Some(f) => copy_string(f),
        None => str_to_string("table"),
    };
    TermQuery {
        category: optional_flag(flags, "category"),
        parent_id: optional_flag(flags, "parent"),
        status: optional_flag(flags, "status"),
        format,
    }
}

/// Checks `reed taxonomy:search <query> [--category ..] [--format ..]`;
/// gives the query text and the query.
pub fn search(args: &Vec<String>, flags: &StringMap) -> (r: ReedResult<(String, TermQuery)>)
    requires
        flags.wf(),
    ensures
        args@.len() == 0 ==> (r matches Err(e) && is_validation_error(e, "query"@, Seq::empty(), "search query required"@)),
        args@.len() > 0 ==> (r matches Ok((q, tq)) && q@ == args@[0]@ && opt_str_view(tq.category) == flags.lookup(
            "category"@,
        ) && tq.parent_id is None && tq.status is None && tq.format@ == match flags.lookup("format"@) {
            Some(f) => f,
            None => "table"@,
        }),
{
    if args.len() == 0 {
        return Err(validation_error("query", String::new(), str_to_string("search query required")));
    }
    let format = match flags.get("format") {
        Some(f) => copy_string(f),
        None => str_to_string("table"),
    };
    let tq = TermQuery { category: optional_flag(flags, "category"), parent_id: None, status: None, format };
    Ok((copy_string(&args[0]), tq))
}

/// Checks `reed taxonomy:entities <term_id> [--type ..] [--format ..]`;
/// gives the term, the entity type filter and the format.
pub fn entities(args: &Vec<String>, flags: &StringMap) -> (r: ReedResult<(String, Option<EntityType>, String)>)
    requires
        flags.wf(),
    ensures
        args@.len() == 0 ==> (r matches Err(e) && is_validation_error(e, "term_id"@, Seq::empty(), "term_id required"@)),
        args@.len() > 0 ==> match flags.lookup("type"@) {
            Some(t) => match entity_named(t) {
                None => r matches Err(e) && is_validation_error(e, "entity_type"@, t, entity_constraint()),
                Some(et) => r matches Ok((id, x, f)) && id@ == args@[0]@ && x == Some(et) && f@ == match flags.lookup(
                    "format"@,
                ) {
                    Some(f) => f,
                    None => "table"@,
                },
            },
            None => r matches Ok((id, x, f)) && id@ == args@[0]@ && x is None && f@ == match flags.lookup(
                "format"@,
            ) {
                Some(f) => f,
                None => "table"@,
            },
        },
{
    let term_id = term_id_arg(args)?;
    let entity_type = match flags.get("type") {
        Some(t) => Some(EntityType::from_str(t.as_str())?),
        None => None,
    };
    let format = match flags.get("format") {
        Some(f) => copy_string(f),
        None => str_to_string("table"),
    };
    Ok((term_id, entity_type, format))
}

// ---------------------------------------------------------------------------
// Listings
// ---------------------------------------------------------------------------

/// Where a too long text is cut: three bytes before the limit, so that
/// `...` fits.
pub open spec fn cut_point(max: nat) -> int {
    if max >= 3 { max - 3 } else { 0 }
}

/// A text that `truncate` can cut: it fits, or the cut falls between two
/// characters (a cut inside a character panics).
pub open spec fn cuttable(s: Seq<char>, max: nat) -> bool {
    byte_len(s) <= max || is_char_boundary(encode_utf8(s), cut_point(max))
}

/// The text as `truncate` shows it: unchanged when it fits in `max`
/// bytes, else its bytes up to the cut point and `...`.
pub open spec fn truncate_spec(s: Seq<char>, max: nat) -> Seq<char> {
    if byte_len(s) <= max {
        s
    } else {
        decode_utf8(encode_utf8(s).subrange(0, cut_point(max))) + "..."@
    }
}

/// Shortens a text to at most `max_len` bytes, marking the cut with `...`.
pub fn truncate(s: &str, max_len: usize) -> (r: String)
    requires
        cuttable(s@, max_len as nat),
    ensures
        r@ == truncate_spec(s@, max_len as nat),
{
    if s.len() <= max_len {
        return str_to_string(s);
    }
    let cut = if max_len >= 3 { max_len - 3 } else { 0 };
    let (head, _) = s.split_at(cut);
    proof {
        vstd::utf8::encode_utf8_decode_utf8(head@);
    }
    let mut r = str_to_string(head);
    push_str(&mut r, "...");
    r
}

pub open spec fn or_dash(o: Option<String>) -> Seq<char> {
    match o {
        Some(p) => p@,
        None => "-"@,
    }
}

pub open spec fn or_empty(o: Option<String>) -> Seq<char> {
    match o {
        Some(p) => p@,
        None => Seq::empty(),
    }
}

/// The texts of a term that its table row cuts can be cut.
pub open spec fn term_fits(t: TermInfo) -> bool {
    &&& cuttable(t.term_id@, 24)
    &&& cuttable(t.term@, 17)
    &&& cuttable(t.category@, 13)
    &&& cuttable(or_dash(t.parent_id), 14)
}

pub open spec fn terms_fit(ts: Seq<TermInfo>) -> bool {
    forall|i: int| 0 <= i < ts.len() ==> term_fits(#[trigger] ts[i])
}

/// The first three columns of a term's row.
pub open spec fn term_row_names(t: TermInfo) -> Seq<char> {
    pad_right(truncate_spec(t.term_id@, 24), 24) + " | "@ + pad_right(truncate_spec(t.term@, 17), 17) + " | "@
        + pad_right(truncate_spec(t.category@, 13), 13)
}

/// One row of the terms table.
pub open spec fn term_row(t: TermInfo) -> Seq<char> {
    term_row_names(t) + " | "@ + pad_right(truncate_spec(or_dash(t.parent_id), 14), 14) + " | "@ + pad_right(
        t.status@,
        8,
    ) + " | "@ + decimal(t.usage_count as nat) + "\n"@
}

pub open spec fn term_rows(ts: Seq<TermInfo>) -> Seq<char>
    decreases ts.len(),
{
    if ts.len() == 0 { Seq::empty() } else { term_rows(ts.drop_last()) + term_row(ts.last()) }
}

pub open spec fn terms_table_head() -> Seq<char> {
    "Term ID                  | Term              | Category      | Parent         | Status   | Usage\n"@
        + "-------------------------|-------------------|---------------|----------------|----------|------\n"@
}

/// The terms as a table, or `No terms found.`.
pub open spec fn terms_table_text(ts: Seq<TermInfo>) -> Seq<char> {
    if ts.len() == 0 { "No terms found."@ } else { terms_table_head() + term_rows(ts) }
}

fn push_truncated(out: &mut String, s: &str, max: usize)
    requires
        cuttable(s@, max as nat),
    ensures
        final(out)@ == old(out)@ + pad_right(truncate_spec(s@, max as nat), max as nat),
{
    let t = truncate(s, max);
    push_padded(out, t.as_str(), max);
}

fn push_term_names(out: &mut String, t: &TermInfo)
    requires
        term_fits(*t),
    ensures
        final(out)@ == old(out)@ + term_row_names(*t),
{
    let ghost start = out@;
    push_truncated(out, t.term_id.as_str(), 24);
    push_str(out, " | ");
    push_truncated(out, t.term.as_str(), 17);
    push_str(out, " | ");
    push_truncated(out, t.category.as_str(), 13);
    assert(out@ =~= start + term_row_names(*t));
}

#[verifier::spinoff_prover]
#[verifier::rlimit(40)]
fn push_term_row(out: &mut String, t: &TermInfo)
    requires
        term_fits(*t),
    ensures
        final(out)@ == old(out)@ + term_row(*t),
{
    let ghost start = out@;
    push_term_names(out, t);
    let ghost mid = out@;
    push_str(out, " | ");
    match &t.parent_id {
        Some(p) => push_truncated(out, p.as_str(), 14),
        None => push_truncated(out, "-", 14),
    }
    push_str(out, " | ");
    push_padded(out, t.status.as_str(), 8);
    push_str(out, " | ");
    push_u64(out, t.usage_count);
    push_str(out, "\n");
    assert(out@ =~= start + term_row(*t));
}

/// Formats terms as a table.
pub fn format_terms_table(terms: &Vec<TermInfo>) -> (r: String)
    requires
        terms_fit(terms@),
    ensures
        r@ == terms_table_text(terms@),
{
    if terms.len() == 0 {
        return str_to_string("No terms found.");
    }
    let mut out = str_to_string(
        "Term ID                  | Term              | Category      | Parent         | Status   | Usage\n",
    );
    push_str(&mut out, "-------------------------|-------------------|---------------|----------------|----------|------\n");
    let ghost head = out@;
    let mut i: usize = 0;
    while i < terms.len()
        invariant
            i <= terms@.len(),
            terms_fit(terms@),
            out@ == head + term_rows(terms@.take(i as int)),
        decreases terms.len() - i,
    {
        assert(terms@.take(i + 1).drop_last() =~= terms@.take(i as int));
        push_term_row(&mut out, &terms[i]);
        i += 1;
    }
    assert(terms@.take(i as int) =~= terms@);
    out
}

/// One CSV row of a term, with the parent (`list`) or the description
/// (`search`) in the fourth column.
pub open spec fn term_csv_row(t: TermInfo, with_description: bool) -> Seq<char> {
    t.term_id@ + ","@ + t.term@ + ","@ + t.category@ + ","@ + (if with_description {
        or_empty(t.description)
    } else {
        or_empty(t.parent_id)
    }) + ","@ + t.status@ + ","@ + decimal(t.usage_count as nat) + "\n"@
}

pub open spec fn term_csv_rows(ts: Seq<TermInfo>, with_description: bool) -> Seq<char>
    decreases ts.len(),
{
    if ts.len() == 0 {
        Seq::empty()
    } else {
        term_csv_rows(ts.drop_last(), with_description) + term_csv_row(ts.last(), with_description)
    }
}

pub open spec fn terms_csv_text(ts: Seq<TermInfo>, with_description: bool) -> Seq<char> {
    (if with_description {
        "term_id,term,category,description,status,usage_count\n"@
    } else {
        "term_id,term,category,parent_id,status,usage_count\n"@
    }) + term_csv_rows(ts, with_description)
}

/// Formats terms as CSV: the parent in the fourth column, or the
/// description for search results.
pub fn format_terms_csv(terms: &Vec<TermInfo>, with_description: bool) -> (r: String)
    ensures
        r@ == terms_csv_text(terms@, with_description),
{
    let mut out = if with_description {
        str_to_string("term_id,term,category,description,status,usage_count\n")
    } else {
        str_to_string("term_id,term,category,parent_id,status,usage_count\n")
    };
    let ghost head = out@;
    let mut i: usize = 0;
    while i < terms.len()
        invariant
            i <= terms@.len(),
            out@ == head + term_csv_rows(terms@.take(i as int), with_description),
        decreases terms.len() - i,
    {
        assert(terms@.take(i + 1).drop_last() =~= terms@.take(i as int));
        let t = &terms[i];
        let ghost before = out@;
        push_str(&mut out, t.term_id.as_str());
        push_str(&mut out, ",");
        push_str(&mut out, t.term.as_str());
        push_str(&mut out, ",");
        push_str(&mut out, t.category.as_str());
        push_str(&mut out, ",");
        let fourth = if with_description { &t.description } else { &t.parent_id };
        match fourth {
            Some(v) => push_str(&mut out, v.as_str()),
            None => {},
        }
        push_str(&mut out, ",");
        push_str(&mut out, t.status.as_str());
        push_str(&mut out, ",");
        push_u64(&mut out, t.usage_count);
        push_str(&mut out, "\n");
        assert(out@ =~= before + term_csv_row(*t, with_description));
        i += 1;
    }
    assert(terms@.take(i as int) =~= terms@);
    out
}

/// The answer of `taxonomy:list` for the terms found: CSV or a table;
/// `None` for `json`, which the caller serialises.
pub fn list_output(query: &TermQuery, terms: &Vec<TermInfo>) -> (r: Option<String>)
    requires
        terms_fit(terms@),
    ensures
        query.format@ == "json"@ ==> r is None,
        query.format@ == "csv"@ ==> (r matches Some(t) && t@ == terms_csv_text(terms@, false)),
        query.format@ != "json"@ && query.format@ != "csv"@ ==> (r matches Some(t) && t@ == terms_table_text(terms@)),
{
    proof {
        reveal_strlit("json");
        reveal_strlit("csv");
        assert("json"@[0] != "csv"@[0]);
    }
    if str_eq(query.format.as_str(), "json") {
        None
    } else if str_eq(query.format.as_str(), "csv") {
        Some(format_terms_csv(terms, false))
    } else {
        Some(format_terms_table(terms))
    }
}

/// The table answer of `taxonomy:search`.
pub open spec fn search_table_text(q: Seq<char>, ts: Seq<TermInfo>) -> Seq<char> {
    if ts.len() == 0 {
        "No terms found matching '"@ + q + "'"@
    } else {
        "Found "@ + decimal(ts.len()) + " term(s) matching '"@ + q + "':\n\n"@ + terms_table_text(ts)
    }
}

/// The answer of `taxonomy:search <q>` for the terms found: CSV or a
/// table; `None` for `json`, which the caller serialises.
pub fn search_output(q: &str, query: &TermQuery, terms: &Vec<TermInfo>) -> (r: Option<String>)
    requires
        terms_fit(terms@),
    ensures
        query.format@ == "json"@ ==> r is None,
        query.format@ == "csv"@ ==> (r matches Some(t) && t@ == terms_csv_text(terms@, true)),
        query.format@ != "json"@ && query.format@ != "csv"@ ==> (r matches Some(t) && t@ == search_table_text(
            q@,
            terms@,
        )),
{
    proof {
        reveal_strlit("json");
        reveal_strlit("csv");
        assert("json"@[0] != "csv"@[0]);
    }
    if str_eq(query.format.as_str(), "json") {
        return None;
    }
    if str_eq(query.format.as_str(), "csv") {
        return Some(format_terms_csv(terms, true));
    }
    if terms.len() == 0 {
        let mut out = str_to_string("No terms found matching '");
        push_str(&mut out, q);
        push_str(&mut out, "'");
        return Some(out);
    }
    let mut out = str_to_string("Found ");
    push_usize(&mut out, terms.len());
    push_str(&mut out, " term(s) matching '");
    push_str(&mut out, q);
    push_str(&mut out, "':\n\n");
    let table = format_terms_table(terms);
    push_str(&mut out, table.as_str());
    Some(out)
}

/// The texts of an entity that its table row cuts can be cut.
pub open spec fn entity_fits(e: EntityTerms) -> bool {
    &&& cuttable(e.entity_id@, 19)
    &&& cuttable(e.assigned_by@, 14)
    &&& cuttable(e.assigned_at@, 19)
}

pub open spec fn entities_fit(es: Seq<EntityTerms>) -> bool {
    forall|i: int| 0 <= i < es.len() ==> entity_fits(#[trigger] es[i])
}

/// One row of the entities table.
pub open spec fn entity_row(e: EntityTerms) -> Seq<char> {
    pad_right(entity_text(e.entity_type), 11) + " | "@ + pad_right(truncate_spec(e.entity_id@, 19), 19) + " | "@
        + pad_right(decimal(e.term_ids@.len()), 10) + " | "@ + pad_right(truncate_spec(e.assigned_by@, 14), 14)
        + " | "@ + truncate_spec(e.assigned_at@, 19) + "\n"@
}

pub open spec fn entity_rows(es: Seq<EntityTerms>) -> Seq<char>
    decreases es.len(),
{
    if es.len() == 0 { Seq::empty() } else { entity_rows(es.drop_last()) + entity_row(es.last()) }
}

/// The entities as a table, or `No entities found.`.
pub open spec fn entities_table_text(es: Seq<EntityTerms>) -> Seq<char> {
    if es.len() == 0 {
        "No entities found."@
    } else {
        "Entity Type | Entity ID           | Term Count | Assigned By    | Assigned At\n"@
            + "------------|---------------------|------------|----------------|--------------------\n"@
            + entity_rows(es)
    }
}

fn push_entity_row(out: &mut String, e: &EntityTerms)
    requires
        entity_fits(*e),
    ensures
        final(out)@ == old(out)@ + entity_row(*e),
{
    let ghost start = out@;
    push_padded(out, e.entity_type.as_str(), 11);
    push_str(out, " | ");
    push_truncated(out, e.entity_id.as_str(), 19);
    push_str(out, " | ");
    let count = crate::text::u64_to_string(e.term_ids.len() as u64);
    push_padded(out, count.as_str(), 10);
    push_str(out, " | ");
    push_truncated(out, e.assigned_by.as_str(), 14);
    push_str(out, " | ");
    let at = truncate(e.assigned_at.as_str(), 19);
    push_str(out, at.as_str());
    push_str(out, "\n");
    assert(out@ =~= start + entity_row(*e));
}

/// Formats entities as a table.
pub fn format_entities_table(entities: &Vec<EntityTerms>) -> (r: String)
    requires
        entities_fit(entities@),
    ensures
        r@ == entities_table_text(entities@),
{
    if entities.len() == 0 {
        return str_to_string("No entities found.");
    }
    let mut out = str_to_string("Entity Type | Entity ID           | Term Count | Assigned By    | Assigned At\n");
    push_str(&mut out, "------------|---------------------|------------|----------------|--------------------\n");
    let ghost head = out@;
    let mut i: usize = 0;
    while i < entities.len()
        invariant
            i <= entities@.len(),
            entities_fit(entities@),
            out@ == head + entity_rows(entities@.take(i as int)),
        decreases entities.len() - i,
    {
        assert(entities@.take(i + 1).drop_last() =~= entities@.take(i as int));
        push_entity_row(&mut out, &entities[i]);
        i += 1;
    }
    assert(entities@.take(i as int) =~= entities@);
    out
}

pub open spec fn entity_csv_row(e: EntityTerms) -> Seq<char> {
    entity_text(e.entity_type) + ","@ + e.entity_id@ + ","@ + decimal(e.term_ids@.len()) + ","@ + e.assigned_by@
        + ","@ + e.assigned_at@ + "\n"@
}

pub open spec fn entity_csv_rows(es: Seq<EntityTerms>) -> Seq<char>
    decreases es.len(),
{
    if es.len() == 0 { Seq::empty() } else { entity_csv_rows(es.drop_last()) + entity_csv_row(es.last()) }
}

/// Formats entities as CSV.
pub fn format_entities_csv(entities: &Vec<EntityTerms>) -> (r: String)
    ensures
        r@ == "entity_type,entity_id,term_count,assigned_by,assigned_at\n"@ + entity_csv_rows(entities@),
{
    let mut out = str_to_string("entity_type,entity_id,term_count,assigned_by,assigned_at\n");
    let ghost head = out@;
    let mut i: usize = 0;
    while i < entities.len()
        invariant
            i <= entities@.len(),
            out@ == head + entity_csv_rows(entities@.take(i as int)),
        decreases entities.len() - i,
    {
        assert(entities@.take(i + 1).drop_last() =~= entities@.take(i as int));
        let e = &entities[i];
        let ghost before = out@;
        push_str(&mut out, e.entity_type.as_str());
        push_str(&mut out, ",");
        push_str(&mut out, e.entity_id.as_str());
        push_str(&mut out, ",");
        push_usize(&mut out, e.term_ids.len());
        push_str(&mut out, ",");
        push_str(&mut out, e.assigned_by.as_str());
        push_str(&mut out, ",");
        push_str(&mut out, e.assigned_at.as_str());
        push_str(&mut out, "\n");
        assert(out@ =~= before + entity_csv_row(*e));
        i += 1;
    }
    assert(entities@.take(i as int) =~= entities@);
    out
}

/// The table answer of `taxonomy:entities`.
pub open spec fn entities_answer_text(term_id: Seq<char>, es: Seq<EntityTerms>) -> Seq<char> {
    if es.len() == 0 {
        "No entities found with term '"@ + term_id + "'"@
    } else {
        "Found "@ + decimal(es.len()) + " entit(ies) with term '"@ + term_id + "':\n\n"@ + entities_table_text(es)
    }
}

/// The answer of `taxonomy:entities <term_id>` for the entities found:
/// CSV or a table; `None` for `json`, which the caller serialises.
pub fn entities_output(term_id: &str, format: &str, entities: &Vec<EntityTerms>) -> (r: Option<String>)
    requires
        entities_fit(entities@),
    ensures
        format@ == "json"@ ==> r is None,
        format@ == "csv"@ ==> (r matches Some(t) && t@
            == "entity_type,entity_id,term_count,assigned_by,assigned_at\n"@ + entity_csv_rows(entities@)),
        format@ != "json"@ && format@ != "csv"@ ==> (r matches Some(t) && t@ == entities_answer_text(
            term_id@,
            entities@,
        )),
{
    proof {
        reveal_strlit("json");
        reveal_strlit("csv");
        assert("json"@[0] != "csv"@[0]);
    }
    if str_eq(format, "json") {
        return None;
    }
    if str_eq(format, "csv") {
        return Some(format_entities_csv(entities));
    }
    if entities.len() == 0 {
        let mut out = str_to_string("No entities found with term '");
        push_str(&mut out, term_id);
        push_str(&mut out, "'");
        return Some(out);
    }
    let mut out = str_to_string("Found ");
    push_usize(&mut out, entities.len());
    push_str(&mut out, " entit(ies) with term '");
    push_str(&mut out, term_id);
    push_str(&mut out, "':\n\n");
    let table = format_entities_table(entities);
    push_str(&mut out, table.as_str());
    Some(out)
}

} // verus!
