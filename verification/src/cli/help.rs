//! CLI help system: help and version texts.
use vstd::prelude::*;
use crate::build::version::VERSION;
use crate::cli::parser::strings_view;
use crate::cli::router::{builtin_of, create_router, lemma_find_route_absent, lemma_find_route_at, route_keys, BuiltinCommand};
use crate::reedstream::{current_timestamp, ReedResponse, ReedResult};
use crate::text::{copy_string, decimal, push_char, push_str, push_usize, str_eq, str_to_string};

verus! {

/// Command information for help generation.
#[derive(Debug, Clone)]
pub struct CommandInfo {
    pub namespace: String,
    pub action: String,
    pub description: String,
    pub usage: String,
    pub examples: Vec<String>,
    pub required_args: usize,
    pub required_flags: Vec<String>,
    pub optional_flags: Vec<String>,
}

/// Overview of all commands.
pub const GENERAL_HELP: &'static str = "ReedCMS Command-Line Interface

Usage: reed <command:action> [args] [flags]

Available Commands:

  data:
    data:get <key>                     Retrieve a value from ReedBase
    data:set <key> <value>             Store a value in ReedBase
    data:list [pattern]                List keys matching pattern
    data:delete <key>                  Delete a key from ReedBase

  layout:
    layout:create <name> <variant>     Create a new layout
    layout:list                        List all layouts
    layout:delete <name>               Delete a layout

  user:
    user:create <username>             Create a new user
    user:list                          List all users
    user:show <username>               Show user details
    user:update <username>             Update user information
    user:delete <username>             Delete a user
    user:passwd <username>             Change user password

  role:
    role:create <rolename>             Create a new role
    role:list                          List all roles
    role:show <rolename>               Show role details
    role:update <rolename>             Update role permissions
    role:delete <rolename>             Delete a role

  taxonomy:
    taxonomy:create <term>             Create a new taxonomy term
    taxonomy:list                      List all taxonomy terms
    taxonomy:assign <entity> <terms>   Assign terms to entity
    taxonomy:search <query>            Search taxonomy

  server:
    server:start                       Start the ReedCMS server
    server:stop                        Stop the server
    server:status                      Show server status

  build:
    build:kernel                       Build reed binary
    build:complete                     Complete build with assets
    build:watch                        Watch mode for development

  monitor:
    monitor:status                     Show system status
    monitor:logs                       Show system logs

Global Flags:
  --help, -h                           Show help information
  --version, -v                        Show version information
  --verbose                            Enable verbose output
  --json                               Output in JSON format
  --dry-run                            Show what would be done without doing it

Examples:
  reed data:get knowledge.title@en
  reed data:set knowledge.title@en \"Knowledge Base\"
  reed user:create admin --email admin@example.com
  reed server:start --port 8333

For command-specific help:
  reed <command:action> --help";

pub const DATA_GET_HELP: &'static str = "

Retrieve a value from ReedBase

Usage:
  reed data:get <key>

Arguments:
  <key>    The key to retrieve (e.g., knowledge.title@en)

Flags:
  --help   Show this help message

Examples:
  reed data:get knowledge.title@en
  reed data:get page-header.logo.url@de";

pub const DATA_SET_HELP: &'static str = "

Store a value in ReedBase

Usage:
  reed data:set <key> <value>

Arguments:
  <key>      The key to store
  <value>    The value to store

Flags:
  --help     Show this help message
  --desc     Optional description

Examples:
  reed data:set knowledge.title@en \"Knowledge Base\"
  reed data:set page-header.logo.url@de \"/assets/logo.svg\"";

pub const LAYOUT_CREATE_HELP: &'static str = "

Create a new layout

Usage:
  reed layout:create <name> <variant>

Arguments:
  <name>      Layout name
  <variant>   Variant (mouse, touch, or reader)

Flags:
  --help      Show this help message

Examples:
  reed layout:create homepage mouse
  reed layout:create blog touch";

pub const USER_CREATE_HELP: &'static str = "

Create a new user

Usage:
  reed user:create <username>

Arguments:
  <username>   Username for the new user

Flags:
  --help       Show this help message
  --email      User email address
  --role       User role (default: user)

Examples:
  reed user:create alice --email alice@example.com
  reed user:create admin --role admin";

pub const ROLE_CREATE_HELP: &'static str = "

Create a new role

Usage:
  reed role:create <rolename>

Arguments:
  <rolename>      Name of the role

Flags:
  --help          Show this help message
  --permissions   Comma-separated permissions
  --desc          Role description

Examples:
  reed role:create editor --permissions \"text[rwx],route[rw-]\"
  reed role:create viewer --permissions \"text[r--]\"";

pub const TAXONOMY_CREATE_HELP: &'static str = "

Create a new taxonomy term

Usage:
  reed taxonomy:create <term>

Arguments:
  <term>     Term name

Flags:
  --help     Show this help message
  --parent   Parent term ID
  --category Category name

Examples:
  reed taxonomy:create \"Rust\" --category Programming
  reed taxonomy:create \"Advanced\" --parent Programming:Rust";

pub const SERVER_START_HELP: &'static str = "

Start the ReedCMS server

Usage:
  reed server:start

Flags:
  --help     Show this help message
  --port     Server port (default: 8333)
  --host     Server host (default: 127.0.0.1)

Examples:
  reed server:start
  reed server:start --port 8080";

pub const NO_HELP: &'static str = "

No detailed help available for this command.

Use 'reed --help' to see all available commands.";

/// A help response: source `cli_help`, uncached, without metrics.
pub open spec fn is_help_response(r: ReedResponse<String>, text: Seq<char>) -> bool {
    &&& r.data@ == text
    &&& r.source@ == "cli_help"@
    &&& !r.cached
    &&& r.metrics is None
}

fn help_response(text: String) -> (r: ReedResponse<String>)
    ensures
        is_help_response(r, text@),
{
    ReedResponse {
        data: text,
        source: String::from_str("cli_help"),
        cached: false,
        timestamp: current_timestamp(),
        metrics: None,
    }
}

/// Prints general help overview.
pub fn print_general_help() -> (r: ReedResult<ReedResponse<String>>)
    ensures
        r matches Ok(resp) && is_help_response(resp, GENERAL_HELP@),
{
    Ok(help_response(str_to_string(GENERAL_HELP)))
}

/// The body of the help text for `namespace:action`.
pub open spec fn command_help_body(namespace: Seq<char>, action: Seq<char>) -> Seq<char> {
    if namespace == "data"@ && action == "get"@ {
        DATA_GET_HELP@
    } else if namespace == "data"@ && action == "set"@ {
        DATA_SET_HELP@
    } else if namespace == "layout"@ && action == "create"@ {
        LAYOUT_CREATE_HELP@
    } else if namespace == "user"@ && action == "create"@ {
        USER_CREATE_HELP@
    } else if namespace == "role"@ && action == "create"@ {
        ROLE_CREATE_HELP@
    } else if namespace == "taxonomy"@ && action == "create"@ {
        TAXONOMY_CREATE_HELP@
    } else if namespace == "server"@ && action == "start"@ {
        SERVER_START_HELP@
    } else {
        NO_HELP@
    }
}

fn command_help_body_exec(namespace: &str, action: &str) -> (r: &'static str)
    ensures
        r@ == command_help_body(namespace@, action@),
{
    if str_eq(namespace, "data") && str_eq(action, "get") {
        DATA_GET_HELP
    } else if str_eq(namespace, "data") && str_eq(action, "set") {
        DATA_SET_HELP
    } else if str_eq(namespace, "layout") && str_eq(action, "create") {
        LAYOUT_CREATE_HELP
    } else if str_eq(namespace, "user") && str_eq(action, "create") {
        USER_CREATE_HELP
    } else if str_eq(namespace, "role") && str_eq(action, "create") {
        ROLE_CREATE_HELP
    } else if str_eq(namespace, "taxonomy") && str_eq(action, "create") {
        TAXONOMY_CREATE_HELP
    } else if str_eq(namespace, "server") && str_eq(action, "start") {
        SERVER_START_HELP
    } else {
        NO_HELP
    }
}

/// The help text for `namespace:action`.
pub open spec fn command_help_text(namespace: Seq<char>, action: Seq<char>) -> Seq<char> {
    namespace + seq![':'] + action + command_help_body(namespace, action)
}

/// Prints command-specific help: `namespace:action` followed by the
/// command's description, or a note that none is available.
pub fn print_command_help(namespace: &str, action: &str) -> (r: ReedResult<ReedResponse<String>>)
    ensures
        r matches Ok(resp) && is_help_response(resp, command_help_text(namespace@, action@)),
{
    let mut text = str_to_string(namespace);
    push_char(&mut text, ':');
    push_str(&mut text, action);
    push_str(&mut text, command_help_body_exec(namespace, action));
    assert(text@ =~= command_help_text(namespace@, action@));
    Ok(help_response(text))
}

/// The version text.
pub open spec fn version_text() -> Seq<char> {
    "ReedCMS\nVersion: "@ + VERSION@ + "\nLicensed under the Apache License, Version 2.0"@
}

/// Prints version information.
pub fn print_version() -> (r: ReedResult<ReedResponse<String>>)
    ensures
        r matches Ok(resp) && is_help_response(resp, version_text()),
{
    let mut text = String::from_str("ReedCMS\nVersion: ");
    push_str(&mut text, VERSION);
    push_str(&mut text, "\nLicensed under the Apache License, Version 2.0");
    Ok(help_response(text))
}

/// ` <arg1> <arg2> ... <argN>`.
pub open spec fn usage_args(n: nat) -> Seq<char>
    decreases n,
{
    if n == 0 {
        Seq::empty()
    } else {
        usage_args((n - 1) as nat) + " <arg"@ + decimal(n) + seq!['>']
    }
}

/// ` --f1 <value> --f2 <value> ...`.
pub open spec fn usage_flags(flags: Seq<Seq<char>>) -> Seq<char>
    decreases flags.len(),
{
    if flags.len() == 0 {
        Seq::empty()
    } else {
        usage_flags(flags.drop_last()) + " --"@ + flags.last() + " <value>"@
    }
}

/// The usage line for a command.
pub open spec fn usage_text(
    namespace: Seq<char>,
    action: Seq<char>,
    required_args: nat,
    required_flags: Seq<Seq<char>>,
    has_optional: bool,
) -> Seq<char> {
    "reed "@ + namespace + seq![':'] + action + usage_args(required_args) + usage_flags(required_flags)
        + if has_optional {
        " [--flags]"@
    } else {
        Seq::empty()
    }
}

/// Generates the usage string from command info.
pub fn generate_usage(info: &CommandInfo) -> (r: String)
    ensures
        r@ == usage_text(
            info.namespace@,
            info.action@,
            info.required_args as nat,
            strings_view(info.required_flags@),
            info.optional_flags@.len() > 0,
        ),
{
    let mut usage = String::from_str("reed ");
    push_str(&mut usage, info.namespace.as_str());
    push_char(&mut usage, ':');
    push_str(&mut usage, info.action.as_str());
    let ghost head = usage@;
    let mut i: usize = 0;
    while i < info.required_args
        invariant
            i <= info.required_args,
            usage@ == head + usage_args(i as nat),
        decreases info.required_args - i,
    {
        push_str(&mut usage, " <arg");
        push_usize(&mut usage, i + 1);
        push_char(&mut usage, '>');
        assert(usage_args((i + 1) as nat) == usage_args(i as nat) + " <arg"@ + decimal((i + 1) as nat) + seq!['>']);
        assert(usage@ =~= head + usage_args((i + 1) as nat));
        i += 1;
    }
    let ghost head2 = usage@;
    let ghost fl = strings_view(info.required_flags@);
    let mut j: usize = 0;
    while j < info.required_flags.len()
        invariant
            j <= info.required_flags@.len(),
            fl == strings_view(info.required_flags@),
            usage@ == head2 + usage_flags(fl.take(j as int)),
        decreases info.required_flags.len() - j,
    {
        push_str(&mut usage, " --");
        push_str(&mut usage, info.required_flags[j].as_str());
        push_str(&mut usage, " <value>");
        assert(fl.take(j + 1).drop_last() =~= fl.take(j as int));
        assert(fl.take(j + 1).last() == info.required_flags@[j as int]@);
        assert(usage@ =~= head2 + usage_flags(fl.take(j + 1)));
        j += 1;
    }
    assert(fl.take(j as int) =~= fl);
    if info.optional_flags.len() > 0 {
        push_str(&mut usage, " [--flags]");
    }
    assert(usage@ =~= usage_text(
        info.namespace@,
        info.action@,
        info.required_args as nat,
        fl,
        info.optional_flags@.len() > 0,
    ));
    usage
}

/// What a registered command does.
pub open spec fn builtin_description(c: BuiltinCommand) -> Seq<char> {
    match c {
        BuiltinCommand::SetText => "Sets text content"@,
        BuiltinCommand::SetRoute => "Sets route mapping"@,
        BuiltinCommand::SetMeta => "Sets metadata"@,
        BuiltinCommand::GetText => "Gets text content"@,
        BuiltinCommand::GetRoute => "Gets route mapping"@,
        BuiltinCommand::GetMeta => "Gets metadata"@,
        BuiltinCommand::ListText => "Lists text keys matching pattern"@,
        BuiltinCommand::ListRoute => "Lists route keys matching pattern"@,
        BuiltinCommand::ListMeta => "Lists meta keys matching pattern"@,
        BuiltinCommand::InitLayout => "Creates new layout(s) with flag-based configuration"@,
        BuiltinCommand::UserCreate => "Creates new user with flag-based input"@,
        BuiltinCommand::UserList => "Lists users with optional filtering and formatting"@,
        BuiltinCommand::UserShow => "Shows detailed user information"@,
        BuiltinCommand::UserUpdate => "Updates user profile data"@,
        BuiltinCommand::UserDelete => "Deletes user with --force confirmation"@,
        BuiltinCommand::UserPasswd => "Changes user password"@,
        BuiltinCommand::UserRoles => "Manages user roles (show/add/remove/set)"@,
    }
}

/// The positional arguments a registered command requires.
pub open spec fn builtin_required_args(c: BuiltinCommand) -> nat {
    match c {
        BuiltinCommand::SetText | BuiltinCommand::SetRoute | BuiltinCommand::SetMeta => 2,
        BuiltinCommand::ListText | BuiltinCommand::ListRoute | BuiltinCommand::ListMeta
        | BuiltinCommand::UserList => 0,
        _ => 1,
    }
}

fn describe_builtin(c: BuiltinCommand) -> (r: (&'static str, usize))
    ensures
        r.0@ == builtin_description(c),
        r.0@.len() > 0,
        r.1 == builtin_required_args(c),
{
    match c {
        BuiltinCommand::SetText => {
            proof { reveal_strlit("Sets text content"); }
            ("Sets text content", 2)
        },
        BuiltinCommand::SetRoute => {
            proof { reveal_strlit("Sets route mapping"); }
            ("Sets route mapping", 2)
        },
        BuiltinCommand::SetMeta => {
            proof { reveal_strlit("Sets metadata"); }
            ("Sets metadata", 2)
        },
        BuiltinCommand::GetText => {
            proof { reveal_strlit("Gets text content"); }
            ("Gets text content", 1)
        },
        BuiltinCommand::GetRoute => {
            proof { reveal_strlit("Gets route mapping"); }
            ("Gets route mapping", 1)
        },
        BuiltinCommand::GetMeta => {
            proof { reveal_strlit("Gets metadata"); }
            ("Gets metadata", 1)
        },
        BuiltinCommand::ListText => {
            proof { reveal_strlit("Lists text keys matching pattern"); }
            ("Lists text keys matching pattern", 0)
        },
        BuiltinCommand::ListRoute => {
            proof { reveal_strlit("Lists route keys matching pattern"); }
            ("Lists route keys matching pattern", 0)
        },
        BuiltinCommand::ListMeta => {
            proof { reveal_strlit("Lists meta keys matching pattern"); }
            ("Lists meta keys matching pattern", 0)
        },
        BuiltinCommand::InitLayout => {
            proof { reveal_strlit("Creates new layout(s) with flag-based configuration"); }
            ("Creates new layout(s) with flag-based configuration", 1)
        },
        BuiltinCommand::UserCreate => {
            proof { reveal_strlit("Creates new user with flag-based input"); }
            ("Creates new user with flag-based input", 1)
        },
        BuiltinCommand::UserList => {
            proof { reveal_strlit("Lists users with optional filtering and formatting"); }
            ("Lists users with optional filtering and formatting", 0)
        },
        BuiltinCommand::UserShow => {
            proof { reveal_strlit("Shows detailed user information"); }
            ("Shows detailed user information", 1)
        },
        BuiltinCommand::UserUpdate => {
            proof { reveal_strlit("Updates user profile data"); }
            ("Updates user profile data", 1)
        },
        BuiltinCommand::UserDelete => {
            proof { reveal_strlit("Deletes user with --force confirmation"); }
            ("Deletes user with --force confirmation", 1)
        },
        BuiltinCommand::UserPasswd => {
            proof { reveal_strlit("Changes user password"); }
            ("Changes user password", 1)
        },
        BuiltinCommand::UserRoles => {
            proof { reveal_strlit("Manages user roles (show/add/remove/set)"); }
            ("Manages user roles (show/add/remove/set)", 1)
        },
    }
}

/// The entry of the listing for `namespace:action`, registered as `c`.
pub open spec fn is_listing_entry(info: CommandInfo, c: BuiltinCommand) -> bool {
    &&& info.description@ == builtin_description(c)
    &&& info.description@.len() > 0
    &&& info.required_args == builtin_required_args(c)
    &&& info.usage@ == usage_text(info.namespace@, info.action@, builtin_required_args(c), Seq::empty(), false)
    &&& info.examples@.len() == 0
    &&& info.required_flags@.len() == 0
    &&& info.optional_flags@.len() == 0
}

/// Lists all commands with descriptions: one entry for every command that
/// the router registers (see `create_router`), in registration order.
pub fn list_commands() -> (r: Vec<CommandInfo>)
    ensures
        forall|i: int| 0 <= i < r@.len() ==> (builtin_of(#[trigger] r@[i].namespace@, r@[i].action@) matches Some(c)
            && is_listing_entry(r@[i], c)),
        forall|n: Seq<char>, a: Seq<char>| #[trigger] builtin_of(n, a) is Some ==> exists|i: int|
            0 <= i < r@.len() && r@[i].namespace@ == n && r@[i].action@ == a,
        forall|i: int, j: int| 0 <= i < j < r@.len() ==> (r@[i].namespace@, r@[i].action@) != (
            r@[j].namespace@,
            r@[j].action@,
        ),
{
    let router = create_router();
    let keys = router.list_commands();
    let ghost routes = router.routes();
    let ghost kv = keys@.map_values(|p: (String, String)| (p.0@, p.1@));
    assert(kv == route_keys(routes));
    assert(kv.len() == keys@.len() && route_keys(routes).len() == routes.len());
    let mut r: Vec<CommandInfo> = Vec::new();
    let mut i: usize = 0;
    while i < keys.len()
        invariant
            i <= keys@.len(),
            router.wf(),
            routes == router.routes(),
            kv == keys@.map_values(|p: (String, String)| (p.0@, p.1@)),
            kv == route_keys(routes),
            routes.len() == keys@.len(),
            forall|n: Seq<char>, a: Seq<char>| #[trigger] router.lookup(n, a) == builtin_of(n, a),
            r@.len() == i,
            forall|x: int| 0 <= x < i ==> (#[trigger] r@[x].namespace@, r@[x].action@) == kv[x],
            forall|x: int| 0 <= x < i ==> (builtin_of(#[trigger] r@[x].namespace@, r@[x].action@) matches Some(c)
                && is_listing_entry(r@[x], c)),
        decreases keys.len() - i,
    {
        let ns = copy_string(&keys[i].0);
        let ac = copy_string(&keys[i].1);
        proof {
            assert(kv[i as int] == (keys@[i as int].0@, keys@[i as int].1@));
            assert(kv[i as int] == (routes[i as int].0@, routes[i as int].1@));
            lemma_find_route_at(routes, i as int);
        }
        let c = match router.handler(ns.as_str(), ac.as_str()) {
            Some(h) => *h,
            None => {
                assert(false);
                BuiltinCommand::SetText
            },
        };
        let (description, required_args) = describe_builtin(c);
        let mut info = CommandInfo {
            namespace: ns,
            action: ac,
            description: str_to_string(description),
            usage: String::new(),
            examples: Vec::new(),
            required_args,
            required_flags: Vec::new(),
            optional_flags: Vec::new(),
        };
        let usage = generate_usage(&info);
        proof {
            assert(strings_view(info.required_flags@) =~= Seq::<Seq<char>>::empty());
        }
        info.usage = usage;
        r.push(info);
        i += 1;
    }
    proof {
        assert forall|n: Seq<char>, a: Seq<char>| #[trigger] builtin_of(n, a) is Some implies exists|x: int|
            0 <= x < r@.len() && r@[x].namespace@ == n && r@[x].action@ == a by {
            if forall|x: int| 0 <= x < routes.len() ==> (routes[x].0@, routes[x].1@) != (n, a) {
                lemma_find_route_absent(routes, n, a);
                assert(router.lookup(n, a) is None);
            }
            let x = choose|x: int| 0 <= x < routes.len() && !((routes[x].0@, routes[x].1@) != (n, a));
            assert(kv[x] == (routes[x].0@, routes[x].1@));
            assert(r@[x].namespace@ == n && r@[x].action@ == a);
        }
        assert forall|x: int, y: int| 0 <= x < y < r@.len() implies (r@[x].namespace@, r@[x].action@) != (
            r@[y].namespace@,
            r@[y].action@,
        ) by {
            assert((r@[x].namespace@, r@[x].action@) == kv[x]);
            assert((r@[y].namespace@, r@[y].action@) == kv[y]);
            assert(kv[x] == (routes[x].0@, routes[x].1@));
            assert(kv[y] == (routes[y].0@, routes[y].1@));
        }
    }
    r
}

} // verus!
