//! CLI layer: parsing, routing, help and command handlers.
pub mod parser;
pub mod help;
pub mod router;
pub mod validation_commands;
pub mod config_commands;
pub mod layout_commands;
pub mod data_commands;
pub mod checks;
pub mod user_commands;
pub mod role_commands;
pub mod taxonomy_commands;
pub mod agent_commands;
pub mod debug_commands;
pub mod build_commands;
pub mod server_commands;
pub mod migration_commands;
pub mod backup_commands;

use vstd::prelude::*;
use crate::cli::help::{command_help_text, print_general_help, print_version, version_text, GENERAL_HELP};
use crate::cli::parser::{parse_command, parse_command_spec, strings_view, Command};
use crate::cli::router::{builtin_of, create_router, unknown_command_error, wants_help, BuiltinCommand, Dispatch, Router};
use crate::string_map::find_key;
use crate::reedstream::{ErrorView, ReedResult};
use crate::text::str_eq;

verus! {

/// The next step of a CLI run: text to print, or a command to execute.
pub enum Step {
    Output(String),
    Execute(BuiltinCommand, Command),
}

/// The first argument asks for general help.
pub open spec fn asks_help(args: Seq<Seq<char>>) -> bool {
    args.len() == 0 || args[0] == "--help"@ || args[0] == "-h"@
}

/// The first argument asks for the version.
pub open spec fn asks_version(args: Seq<Seq<char>>) -> bool {
    args.len() > 0 && (args[0] == "--version"@ || args[0] == "-v"@)
}

/// The parsed flags ask for help (`--help` or `-h`).
pub open spec fn parsed_wants_help(o: Seq<(Seq<char>, Seq<char>)>) -> bool {
    find_key(o, "help"@) == Some("true"@) || find_key(o, "h"@) == Some("true"@)
}

/// `cmd` is the command that parsing gave as namespace, action,
/// positional arguments and flag assignments.
pub open spec fn is_parsed_command(
    cmd: Command,
    ns: Seq<char>,
    action: Seq<char>,
    p: Seq<Seq<char>>,
    o: Seq<(Seq<char>, Seq<char>)>,
) -> bool {
    &&& cmd.namespace@ == ns
    &&& cmd.action@ == action
    &&& strings_view(cmd.args@) == p
    &&& cmd.flags.wf()
    &&& forall|k: Seq<char>| #[trigger] cmd.flags.lookup(k) == find_key(o, k)
}

/// Running a command line is parsing it and routing the parsed command:
/// for the command that parsing gives and any router that registers what
/// `create_router` registers, the router's dispatch answers with help
/// exactly when `run` does, and finds the handler that `run` executes.
pub proof fn lemma_run_is_parse_then_route(
    args: Seq<Seq<char>>,
    cmd: Command,
    router: Router<BuiltinCommand>,
)
    requires
        parse_command_spec(args) matches Ok((ns, action, p, o)) && is_parsed_command(cmd, ns, action, p, o),
        router.wf(),
        forall|n: Seq<char>, a: Seq<char>| #[trigger] router.lookup(n, a) == builtin_of(n, a),
    ensures
        parse_command_spec(args) matches Ok((ns, action, _p, o)) && {
            &&& wants_help(cmd) == parsed_wants_help(o)
            &&& router.lookup(cmd.namespace@, cmd.action@) == builtin_of(ns, action)
        },
{
    match parse_command_spec(args) {
        Ok((ns, action, p, o)) => {
            assert(cmd.flags.lookup("help"@) == find_key(o, "help"@));
            assert(cmd.flags.lookup("h"@) == find_key(o, "h"@));
            assert(router.lookup(cmd.namespace@, cmd.action@) == builtin_of(cmd.namespace@, cmd.action@));
        },
        Err(_) => {},
    }
}

/// Main CLI entry point: decides what the arguments (without the program
/// name) ask for. No argument, `--help` or `-h` prints the general help;
/// `--version` or `-v` the version; otherwise the parsed command's help
/// when it has `--help`/`-h`, else the command to execute, else the
/// parse or unknown-command error.
pub fn run(args: Vec<String>) -> (r: ReedResult<Step>)
    ensures
        asks_help(strings_view(args@)) ==> (r matches Ok(Step::Output(t)) && t@ == GENERAL_HELP@),
        !asks_help(strings_view(args@)) && asks_version(strings_view(args@)) ==> (r matches Ok(Step::Output(t))
            && t@ == version_text()),
        !asks_help(strings_view(args@)) && !asks_version(strings_view(args@)) ==> match parse_command_spec(
            strings_view(args@),
        ) {
            Err(ev) => r matches Err(e) && e@ == ev,
            Ok((ns, action, p, o)) => if parsed_wants_help(o) {
                r matches Ok(Step::Output(t)) && t@ == command_help_text(ns, action)
            } else {
                match builtin_of(ns, action) {
                    Some(c) => r matches Ok(Step::Execute(c2, cmd)) && c2 == c && is_parsed_command(
                        cmd,
                        ns,
                        action,
                        p,
                        o,
                    ),
                    None => r matches Err(e) && e@ == unknown_command_error(ns, action),
                }
            },
        },
{
    if args.len() == 0 || str_eq(args[0].as_str(), "--help") || str_eq(args[0].as_str(), "-h") {
        proof {
            if args@.len() > 0 {
                assert(strings_view(args@)[0] == args@[0]@);
            }
        }
        let resp = match print_general_help() {
            Ok(r) => r,
            Err(e) => return Err(e),
        };
        return Ok(Step::Output(resp.data));
    }
    assert(strings_view(args@)[0] == args@[0]@);
    if str_eq(args[0].as_str(), "--version") || str_eq(args[0].as_str(), "-v") {
        let resp = match print_version() {
            Ok(r) => r,
            Err(e) => return Err(e),
        };
        return Ok(Step::Output(resp.data));
    }
    let ghost argv = strings_view(args@);
    let cmd = parse_command(args)?;
    let router = create_router();
    proof {
        lemma_run_is_parse_then_route(argv, cmd, router);
    }
    let found = match router.dispatch(&cmd) {
        Ok(Dispatch::Help(resp)) => {
            return Ok(Step::Output(resp.data));
        },
        Ok(Dispatch::Run(c)) => *c,
        Err(e) => {
            return Err(e);
        },
    };
    Ok(Step::Execute(found, cmd))
}

} // verus!
