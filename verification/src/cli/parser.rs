//! CLI command parser for colon notation.
//!
//! Parses `reed command:action [args] [--flags]` into a structured Command.
use vstd::prelude::*;
use crate::reedstream::{ErrorView, ReedError, ReedResult};
use crate::string_map::{find_key, has_key, lemma_find_key_push, StringMap};
use crate::text::{
    char_is_alphanumeric, chars_to_string, decimal, is_ascii_char, piece_end, push_str,
    push_usize, split_on, split_starts, str_contains_char, str_eq, str_to_string, to_chars,
    trim, trim_bounds, unicode_alphanumeric,
};

verus! {

/// Parsed command structure.
#[derive(Debug, Clone, PartialEq)]
pub struct Command {
    /// Command namespace (e.g. "set", "get", "user").
    pub namespace: String,
    /// Command action (e.g. "text", "create", "list").
    pub action: String,
    /// Positional arguments after the command.
    pub args: Vec<String>,
    /// Named flags (`--flag value`, or `--flag` for a boolean flag).
    pub flags: StringMap,
}

/// The views of a list of strings.
pub open spec fn strings_view(v: Seq<String>) -> Seq<Seq<char>> {
    v.map_values(|s: String| s@)
}

/// Flags that take no value.
pub open spec fn boolean_flags() -> Seq<Seq<char>> {
    seq![
        "help"@, "h"@, "verbose"@, "v"@, "dry-run"@, "confirm"@, "recursive"@, "minify"@,
        "follow"@, "fuzzy"@, "show-permissions"@, "tree"@, "json"@, "force"@, "quiet"@, "watch"@,
    ]
}

/// A character allowed in a namespace or action.
pub open spec fn is_ident_char(c: char) -> bool {
    unicode_alphanumeric(c) || c == '_' || c == '-'
}

pub open spec fn valid_identifier(s: Seq<char>) -> bool {
    forall|i: int| 0 <= i < s.len() ==> is_ident_char(#[trigger] s[i])
}

/// The outcome of parsing `namespace:action`.
pub open spec fn command_format_spec(cmd: Seq<char>) -> Result<(Seq<char>, Seq<char>), ErrorView> {
    let parts = split_on(cmd, ':');
    if !cmd.contains(':') {
        Err(
            ErrorView::InvalidCommand {
                command: cmd,
                reason: "Command must be in format 'namespace:action' (e.g., 'set:text')"@,
            },
        )
    } else if parts.len() != 2 {
        Err(
            ErrorView::InvalidCommand {
                command: cmd,
                reason: "Command must contain exactly one colon, found "@ + decimal(
                    (parts.len() - 1) as nat,
                ),
            },
        )
    } else if trim(parts[0]).len() == 0 {
        Err(ErrorView::InvalidCommand { command: cmd, reason: "Namespace cannot be empty"@ })
    } else if trim(parts[1]).len() == 0 {
        Err(ErrorView::InvalidCommand { command: cmd, reason: "Action cannot be empty"@ })
    } else if !valid_identifier(trim(parts[0])) {
        Err(
            ErrorView::ValidationError {
                field: "namespace"@,
                value: trim(parts[0]),
                constraint: "alphanumeric characters, underscore, or hyphen only"@,
            },
        )
    } else if !valid_identifier(trim(parts[1])) {
        Err(
            ErrorView::ValidationError {
                field: "action"@,
                value: trim(parts[1]),
                constraint: "alphanumeric characters, underscore, or hyphen only"@,
            },
        )
    } else {
        Ok((trim(parts[0]), trim(parts[1])))
    }
}

/// Positional arguments and flag assignments, in order.
pub type ParsedArgs = (Seq<Seq<char>>, Seq<(Seq<char>, Seq<char>)>);

pub open spec fn with_flag(
    name: Seq<char>,
    value: Seq<char>,
    rest: Result<ParsedArgs, ErrorView>,
) -> Result<ParsedArgs, ErrorView> {
    match rest {
        Ok((p, o)) => Ok((p, seq![(name, value)] + o)),
        Err(e) => Err(e),
    }
}

pub open spec fn with_positional(arg: Seq<char>, rest: Result<ParsedArgs, ErrorView>) -> Result<
    ParsedArgs,
    ErrorView,
> {
    match rest {
        Ok((p, o)) => Ok((seq![arg] + p, o)),
        Err(e) => Err(e),
    }
}

/// A one-byte short flag such as `-h`.
pub open spec fn is_short_flag(arg: Seq<char>) -> bool {
    arg.len() == 2 && arg[0] == '-' && is_ascii_char(arg[1])
}

pub open spec fn is_long_flag(arg: Seq<char>) -> bool {
    arg.len() >= 2 && arg[0] == '-' && arg[1] == '-'
}

/// The outcome of parsing `args[i..]` into positional arguments and flags.
pub open spec fn parse_args_spec(args: Seq<Seq<char>>, i: int) -> Result<ParsedArgs, ErrorView>
    decreases args.len() - i,
{
    if i < 0 || i >= args.len() {
        Ok((Seq::empty(), Seq::empty()))
    } else {
        let arg = args[i];
        if is_long_flag(arg) {
            let name = arg.subrange(2, arg.len() as int);
            if name.len() == 0 {
                Err(
                    ErrorView::ParseError {
                        input: arg,
                        reason: "Flag name cannot be empty after '--'"@,
                    },
                )
            } else if boolean_flags().contains(name) {
                with_flag(name, "true"@, parse_args_spec(args, i + 1))
            } else if i + 1 >= args.len() {
                Err(
                    ErrorView::InvalidCommand {
                        command: arg,
                        reason: "Flag '--"@ + name + "' requires a value"@,
                    },
                )
            } else if args[i + 1].len() > 0 && args[i + 1][0] == '-' {
                Err(
                    ErrorView::InvalidCommand {
                        command: arg,
                        reason: "Flag '--"@ + name + "' requires a value, got another flag instead"@,
                    },
                )
            } else {
                with_flag(name, args[i + 1], parse_args_spec(args, i + 2))
            }
        } else if is_short_flag(arg) {
            with_flag(arg.subrange(1, 2), "true"@, parse_args_spec(args, i + 1))
        } else {
            with_positional(arg, parse_args_spec(args, i + 1))
        }
    }
}

/// The outcome of parsing a whole command line.
pub open spec fn parse_command_spec(args: Seq<Seq<char>>) -> Result<
    (Seq<char>, Seq<char>, Seq<Seq<char>>, Seq<(Seq<char>, Seq<char>)>),
    ErrorView,
> {
    if args.len() == 0 {
        Err(ErrorView::InvalidCommand { command: Seq::empty(), reason: "No command provided"@ })
    } else {
        match command_format_spec(args[0]) {
            Err(e) => Err(e),
            Ok((ns, action)) => match parse_args_spec(args, 1) {
                Err(e) => Err(e),
                Ok((p, o)) => Ok((ns, action, p, o)),
            },
        }
    }
}

/// Every entry for `k` holds the value `v`.
pub open spec fn entries_agree(o: Seq<(Seq<char>, Seq<char>)>, k: Seq<char>, v: Seq<char>) -> bool {
    forall|m: int| 0 <= m < o.len() && o[m].0 == k ==> o[m].1 == v
}

proof fn lemma_find_key_agree(o: Seq<(Seq<char>, Seq<char>)>, k: Seq<char>, v: Seq<char>, m: int)
    requires
        0 <= m < o.len(),
        o[m].0 == k,
        entries_agree(o, k, v),
    ensures
        find_key(o, k) == Some(v),
    decreases o.len(),
{
    if o.last().0 != k {
        assert(m != o.len() - 1);
        lemma_find_key_agree(o.drop_last(), k, v, m);
    }
}

/// A boolean flag only ever gets the value `true`.
proof fn lemma_boolean_values(args: Seq<Seq<char>>, i: int, f: Seq<char>)
    requires
        boolean_flags().contains(f),
        parse_args_spec(args, i) is Ok,
    ensures
        parse_args_spec(args, i) matches Ok((_p, o)) && entries_agree(o, f, "true"@),
    decreases args.len() - i,
{
    if 0 <= i < args.len() {
        let arg = args[i];
        if is_long_flag(arg) {
            let name = arg.subrange(2, arg.len() as int);
            if boolean_flags().contains(name) {
                lemma_boolean_values(args, i + 1, f);
            } else {
                assert(name != f);
                lemma_boolean_values(args, i + 2, f);
            }
        } else if is_short_flag(arg) {
            lemma_boolean_values(args, i + 1, f);
        } else {
            lemma_boolean_values(args, i + 1, f);
        }
    }
}

/// A boolean `--f` at position `j` from `i` on leaves an entry for `f`.
proof fn lemma_boolean_present(args: Seq<Seq<char>>, i: int, j: int, f: Seq<char>)
    requires
        0 <= i <= j < args.len(),
        args[j] == "--"@ + f,
        boolean_flags().contains(f),
        parse_args_spec(args, i) is Ok,
    ensures
        parse_args_spec(args, i) matches Ok((_p, o)) && has_key(o, f),
    decreases j - i,
{
    reveal_strlit("--");
    assert(args[j].len() == f.len() + 2 && args[j][0] == '-' && args[j][1] == '-');
    let arg = args[i];
    if i == j {
        assert(arg.subrange(2, arg.len() as int) =~= f);
        assert(is_long_flag(arg));
        assert(parse_args_spec(args, i) == with_flag(f, "true"@, parse_args_spec(args, i + 1)));
        match parse_args_spec(args, i + 1) {
            Ok((p, o)) => {
                let whole = seq![(f, "true"@)] + o;
                assert(parse_args_spec(args, i) == Ok::<ParsedArgs, ErrorView>((p, whole)));
                assert(whole[0].0 == f);
                assert(has_key(whole, f));
            },
            Err(_) => {},
        }
    } else if is_long_flag(arg) {
        let name = arg.subrange(2, arg.len() as int);
        if boolean_flags().contains(name) {
            assert(parse_args_spec(args, i) == with_flag(name, "true"@, parse_args_spec(args, i + 1)));
            lemma_boolean_present(args, i + 1, j, f);
            match parse_args_spec(args, i + 1) {
                Ok((p, o)) => {
                    let m = choose|m: int| 0 <= m < o.len() && o[m].0 == f;
                    assert(o[m].0 == f);
                    let whole = seq![(name, "true"@)] + o;
                    assert(parse_args_spec(args, i) == Ok::<ParsedArgs, ErrorView>((p, whole)));
                    assert(whole[m + 1].0 == f);
                    assert(has_key(whole, f));
                },
                Err(_) => {},
            }
        } else {
            assert(i + 1 != j) by {
                if i + 1 == j {
                    assert(args[j][0] == '-');
                }
            }
            assert(parse_args_spec(args, i) == with_flag(name, args[i + 1], parse_args_spec(args, i + 2)));
            lemma_boolean_present(args, i + 2, j, f);
            match parse_args_spec(args, i + 2) {
                Ok((p, o)) => {
                    let m = choose|m: int| 0 <= m < o.len() && o[m].0 == f;
                    assert(o[m].0 == f);
                    let whole = seq![(name, args[i + 1])] + o;
                    assert(parse_args_spec(args, i) == Ok::<ParsedArgs, ErrorView>((p, whole)));
                    assert(whole[m + 1].0 == f);
                    assert(has_key(whole, f));
                },
                Err(_) => {},
            }
        }
    } else if is_short_flag(arg) {
        assert(parse_args_spec(args, i) == with_flag(arg.subrange(1, 2), "true"@, parse_args_spec(args, i + 1)));
        lemma_boolean_present(args, i + 1, j, f);
        match parse_args_spec(args, i + 1) {
            Ok((p, o)) => {
                let m = choose|m: int| 0 <= m < o.len() && o[m].0 == f;
                assert(o[m].0 == f);
                let whole = seq![(arg.subrange(1, 2), "true"@)] + o;
                assert(parse_args_spec(args, i) == Ok::<ParsedArgs, ErrorView>((p, whole)));
                assert(whole[m + 1].0 == f);
                assert(has_key(whole, f));
            },
            Err(_) => {},
        }
    } else {
        assert(parse_args_spec(args, i) == with_positional(arg, parse_args_spec(args, i + 1)));
        lemma_boolean_present(args, i + 1, j, f);
    }
}

/// Boolean flags read as true: on a command line that parses, every
/// `--f` of a boolean flag `f` (such as `--force` or `--dry-run`) makes the
/// parsed flags map `f` to `"true"`, so that `Command::get_flag_bool(f)`
/// holds of the command that `parse_command` gives.
pub proof fn lemma_boolean_flags_read_true(args: Seq<Seq<char>>, j: int, f: Seq<char>)
    requires
        parse_command_spec(args) is Ok,
        1 <= j < args.len(),
        args[j] == "--"@ + f,
        boolean_flags().contains(f),
    ensures
        parse_command_spec(args) matches Ok((_ns, _a, _p, o)) && find_key(o, f) == Some("true"@),
{
    lemma_boolean_present(args, 1, j, f);
    lemma_boolean_values(args, 1, f);
    match parse_args_spec(args, 1) {
        Ok((_p, o)) => {
            let m = choose|m: int| 0 <= m < o.len() && o[m].0 == f;
            assert(o[m].0 == f);
            lemma_find_key_agree(o, f, "true"@, m);
        },
        Err(_) => {},
    }
}

/// Parses CLI arguments into a Command.
///
/// The first argument is `namespace:action`; the rest are positional
/// arguments, `--flag value`, boolean `--flag`s and one-letter `-x` flags.
pub fn parse_command(args: Vec<String>) -> (r: ReedResult<Command>)
    ensures
        match r {
            Ok(cmd) => parse_command_spec(strings_view(args@)) matches Ok((ns, action, p, o)) && {
                &&& cmd.namespace@ == ns
                &&& cmd.action@ == action
                &&& strings_view(cmd.args@) == p
                &&& cmd.flags.wf()
                &&& forall|k: Seq<char>| #[trigger] cmd.flags.lookup(k) == find_key(o, k)
            },
            Err(e) => parse_command_spec(strings_view(args@)) == Err::<
                (Seq<char>, Seq<char>, Seq<Seq<char>>, Seq<(Seq<char>, Seq<char>)>),
                ErrorView,
            >(e@),
        },
{
    if args.len() == 0 {
        return Err(
            ReedError::InvalidCommand {
                command: String::new(),
                reason: String::from_str("No command provided"),
            },
        );
    }
    let (namespace, action) = match parse_command_format(args[0].as_str()) {
        Ok(x) => x,
        Err(e) => return Err(e),
    };
    let (positional, flags) = match parse_args_and_flags(&args, 1) {
        Ok(x) => x,
        Err(e) => return Err(e),
    };
    Ok(Command { namespace, action, args: positional, flags })
}

/// Parses `namespace:action`.
fn parse_command_format(cmd: &str) -> (r: ReedResult<(String, String)>)
    ensures
        match r {
            Ok((ns, action)) => command_format_spec(cmd@) == Ok::<(Seq<char>, Seq<char>), ErrorView>((ns@, action@)),
            Err(e) => command_format_spec(cmd@) == Err::<(Seq<char>, Seq<char>), ErrorView>(e@),
        },
{
    if !str_contains_char(cmd, ':') {
        return Err(
            ReedError::InvalidCommand {
                command: str_to_string(cmd),
                reason: String::from_str(
                    "Command must be in format 'namespace:action' (e.g., 'set:text')",
                ),
            },
        );
    }
    let v = to_chars(cmd);
    let starts = split_starts(&v, ':');
    if starts.len() != 2 {
        let mut reason = String::from_str("Command must contain exactly one colon, found ");
        push_usize(&mut reason, starts.len() - 1);
        return Err(ReedError::InvalidCommand { command: str_to_string(cmd), reason });
    }
    let ghost parts = split_on(cmd@, ':');
    assert(starts@[0] <= piece_end(starts@, 0, v@.len() as int));
    assert(starts@[1] <= piece_end(starts@, 1, v@.len() as int));
    let (na, nb) = trim_bounds(&v, 0, starts[1] - 1);
    let (aa, ab) = trim_bounds(&v, starts[1], v.len());
    assert(parts[0] == v@.subrange(0, starts@[1] - 1));
    assert(parts[1] == v@.subrange(starts@[1] as int, v@.len() as int));
    if na == nb {
        return Err(
            ReedError::InvalidCommand {
                command: str_to_string(cmd),
                reason: String::from_str("Namespace cannot be empty"),
            },
        );
    }
    if aa == ab {
        return Err(
            ReedError::InvalidCommand {
                command: str_to_string(cmd),
                reason: String::from_str("Action cannot be empty"),
            },
        );
    }
    let namespace = chars_to_string(&v, na, nb);
    let action = chars_to_string(&v, aa, ab);
    match validate_identifier(namespace.as_str(), "namespace") {
        Ok(()) => {},
        Err(e) => return Err(e),
    }
    match validate_identifier(action.as_str(), "action") {
        Ok(()) => {},
        Err(e) => return Err(e),
    }
    Ok((namespace, action))
}

/// Validates that an identifier holds only letters, digits, `_` and `-`.
fn validate_identifier(id: &str, context: &str) -> (r: ReedResult<()>)
    ensures
        match r {
            Ok(()) => valid_identifier(id@),
            Err(e) => !valid_identifier(id@) && e@ == ErrorView::ValidationError {
                field: context@,
                value: id@,
                constraint: "alphanumeric characters, underscore, or hyphen only"@,
            },
        },
{
    let v = to_chars(id);
    let mut i: usize = 0;
    while i < v.len()
        invariant
            v@ == id@,
            i <= v@.len(),
            forall|k: int| 0 <= k < i ==> is_ident_char(#[trigger] v@[k]),
        decreases v.len() - i,
    {
        let c = v[i];
        if !(char_is_alphanumeric(c) || c == '_' || c == '-') {
            assert(!is_ident_char(id@[i as int]));
            return Err(
                ReedError::ValidationError {
                    field: str_to_string(context),
                    value: str_to_string(id),
                    constraint: String::from_str(
                        "alphanumeric characters, underscore, or hyphen only",
                    ),
                },
            );
        }
        i += 1;
    }
    Ok(())
}

/// Whether `name` is a flag that takes no value.
fn is_boolean_flag(name: &str) -> (r: bool)
    ensures
        r == boolean_flags().contains(name@),
{
    let names: [&str; 16] = [
        "help", "h", "verbose", "v", "dry-run", "confirm", "recursive", "minify", "follow",
        "fuzzy", "show-permissions", "tree", "json", "force", "quiet", "watch",
    ];
    let ghost views = boolean_flags();
    assert(forall|k: int| 0 <= k < 16 ==> #[trigger] names@[k]@ == views[k]);
    let mut i: usize = 0;
    while i < 16
        invariant
            i <= 16,
            views == boolean_flags(),
            forall|k: int| 0 <= k < 16 ==> #[trigger] names@[k]@ == views[k],
            forall|k: int| 0 <= k < i ==> views[k] != name@,
        decreases 16 - i,
    {
        if str_eq(names[i], name) {
            assert(views[i as int] == name@);
            return true;
        }
        i += 1;
    }
    assert(!views.contains(name@)) by {
        if views.contains(name@) {
            let k = choose|k: int| 0 <= k < views.len() && views[k] == name@;
        }
    }
    false
}

/// `parse_args_spec` result extended by earlier positional arguments and flags.
pub open spec fn after(p: Seq<Seq<char>>, o: Seq<(Seq<char>, Seq<char>)>, r: Result<ParsedArgs, ErrorView>) -> Result<ParsedArgs, ErrorView> {
    match r {
        Ok((p2, o2)) => Ok((p + p2, o + o2)),
        Err(e) => Err(e),
    }
}

proof fn lemma_after_flag(
    p: Seq<Seq<char>>,
    o: Seq<(Seq<char>, Seq<char>)>,
    name: Seq<char>,
    value: Seq<char>,
    rest: Result<ParsedArgs, ErrorView>,
)
    ensures
        after(p, o, with_flag(name, value, rest)) == after(p, o.push((name, value)), rest),
{
    match rest {
        Ok((p2, o2)) => {
            assert(o + (seq![(name, value)] + o2) =~= o.push((name, value)) + o2);
        },
        Err(e) => {},
    }
}

proof fn lemma_after_positional(
    p: Seq<Seq<char>>,
    o: Seq<(Seq<char>, Seq<char>)>,
    arg: Seq<char>,
    rest: Result<ParsedArgs, ErrorView>,
)
    ensures
        after(p, o, with_positional(arg, rest)) == after(p.push(arg), o, rest),
{
    match rest {
        Ok((p2, o2)) => {
            assert(p + (seq![arg] + p2) =~= p.push(arg) + p2);
        },
        Err(e) => {},
    }
}

/// Parses `args[start..]` into positional arguments and flags.
fn parse_args_and_flags(args: &Vec<String>, start: usize) -> (r: ReedResult<(Vec<String>, StringMap)>)
    requires
        start <= args@.len(),
    ensures
        match r {
            Ok((pos, flags)) => parse_args_spec(strings_view(args@), start as int) matches Ok((p, o)) && {
                &&& strings_view(pos@) == p
                &&& flags.wf()
                &&& forall|k: Seq<char>| #[trigger] flags.lookup(k) == find_key(o, k)
            },
            Err(e) => parse_args_spec(strings_view(args@), start as int) == Err::<ParsedArgs, ErrorView>(e@),
        },
{
    let ghost av = strings_view(args@);
    let mut positional: Vec<String> = Vec::new();
    let mut flags = StringMap::new();
    let ghost mut ops: Seq<(Seq<char>, Seq<char>)> = Seq::empty();
    let mut i = start;
    assert(strings_view(positional@) =~= Seq::<Seq<char>>::empty());
    assert(after(Seq::empty(), Seq::empty(), parse_args_spec(av, start as int)) =~= parse_args_spec(av, start as int)) by {
        match parse_args_spec(av, start as int) {
            Ok((p2, o2)) => {
                assert(Seq::<Seq<char>>::empty() + p2 =~= p2);
                assert(Seq::<(Seq<char>, Seq<char>)>::empty() + o2 =~= o2);
            },
            Err(e) => {},
        }
    }
    while i < args.len()
        invariant
            av == strings_view(args@),
            start <= i <= args@.len(),
            flags.wf(),
            forall|k: Seq<char>| #[trigger] flags.lookup(k) == find_key(ops, k),
            parse_args_spec(av, start as int) == after(strings_view(positional@), ops, parse_args_spec(av, i as int)),
        decreases args.len() - i,
    {
        let arg = &args[i];
        let v = to_chars(arg.as_str());
        assert(av[i as int] == arg@);
        if v.len() >= 2 && v[0] == '-' && v[1] == '-' {
            let name = chars_to_string(&v, 2, v.len());
            if v.len() == 2 {
                assert(name@.len() == 0);
                return Err(
                    ReedError::ParseError {
                        input: str_to_string(arg.as_str()),
                        reason: String::from_str("Flag name cannot be empty after '--'"),
                    },
                );
            }
            assert(name@.len() != 0) by {
                if name@.len() == 0 {
                    assert(name@ =~= Seq::<char>::empty());
                }
            }
            assert(is_long_flag(av[i as int]));
            assert(name@ == av[i as int].subrange(2, av[i as int].len() as int));
            if is_boolean_flag(name.as_str()) {
                let ghost nv = name@;
                assert(parse_args_spec(av, i as int) == with_flag(nv, "true"@, parse_args_spec(av, i + 1)));
                let _ = flags.insert(name, String::from_str("true"));
                proof {
                    lemma_after_flag(strings_view(positional@), ops, nv, "true"@, parse_args_spec(av, i + 1));
                    let ghost old_ops = ops;
                    ops = ops.push((nv, "true"@));
                    assert forall|k: Seq<char>| #[trigger] flags.lookup(k) == find_key(ops, k) by {
                        lemma_find_key_push(old_ops, (nv, "true"@), k);
                    }
                }
                i += 1;
            } else {
                if i + 1 >= args.len() {
                    let mut reason = String::from_str("Flag '--");
                    push_str(&mut reason, name.as_str());
                    push_str(&mut reason, "' requires a value");
                    return Err(ReedError::InvalidCommand { command: str_to_string(arg.as_str()), reason });
                }
                let next = &args[i + 1];
                let nv2 = to_chars(next.as_str());
                assert(av[i + 1] == next@);
                if nv2.len() > 0 && nv2[0] == '-' {
                    let mut reason = String::from_str("Flag '--");
                    push_str(&mut reason, name.as_str());
                    push_str(&mut reason, "' requires a value, got another flag instead");
                    return Err(ReedError::InvalidCommand { command: str_to_string(arg.as_str()), reason });
                }
                let ghost nv = name@;
                let ghost valv = next@;
                assert(parse_args_spec(av, i as int) == with_flag(nv, valv, parse_args_spec(av, i + 2)));
                let _ = flags.insert(name, str_to_string(next.as_str()));
                proof {
                    lemma_after_flag(strings_view(positional@), ops, nv, valv, parse_args_spec(av, i + 2));
                    let ghost old_ops = ops;
                    ops = ops.push((nv, valv));
                    assert forall|k: Seq<char>| #[trigger] flags.lookup(k) == find_key(ops, k) by {
                        lemma_find_key_push(old_ops, (nv, valv), k);
                    }
                }
                i += 2;
            }
        } else if v.len() == 2 && v[0] == '-' && v[1] <= '\x7f' {
            let name = chars_to_string(&v, 1, 2);
            let ghost nv = name@;
            assert(!is_long_flag(av[i as int]));
            assert(is_short_flag(av[i as int]));
            assert(parse_args_spec(av, i as int) == with_flag(nv, "true"@, parse_args_spec(av, i + 1)));
            let _ = flags.insert(name, String::from_str("true"));
            proof {
                lemma_after_flag(strings_view(positional@), ops, nv, "true"@, parse_args_spec(av, i + 1));
                let ghost old_ops = ops;
                    ops = ops.push((nv, "true"@));
                    assert forall|k: Seq<char>| #[trigger] flags.lookup(k) == find_key(ops, k) by {
                        lemma_find_key_push(old_ops, (nv, "true"@), k);
                    }
            }
            i += 1;
        } else {
            let ghost before = positional@;
            assert(!is_long_flag(av[i as int]));
            assert(!is_short_flag(av[i as int]));
            assert(parse_args_spec(av, i as int) == with_positional(arg@, parse_args_spec(av, i + 1)));
            positional.push(str_to_string(arg.as_str()));
            proof {
                lemma_after_positional(strings_view(before), ops, arg@, parse_args_spec(av, i + 1));
                assert(strings_view(positional@) =~= strings_view(before).push(arg@));
            }
            i += 1;
        }
    }
    assert(parse_args_spec(av, i as int) == Ok::<ParsedArgs, ErrorView>((Seq::empty(), Seq::empty())));
    assert(strings_view(positional@) + Seq::<Seq<char>>::empty() =~= strings_view(positional@));
    assert(ops + Seq::<(Seq<char>, Seq<char>)>::empty() =~= ops);
    Ok((positional, flags))
}

impl Command {
    /// Whether the flag is present, whatever its value.
    pub fn has_flag(&self, flag: &str) -> (r: bool)
        requires
            self.flags.wf(),
        ensures
            r == (self.flags.lookup(flag@) is Some),
    {
        self.flags.contains_key(flag)
    }

    /// The flag's value, if present.
    pub fn get_flag(&self, flag: &str) -> (r: Option<&String>)
        requires
            self.flags.wf(),
        ensures
            match r {
                Some(v) => self.flags.lookup(flag@) == Some(v@),
                None => self.flags.lookup(flag@) is None,
            },
    {
        self.flags.get(flag)
    }

    /// Whether the flag's value is `"true"`.
    pub fn get_flag_bool(&self, flag: &str) -> (r: bool)
        requires
            self.flags.wf(),
        ensures
            r == (self.flags.lookup(flag@) == Some("true"@)),
    {
        match self.flags.get(flag) {
            Some(v) => str_eq(v.as_str(), "true"),
            None => false,
        }
    }
}

} // verus!
