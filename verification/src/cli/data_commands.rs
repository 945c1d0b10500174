//! Data commands: `set:`, `get:` and `list:` for text, routes and meta data.
//!
//! `set:*` and `get:*` check their arguments and give the request for the
//! data layer; lookups and listings work on the records of the CSV file
//! (`.reed/text.csv`, `.reed/routes.csv`, `.reed/meta.csv`).
use vstd::prelude::*;
use crate::cli::parser::strings_view;
use crate::csv::record::CsvRecord;
use crate::lists::{last_value, record_keys};
use crate::reedstream::{
    invalid_command, is_invalid_command, is_validation_error, opt_str_view, validation_error,
    ReedError, ReedRequest, ReedResponse, ReedResult,
};
use crate::string_map::StringMap;
use crate::text::{
    byte_len, contains_seq, copy_string, decimal, ends_with, push_str, push_usize, starts_with,
    str_byte_len, str_contains, str_ends_with, str_eq, str_starts_with, str_to_string, to_chars,
    chars_to_string,
};

verus! {

/// The kind of data a command works on.
#[derive(Debug, Clone, Copy, PartialEq, Eq, Structural)]
pub enum DataKind {
    Text,
    Route,
    Meta,
}

/// The context of a request for this kind of data.
pub open spec fn kind_context(k: DataKind) -> Seq<char> {
    match k {
        DataKind::Text => "text"@,
        DataKind::Route => "route"@,
        DataKind::Meta => "meta"@,
    }
}

fn context_of(k: DataKind) -> (r: &'static str)
    ensures
        r@ == kind_context(k),
{
    match k {
        DataKind::Text => "text",
        DataKind::Route => "route",
        DataKind::Meta => "meta",
    }
}

/// The reasons a `set:*` command is refused for missing input.
pub open spec fn set_usage(k: DataKind) -> (Seq<char>, Seq<char>, Seq<char>) {
    match k {
        DataKind::Text => (
            "set:text"@,
            "Requires 2 arguments: key@lang value"@,
            "--desc flag is mandatory (e.g., --desc \"Page title\")"@,
        ),
        DataKind::Route => ("set:route"@, "Requires 2 arguments: key@lang route"@, "--desc flag is mandatory"@),
        DataKind::Meta => ("set:meta"@, "Requires 2 arguments: key value"@, "--desc flag is mandatory"@),
    }
}

/// `r` writes `value` under `key` with `desc` in the file of `k`.
pub open spec fn is_set_request(r: ReedRequest, k: DataKind, key: Seq<char>, value: Seq<char>, desc: Seq<char>) -> bool {
    &&& r.key@ == key
    &&& r.language is None
    &&& r.environment is None
    &&& opt_str_view(r.context) == Some(kind_context(k))
    &&& opt_str_view(r.value) == Some(value)
    &&& opt_str_view(r.description) == Some(desc)
}

/// What a `set:*` command gives for its arguments and flags.
pub open spec fn set_outcome(k: DataKind, args: Seq<Seq<char>>, flags: StringMap, r: ReedResult<ReedRequest>) -> bool {
    let u = set_usage(k);
    if args.len() < 2 {
        r matches Err(e) && is_invalid_command(e, u.0, u.1)
    } else {
        match flags.lookup("desc"@) {
            None => r matches Err(e) && is_invalid_command(e, u.0, u.2),
            Some(d) => if byte_len(d) < 10 {
                r matches Err(e) && is_validation_error(
                    e,
                    "desc"@,
                    d,
                    "Description must be at least 10 characters"@,
                )
            } else {
                r matches Ok(req) && is_set_request(req, k, args[0], args[1], d)
            },
        }
    }
}

fn set_request(k: DataKind, args: &Vec<String>, flags: &StringMap) -> (r: ReedResult<ReedRequest>)
    requires
        flags.wf(),
    ensures
        set_outcome(k, strings_view(args@), *flags, r),
{
    let (command, usage, desc_usage) = match k {
        DataKind::Text => ("set:text", "Requires 2 arguments: key@lang value", "--desc flag is mandatory (e.g., --desc \"Page title\")"),
        DataKind::Route => ("set:route", "Requires 2 arguments: key@lang route", "--desc flag is mandatory"),
        DataKind::Meta => ("set:meta", "Requires 2 arguments: key value", "--desc flag is mandatory"),
    };
    if args.len() < 2 {
        return Err(invalid_command(command, str_to_string(usage)));
    }
    let description = match flags.get("desc") {
        None => {
            return Err(invalid_command(command, str_to_string(desc_usage)));
        },
        Some(d) => d,
    };
    if str_byte_len(description.as_str()) < 10 {
        return Err(
            validation_error(
                "desc",
                copy_string(description),
                str_to_string("Description must be at least 10 characters"),
            ),
        );
    }
    assert(strings_view(args@)[0] == args@[0]@ && strings_view(args@)[1] == args@[1]@);
    Ok(ReedRequest {
        key: copy_string(&args[0]),
        language: None,
        environment: None,
        context: Some(str_to_string(context_of(k))),
        value: Some(copy_string(&args[1])),
        description: Some(copy_string(description)),
    })
}

/// Checks `reed set:text <key@lang> <value> --desc <text>` and gives the
/// write for `.reed/text.csv`.
pub fn set_text(args: &Vec<String>, flags: &StringMap) -> (r: ReedResult<ReedRequest>)
    requires
        flags.wf(),
    ensures
        set_outcome(DataKind::Text, strings_view(args@), *flags, r),
{
    set_request(DataKind::Text, args, flags)
}

/// Checks `reed set:route <key@lang> <route> --desc <text>` and gives the
/// write for `.reed/routes.csv`.
pub fn set_route(args: &Vec<String>, flags: &StringMap) -> (r: ReedResult<ReedRequest>)
    requires
        flags.wf(),
    ensures
        set_outcome(DataKind::Route, strings_view(args@), *flags, r),
{
    set_request(DataKind::Route, args, flags)
}

/// Checks `reed set:meta <key> <value> --desc <text>` and gives the write
/// for `.reed/meta.csv`.
pub fn set_meta(args: &Vec<String>, flags: &StringMap) -> (r: ReedResult<ReedRequest>)
    requires
        flags.wf(),
    ensures
        set_outcome(DataKind::Meta, strings_view(args@), *flags, r),
{
    set_request(DataKind::Meta, args, flags)
}

/// The answer of a `set:*` command once the value was written.
pub open spec fn set_report_text(k: DataKind, key: Seq<char>, value: Seq<char>, desc: Seq<char>) -> Seq<char> {
    match k {
        DataKind::Text => "✓ Text set: "@ + key + " = \""@ + value + "\"\n  Description: "@ + desc,
        DataKind::Route => "✓ Route set: "@ + key + " → \""@ + value + "\"\n  Description: "@ + desc,
        DataKind::Meta => "✓ Meta set: "@ + key + " = \""@ + value + "\"\n  Description: "@ + desc,
    }
}

pub open spec fn command_source(k: DataKind, verb: Seq<char>) -> Seq<char> {
    "cli::data_commands::"@ + verb + "_"@ + kind_context(k)
}

fn source_of(k: DataKind, verb: &str) -> (r: String)
    ensures
        r@ == command_source(k, verb@),
{
    let mut r = str_to_string("cli::data_commands::");
    push_str(&mut r, verb);
    push_str(&mut r, "_");
    push_str(&mut r, context_of(k));
    r
}

/// The answer of a `set:*` command for the request it wrote.
pub fn set_report(k: DataKind, request: &ReedRequest) -> (r: ReedResponse<String>)
    requires
        request.value is Some,
        request.description is Some,
    ensures
        r.data@ == set_report_text(
            k,
            request.key@,
            request.value.unwrap()@,
            request.description.unwrap()@,
        ),
        r.source@ == command_source(k, "set"@),
{
    let value = match &request.value {
        Some(v) => v.as_str(),
        None => "",
    };
    let desc = match &request.description {
        Some(d) => d.as_str(),
        None => "",
    };
    let mut out = match k {
        DataKind::Text => str_to_string("✓ Text set: "),
        DataKind::Route => str_to_string("✓ Route set: "),
        DataKind::Meta => str_to_string("✓ Meta set: "),
    };
    push_str(&mut out, request.key.as_str());
    match k {
        DataKind::Route => push_str(&mut out, " → \""),
        _ => push_str(&mut out, " = \""),
    }
    push_str(&mut out, value);
    push_str(&mut out, "\"\n  Description: ");
    push_str(&mut out, desc);
    let source = source_of(k, "set");
    ReedResponse::new(out, source.as_str())
}

/// The reason a `get:*` command is refused without a key.
pub open spec fn get_usage(k: DataKind) -> (Seq<char>, Seq<char>) {
    match k {
        DataKind::Text => ("get:text"@, "Requires 1 argument: key@lang"@),
        DataKind::Route => ("get:route"@, "Requires 1 argument: key@lang"@),
        DataKind::Meta => ("get:meta"@, "Requires 1 argument: key"@),
    }
}

/// What a `get:*` command gives for its arguments.
pub open spec fn get_outcome(k: DataKind, args: Seq<Seq<char>>, r: ReedResult<ReedRequest>) -> bool {
    if args.len() == 0 {
        r matches Err(e) && is_invalid_command(e, get_usage(k).0, get_usage(k).1)
    } else {
        r matches Ok(req) && req.key@ == args[0] && req.language is None && req.environment is None
            && opt_str_view(req.context) == Some(kind_context(k)) && req.value is None
            && req.description is None
    }
}

fn get_request(k: DataKind, args: &Vec<String>) -> (r: ReedResult<ReedRequest>)
    ensures
        get_outcome(k, strings_view(args@), r),
{
    let (command, usage) = match k {
        DataKind::Text => ("get:text", "Requires 1 argument: key@lang"),
        DataKind::Route => ("get:route", "Requires 1 argument: key@lang"),
        DataKind::Meta => ("get:meta", "Requires 1 argument: key"),
    };
    if args.len() == 0 {
        return Err(invalid_command(command, str_to_string(usage)));
    }
    assert(strings_view(args@)[0] == args@[0]@);
    Ok(ReedRequest {
        key: copy_string(&args[0]),
        language: None,
        environment: None,
        context: Some(str_to_string(context_of(k))),
        value: None,
        description: None,
    })
}

/// Checks `reed get:text <key@lang>` and gives the lookup request.
pub fn get_text(args: &Vec<String>) -> (r: ReedResult<ReedRequest>)
    ensures
        get_outcome(DataKind::Text, strings_view(args@), r),
{
    get_request(DataKind::Text, args)
}

/// Checks `reed get:route <key@lang>` and gives the lookup request.
pub fn get_route(args: &Vec<String>) -> (r: ReedResult<ReedRequest>)
    ensures
        get_outcome(DataKind::Route, strings_view(args@), r),
{
    get_request(DataKind::Route, args)
}

/// Checks `reed get:meta <key>` and gives the lookup request.
pub fn get_meta(args: &Vec<String>) -> (r: ReedResult<ReedRequest>)
    ensures
        get_outcome(DataKind::Meta, strings_view(args@), r),
{
    get_request(DataKind::Meta, args)
}

/// A value set is what a get then reads: when `set:<kind> <key> <value>
/// --desc <d>` succeeded and its write was applied to the records of the
/// file, `get:<kind> <key>` asks for a key whose last record holds
/// `value`, so that `lookup_report` answers with that value.
pub proof fn lemma_set_then_get(
    kind: DataKind,
    set_args: Seq<Seq<char>>,
    flags: StringMap,
    set_r: ReedResult<ReedRequest>,
    rs: Seq<CsvRecord>,
    written: Seq<CsvRecord>,
    get_args: Seq<Seq<char>>,
    get_r: ReedResult<ReedRequest>,
)
    requires
        set_outcome(kind, set_args, flags, set_r),
        set_r matches Ok(req) && crate::csv::store::record_views(written) == crate::csv::store::apply_spec(
            crate::csv::store::record_views(rs),
            seq![req],
        ),
        get_outcome(kind, get_args, get_r),
        get_args.len() > 0,
        get_args[0] == set_args[0],
    ensures
        get_r matches Ok(g) && last_value(written, g.key@) == Some(set_args[1]),
{
    match set_r {
        Ok(req) => {
            crate::csv::store::lemma_get_after_set(rs, written, req);
        },
        Err(_) => {},
    }
}

/// Answers a lookup from the records of the file at `path`: the value of
/// the last record with the key and where it came from, or `NotFound`.
pub fn lookup_report(k: DataKind, request: &ReedRequest, records: &Vec<CsvRecord>, path: &str) -> (r:
    ReedResult<ReedResponse<String>>)
    ensures
        match last_value(records@, request.key@) {
            Some(v) => r matches Ok(resp) && resp.data@ == v + "\n(source: "@ + path@ + ")"@
                && resp.source@ == command_source(k, "get"@),
            None => r matches Err(e) && e matches ReedError::NotFound { resource, context } && resource@
                == request.key@ && opt_str_view(context) == Some(path@),
        },
{
    let mut i = records.len();
    assert(records@.take(i as int) =~= records@);
    while i > 0
        invariant
            i <= records@.len(),
            last_value(records@, request.key@) == last_value(records@.take(i as int), request.key@),
        decreases i,
    {
        proof {
            assert(records@.take(i as int).drop_last() =~= records@.take(i - 1));
        }
        if str_eq(records[i - 1].key.as_str(), request.key.as_str()) {
            let mut out = copy_string(&records[i - 1].value);
            push_str(&mut out, "\n(source: ");
            push_str(&mut out, path);
            push_str(&mut out, ")");
            let source = source_of(k, "get");
            return Ok(ReedResponse::new(out, source.as_str()));
        }
        i -= 1;
    }
    Err(ReedError::NotFound { resource: copy_string(&request.key), context: Some(str_to_string(path)) })
}

// ---------------------------------------------------------------------------
// Listings
// ---------------------------------------------------------------------------

/// Whether a key matches a pattern: `*` matches all, `*mid*` keys that
/// contain `mid`, `*suffix` keys that end with it, `prefix*` keys that
/// start with it, anything else only itself.
pub open spec fn matches_pattern_spec(key: Seq<char>, pattern: Seq<char>) -> bool {
    if pattern == "*"@ {
        true
    } else if pattern.len() > 0 && pattern[0] == '*' && pattern.last() == '*' {
        contains_seq(key, pattern.subrange(1, pattern.len() - 1))
    } else if pattern.len() > 0 && pattern[0] == '*' {
        ends_with(key, pattern.subrange(1, pattern.len() as int))
    } else if pattern.len() > 0 && pattern.last() == '*' {
        starts_with(key, pattern.subrange(0, pattern.len() - 1))
    } else {
        key == pattern
    }
}

/// What the glob patterns mean: `*` matches every key; `*middle*`
/// matches the keys in which `middle` occurs as a contiguous piece;
/// `*suffix` the keys that end with `suffix`; `prefix*` the keys that begin
/// with `prefix`; any other pattern only the key equal to it.
pub proof fn lemma_pattern_meaning(key: Seq<char>, pattern: Seq<char>)
    ensures
        pattern == "*"@ ==> matches_pattern_spec(key, pattern),
        pattern.len() >= 2 && pattern[0] == '*' && pattern[pattern.len() - 1] == '*' ==> (matches_pattern_spec(
            key,
            pattern,
        ) <==> (exists|i: int| 0 <= i && i + pattern.len() - 2 <= key.len() && #[trigger] key.subrange(
            i,
            i + pattern.len() - 2,
        ) == pattern.subrange(1, pattern.len() - 1))),
        pattern.len() >= 2 && pattern[0] == '*' && pattern[pattern.len() - 1] != '*' ==> (matches_pattern_spec(
            key,
            pattern,
        ) <==> (pattern.len() - 1 <= key.len() && key.subrange(key.len() - (pattern.len() - 1), key.len() as int)
            == pattern.subrange(1, pattern.len() as int))),
        pattern.len() >= 1 && pattern[0] != '*' && pattern[pattern.len() - 1] == '*' ==> (matches_pattern_spec(
            key,
            pattern,
        ) <==> (pattern.len() - 1 <= key.len() && key.subrange(0, pattern.len() - 1) == pattern.subrange(
            0,
            pattern.len() - 1,
        ))),
        (pattern.len() == 0 || (pattern[0] != '*' && pattern[pattern.len() - 1] != '*')) ==> (matches_pattern_spec(
            key,
            pattern,
        ) <==> key == pattern),
{
    reveal_strlit("*");
    if pattern.len() >= 2 {
        assert(pattern != "*"@);
    }
    if pattern.len() >= 1 && pattern[0] != '*' {
        assert(pattern != "*"@);
    }
    if pattern.len() == 0 {
        assert(pattern != "*"@);
    }
    if pattern.len() >= 2 && pattern[0] == '*' && pattern[pattern.len() - 1] == '*' {
        let m = pattern.subrange(1, pattern.len() - 1);
        assert(pattern.last() == pattern[pattern.len() - 1]);
        if matches_pattern_spec(key, pattern) {
            let i = choose|i: int| crate::text::occurs_at(key, m, i);
            assert(key.subrange(i, i + pattern.len() - 2) == m);
        }
        if exists|i: int| 0 <= i && i + pattern.len() - 2 <= key.len() && #[trigger] key.subrange(
            i,
            i + pattern.len() - 2,
        ) == m {
            let i = choose|i: int| 0 <= i && i + pattern.len() - 2 <= key.len() && #[trigger] key.subrange(
                i,
                i + pattern.len() - 2,
            ) == m;
            assert(crate::text::occurs_at(key, m, i));
        }
    }
    if pattern.len() >= 1 {
        assert(pattern.last() == pattern[pattern.len() - 1]);
    }
}

/// Matches a key against a glob-style pattern.
pub fn matches_pattern(key: &str, pattern: &str) -> (r: bool)
    ensures
        r == matches_pattern_spec(key@, pattern@),
{
    if str_eq(pattern, "*") {
        return true;
    }
    let pv = to_chars(pattern);
    let n = pv.len();
    if n > 0 && pv[0] == '*' && pv[n - 1] == '*' {
        if n < 2 {
            proof {
                reveal_strlit("*");
                assert(pattern@ =~= "*"@);
            }
            return true;
        }
        let middle = chars_to_string(pv.as_slice(), 1, n - 1);
        return str_contains(key, middle.as_str());
    }
    if n > 0 && pv[0] == '*' {
        let suffix = chars_to_string(pv.as_slice(), 1, n);
        return str_ends_with(key, suffix.as_str());
    }
    if n > 0 && pv[n - 1] == '*' {
        let prefix = chars_to_string(pv.as_slice(), 0, n - 1);
        return str_starts_with(key, prefix.as_str());
    }
    str_eq(key, pattern)
}

/// The keys of the records that match the pattern, in order.
pub open spec fn matching_keys(rs: Seq<CsvRecord>, pattern: Seq<char>) -> Seq<Seq<char>>
    decreases rs.len(),
{
    if rs.len() == 0 {
        Seq::empty()
    } else {
        let p = matching_keys(rs.drop_last(), pattern);
        if matches_pattern_spec(rs.last().key@, pattern) { p.push(rs.last().key@) } else { p }
    }
}

/// Each key on its own line.
pub open spec fn key_lines(keys: Seq<Seq<char>>) -> Seq<char>
    decreases keys.len(),
{
    if keys.len() == 0 { Seq::empty() } else { key_lines(keys.drop_last()) + keys.last() + "\n"@ }
}

/// The pattern of a `list:*` command: its argument, else `*`.
pub open spec fn list_pattern(args: Seq<Seq<char>>) -> Seq<char> {
    if args.len() == 0 { "*"@ } else { args[0] }
}

/// The listing of the keys matching the pattern, with their count.
pub open spec fn listing_text(rs: Seq<CsvRecord>, pattern: Seq<char>) -> Seq<char> {
    let keys = matching_keys(rs, pattern);
    key_lines(keys) + "("@ + decimal(keys.len()) + " entries found)"@
}

proof fn lemma_matching_keys_len(rs: Seq<CsvRecord>, pattern: Seq<char>)
    ensures
        matching_keys(rs, pattern).len() <= rs.len(),
    decreases rs.len(),
{
    if rs.len() > 0 {
        lemma_matching_keys_len(rs.drop_last(), pattern);
    }
}

fn listing(k: DataKind, args: &Vec<String>, records: &Vec<CsvRecord>) -> (r: ReedResponse<String>)
    ensures
        r.data@ == listing_text(records@, list_pattern(strings_view(args@))),
        r.source@ == command_source(k, "list"@),
{
    let pattern = if args.len() == 0 { str_to_string("*") } else { copy_string(&args[0]) };
    assert(pattern@ == list_pattern(strings_view(args@)));
    let mut out = String::new();
    let mut count: usize = 0;
    let mut i: usize = 0;
    while i < records.len()
        invariant
            i <= records@.len(),
            out@ == key_lines(matching_keys(records@.take(i as int), pattern@)),
            count == matching_keys(records@.take(i as int), pattern@).len(),
            count <= i,
        decreases records.len() - i,
    {
        proof {
            assert(records@.take(i + 1).drop_last() =~= records@.take(i as int));
            lemma_matching_keys_len(records@.take(i as int), pattern@);
        }
        if matches_pattern(records[i].key.as_str(), pattern.as_str()) {
            push_str(&mut out, records[i].key.as_str());
            push_str(&mut out, "\n");
            count = count + 1;
            let ghost ks = matching_keys(records@.take(i + 1), pattern@);
            assert(ks.drop_last() =~= matching_keys(records@.take(i as int), pattern@));
        }
        i += 1;
    }
    assert(records@.take(i as int) =~= records@);
    push_str(&mut out, "(");
    push_usize(&mut out, count);
    push_str(&mut out, " entries found)");
    let source = source_of(k, "list");
    ReedResponse::new(out, source.as_str())
}

/// Lists the text keys matching a pattern (`reed list:text [pattern]`).
pub fn list_text(args: &Vec<String>, records: &Vec<CsvRecord>) -> (r: ReedResponse<String>)
    ensures
        r.data@ == listing_text(records@, list_pattern(strings_view(args@))),
        r.source@ == command_source(DataKind::Text, "list"@),
{
    listing(DataKind::Text, args, records)
}

/// Lists the route keys matching a pattern (`reed list:route [pattern]`).
pub fn list_route(args: &Vec<String>, records: &Vec<CsvRecord>) -> (r: ReedResponse<String>)
    ensures
        r.data@ == listing_text(records@, list_pattern(strings_view(args@))),
        r.source@ == command_source(DataKind::Route, "list"@),
{
    listing(DataKind::Route, args, records)
}

/// Lists the meta keys matching a pattern (`reed list:meta [pattern]`).
pub fn list_meta(args: &Vec<String>, records: &Vec<CsvRecord>) -> (r: ReedResponse<String>)
    ensures
        r.data@ == listing_text(records@, list_pattern(strings_view(args@))),
        r.source@ == command_source(DataKind::Meta, "list"@),
{
    listing(DataKind::Meta, args, records)
}

} // verus!
