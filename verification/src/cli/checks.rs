//! Argument and flag checks shared by the command handlers.
use vstd::prelude::*;
use crate::cli::parser::strings_view;
use crate::reedstream::{
    invalid_command, is_invalid_command, is_validation_error, validation_error, ReedResult,
};
use crate::string_map::StringMap;
use crate::text::{copy_string, split_on, split_to_strings, str_to_string, trim, trim_string};

verus! {

/// The first argument, or `InvalidCommand(command, reason)` without one.
pub fn first_arg(args: &Vec<String>, command: &str, reason: &str) -> (r: ReedResult<String>)
    ensures
        args@.len() == 0 ==> (r matches Err(e) && is_invalid_command(e, command@, reason@)),
        args@.len() > 0 ==> (r matches Ok(a) && a@ == args@[0]@),
{
    if args.len() == 0 {
        Err(invalid_command(command, str_to_string(reason)))
    } else {
        Ok(copy_string(&args[0]))
    }
}

/// The value of a flag, or `InvalidCommand(command, reason)` without it.
pub fn flag_or_invalid(flags: &StringMap, name: &str, command: &str, reason: &str) -> (r: ReedResult<String>)
    requires
        flags.wf(),
    ensures
        match flags.lookup(name@) {
            Some(v) => r matches Ok(s) && s@ == v,
            None => r matches Err(e) && is_invalid_command(e, command@, reason@),
        },
{
    match flags.get(name) {
        Some(v) => Ok(copy_string(v)),
        None => Err(invalid_command(command, str_to_string(reason))),
    }
}

/// The value of a flag, or `ValidationError(field, "", constraint)`
/// without it.
pub fn flag_or_missing(flags: &StringMap, name: &str, field: &str, constraint: &str) -> (r: ReedResult<String>)
    requires
        flags.wf(),
    ensures
        match flags.lookup(name@) {
            Some(v) => r matches Ok(s) && s@ == v,
            None => r matches Err(e) && is_validation_error(e, field@, Seq::empty(), constraint@),
        },
{
    match flags.get(name) {
        Some(v) => Ok(copy_string(v)),
        None => Err(validation_error(field, String::new(), str_to_string(constraint))),
    }
}

/// The value of a flag, if given.
pub fn optional_flag(flags: &StringMap, name: &str) -> (r: Option<String>)
    requires
        flags.wf(),
    ensures
        crate::reedstream::opt_str_view(r) == flags.lookup(name@),
{
    match flags.get(name) {
        Some(v) => Some(copy_string(v)),
        None => None,
    }
}

/// The comma-separated items of `s`, each trimmed.
pub open spec fn comma_list(s: Seq<char>) -> Seq<Seq<char>> {
    split_on(s, ',').map_values(|p: Seq<char>| trim(p))
}

/// The comma-separated items of `s`, each trimmed.
pub fn split_trimmed(s: &str) -> (r: Vec<String>)
    ensures
        strings_view(r@) == comma_list(s@),
{
    let pieces = split_to_strings(s, ',');
    let ghost pv = split_on(s@, ',');
    let mut out: Vec<String> = Vec::new();
    let mut i: usize = 0;
    while i < pieces.len()
        invariant
            i <= pieces@.len(),
            pieces@.len() == pv.len(),
            forall|k: int| 0 <= k < pieces@.len() ==> #[trigger] pieces@[k]@ == pv[k],
            out@.len() == i,
            forall|k: int| 0 <= k < i ==> #[trigger] out@[k]@ == trim(pv[k]),
        decreases pieces.len() - i,
    {
        out.push(trim_string(pieces[i].as_str()));
        i += 1;
    }
    assert(strings_view(out@) =~= comma_list(s@));
    out
}

} // verus!
