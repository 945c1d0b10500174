//! Debug commands: `reed debug:request|route|config|cache`.
use vstd::prelude::*;
use crate::cli::parser::strings_view;
use crate::debug::cache_viewer::CacheListing;
use crate::debug::config_inspector::{config_inspection_text, inspect_config, value_or, ConfigInspection};
use crate::debug::request_inspector::{
    default_headers, default_response_headers, inspect_request, inspection_text, simulated_timing,
    timing_view, RequestInspection,
};
use crate::debug::route_tester::{mouse_template, resolve, route_test_text, test_route, RouteTest};
use crate::reedstream::{is_validation_error, opt_str_view, validation_error, ReedResponse, ReedResult};
use crate::string_map::StringMap;
use crate::text::{copy_string, str_to_string};

verus! {

/// `i` is the simulated inspection of a request for `url`.
pub open spec fn is_inspection_of(i: RequestInspection, url: Seq<char>) -> bool {
    &&& i.url@ == url
    &&& i.method@ == "GET"@
    &&& i.status == 200
    &&& i.headers.entries() == default_headers()
    &&& i.response_headers.entries() == default_response_headers()
    &&& timing_view(i.timing@) == simulated_timing(Seq::empty())
}

/// `reed debug:request <url>`: a simulated inspection of the request.
pub fn debug_request_handler(args: &Vec<String>, flags: &StringMap) -> (r: ReedResult<ReedResponse<String>>)
    ensures
        args@.len() == 0 ==> (r matches Err(e) && is_validation_error(e, "url"@, Seq::empty(), "URL argument required"@)),
        args@.len() > 0 ==> (r matches Ok(resp) && resp.source@ == "debug::request"@ && exists|i: RequestInspection|
            is_inspection_of(i, args@[0]@) && resp.data@ == inspection_text(i)),
{
    if args.len() == 0 {
        return Err(validation_error("url", String::new(), str_to_string("URL argument required")));
    }
    let inspection = inspect_request(args[0].as_str());
    let output = inspection.format();
    assert(is_inspection_of(inspection, args@[0]@));
    Ok(ReedResponse::new(output, "debug::request"))
}

/// `t` is the test of `url` whose template presence is `exists`.
pub open spec fn is_route_test_of(t: RouteTest, url: Seq<char>, exists: bool) -> bool {
    &&& t.url@ == url
    &&& opt_str_view(t.language) == resolve(url).0
    &&& opt_str_view(t.layout) == resolve(url).1
    &&& t.matched == resolve(url).1 is Some
    &&& match resolve(url).1 {
        Some(l) => t.template_path@ == mouse_template(l) && t.template_exists == exists && strings_view(t.errors@)
            == if exists { Seq::<Seq<char>>::empty() } else { seq!["Template not found: "@ + mouse_template(l)] },
        None => t.template_path@ == Seq::<char>::empty() && !t.template_exists && strings_view(t.errors@)
            == seq!["No layout matched for URL"@],
    }
}

/// `reed debug:route <url>`: how the URL resolves; `template_exists`
/// tells whether the template it resolves to is there (see
/// `route_template_path`).
pub fn debug_route_handler(args: &Vec<String>, flags: &StringMap, template_exists: bool) -> (r: ReedResult<
    ReedResponse<String>,
>)
    ensures
        args@.len() == 0 ==> (r matches Err(e) && is_validation_error(e, "url"@, Seq::empty(), "URL argument required"@)),
        args@.len() > 0 ==> (r matches Ok(resp) && resp.source@ == "debug::route"@ && exists|t: RouteTest|
            is_route_test_of(t, args@[0]@, template_exists) && resp.data@ == route_test_text(t)),
{
    if args.len() == 0 {
        return Err(validation_error("url", String::new(), str_to_string("URL argument required")));
    }
    let test = test_route(args[0].as_str(), template_exists);
    let output = test.format();
    assert(is_route_test_of(test, args@[0]@, template_exists));
    Ok(ReedResponse::new(output, "debug::route"))
}

/// `c` shows the configuration with these environment variables.
pub open spec fn is_config_of(c: ConfigInspection, env: Option<Seq<char>>, profile: Option<Seq<char>>, slow: Option<Seq<char>>) -> bool {
    &&& c.project.entries() == seq![("name"@, "ReedCMS"@), ("version"@, "0.1.0"@)]
    &&& c.server.entries() == seq![("port"@, "8333"@), ("workers"@, "4"@)]
    &&& c.environment.entries() == seq![
        ("ENVIRONMENT"@, value_or(env, "dev"@)),
        ("REED_PROFILE"@, value_or(profile, "false"@)),
        ("REED_SLOW_THRESHOLD"@, value_or(slow, "100"@)),
    ]
}

/// `reed debug:config`: the configuration in force, given the environment
/// variables `ENVIRONMENT`, `REED_PROFILE` and `REED_SLOW_THRESHOLD` as
/// read.
pub fn debug_config_handler(
    args: &Vec<String>,
    flags: &StringMap,
    environment: Option<String>,
    profile: Option<String>,
    slow_threshold: Option<String>,
) -> (r: ReedResult<ReedResponse<String>>)
    ensures
        r matches Ok(resp) && resp.source@ == "debug::config"@ && exists|c: ConfigInspection|
            is_config_of(c, opt_str_view(environment), opt_str_view(profile), opt_str_view(slow_threshold))
                && resp.data@ == config_inspection_text(c),
{
    let ghost (e, p, s) = (opt_str_view(environment), opt_str_view(profile), opt_str_view(slow_threshold));
    let inspection = inspect_config(environment, profile, slow_threshold);
    let output = inspection.format();
    assert(is_config_of(inspection, e, p, s));
    Ok(ReedResponse::new(output, "debug::config"))
}

/// What `reed debug:cache [type] [--search term]` asks to view: the cache
/// type of the first argument and the search term; the entries come from
/// the running cache, which this view has no access to.
pub fn debug_cache_handler(args: &Vec<String>, flags: &StringMap) -> (r: CacheListing)
    requires
        flags.wf(),
    ensures
        crate::reedstream::opt_str_view(r.cache_type) == (if args@.len() > 0 {
            Some(args@[0]@)
        } else {
            None
        }),
        crate::reedstream::opt_str_view(r.search_term) == flags.lookup("search"@),
        r.entries@.len() == 0,
        r.avg_lookup_time_us == 0,
{
    let cache_type = if args.len() > 0 { Some(copy_string(&args[0])) } else { None };
    let search_term = crate::cli::checks::optional_flag(flags, "search");
    CacheListing { cache_type, search_term, entries: Vec::new(), avg_lookup_time_us: 0 }
}

} // verus!
