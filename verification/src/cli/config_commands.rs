//! `reed config:*` commands: sync, show, validate and export Reed.toml.
//!
//! Whether a file exists, the decoded Reed.toml and the records of the
//! CSV files are read by the caller and handed in; the commands decide
//! what happens, what is written and what is answered.
use vstd::prelude::*;
use crate::cli::parser::strings_view;
use crate::config::toml_parser::{config_violation, validate_config, ReedConfig};
use crate::config::toml_parser::ServerEnvironmentConfig;
use crate::config::toml_to_csv::{
    env_names, environment_values_spec, is_sync_request, lemma_env_keys, lemma_server_keys_unique,
    project_values_spec, requests_write, server_values_spec, sync_toml_to_csv,
};
use crate::csv::store::{apply_spec, lemma_apply_distinct_writes, lemma_read_is_last_value, record_views};
use crate::reedstream::opt_str_view;
use crate::csv::record::CsvRecord;
use crate::lists::{distinct, last_value, record_keys, records_to_map};
use crate::reedstream::{is_validation_error, ErrorView, ReedError, ReedRequest, ReedResponse, ReedResult};
use crate::report::{bullets, join_seqs, join_strings, push_bullets, min_nat};
use crate::string_map::StringMap;
use crate::text::{
    bool_text, copy_string, decimal, push_char, push_str, push_u64, push_usize, split_on,
    split_to_strings, str_to_string, bool_to_string,
};

verus! {

/// The Reed.toml path: `--file`, else `Reed.toml`.
pub open spec fn config_path(flags: StringMap) -> Seq<char> {
    match flags.lookup("file"@) {
        Some(f) => f,
        None => "Reed.toml"@,
    }
}

pub fn config_file_path(flags: &StringMap) -> (r: String)
    requires
        flags.wf(),
    ensures
        r@ == config_path(*flags),
{
    match flags.get("file") {
        Some(f) => copy_string(f),
        None => str_to_string("Reed.toml"),
    }
}

pub open spec fn is_file_not_found(e: ReedError, path: Seq<char>) -> bool {
    e matches ReedError::FileNotFound { path: p, reason: r } && p@ == path && r@
        == "Reed.toml configuration file not found"@
}

pub open spec fn is_config_error_of(e: ReedError, component: Seq<char>, reason: Seq<char>) -> bool {
    e matches ReedError::ConfigError { component: c, reason: r } && c@ == component && r@ == reason
}

fn file_not_found(path: &String) -> (e: ReedError)
    ensures
        is_file_not_found(e, path@),
{
    ReedError::FileNotFound {
        path: copy_string(path),
        reason: str_to_string("Reed.toml configuration file not found"),
    }
}

/// The confirmation text that `config:sync` shows without `--force`.
pub open spec fn sync_warning(path: Seq<char>) -> Seq<char> {
    "\n⚠️  WARNING: This will OVERWRITE current configuration in CSV files!\n"@
        + "⚠️  Current values will be replaced with Reed.toml values.\n"@
        + "⚠️  Run 'reed config:export' first to backup current config.\n\n"@ + "Reading from: "@
        + path + "\n"@ + "Writing to: .reed/project.csv, .reed/server.csv\n\n"@ + "Continue? (y/N): "@
}

/// `e` is the validation error for the rule that the configuration breaks.
pub open spec fn is_violation_error(e: ReedError, c: ReedConfig) -> bool {
    config_violation(c) matches Some((f, v, k)) && is_validation_error(e, f, v, k)
}

/// Plans `reed config:sync [--file <path>] [--force]`.
///
/// Refused when the file does not exist, and (non-interactive) whenever
/// `--force` is missing; otherwise the decoded configuration, once valid,
/// gives the writes of `sync_toml_to_csv`.
pub fn config_sync(flags: &StringMap, file_exists: bool, parsed: ReedResult<ReedConfig>) -> (r:
    ReedResult<Vec<ReedRequest>>)
    requires
        flags.wf(),
    ensures
        !file_exists ==> (r matches Err(e) && is_file_not_found(e, config_path(*flags))),
        file_exists && flags.lookup("force"@) is None ==> (r matches Err(e) && is_config_error_of(
            e,
            "config:sync"@,
            sync_warning(config_path(*flags)) + "Use --force flag to skip confirmation"@,
        )),
        file_exists && flags.lookup("force"@) is Some ==> match parsed {
            Err(e) => r == Err::<Vec<ReedRequest>, ReedError>(e),
            Ok(c) => match config_violation(c) {
                Some(_) => r matches Err(e) && is_violation_error(e, c),
                None => r matches Ok(rs) && rs@.len() == project_values_spec(c).len()
                    + server_values_spec(c).len() && requests_write(
                    rs@.take(project_values_spec(c).len() as int),
                    "project"@,
                    project_values_spec(c),
                ) && requests_write(
                    rs@.skip(project_values_spec(c).len() as int),
                    "server"@,
                    server_values_spec(c),
                ),
            },
        },
{
    let path = config_file_path(flags);
    if !file_exists {
        return Err(file_not_found(&path));
    }
    if !flags.contains_key("force") {
        let mut reason = str_to_string("\n⚠️  WARNING: This will OVERWRITE current configuration in CSV files!\n");
        push_str(&mut reason, "⚠️  Current values will be replaced with Reed.toml values.\n");
        push_str(&mut reason, "⚠️  Run 'reed config:export' first to backup current config.\n\n");
        push_str(&mut reason, "Reading from: ");
        push_str(&mut reason, path.as_str());
        push_str(&mut reason, "\n");
        push_str(&mut reason, "Writing to: .reed/project.csv, .reed/server.csv\n\n");
        push_str(&mut reason, "Continue? (y/N): ");
        push_str(&mut reason, "Use --force flag to skip confirmation");
        return Err(ReedError::ConfigError { component: str_to_string("config:sync"), reason });
    }
    let config = match parsed {
        Err(e) => {
            return Err(e);
        },
        Ok(c) => c,
    };
    match validate_config(&config) {
        Err(e) => {
            return Err(e);
        },
        Ok(()) => {},
    }
    Ok(sync_toml_to_csv(&config))
}

/// The answer of `config:sync` once the keys were written.
pub open spec fn sync_report_text(keys: Seq<Seq<char>>) -> Seq<char> {
    "✓ Successfully synchronised "@ + decimal(keys.len()) + " configuration values from Reed.toml → CSV\n\n"@
        + "Updated keys:\n"@ + bullets(keys)
}

pub fn sync_report(updated_keys: &Vec<String>) -> (r: ReedResponse<String>)
    ensures
        r.data@ == sync_report_text(strings_view(updated_keys@)),
        r.source@ == "config:sync"@,
{
    let mut message = str_to_string("✓ Successfully synchronised ");
    push_usize(&mut message, updated_keys.len());
    push_str(&mut message, " configuration values from Reed.toml → CSV\n\n");
    push_str(&mut message, "Updated keys:\n");
    push_bullets(&mut message, updated_keys, updated_keys.len());
    proof {
        let v = strings_view(updated_keys@);
        assert(v.take(v.len() as int) =~= v);
    }
    ReedResponse::new(message, "config:sync")
}

// ---------------------------------------------------------------------------
// config:show
// ---------------------------------------------------------------------------

/// `out` followed by the `[project]` part of `config:show`.
pub open spec fn with_project_section(out: Seq<char>, c: ReedConfig) -> Seq<char> {
    let p = c.project;
    out + "[project]\n  name: "@ + p.name@ + "\n  url: "@ + p.url@ + "\n  description: "@ + (match p.description {
        Some(d) => d@,
        None => "(not set)"@,
    }) + "\n\n  [project.languages]\n    default: "@ + p.languages.default@ + "\n    available: "@
        + join_seqs(strings_view(p.languages.available@), ", "@) + "\n    fallback_chain: "@
        + bool_text(p.languages.fallback_chain) + "\n\n  [project.routing]\n    url_prefix: "@
        + bool_text(p.routing.url_prefix) + "\n    trailing_slash: "@ + bool_text(
        p.routing.trailing_slash,
    ) + "\n\n  [project.templates]\n    auto_reload: "@ + bool_text(p.templates.auto_reload)
        + "\n    cache_templates: "@ + bool_text(p.templates.cache_templates)
        + "\n\n  [project.assets]\n    css_minify: "@ + bool_text(p.assets.css_minify)
        + "\n    css_bundle: "@ + bool_text(p.assets.css_bundle)
        + "\n\n  [project.build]\n    clean_before: "@ + bool_text(p.build.clean_before)
        + "\n    parallel: "@ + bool_text(p.build.parallel)
}

/// `out` followed by the `[server]` part of `config:show`, with the
/// settings of the development environment.
pub open spec fn with_server_section(out: Seq<char>, c: ReedConfig) -> Seq<char> {
    let e = c.server.dev;
    out + "[server]\n  workers: "@ + decimal(c.server.workers as nat) + " (0 = auto)\n\n"@
        + "  Note: Server binding controlled by ENVIRONMENT in .env:\n"@
        + "    - ENVIRONMENT=dev  → localhost:8333 (HTTP)\n"@
        + "    - ENVIRONMENT=prod → /tmp/reed.sock (Unix socket)\n\n"@
        + "  [server.security]\n    enable_cors: "@ + bool_text(e.enable_cors)
        + "\n    allowed_origins: "@ + join_seqs(strings_view(e.allowed_origins@), ", "@)
        + "\n    enable_rate_limit: "@ + bool_text(e.enable_rate_limit) + "\n    requests_per_minute: "@
        + decimal(e.requests_per_minute as nat) + "\n\n  [server.performance]\n    enable_compression: "@
        + bool_text(e.enable_compression) + "\n    enable_http2: "@ + bool_text(e.enable_http2)
        + "\n    keep_alive: "@ + decimal(e.keep_alive as nat)
}

fn push_project_section(out: &mut String, c: &ReedConfig)
    ensures
        final(out)@ == with_project_section(old(out)@, *c),
{
    let ghost start = out@;
    let p = &c.project;
    push_str(out, "[project]\n  name: ");
    push_str(out, p.name.as_str());
    push_str(out, "\n  url: ");
    push_str(out, p.url.as_str());
    push_str(out, "\n  description: ");
    match &p.description {
        Some(d) => push_str(out, d.as_str()),
        None => push_str(out, "(not set)"),
    }
    push_str(out, "\n\n  [project.languages]\n    default: ");
    push_str(out, p.languages.default.as_str());
    push_str(out, "\n    available: ");
    let joined = join_strings(&p.languages.available, ", ");
    push_str(out, joined.as_str());
    push_str(out, "\n    fallback_chain: ");
    push_str(out, bool_to_string(p.languages.fallback_chain).as_str());
    push_str(out, "\n\n  [project.routing]\n    url_prefix: ");
    push_str(out, bool_to_string(p.routing.url_prefix).as_str());
    push_str(out, "\n    trailing_slash: ");
    push_str(out, bool_to_string(p.routing.trailing_slash).as_str());
    push_str(out, "\n\n  [project.templates]\n    auto_reload: ");
    push_str(out, bool_to_string(p.templates.auto_reload).as_str());
    push_str(out, "\n    cache_templates: ");
    push_str(out, bool_to_string(p.templates.cache_templates).as_str());
    push_str(out, "\n\n  [project.assets]\n    css_minify: ");
    push_str(out, bool_to_string(p.assets.css_minify).as_str());
    push_str(out, "\n    css_bundle: ");
    push_str(out, bool_to_string(p.assets.css_bundle).as_str());
    push_str(out, "\n\n  [project.build]\n    clean_before: ");
    push_str(out, bool_to_string(p.build.clean_before).as_str());
    push_str(out, "\n    parallel: ");
    push_str(out, bool_to_string(p.build.parallel).as_str());
}

fn push_server_section(out: &mut String, c: &ReedConfig)
    ensures
        final(out)@ == with_server_section(old(out)@, *c),
{
    let ghost start = out@;
    let e = &c.server.dev;
    push_str(out, "[server]\n  workers: ");
    push_u64(out, c.server.workers as u64);
    push_str(out, " (0 = auto)\n\n");
    push_str(out, "  Note: Server binding controlled by ENVIRONMENT in .env:\n");
    push_str(out, "    - ENVIRONMENT=dev  → localhost:8333 (HTTP)\n");
    push_str(out, "    - ENVIRONMENT=prod → /tmp/reed.sock (Unix socket)\n\n");
    push_str(out, "  [server.security]\n    enable_cors: ");
    push_str(out, bool_to_string(e.enable_cors).as_str());
    push_str(out, "\n    allowed_origins: ");
    let joined = join_strings(&e.allowed_origins, ", ");
    push_str(out, joined.as_str());
    push_str(out, "\n    enable_rate_limit: ");
    push_str(out, bool_to_string(e.enable_rate_limit).as_str());
    push_str(out, "\n    requests_per_minute: ");
    push_u64(out, e.requests_per_minute as u64);
    push_str(out, "\n\n  [server.performance]\n    enable_compression: ");
    push_str(out, bool_to_string(e.enable_compression).as_str());
    push_str(out, "\n    enable_http2: ");
    push_str(out, bool_to_string(e.enable_http2).as_str());
    push_str(out, "\n    keep_alive: ");
    push_u64(out, e.keep_alive);
}

/// The text of `config:show` for the chosen section (`None`: both).
pub open spec fn show_text(path: Seq<char>, section: Option<Seq<char>>, c: ReedConfig) -> Seq<char> {
    let head = "Reed.toml Configuration ("@ + path + ")\n\n"@;
    match section {
        Some(s) => if s == "project"@ {
            with_project_section(head, c)
        } else {
            with_server_section(head, c)
        },
        None => with_server_section(with_project_section(head, c) + "\n"@, c),
    }
}

/// Shows Reed.toml (`reed config:show [--file <path>] [--section <s>]`).
///
/// Refused when the file does not exist, when it could not be decoded, and
/// for a section other than `project` or `server`.
pub fn config_show(flags: &StringMap, file_exists: bool, parsed: ReedResult<ReedConfig>) -> (r:
    ReedResult<ReedResponse<String>>)
    requires
        flags.wf(),
    ensures
        !file_exists ==> (r matches Err(e) && is_file_not_found(e, config_path(*flags))),
        file_exists ==> match parsed {
            Err(e) => r == Err::<ReedResponse<String>, ReedError>(e),
            Ok(c) => match flags.lookup("section"@) {
                Some(s) => if s == "project"@ || s == "server"@ {
                    r matches Ok(resp) && resp.data@ == show_text(config_path(*flags), Some(s), c)
                        && resp.source@ == "config:show"@
                } else {
                    r matches Err(e) && is_config_error_of(
                        e,
                        "config:show"@,
                        "Unknown section: "@ + s + ". Valid sections: project, server"@,
                    )
                },
                None => r matches Ok(resp) && resp.data@ == show_text(config_path(*flags), None, c)
                    && resp.source@ == "config:show"@,
            },
        },
{
    let path = config_file_path(flags);
    if !file_exists {
        return Err(file_not_found(&path));
    }
    let config = match parsed {
        Err(e) => {
            return Err(e);
        },
        Ok(c) => c,
    };
    let mut message = str_to_string("Reed.toml Configuration (");
    push_str(&mut message, path.as_str());
    push_str(&mut message, ")\n\n");
    match flags.get("section") {
        Some(s) => {
            if crate::text::str_eq(s.as_str(), "project") {
                push_project_section(&mut message, &config);
            } else if crate::text::str_eq(s.as_str(), "server") {
                push_server_section(&mut message, &config);
            } else {
                let mut reason = str_to_string("Unknown section: ");
                push_str(&mut reason, s.as_str());
                push_str(&mut reason, ". Valid sections: project, server");
                return Err(ReedError::ConfigError { component: str_to_string("config:show"), reason });
            }
        },
        None => {
            push_project_section(&mut message, &config);
            push_str(&mut message, "\n");
            push_server_section(&mut message, &config);
        },
    }
    Ok(ReedResponse::new(message, "config:show"))
}

/// Validates Reed.toml (`reed config:validate [--file <path>]`).
pub fn config_validate(flags: &StringMap, file_exists: bool, parsed: ReedResult<ReedConfig>) -> (r:
    ReedResult<ReedResponse<String>>)
    requires
        flags.wf(),
    ensures
        !file_exists ==> (r matches Err(e) && is_file_not_found(e, config_path(*flags))),
        file_exists ==> match parsed {
            Err(e) => r == Err::<ReedResponse<String>, ReedError>(e),
            Ok(c) => match config_violation(c) {
                Some(_) => r matches Err(e) && is_violation_error(e, c),
                None => r matches Ok(resp) && resp.data@ == "✓ Reed.toml configuration is valid ("@
                    + config_path(*flags) + ")"@ && resp.source@ == "config:validate"@,
            },
        },
{
    let path = config_file_path(flags);
    if !file_exists {
        return Err(file_not_found(&path));
    }
    let config = match parsed {
        Err(e) => {
            return Err(e);
        },
        Ok(c) => c,
    };
    match validate_config(&config) {
        Err(e) => {
            return Err(e);
        },
        Ok(()) => {},
    }
    let mut message = str_to_string("✓ Reed.toml configuration is valid (");
    push_str(&mut message, path.as_str());
    push_str(&mut message, ")");
    Ok(ReedResponse::new(message, "config:validate"))
}

// ---------------------------------------------------------------------------
// config:export
// ---------------------------------------------------------------------------

/// What `format!("{:?}", s)` gives for a string slice: the text quoted,
/// with std's debug escapes.
pub uninterp spec fn debug_str_text(s: Seq<char>) -> Seq<char>;

/// `format!("{:?}", s)` for a string slice (std's `Debug for str`).
///
/// Trusted: the result is named `debug_str_text(s)`, a function of `s`
/// alone; how std escapes characters is not restated here.
#[verifier::external_body]
fn debug_str(s: &str) -> (r: String)
    ensures
        r@ == debug_str_text(s@),
{
    format!("{:?}", s)
}

/// A list of strings as `{:?}` prints a `Vec<&str>`: `["a", "b"]`.
pub open spec fn debug_list_text(parts: Seq<Seq<char>>) -> Seq<char> {
    "["@ + join_seqs(parts.map_values(|p: Seq<char>| debug_str_text(p)), ", "@) + "]"@
}

fn push_debug_list(out: &mut String, parts: &Vec<String>)
    ensures
        final(out)@ == old(out)@ + debug_list_text(strings_view(parts@)),
{
    let ghost start = out@;
    let ghost items = strings_view(parts@).map_values(|p: Seq<char>| debug_str_text(p));
    let mut quoted: Vec<String> = Vec::new();
    let mut i: usize = 0;
    while i < parts.len()
        invariant
            i <= parts@.len(),
            items == strings_view(parts@).map_values(|p: Seq<char>| debug_str_text(p)),
            strings_view(quoted@) == items.take(i as int),
        decreases parts.len() - i,
    {
        let q = debug_str(parts[i].as_str());
        let ghost before = quoted@;
        quoted.push(q);
        assert(strings_view(quoted@) =~= strings_view(before).push(q@));
        assert(strings_view(quoted@) =~= items.take(i + 1));
        i += 1;
    }
    assert(items.take(i as int) =~= items);
    push_str(out, "[");
    let joined = join_strings(&quoted, ", ");
    push_str(out, joined.as_str());
    push_str(out, "]");
    assert(out@ =~= start + debug_list_text(strings_view(parts@)));
}

/// `out` followed by `name = value` (quoted when `quoted`), when the value
/// is present.
pub open spec fn value_line(out: Seq<char>, v: Option<Seq<char>>, name: Seq<char>, quoted: bool) -> Seq<
    char,
> {
    match v {
        Some(x) => if quoted {
            out + name + " = \""@ + x + "\"\n"@
        } else {
            out + name + " = "@ + x + "\n"@
        },
        None => out,
    }
}

/// `out` followed by `name = [...]` for the comma-separated value, when
/// present.
pub open spec fn list_line(out: Seq<char>, v: Option<Seq<char>>, name: Seq<char>) -> Seq<char> {
    match v {
        Some(x) => out + name + " = "@ + debug_list_text(split_on(x, ',')) + "\n"@,
        None => out,
    }
}

fn push_value_line(out: &mut String, m: &StringMap, key: &str, name: &str, quoted: bool)
    requires
        m.wf(),
    ensures
        final(out)@ == value_line(old(out)@, m.lookup(key@), name@, quoted),
{
    match m.get(key) {
        Some(v) => {
            push_str(out, name);
            if quoted {
                push_str(out, " = \"");
                push_str(out, v.as_str());
                push_str(out, "\"\n");
            } else {
                push_str(out, " = ");
                push_str(out, v.as_str());
                push_str(out, "\n");
            }
        },
        None => {},
    }
}

fn push_list_line(out: &mut String, m: &StringMap, key: &str, name: &str)
    requires
        m.wf(),
    ensures
        final(out)@ == list_line(old(out)@, m.lookup(key@), name@),
{
    match m.get(key) {
        Some(v) => {
            push_str(out, name);
            push_str(out, " = ");
            let parts = split_to_strings(v.as_str(), ',');
            assert(strings_view(parts@) =~= split_on(v@, ','));
            push_debug_list(out, &parts);
            push_str(out, "\n");
        },
        None => {},
    }
}

pub open spec fn header_if(out: Seq<char>, m: StringMap, key: Seq<char>, header: Seq<char>) -> Seq<char> {
    if m.lookup(key) is Some { out + header } else { out }
}

/// `out` followed by a two-setting table of `[project]`, present when its
/// first key is.
pub open spec fn with_pair_table(
    out: Seq<char>,
    m: StringMap,
    header: Seq<char>,
    k1: Seq<char>,
    n1: Seq<char>,
    k2: Seq<char>,
    n2: Seq<char>,
) -> Seq<char> {
    if m.lookup(k1) is Some {
        value_line(value_line(out + header, m.lookup(k1), n1, false), m.lookup(k2), n2, false) + "\n"@
    } else {
        out
    }
}

fn push_pair_table(out: &mut String, m: &StringMap, header: &str, k1: &str, n1: &str, k2: &str, n2: &str)
    requires
        m.wf(),
    ensures
        final(out)@ == with_pair_table(old(out)@, *m, header@, k1@, n1@, k2@, n2@),
{
    if m.contains_key(k1) {
        push_str(out, header);
        push_value_line(out, m, k1, n1, false);
        push_value_line(out, m, k2, n2, false);
        push_str(out, "\n");
    }
}

/// `out` followed by the `[project]` part of an export.
pub open spec fn with_project_export(out: Seq<char>, m: StringMap) -> Seq<char> {
    if m.entries().len() == 0 {
        out
    } else {
        let o1 = value_line(
            value_line(
                value_line(out + "[project]\n"@, m.lookup("project.name"@), "name"@, true),
                m.lookup("project.url"@),
                "url"@,
                true,
            ),
            m.lookup("project.description"@),
            "description"@,
            true,
        ) + "\n"@ + "[project.languages]\n"@;
        let o2 = value_line(
            list_line(
                value_line(o1, m.lookup("project.languages.default"@), "default"@, true),
                m.lookup("project.languages.available"@),
                "available"@,
            ),
            m.lookup("project.languages.fallback_chain"@),
            "fallback_chain"@,
            false,
        ) + "\n"@;
        let o3 = with_pair_table(
            o2,
            m,
            "[project.routing]\n"@,
            "project.routing.url_prefix"@,
            "url_prefix"@,
            "project.routing.trailing_slash"@,
            "trailing_slash"@,
        );
        let o4 = with_pair_table(
            o3,
            m,
            "[project.templates]\n"@,
            "project.templates.auto_reload"@,
            "auto_reload"@,
            "project.templates.cache_templates"@,
            "cache_templates"@,
        );
        let o5 = with_pair_table(
            o4,
            m,
            "[project.assets]\n"@,
            "project.assets.css_minify"@,
            "css_minify"@,
            "project.assets.css_bundle"@,
            "css_bundle"@,
        );
        with_pair_table(
            o5,
            m,
            "[project.build]\n"@,
            "project.build.clean_before"@,
            "clean_before"@,
            "project.build.parallel"@,
            "parallel"@,
        )
    }
}

fn push_project_export(out: &mut String, m: &StringMap)
    requires
        m.wf(),
    ensures
        final(out)@ == with_project_export(old(out)@, *m),
{
    if !m.is_empty() {
        push_str(out, "[project]\n");
        push_value_line(out, m, "project.name", "name", true);
        push_value_line(out, m, "project.url", "url", true);
        push_value_line(out, m, "project.description", "description", true);
        push_str(out, "\n");
        push_str(out, "[project.languages]\n");
        push_value_line(out, m, "project.languages.default", "default", true);
        push_list_line(out, m, "project.languages.available", "available");
        push_value_line(out, m, "project.languages.fallback_chain", "fallback_chain", false);
        push_str(out, "\n");
        push_pair_table(out, m, "[project.routing]\n", "project.routing.url_prefix", "url_prefix", "project.routing.trailing_slash", "trailing_slash");
        push_pair_table(out, m, "[project.templates]\n", "project.templates.auto_reload", "auto_reload", "project.templates.cache_templates", "cache_templates");
        push_pair_table(out, m, "[project.assets]\n", "project.assets.css_minify", "css_minify", "project.assets.css_bundle", "css_bundle");
        push_pair_table(out, m, "[project.build]\n", "project.build.clean_before", "clean_before", "project.build.parallel", "parallel");
    }
}

/// `out` followed by `allowed_origins = [...]` (`[]` for an empty value).
pub open spec fn origins_line(out: Seq<char>, v: Option<Seq<char>>) -> Seq<char> {
    match v {
        Some(x) => if x.len() == 0 {
            out + "allowed_origins = []\n"@
        } else {
            out + "allowed_origins = "@ + debug_list_text(split_on(x, ',')) + "\n"@
        },
        None => out,
    }
}

/// Whether the map holds any setting of the environment under `prefix`.
pub open spec fn env_present(m: StringMap, prefix: Seq<char>) -> bool {
    ||| m.lookup(prefix + "domain"@) is Some
    ||| m.lookup(prefix + "io"@) is Some
    ||| m.lookup(prefix + "enable_cors"@) is Some
    ||| m.lookup(prefix + "allowed_origins"@) is Some
    ||| m.lookup(prefix + "enable_rate_limit"@) is Some
    ||| m.lookup(prefix + "requests_per_minute"@) is Some
    ||| m.lookup(prefix + "enable_compression"@) is Some
    ||| m.lookup(prefix + "enable_http2"@) is Some
    ||| m.lookup(prefix + "keep_alive"@) is Some
}

/// `out` followed by the table of one server environment (`[server.dev]`
/// or `[server.prod]`), present when any of its settings is: each setting
/// that the map holds under `prefix`, in the order of Reed.toml.
pub open spec fn with_env_export(out: Seq<char>, m: StringMap, header: Seq<char>, prefix: Seq<char>) -> Seq<char> {
    if env_present(m, prefix) {
        let o1 = value_line(out + header, m.lookup(prefix + "domain"@), "domain"@, true);
        let o2 = value_line(o1, m.lookup(prefix + "io"@), "io"@, true);
        let o3 = value_line(o2, m.lookup(prefix + "enable_cors"@), "enable_cors"@, false);
        let o4 = origins_line(o3, m.lookup(prefix + "allowed_origins"@));
        let o5 = value_line(o4, m.lookup(prefix + "enable_rate_limit"@), "enable_rate_limit"@, false);
        let o6 = value_line(o5, m.lookup(prefix + "requests_per_minute"@), "requests_per_minute"@, false);
        let o7 = value_line(o6, m.lookup(prefix + "enable_compression"@), "enable_compression"@, false);
        let o8 = value_line(o7, m.lookup(prefix + "enable_http2"@), "enable_http2"@, false);
        value_line(o8, m.lookup(prefix + "keep_alive"@), "keep_alive"@, false) + "\n"@
    } else {
        out
    }
}

/// `out` followed by the `[server]` part of an export: the worker count,
/// then the development and the production environment.
pub open spec fn with_server_export(out: Seq<char>, m: StringMap) -> Seq<char> {
    if m.entries().len() == 0 {
        out
    } else {
        let o1 = value_line(out + "[server]\n"@, m.lookup("server.workers"@), "workers"@, false) + "\n"@;
        with_env_export(
            with_env_export(o1, m, "[server.dev]\n"@, "server.dev."@),
            m,
            "[server.prod]\n"@,
            "server.prod."@,
        )
    }
}

/// `prefix` followed by `name`.
fn key_of(prefix: &str, name: &str) -> (r: String)
    ensures
        r@ == prefix@ + name@,
{
    let mut r = str_to_string(prefix);
    push_str(&mut r, name);
    r
}

fn push_origins_line(out: &mut String, m: &StringMap, key: &str)
    requires
        m.wf(),
    ensures
        final(out)@ == origins_line(old(out)@, m.lookup(key@)),
{
    match m.get(key) {
        Some(v) => {
            if v.as_str().is_empty() {
                push_str(out, "allowed_origins = []\n");
            } else {
                push_str(out, "allowed_origins = ");
                let parts = split_to_strings(v.as_str(), ',');
                assert(strings_view(parts@) =~= split_on(v@, ','));
                push_debug_list(out, &parts);
                push_str(out, "\n");
            }
        },
        None => {},
    }
}

fn push_env_export(out: &mut String, m: &StringMap, header: &str, prefix: &str)
    requires
        m.wf(),
    ensures
        final(out)@ == with_env_export(old(out)@, *m, header@, prefix@),
{
    let k_domain = key_of(prefix, "domain");
    let k_io = key_of(prefix, "io");
    let k_cors = key_of(prefix, "enable_cors");
    let k_origins = key_of(prefix, "allowed_origins");
    let k_rate = key_of(prefix, "enable_rate_limit");
    let k_rpm = key_of(prefix, "requests_per_minute");
    let k_comp = key_of(prefix, "enable_compression");
    let k_http2 = key_of(prefix, "enable_http2");
    let k_keep = key_of(prefix, "keep_alive");
    let present = m.contains_key(k_domain.as_str()) || m.contains_key(k_io.as_str())
        || m.contains_key(k_cors.as_str()) || m.contains_key(k_origins.as_str())
        || m.contains_key(k_rate.as_str()) || m.contains_key(k_rpm.as_str())
        || m.contains_key(k_comp.as_str()) || m.contains_key(k_http2.as_str())
        || m.contains_key(k_keep.as_str());
    if present {
        push_str(out, header);
        push_value_line(out, m, k_domain.as_str(), "domain", true);
        push_value_line(out, m, k_io.as_str(), "io", true);
        push_value_line(out, m, k_cors.as_str(), "enable_cors", false);
        push_origins_line(out, m, k_origins.as_str());
        push_value_line(out, m, k_rate.as_str(), "enable_rate_limit", false);
        push_value_line(out, m, k_rpm.as_str(), "requests_per_minute", false);
        push_value_line(out, m, k_comp.as_str(), "enable_compression", false);
        push_value_line(out, m, k_http2.as_str(), "enable_http2", false);
        push_value_line(out, m, k_keep.as_str(), "keep_alive", false);
        push_str(out, "\n");
    }
}

fn push_server_export(out: &mut String, m: &StringMap)
    requires
        m.wf(),
    ensures
        final(out)@ == with_server_export(old(out)@, *m),
{
    if !m.is_empty() {
        push_str(out, "[server]\n");
        push_value_line(out, m, "server.workers", "workers", false);
        push_str(out, "\n");
        push_env_export(out, m, "[server.dev]\n", "server.dev.");
        push_env_export(out, m, "[server.prod]\n", "server.prod.");
    }
}

pub open spec fn export_header() -> Seq<char> {
    "# Reed.toml - Exported Configuration\n"@ + "# Generated by: reed config:export\n"@
        + "# Source: .reed/*.csv files\n\n"@
}

/// The TOML text that `config:export` writes for the two maps of values.
pub open spec fn export_text(project: StringMap, server: StringMap) -> Seq<char> {
    with_server_export(with_project_export(export_header(), project), server)
}

/// The TOML text of the project and server values.
pub fn export_toml_content(project: &StringMap, server: &StringMap) -> (r: String)
    requires
        project.wf(),
        server.wf(),
    ensures
        r@ == export_text(*project, *server),
{
    let mut content = str_to_string("# Reed.toml - Exported Configuration\n");
    push_str(&mut content, "# Generated by: reed config:export\n");
    push_str(&mut content, "# Source: .reed/*.csv files\n\n");
    push_project_export(&mut content, project);
    push_server_export(&mut content, server);
    content
}

/// The records of a file that was read, else none.
pub open spec fn records_of(f: Option<ReedResult<Vec<CsvRecord>>>) -> Seq<CsvRecord> {
    match f {
        Some(Ok(v)) => v@,
        _ => Seq::empty(),
    }
}

/// The map of a file's records: each key holds the value of its last
/// record.
pub open spec fn holds_records(m: StringMap, rs: Seq<CsvRecord>) -> bool {
    &&& m.wf()
    &&& forall|k: Seq<char>| #[trigger] m.lookup(k) == last_value(rs, k)
    &&& m.entries().len() == distinct(record_keys(rs)).len()
}

/// `out` followed by the table that `config:export` writes for a server
/// environment whose settings `config:sync` stored: every setting, each as
/// a `name = value` line.
pub open spec fn env_export_after(out: Seq<char>, header: Seq<char>, e: ServerEnvironmentConfig) -> Seq<char> {
    let o1 = value_line(out + header, Some(e.domain@), "domain"@, true);
    let o2 = value_line(o1, Some(e.io@), "io"@, true);
    let o3 = value_line(o2, Some(bool_text(e.enable_cors)), "enable_cors"@, false);
    let o4 = origins_line(o3, Some(join_seqs(strings_view(e.allowed_origins@), ","@)));
    let o5 = value_line(o4, Some(bool_text(e.enable_rate_limit)), "enable_rate_limit"@, false);
    let o6 = value_line(o5, Some(decimal(e.requests_per_minute as nat)), "requests_per_minute"@, false);
    let o7 = value_line(o6, Some(bool_text(e.enable_compression)), "enable_compression"@, false);
    let o8 = value_line(o7, Some(bool_text(e.enable_http2)), "enable_http2"@, false);
    value_line(o8, Some(decimal(e.keep_alive as nat)), "keep_alive"@, false) + "\n"@
}

/// `out` followed by the `[server]` part that `config:export` writes for
/// the server section of `c` once `config:sync` stored it: the workers,
/// then every development and every production setting.
pub open spec fn server_export_after(out: Seq<char>, c: ReedConfig) -> Seq<char> {
    let o1 = value_line(out + "[server]\n"@, Some(decimal(c.server.workers as nat)), "workers"@, false) + "\n"@;
    env_export_after(env_export_after(o1, "[server.dev]\n"@, c.server.dev), "[server.prod]\n"@, c.server.prod)
}

/// After the sync writes were applied, the map read back from the file
/// holds every synced value.
proof fn lemma_synced_lookup(
    c: ReedConfig,
    rs: Seq<CsvRecord>,
    requests: Seq<ReedRequest>,
    written: Seq<CsvRecord>,
    sm: StringMap,
    i: int,
)
    requires
        requests_write(requests, "server"@, server_values_spec(c)),
        record_views(written) == apply_spec(record_views(rs), requests),
        holds_records(sm, written),
        0 <= i < server_values_spec(c).len(),
    ensures
        sm.lookup(server_values_spec(c)[i].0) == Some(server_values_spec(c)[i].1),
{
    let kvs = server_values_spec(c);
    lemma_server_keys_unique(c);
    assert forall|j: int| 0 <= j < requests.len() implies (#[trigger] requests[j]).key@ == kvs[j].0
        && opt_str_view(requests[j].value) == Some(kvs[j].1) by {
        assert(is_sync_request(requests[j], "server"@, kvs[j]));
    }
    lemma_apply_distinct_writes(record_views(rs), requests, kvs, i);
    lemma_read_is_last_value(written, kvs[i].0);
}

/// A backup round trip for the server settings: once `config:sync` wrote
/// the `[server]` section of `c` into `.reed/server.csv` (the writes of
/// `sync_toml_to_csv`, applied to whatever the file held), the `[server]`
/// part that `config:export` writes from that file carries every synced
/// value, the development and production settings included, as
/// `server_export_after` writes them out.
pub proof fn lemma_export_carries_synced_server(
    c: ReedConfig,
    rs: Seq<CsvRecord>,
    requests: Seq<ReedRequest>,
    written: Seq<CsvRecord>,
    sm: StringMap,
    out: Seq<char>,
)
    requires
        requests_write(requests, "server"@, server_values_spec(c)),
        record_views(written) == apply_spec(record_views(rs), requests),
        holds_records(sm, written),
    ensures
        with_server_export(out, sm) == server_export_after(out, c),
{
    let kvs = server_values_spec(c);
    let d = c.server.dev;
    let p = c.server.prod;
    lemma_env_keys("server.dev."@, d);
    lemma_env_keys("server.prod."@, p);
    let dv = environment_values_spec("server.dev."@, d);
    let pv = environment_values_spec("server.prod."@, p);
    assert(kvs == seq![("server.workers"@, decimal(c.server.workers as nat))] + dv + pv);
    assert forall|k: int| 0 <= k < 9 implies #[trigger] sm.lookup("server.dev."@ + env_names()[k]) == Some(dv[k].1) by {
        assert(kvs[1 + k] == dv[k]);
        lemma_synced_lookup(c, rs, requests, written, sm, 1 + k);
    }
    assert forall|k: int| 0 <= k < 9 implies #[trigger] sm.lookup("server.prod."@ + env_names()[k]) == Some(pv[k].1) by {
        assert(kvs[10 + k] == pv[k]);
        lemma_synced_lookup(c, rs, requests, written, sm, 10 + k);
    }
    lemma_synced_lookup(c, rs, requests, written, sm, 0);
    assert(sm.lookup("server.workers"@) == Some(decimal(c.server.workers as nat)));
    assert(sm.entries().len() != 0);
    let o1 = value_line(out + "[server]\n"@, sm.lookup("server.workers"@), "workers"@, false) + "\n"@;
    lemma_env_export(o1, sm, "[server.dev]\n"@, "server.dev."@, d);
    let o2 = with_env_export(o1, sm, "[server.dev]\n"@, "server.dev."@);
    lemma_env_export(o2, sm, "[server.prod]\n"@, "server.prod."@, p);
}

proof fn lemma_env_export(out: Seq<char>, sm: StringMap, header: Seq<char>, prefix: Seq<char>, e: ServerEnvironmentConfig)
    requires
        forall|k: int| 0 <= k < 9 ==> #[trigger] sm.lookup(prefix + env_names()[k]) == Some(
            environment_values_spec(prefix, e)[k].1,
        ),
    ensures
        with_env_export(out, sm, header, prefix) == env_export_after(out, header, e),
{
    assert(env_names()[0] == "domain"@);
    assert(env_names()[1] == "io"@);
    assert(env_names()[2] == "enable_cors"@);
    assert(env_names()[3] == "allowed_origins"@);
    assert(env_names()[4] == "enable_rate_limit"@);
    assert(env_names()[5] == "requests_per_minute"@);
    assert(env_names()[6] == "enable_compression"@);
    assert(env_names()[7] == "enable_http2"@);
    assert(env_names()[8] == "keep_alive"@);
    assert(sm.lookup(prefix + env_names()[0]) == Some(e.domain@));
    assert(sm.lookup(prefix + env_names()[1]) == Some(e.io@));
    assert(sm.lookup(prefix + env_names()[2]) == Some(bool_text(e.enable_cors)));
    assert(sm.lookup(prefix + env_names()[3]) == Some(join_seqs(strings_view(e.allowed_origins@), ","@)));
    assert(sm.lookup(prefix + env_names()[4]) == Some(bool_text(e.enable_rate_limit)));
    assert(sm.lookup(prefix + env_names()[5]) == Some(decimal(e.requests_per_minute as nat)));
    assert(sm.lookup(prefix + env_names()[6]) == Some(bool_text(e.enable_compression)));
    assert(sm.lookup(prefix + env_names()[7]) == Some(bool_text(e.enable_http2)));
    assert(sm.lookup(prefix + env_names()[8]) == Some(decimal(e.keep_alive as nat)));
    assert(env_present(sm, prefix));
}

/// Plans `reed config:export [--file <path>] [--force]` from the records
/// of `.reed/project.csv` and `.reed/server.csv` (`None`: file absent).
///
/// Refused when the target exists without `--force`; a file that could not
/// be read is the error. Otherwise gives the TOML text to write and the
/// answer, which counts the distinct keys exported.
pub fn config_export(
    flags: &StringMap,
    file_exists: bool,
    project: Option<ReedResult<Vec<CsvRecord>>>,
    server: Option<ReedResult<Vec<CsvRecord>>>,
) -> (r: ReedResult<(String, ReedResponse<String>)>)
    requires
        flags.wf(),
        records_of(project).len() + records_of(server).len() <= usize::MAX,
    ensures
        file_exists && flags.lookup("force"@) is None ==> (r matches Err(e) && is_config_error_of(
            e,
            "config:export"@,
            "File already exists: "@ + config_path(*flags) + ". Use --force to overwrite"@,
        )),
        !(file_exists && flags.lookup("force"@) is None) ==> match (project, server) {
            (Some(Err(e)), _) => r == Err::<(String, ReedResponse<String>), ReedError>(e),
            (_, Some(Err(e))) => r == Err::<(String, ReedResponse<String>), ReedError>(e),
            _ => r matches Ok((content, resp)) && exists|pm: StringMap, sm: StringMap|
                holds_records(pm, records_of(project)) && holds_records(sm, records_of(server))
                    && content@ == export_text(pm, sm) && resp.data@ == "✓ Successfully exported "@
                    + decimal(
                    (distinct(record_keys(records_of(project))).len() + distinct(
                        record_keys(records_of(server)),
                    ).len()) as nat,
                ) + " configuration values from CSV → Reed.toml\n"@ + "Output file: "@ + config_path(
                    *flags,
                ) && resp.source@ == "config:export"@,
        },
{
    let path = config_file_path(flags);
    if file_exists && !flags.contains_key("force") {
        let mut reason = str_to_string("File already exists: ");
        push_str(&mut reason, path.as_str());
        push_str(&mut reason, ". Use --force to overwrite");
        return Err(ReedError::ConfigError { component: str_to_string("config:export"), reason });
    }
    let ghost pin = project;
    let ghost sin = server;
    let project_records: Vec<CsvRecord> = match project {
        Some(Err(e)) => {
            return Err(e);
        },
        Some(Ok(v)) => v,
        None => Vec::new(),
    };
    let server_records: Vec<CsvRecord> = match server {
        Some(Err(e)) => {
            return Err(e);
        },
        Some(Ok(v)) => v,
        None => Vec::new(),
    };
    assert(project_records@ == records_of(pin));
    assert(server_records@ == records_of(sin));
    let pm = records_to_map(&project_records);
    let sm = records_to_map(&server_records);
    let content = export_toml_content(&pm, &sm);
    proof {
        crate::cli::validation_commands::lemma_distinct_len(record_keys(project_records@));
        crate::cli::validation_commands::lemma_distinct_len(record_keys(server_records@));
    }
    let total = pm.len() + sm.len();
    let mut message = str_to_string("✓ Successfully exported ");
    push_usize(&mut message, total);
    push_str(&mut message, " configuration values from CSV → Reed.toml\n");
    push_str(&mut message, "Output file: ");
    push_str(&mut message, path.as_str());
    let resp = ReedResponse::new(message, "config:export");
    assert(holds_records(pm, records_of(pin)) && holds_records(sm, records_of(sin)));
    Ok((content, resp))
}

} // verus!
