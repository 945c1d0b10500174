//! The CSV values that Reed.toml is synchronised to.
//!
//! The `[project]` section goes to `.reed/project.csv` and the `[server]`
//! section to `.reed/server.csv`, one key per setting; each write is a
//! `ReedRequest` whose context names the file.
use vstd::prelude::*;
use crate::cli::parser::strings_view;
use crate::config::toml_parser::{ReedConfig, ServerEnvironmentConfig};
use crate::csv::record::CsvRecord;
use crate::reedstream::{opt_str_view, ReedRequest};
use crate::report::{join_seqs, join_strings};
use crate::text::{bool_text, bool_to_string, copy_string, decimal, push_str, str_to_string, u64_to_string};

verus! {

pub type KeyValues = Seq<(Seq<char>, Seq<char>)>;

/// The `[project]` settings as key/value pairs, in the order written.
pub open spec fn project_values_spec(c: ReedConfig) -> KeyValues {
    let p = c.project;
    let base = seq![
        ("project.name"@, p.name@),
        ("project.url"@, p.url@),
        ("project.languages.default"@, p.languages.default@),
        ("project.languages.available"@, join_seqs(strings_view(p.languages.available@), ","@)),
        ("project.languages.fallback_chain"@, bool_text(p.languages.fallback_chain)),
        ("project.routing.url_prefix"@, bool_text(p.routing.url_prefix)),
        ("project.routing.trailing_slash"@, bool_text(p.routing.trailing_slash)),
        ("project.templates.auto_reload"@, bool_text(p.templates.auto_reload)),
        ("project.templates.cache_templates"@, bool_text(p.templates.cache_templates)),
        ("project.assets.css_minify"@, bool_text(p.assets.css_minify)),
        ("project.assets.css_bundle"@, bool_text(p.assets.css_bundle)),
        ("project.build.clean_before"@, bool_text(p.build.clean_before)),
        ("project.build.parallel"@, bool_text(p.build.parallel)),
    ];
    match p.description {
        Some(d) => base.push(("project.description"@, d@)),
        None => base,
    }
}

/// The settings of one server environment, keys prefixed by `prefix`.
pub open spec fn environment_values_spec(prefix: Seq<char>, e: ServerEnvironmentConfig) -> KeyValues {
    seq![
        (prefix + "domain"@, e.domain@),
        (prefix + "io"@, e.io@),
        (prefix + "enable_cors"@, bool_text(e.enable_cors)),
        (prefix + "allowed_origins"@, join_seqs(strings_view(e.allowed_origins@), ","@)),
        (prefix + "enable_rate_limit"@, bool_text(e.enable_rate_limit)),
        (prefix + "requests_per_minute"@, decimal(e.requests_per_minute as nat)),
        (prefix + "enable_compression"@, bool_text(e.enable_compression)),
        (prefix + "enable_http2"@, bool_text(e.enable_http2)),
        (prefix + "keep_alive"@, decimal(e.keep_alive as nat)),
    ]
}

/// The `[server]` settings as key/value pairs, in the order written.
pub open spec fn server_values_spec(c: ReedConfig) -> KeyValues {
    seq![("server.workers"@, decimal(c.server.workers as nat))] + environment_values_spec(
        "server.dev."@,
        c.server.dev,
    ) + environment_values_spec("server.prod."@, c.server.prod)
}

/// The names of one environment's settings, in the order written.
pub open spec fn env_names() -> Seq<Seq<char>> {
    seq![
        "domain"@, "io"@, "enable_cors"@, "allowed_origins"@, "enable_rate_limit"@, "requests_per_minute"@,
        "enable_compression"@, "enable_http2"@, "keep_alive"@,
    ]
}

/// The keys of an environment are its prefix followed by the setting names.
pub proof fn lemma_env_keys(prefix: Seq<char>, e: ServerEnvironmentConfig)
    ensures
        environment_values_spec(prefix, e).len() == 9,
        forall|i: int| 0 <= i < 9 ==> #[trigger] environment_values_spec(prefix, e)[i].0 == prefix + env_names()[i],
{
}

proof fn lemma_env_names_lengths()
    ensures
        forall|i: int, j: int| 0 <= i < j < 9 ==> (#[trigger] env_names()[i]).len() != (#[trigger] env_names()[j]).len(),
{
    reveal_strlit("domain");
    reveal_strlit("io");
    reveal_strlit("enable_cors");
    reveal_strlit("allowed_origins");
    reveal_strlit("enable_rate_limit");
    reveal_strlit("requests_per_minute");
    reveal_strlit("enable_compression");
    reveal_strlit("enable_http2");
    reveal_strlit("keep_alive");
}

/// The keys of one environment's settings are distinct.
proof fn lemma_env_keys_unique(prefix: Seq<char>, e: ServerEnvironmentConfig)
    ensures
        crate::string_map::keys_unique(environment_values_spec(prefix, e)),
{
    lemma_env_keys(prefix, e);
    lemma_env_names_lengths();
    let s = environment_values_spec(prefix, e);
    assert forall|i: int, j: int| 0 <= i < j < s.len() implies s[i].0 != s[j].0 by {
        assert(s[i].0 == prefix + env_names()[i]);
        assert(s[j].0 == prefix + env_names()[j]);
        assert(env_names()[i].len() != env_names()[j].len());
    }
}

/// Every key of an environment under `prefix` carries the prefix's
/// character at index 7.
proof fn lemma_env_key_char(prefix: Seq<char>, e: ServerEnvironmentConfig, i: int)
    requires
        prefix.len() > 7,
        0 <= i < 9,
    ensures
        environment_values_spec(prefix, e)[i].0.len() > 7,
        environment_values_spec(prefix, e)[i].0[7] == prefix[7],
{
    lemma_env_keys(prefix, e);
}

/// The keys that synchronising the `[server]` section writes are distinct.
pub proof fn lemma_server_keys_unique(c: ReedConfig)
    ensures
        crate::string_map::keys_unique(server_values_spec(c)),
{
    reveal_strlit("server.workers");
    reveal_strlit("server.dev.");
    reveal_strlit("server.prod.");
    let w = seq![("server.workers"@, decimal(c.server.workers as nat))];
    let d = environment_values_spec("server.dev."@, c.server.dev);
    let p = environment_values_spec("server.prod."@, c.server.prod);
    let s = server_values_spec(c);
    lemma_env_keys_unique("server.dev."@, c.server.dev);
    lemma_env_keys_unique("server.prod."@, c.server.prod);
    lemma_env_keys("server.dev."@, c.server.dev);
    lemma_env_keys("server.prod."@, c.server.prod);
    assert(s == w + d + p);
    assert forall|i: int, j: int| 0 <= i < j < s.len() implies s[i].0 != s[j].0 by {
        if i == 0 {
            if j <= 9 {
                lemma_env_key_char("server.dev."@, c.server.dev, j - 1);
                assert(s[j] == d[j - 1]);
            } else {
                lemma_env_key_char("server.prod."@, c.server.prod, j - 10);
                assert(s[j] == p[j - 10]);
            }
            assert(s[0].0[7] == 'w');
        } else if j <= 9 {
            assert(s[i] == d[i - 1] && s[j] == d[j - 1]);
        } else if i >= 10 {
            assert(s[i] == p[i - 10] && s[j] == p[j - 10]);
        } else {
            assert(s[i] == d[i - 1] && s[j] == p[j - 10]);
            lemma_env_key_char("server.dev."@, c.server.dev, i - 1);
            lemma_env_key_char("server.prod."@, c.server.prod, j - 10);
        }
    }
}

/// `r` writes `value` under `key` to the CSV file of `context`, described
/// as coming from Reed.toml.
pub open spec fn is_sync_request(r: ReedRequest, context: Seq<char>, kv: (Seq<char>, Seq<char>)) -> bool {
    &&& r.key@ == kv.0
    &&& r.language is None
    &&& r.environment is None
    &&& opt_str_view(r.context) == Some(context)
    &&& opt_str_view(r.value) == Some(kv.1)
    &&& opt_str_view(r.description) == Some(kv.0 + " from Reed.toml"@)
}

/// The requests write exactly the pairs, in order, to the file of `context`.
pub open spec fn requests_write(rs: Seq<ReedRequest>, context: Seq<char>, kvs: KeyValues) -> bool {
    &&& rs.len() == kvs.len()
    &&& forall|i: int| 0 <= i < rs.len() ==> is_sync_request(#[trigger] rs[i], context, kvs[i])
}

fn push_pair(v: &mut Vec<(String, String)>, key: &str, value: String)
    ensures
        final(v)@.len() == old(v)@.len() + 1,
        forall|i: int| 0 <= i < old(v)@.len() ==> final(v)@[i] == old(v)@[i],
        final(v)@.last().0@ == key@,
        final(v)@.last().1 == value,
{
    v.push((str_to_string(key), value));
}

pub open spec fn pairs_view(v: Seq<(String, String)>) -> KeyValues {
    v.map_values(|p: (String, String)| (p.0@, p.1@))
}

/// The `[project]` settings as key/value pairs.
pub fn project_values(config: &ReedConfig) -> (r: Vec<(String, String)>)
    ensures
        pairs_view(r@) == project_values_spec(*config),
{
    let p = &config.project;
    let mut v: Vec<(String, String)> = Vec::new();
    push_pair(&mut v, "project.name", copy_string(&p.name));
    push_pair(&mut v, "project.url", copy_string(&p.url));
    push_pair(&mut v, "project.languages.default", copy_string(&p.languages.default));
    push_pair(&mut v, "project.languages.available", join_strings(&p.languages.available, ","));
    push_pair(&mut v, "project.languages.fallback_chain", bool_to_string(p.languages.fallback_chain));
    push_pair(&mut v, "project.routing.url_prefix", bool_to_string(p.routing.url_prefix));
    push_pair(&mut v, "project.routing.trailing_slash", bool_to_string(p.routing.trailing_slash));
    push_pair(&mut v, "project.templates.auto_reload", bool_to_string(p.templates.auto_reload));
    push_pair(&mut v, "project.templates.cache_templates", bool_to_string(p.templates.cache_templates));
    push_pair(&mut v, "project.assets.css_minify", bool_to_string(p.assets.css_minify));
    push_pair(&mut v, "project.assets.css_bundle", bool_to_string(p.assets.css_bundle));
    push_pair(&mut v, "project.build.clean_before", bool_to_string(p.build.clean_before));
    push_pair(&mut v, "project.build.parallel", bool_to_string(p.build.parallel));
    match &p.description {
        Some(d) => {
            push_pair(&mut v, "project.description", copy_string(d));
        },
        None => {},
    }
    assert(pairs_view(v@) =~= project_values_spec(*config));
    v
}

fn push_environment(v: &mut Vec<(String, String)>, prefix: &str, e: &ServerEnvironmentConfig)
    ensures
        pairs_view(final(v)@) == pairs_view(old(v)@) + environment_values_spec(prefix@, *e),
{
    let ghost start = pairs_view(v@);
    let mut k = str_to_string(prefix);
    push_str(&mut k, "domain");
    v.push((k, copy_string(&e.domain)));
    let mut k = str_to_string(prefix);
    push_str(&mut k, "io");
    v.push((k, copy_string(&e.io)));
    let mut k = str_to_string(prefix);
    push_str(&mut k, "enable_cors");
    v.push((k, bool_to_string(e.enable_cors)));
    let mut k = str_to_string(prefix);
    push_str(&mut k, "allowed_origins");
    v.push((k, join_strings(&e.allowed_origins, ",")));
    let mut k = str_to_string(prefix);
    push_str(&mut k, "enable_rate_limit");
    v.push((k, bool_to_string(e.enable_rate_limit)));
    let mut k = str_to_string(prefix);
    push_str(&mut k, "requests_per_minute");
    v.push((k, u64_to_string(e.requests_per_minute as u64)));
    let mut k = str_to_string(prefix);
    push_str(&mut k, "enable_compression");
    v.push((k, bool_to_string(e.enable_compression)));
    let mut k = str_to_string(prefix);
    push_str(&mut k, "enable_http2");
    v.push((k, bool_to_string(e.enable_http2)));
    let mut k = str_to_string(prefix);
    push_str(&mut k, "keep_alive");
    v.push((k, u64_to_string(e.keep_alive)));
    assert(pairs_view(v@) =~= start + environment_values_spec(prefix@, *e));
}

/// The `[server]` settings as key/value pairs.
pub fn server_values(config: &ReedConfig) -> (r: Vec<(String, String)>)
    ensures
        pairs_view(r@) == server_values_spec(*config),
{
    let mut v: Vec<(String, String)> = Vec::new();
    v.push((str_to_string("server.workers"), u64_to_string(config.server.workers as u64)));
    assert(pairs_view(v@) =~= seq![("server.workers"@, decimal(config.server.workers as nat))]);
    push_environment(&mut v, "server.dev.", &config.server.dev);
    push_environment(&mut v, "server.prod.", &config.server.prod);
    assert(pairs_view(v@) =~= server_values_spec(*config));
    v
}

fn push_requests(out: &mut Vec<ReedRequest>, context: &str, pairs: &Vec<(String, String)>)
    ensures
        final(out)@.len() == old(out)@.len() + pairs@.len(),
        forall|i: int| 0 <= i < old(out)@.len() ==> final(out)@[i] == old(out)@[i],
        requests_write(final(out)@.subrange(old(out)@.len() as int, final(out)@.len() as int), context@, pairs_view(pairs@)),
{
    let ghost start = out@;
    let mut i: usize = 0;
    while i < pairs.len()
        invariant
            i <= pairs@.len(),
            out@.len() == start.len() + i,
            forall|j: int| 0 <= j < start.len() ==> out@[j] == start[j],
            forall|j: int| 0 <= j < i ==> is_sync_request(#[trigger] out@[start.len() + j], context@, pairs_view(pairs@)[j]),
        decreases pairs.len() - i,
    {
        let key = copy_string(&pairs[i].0);
        let mut description = copy_string(&pairs[i].0);
        push_str(&mut description, " from Reed.toml");
        let request = ReedRequest {
            key,
            language: None,
            environment: None,
            context: Some(str_to_string(context)),
            value: Some(copy_string(&pairs[i].1)),
            description: Some(description),
        };
        out.push(request);
        i += 1;
    }
    let ghost added = out@.subrange(start.len() as int, out@.len() as int);
    assert forall|j: int| 0 <= j < added.len() implies is_sync_request(#[trigger] added[j], context@, pairs_view(pairs@)[j]) by {
        assert(added[j] == out@[start.len() + j]);
    }
}

/// The writes of the `[project]` section to `.reed/project.csv`: one
/// per setting, in order, with context `project`.
pub fn sync_project_config(config: &ReedConfig) -> (r: Vec<ReedRequest>)
    ensures
        requests_write(r@, "project"@, project_values_spec(*config)),
{
    let project = project_values(config);
    let mut r: Vec<ReedRequest> = Vec::new();
    push_requests(&mut r, "project", &project);
    assert(r@.subrange(0, r@.len() as int) =~= r@);
    r
}

/// The writes of the `[server]` section to `.reed/server.csv`: one per
/// setting, in order, with context `server`.
pub fn sync_server_config(config: &ReedConfig) -> (r: Vec<ReedRequest>)
    ensures
        requests_write(r@, "server"@, server_values_spec(*config)),
{
    let server = server_values(config);
    let mut r: Vec<ReedRequest> = Vec::new();
    push_requests(&mut r, "server", &server);
    assert(r@.subrange(0, r@.len() as int) =~= r@);
    r
}

/// The writes that synchronise Reed.toml to the CSV files: first every
/// `[project]` setting (context `project`, `.reed/project.csv`), then every
/// `[server]` setting (context `server`, `.reed/server.csv`).
pub fn sync_toml_to_csv(config: &ReedConfig) -> (r: Vec<ReedRequest>)
    ensures
        r@.len() == project_values_spec(*config).len() + server_values_spec(*config).len(),
        requests_write(r@.take(project_values_spec(*config).len() as int), "project"@, project_values_spec(*config)),
        requests_write(r@.skip(project_values_spec(*config).len() as int), "server"@, server_values_spec(*config)),
{
    let mut r = sync_project_config(config);
    let ghost project = r@;
    let mut server = sync_server_config(config);
    let ghost srv = server@;
    r.append(&mut server);
    assert(r@.take(project.len() as int) =~= project);
    assert(r@.skip(project.len() as int) =~= srv);
    r
}

/// The keys that the requests write, in order.
pub fn request_keys(requests: &Vec<ReedRequest>) -> (r: Vec<String>)
    ensures
        r@.len() == requests@.len(),
        forall|i: int| 0 <= i < r@.len() ==> #[trigger] r@[i]@ == requests@[i].key@,
{
    let mut r: Vec<String> = Vec::new();
    let mut i: usize = 0;
    while i < requests.len()
        invariant
            i <= requests@.len(),
            r@.len() == i,
            forall|j: int| 0 <= j < i ==> #[trigger] r@[j]@ == requests@[j].key@,
        decreases requests.len() - i,
    {
        r.push(copy_string(&requests[i].key));
        i += 1;
    }
    r
}

} // verus!
