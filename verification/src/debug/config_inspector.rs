//! The configuration in force, as the config inspector shows it.
use vstd::prelude::*;
use crate::debug::request_inspector::{entry_lines, push_entry_lines};
use crate::string_map::StringMap;
use crate::text::{copy_string, push_str, str_to_string};

verus! {

/// Project, server and environment settings.
#[derive(Debug, Clone)]
pub struct ConfigInspection {
    pub project: StringMap,
    pub server: StringMap,
    pub environment: StringMap,
}

pub open spec fn value_or(v: Option<Seq<char>>, default: Seq<char>) -> Seq<char> {
    match v {
        Some(x) => x,
        None => default,
    }
}

fn string_or(v: Option<String>, default: &str) -> (r: String)
    ensures
        r@ == value_or(crate::reedstream::opt_str_view(v), default@),
{
    match v {
        Some(x) => x,
        None => str_to_string(default),
    }
}

fn map_of(pairs: &Vec<(String, String)>) -> (m: StringMap)
    requires
        forall|i: int, j: int| 0 <= i < j < pairs@.len() ==> pairs@[i].0@ != pairs@[j].0@,
    ensures
        m.wf(),
        m.entries() == pairs@.map_values(|p: (String, String)| (p.0@, p.1@)),
{
    let ghost pv = pairs@.map_values(|p: (String, String)| (p.0@, p.1@));
    let mut m = StringMap::new();
    let mut i: usize = 0;
    while i < pairs.len()
        invariant
            i <= pairs@.len(),
            forall|a: int, b: int| 0 <= a < b < pairs@.len() ==> pairs@[a].0@ != pairs@[b].0@,
            pv == pairs@.map_values(|p: (String, String)| (p.0@, p.1@)),
            m.wf(),
            m.entries() == pv.take(i as int),
            forall|k: Seq<char>| m.lookup(k) is Some ==> exists|a: int| 0 <= a < i && pairs@[a].0@ == k,
        decreases pairs.len() - i,
    {
        proof {
            if m.lookup(pairs@[i as int].0@) is Some {
                let a = choose|a: int| 0 <= a < i && pairs@[a].0@ == pairs@[i as int].0@;
                assert(false);
            }
        }
        m.insert(copy_string(&pairs[i].0), copy_string(&pairs[i].1));
        assert(m.entries() =~= pv.take(i + 1));
        i += 1;
    }
    assert(pv.take(i as int) =~= pv);
    m
}

impl ConfigInspection {
    /// The settings, with the environment variables `ENVIRONMENT`,
    /// `REED_PROFILE` and `REED_SLOW_THRESHOLD` as read (`None`: unset,
    /// which shows `dev`, `false` and `100`).
    pub fn new(environment: Option<String>, profile: Option<String>, slow_threshold: Option<String>) -> (r:
        ConfigInspection)
        ensures
            r.project.wf() && r.server.wf() && r.environment.wf(),
            r.project.entries() == seq![("name"@, "ReedCMS"@), ("version"@, "0.1.0"@)],
            r.server.entries() == seq![("port"@, "8333"@), ("workers"@, "4"@)],
            r.environment.entries() == seq![
                ("ENVIRONMENT"@, value_or(crate::reedstream::opt_str_view(environment), "dev"@)),
                ("REED_PROFILE"@, value_or(crate::reedstream::opt_str_view(profile), "false"@)),
                ("REED_SLOW_THRESHOLD"@, value_or(crate::reedstream::opt_str_view(slow_threshold), "100"@)),
            ],
    {
        proof {
            reveal_strlit("name");
            reveal_strlit("version");
            reveal_strlit("port");
            reveal_strlit("workers");
            reveal_strlit("ENVIRONMENT");
            reveal_strlit("REED_PROFILE");
            reveal_strlit("REED_SLOW_THRESHOLD");
        }
        let p = vec![(str_to_string("name"), str_to_string("ReedCMS")), (str_to_string("version"), str_to_string("0.1.0"))];
        assert(p@[0].0@[0] != p@[1].0@[0]);
        let project = map_of(&p);
        let s = vec![(str_to_string("port"), str_to_string("8333")), (str_to_string("workers"), str_to_string("4"))];
        assert(s@[0].0@[0] != s@[1].0@[0]);
        let server = map_of(&s);
        let e = vec![
            (str_to_string("ENVIRONMENT"), string_or(environment, "dev")),
            (str_to_string("REED_PROFILE"), string_or(profile, "false")),
            (str_to_string("REED_SLOW_THRESHOLD"), string_or(slow_threshold, "100")),
        ];
        assert(e@[0].0@[0] != e@[1].0@[0] && e@[0].0@[0] != e@[2].0@[0]);
        assert(e@[1].0@[5] != e@[2].0@[5]);
        let environment = map_of(&e);
        assert(project.entries() =~= seq![("name"@, "ReedCMS"@), ("version"@, "0.1.0"@)]);
        assert(server.entries() =~= seq![("port"@, "8333"@), ("workers"@, "4"@)]);
        ConfigInspection { project, server, environment }
    }
}

/// The inspection as the debug command prints it.
pub open spec fn config_inspection_text(c: ConfigInspection) -> Seq<char> {
    "⚙️  Configuration Inspector\n\n"@ + "Project Configuration:\n"@ + entry_lines(c.project.entries())
        + "\nServer Configuration:\n"@ + entry_lines(c.server.entries()) + "\nEnvironment Variables:\n"@
        + entry_lines(c.environment.entries()) + "\nConfiguration Files:\n"@
        + "  - .reed/project.csv (runtime configuration)\n"@ + "  - .reed/server.csv (server settings)\n"@
        + "  - Reed.toml (bootstrap configuration)\n"@ + "  - .env (environment control)\n"@
        + "\nNote: For complete configuration, see reed config:show command.\n"@
}

impl ConfigInspection {
    /// The inspection as text.
    pub fn format(&self) -> (r: String)
        ensures
            r@ == config_inspection_text(*self),
    {
        let mut out = str_to_string("⚙️  Configuration Inspector\n\n");
        push_str(&mut out, "Project Configuration:\n");
        push_entry_lines(&mut out, &self.project);
        push_str(&mut out, "\nServer Configuration:\n");
        push_entry_lines(&mut out, &self.server);
        push_str(&mut out, "\nEnvironment Variables:\n");
        push_entry_lines(&mut out, &self.environment);
        push_str(&mut out, "\nConfiguration Files:\n");
        push_str(&mut out, "  - .reed/project.csv (runtime configuration)\n");
        push_str(&mut out, "  - .reed/server.csv (server settings)\n");
        push_str(&mut out, "  - Reed.toml (bootstrap configuration)\n");
        push_str(&mut out, "  - .env (environment control)\n");
        push_str(&mut out, "\nNote: For complete configuration, see reed config:show command.\n");
        out
    }
}

/// The configuration in force, given the environment variables as read.
pub fn inspect_config(environment: Option<String>, profile: Option<String>, slow_threshold: Option<String>) -> (r:
    ConfigInspection)
    ensures
        r.project.wf() && r.server.wf() && r.environment.wf(),
        r.project.entries() == seq![("name"@, "ReedCMS"@), ("version"@, "0.1.0"@)],
        r.server.entries() == seq![("port"@, "8333"@), ("workers"@, "4"@)],
        r.environment.entries() == seq![
            ("ENVIRONMENT"@, value_or(crate::reedstream::opt_str_view(environment), "dev"@)),
            ("REED_PROFILE"@, value_or(crate::reedstream::opt_str_view(profile), "false"@)),
            ("REED_SLOW_THRESHOLD"@, value_or(crate::reedstream::opt_str_view(slow_threshold), "100"@)),
        ],
{
    ConfigInspection::new(environment, profile, slow_threshold)
}

} // verus!
