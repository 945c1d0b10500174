//! CLI command router: maps `namespace:action` to handlers.
use vstd::prelude::*;
use crate::cli::help::{command_help_text, is_help_response, print_command_help};
use crate::cli::parser::Command;
use crate::reedstream::{
    current_time_micros, ErrorView, ReedError, ReedResponse, ReedResult, ResponseMetrics,
};
use crate::string_map::StringMap;
use crate::text::{copy_string, push_char, push_str, str_eq, str_to_string};

verus! {

/// The registered commands: namespace, action and handler.
pub open spec fn route_keys<H>(s: Seq<(String, String, H)>) -> Seq<(Seq<char>, Seq<char>)> {
    s.map_values(|e: (String, String, H)| (e.0@, e.1@))
}

/// The handler registered last under `namespace:action`.
pub open spec fn find_route<H>(s: Seq<(String, String, H)>, namespace: Seq<char>, action: Seq<char>) -> Option<H>
    decreases s.len(),
{
    if s.len() == 0 {
        None
    } else if s.last().0@ == namespace && s.last().1@ == action {
        Some(s.last().2)
    } else {
        find_route(s.drop_last(), namespace, action)
    }
}

pub open spec fn routes_unique<H>(s: Seq<(String, String, H)>) -> bool {
    forall|i: int, j: int| 0 <= i < j < s.len() ==> (s[i].0@, s[i].1@) != (s[j].0@, s[j].1@)
}

/// A registered key finds its own handler when no key is registered twice.
pub proof fn lemma_find_route_at<H>(s: Seq<(String, String, H)>, i: int)
    requires
        routes_unique(s),
        0 <= i < s.len(),
    ensures
        find_route(s, s[i].0@, s[i].1@) == Some(s[i].2),
    decreases s.len(),
{
    if i < s.len() - 1 {
        assert(s.last() == s[s.len() - 1]);
        assert(routes_unique(s.drop_last()));
        lemma_find_route_at(s.drop_last(), i);
    }
}

/// A key that is not registered finds nothing.
pub proof fn lemma_find_route_absent<H>(s: Seq<(String, String, H)>, namespace: Seq<char>, action: Seq<char>)
    requires
        forall|i: int| 0 <= i < s.len() ==> (s[i].0@, s[i].1@) != (namespace, action),
    ensures
        find_route(s, namespace, action) is None,
    decreases s.len(),
{
    if s.len() > 0 {
        assert(s.last() == s[s.len() - 1]);
        lemma_find_route_absent(s.drop_last(), namespace, action);
    }
}

/// Command router with registered handlers.
pub struct Router<H> {
    handlers: Vec<(String, String, H)>,
}

/// What routing a command leads to: a help text, or a handler to run.
pub enum Dispatch<'a, H> {
    Help(ReedResponse<String>),
    Run(&'a H),
}

/// The error for a command that no handler serves.
pub open spec fn unknown_command_error(namespace: Seq<char>, action: Seq<char>) -> ErrorView {
    ErrorView::InvalidCommand {
        command: namespace + seq![':'] + action,
        reason: "Unknown command '"@ + namespace + seq![':'] + action
            + "'. Use 'reed --help' for available commands."@,
    }
}

/// Whether the command asks for help (`--help` or `-h`).
pub open spec fn wants_help(cmd: Command) -> bool {
    cmd.flags.lookup("help"@) == Some("true"@) || cmd.flags.lookup("h"@) == Some("true"@)
}

impl<H> Router<H> {
    /// The registered handlers, oldest first.
    pub closed spec fn routes(&self) -> Seq<(String, String, H)> {
        self.handlers@
    }

    /// The handler for `namespace:action`.
    pub open spec fn lookup(&self, namespace: Seq<char>, action: Seq<char>) -> Option<H> {
        find_route(self.routes(), namespace, action)
    }

    /// No command is registered twice.
    pub open spec fn wf(&self) -> bool {
        routes_unique(self.routes())
    }

    /// Creates a new empty router.
    pub fn new() -> (r: Router<H>)
        ensures
            r.wf(),
            r.routes().len() == 0,
            forall|n: Seq<char>, a: Seq<char>| r.lookup(n, a) is None,
    {
        Router { handlers: Vec::new() }
    }

    fn position(&self, namespace: &str, action: &str) -> (r: Option<usize>)
        requires
            self.wf(),
        ensures
            match r {
                Some(i) => i < self.routes().len() && self.routes()[i as int].0@ == namespace@
                    && self.routes()[i as int].1@ == action@,
                None => forall|i: int| 0 <= i < self.routes().len() ==> (self.routes()[i].0@, self.routes()[i].1@) != (namespace@, action@),
            },
    {
        let mut i: usize = 0;
        while i < self.handlers.len()
            invariant
                i <= self.handlers@.len(),
                forall|j: int| 0 <= j < i ==> (self.handlers@[j].0@, self.handlers@[j].1@) != (namespace@, action@),
            decreases self.handlers.len() - i,
        {
            if str_eq(self.handlers[i].0.as_str(), namespace) && str_eq(self.handlers[i].1.as_str(), action) {
                return Some(i);
            }
            i += 1;
        }
        None
    }

    /// Registers a handler for `namespace:action`, replacing an earlier one.
    pub fn register(&mut self, namespace: &str, action: &str, handler: H)
        requires
            old(self).wf(),
        ensures
            final(self).wf(),
            final(self).lookup(namespace@, action@) == Some(handler),
            forall|n: Seq<char>, a: Seq<char>| (n, a) != (namespace@, action@) ==> final(self).lookup(n, a) == old(self).lookup(n, a),
            route_keys(final(self).routes()).to_set() == route_keys(old(self).routes()).to_set().insert((namespace@, action@)),
    {
        let ghost old_routes = self.routes();
        let ghost key = (namespace@, action@);
        match self.position(namespace, action) {
            Some(i) => {
                let ns = copy_string(&self.handlers[i].0);
                let ac = copy_string(&self.handlers[i].1);
                let ghost h = handler;
                self.handlers.set(i, (ns, ac, handler));
                let ghost new_routes = self.routes();
                assert forall|x: int, y: int| 0 <= x < y < new_routes.len() implies (new_routes[x].0@, new_routes[x].1@) != (new_routes[y].0@, new_routes[y].1@) by {
                    assert(new_routes[x].0@ == old_routes[x].0@ && new_routes[x].1@ == old_routes[x].1@);
                    assert(new_routes[y].0@ == old_routes[y].0@ && new_routes[y].1@ == old_routes[y].1@);
                }
                proof {
                    lemma_find_route_at(new_routes, i as int);
                    assert forall|n: Seq<char>, a: Seq<char>| (n, a) != (namespace@, action@) implies find_route(new_routes, n, a) == find_route(old_routes, n, a) by {
                        if exists|j: int| 0 <= j < old_routes.len() && (old_routes[j].0@, old_routes[j].1@) == (n, a) {
                            let j = choose|j: int| 0 <= j < old_routes.len() && (old_routes[j].0@, old_routes[j].1@) == (n, a);
                            assert(j != i);
                            lemma_find_route_at(old_routes, j);
                            assert(new_routes[j] == old_routes[j]);
                            lemma_find_route_at(new_routes, j);
                        } else {
                            lemma_find_route_absent(old_routes, n, a);
                            assert forall|j: int| 0 <= j < new_routes.len() implies (new_routes[j].0@, new_routes[j].1@) != (n, a) by {
                                if j != i {
                                    assert(new_routes[j] == old_routes[j]);
                                }
                            }
                            lemma_find_route_absent(new_routes, n, a);
                        }
                    }
                    assert(route_keys(new_routes) =~= route_keys(old_routes));
                    assert(route_keys(old_routes)[i as int] == key);
                    assert(route_keys(old_routes).to_set().contains(key));
                    assert(route_keys(new_routes).to_set() =~= route_keys(old_routes).to_set().insert(key));
                }
            },
            None => {
                self.handlers.push((str_to_string(namespace), str_to_string(action), handler));
                let ghost new_routes = self.routes();
                assert(new_routes.drop_last() =~= old_routes);
                proof {
                    assert(route_keys(new_routes) =~= route_keys(old_routes).push(key));
                    assert forall|k: (Seq<char>, Seq<char>)| #[trigger] route_keys(new_routes).contains(k) <==> (
                    route_keys(old_routes).contains(k) || k == key) by {
                        if route_keys(new_routes).contains(k) {
                            let j = choose|j: int| 0 <= j < route_keys(new_routes).len() && route_keys(new_routes)[j] == k;
                            if j < old_routes.len() {
                                assert(route_keys(old_routes)[j] == k);
                            }
                        }
                        if route_keys(old_routes).contains(k) {
                            let j = choose|j: int| 0 <= j < route_keys(old_routes).len() && route_keys(old_routes)[j] == k;
                            assert(route_keys(new_routes)[j] == k);
                        }
                        if k == key {
                            assert(route_keys(new_routes)[old_routes.len() as int] == k);
                        }
                    }
                    assert(route_keys(new_routes).to_set() =~= route_keys(old_routes).to_set().insert(key));
                }
            },
        }
    }

    /// Whether a handler serves `namespace:action`.
    pub fn has_command(&self, namespace: &str, action: &str) -> (r: bool)
        requires
            self.wf(),
        ensures
            r == (self.lookup(namespace@, action@) is Some),
    {
        match self.position(namespace, action) {
            Some(i) => {
                proof {
                    lemma_find_route_at(self.routes(), i as int);
                }
                true
            },
            None => {
                proof {
                    lemma_find_route_absent(self.routes(), namespace@, action@);
                }
                false
            },
        }
    }

    /// The handler for `namespace:action`.
    pub fn handler(&self, namespace: &str, action: &str) -> (r: Option<&H>)
        requires
            self.wf(),
        ensures
            match r {
                Some(h) => self.lookup(namespace@, action@) == Some(*h),
                None => self.lookup(namespace@, action@) is None,
            },
    {
        match self.position(namespace, action) {
            Some(i) => {
                proof {
                    lemma_find_route_at(self.routes(), i as int);
                }
                Some(&self.handlers[i].2)
            },
            None => {
                proof {
                    lemma_find_route_absent(self.routes(), namespace@, action@);
                }
                None
            },
        }
    }

    /// Lists all registered commands, in registration order.
    pub fn list_commands(&self) -> (r: Vec<(String, String)>)
        ensures
            r@.map_values(|p: (String, String)| (p.0@, p.1@)) == route_keys(self.routes()),
    {
        let mut r: Vec<(String, String)> = Vec::new();
        let mut i: usize = 0;
        while i < self.handlers.len()
            invariant
                i <= self.handlers@.len(),
                r@.map_values(|p: (String, String)| (p.0@, p.1@)) == route_keys(self.handlers@).take(i as int),
            decreases self.handlers.len() - i,
        {
            let ns = copy_string(&self.handlers[i].0);
            let ac = copy_string(&self.handlers[i].1);
            let ghost before = r@;
            let ghost pair = (ns@, ac@);
            r.push((ns, ac));
            assert(r@.map_values(|p: (String, String)| (p.0@, p.1@)) =~= before.map_values(|p: (String, String)| (p.0@, p.1@)).push(pair));
            assert(route_keys(self.handlers@).take(i + 1) =~= route_keys(self.handlers@).take(i as int).push(pair));
            i += 1;
        }
        assert(route_keys(self.handlers@).take(i as int) =~= route_keys(self.handlers@));
        r
    }

    /// Decides where a command goes: help when `--help`/`-h` is set, else
    /// the registered handler, else an unknown-command error.
    pub fn dispatch(&self, cmd: &Command) -> (r: ReedResult<Dispatch<'_, H>>)
        requires
            self.wf(),
            cmd.flags.wf(),
        ensures
            wants_help(*cmd) ==> (r matches Ok(Dispatch::Help(resp)) && is_help_response(resp, command_help_text(cmd.namespace@, cmd.action@))),
            !wants_help(*cmd) ==> match self.lookup(cmd.namespace@, cmd.action@) {
                Some(h) => r matches Ok(Dispatch::Run(g)) && *g == h,
                None => r matches Err(e) && e@ == unknown_command_error(cmd.namespace@, cmd.action@),
            },
    {
        if cmd.get_flag_bool("help") || cmd.get_flag_bool("h") {
            return match print_command_help(cmd.namespace.as_str(), cmd.action.as_str()) {
                Ok(resp) => Ok(Dispatch::Help(resp)),
                Err(e) => Err(e),
            };
        }
        match self.handler(cmd.namespace.as_str(), cmd.action.as_str()) {
            Some(h) => Ok(Dispatch::Run(h)),
            None => {
                let mut command = copy_string(&cmd.namespace);
                push_char(&mut command, ':');
                push_str(&mut command, cmd.action.as_str());
                assert(command@ =~= cmd.namespace@ + seq![':'] + cmd.action@);
                let mut reason = String::from_str("Unknown command '");
                push_str(&mut reason, command.as_str());
                push_str(&mut reason, "'. Use 'reed --help' for available commands.");
                assert(reason@ =~= "Unknown command '"@ + cmd.namespace@ + seq![':'] + cmd.action@
                    + "'. Use 'reed --help' for available commands."@);
                Err(ReedError::InvalidCommand { command, reason })
            },
        }
    }
}

/// A handler's response with the routing time added to its metrics.
pub open spec fn routed_response(
    handled: ReedResponse<String>,
    routed: ReedResponse<String>,
) -> bool {
    &&& routed.data == handled.data
    &&& routed.source == handled.source
    &&& routed.cached == handled.cached
    &&& routed.timestamp == handled.timestamp
    &&& routed.metrics is Some
    &&& handled.metrics matches Some(m) ==> (routed.metrics->Some_0.memory_allocated == m.memory_allocated
        && routed.metrics->Some_0.csv_files_accessed == m.csv_files_accessed
        && routed.metrics->Some_0.cache_info == m.cache_info
        && routed.metrics->Some_0.processing_time_us >= m.processing_time_us)
    &&& handled.metrics is None ==> (routed.metrics->Some_0.memory_allocated is None
        && routed.metrics->Some_0.csv_files_accessed == 0
        && routed.metrics->Some_0.cache_info is None)
}

impl<H: Fn(&[String], &StringMap) -> ReedResult<ReedResponse<String>>> Router<H> {
    /// Routes a command to its handler and runs it.
    ///
    /// `--help`/`-h` is answered with the command's help text; an unknown
    /// command is an `InvalidCommand` error; otherwise the handler's result
    /// is returned, with the routing time added to its metrics.
    pub fn route(&self, cmd: Command) -> (r: ReedResult<ReedResponse<String>>)
        requires
            self.wf(),
            cmd.flags.wf(),
            forall|h: H, a: &[String], f: &StringMap| call_requires(h, (a, f)),
        ensures
            wants_help(cmd) ==> (r matches Ok(resp) && is_help_response(resp, command_help_text(cmd.namespace@, cmd.action@))),
            !wants_help(cmd) ==> match self.lookup(cmd.namespace@, cmd.action@) {
                Some(h) => exists|a: &[String], out: ReedResult<ReedResponse<String>>| {
                    &&& a@ == cmd.args@
                    &&& call_ensures(h, (a, &cmd.flags), out)
                    &&& match out {
                        Ok(handled) => r matches Ok(routed) && routed_response(handled, routed),
                        Err(e) => r == Err::<ReedResponse<String>, ReedError>(e),
                    }
                },
                None => r matches Err(e) && e@ == unknown_command_error(cmd.namespace@, cmd.action@),
            },
    {
        let start = current_time_micros();
        let handler = match self.dispatch(&cmd) {
            Ok(Dispatch::Help(resp)) => return Ok(resp),
            Ok(Dispatch::Run(h)) => h,
            Err(e) => return Err(e),
        };
        let args = cmd.args.as_slice();
        let out = handler(args, &cmd.flags);
        let mut response = match out {
            Ok(resp) => resp,
            Err(e) => return Err(e),
        };
        let duration = current_time_micros().saturating_sub(start);
        let metrics = match response.metrics {
            Some(m) => ResponseMetrics {
                processing_time_us: m.processing_time_us.saturating_add(duration),
                memory_allocated: m.memory_allocated,
                csv_files_accessed: m.csv_files_accessed,
                cache_info: m.cache_info,
            },
            None => ResponseMetrics {
                processing_time_us: duration,
                memory_allocated: None,
                csv_files_accessed: 0,
                cache_info: None,
            },
        };
        response.metrics = Some(metrics);
        Ok(response)
    }
}

/// The commands this CLI provides.
#[derive(Debug, Clone, Copy, PartialEq, Eq, Structural)]
pub enum BuiltinCommand {
    SetText,
    SetRoute,
    SetMeta,
    GetText,
    GetRoute,
    GetMeta,
    ListText,
    ListRoute,
    ListMeta,
    InitLayout,
    UserCreate,
    UserList,
    UserShow,
    UserUpdate,
    UserDelete,
    UserPasswd,
    UserRoles,
}

pub open spec fn is_cmd(n: Seq<char>, a: Seq<char>, ns: Seq<char>, ac: Seq<char>) -> bool {
    n == ns && a == ac
}

/// The command registered under `n:a`, if any.
pub open spec fn builtin_of(n: Seq<char>, a: Seq<char>) -> Option<BuiltinCommand> {
    if is_cmd(n, a, "user"@, "roles"@) {
        Some(BuiltinCommand::UserRoles)
    } else if is_cmd(n, a, "user"@, "passwd"@) {
        Some(BuiltinCommand::UserPasswd)
    } else if is_cmd(n, a, "user"@, "delete"@) {
        Some(BuiltinCommand::UserDelete)
    } else if is_cmd(n, a, "user"@, "update"@) {
        Some(BuiltinCommand::UserUpdate)
    } else if is_cmd(n, a, "user"@, "show"@) {
        Some(BuiltinCommand::UserShow)
    } else if is_cmd(n, a, "user"@, "list"@) {
        Some(BuiltinCommand::UserList)
    } else if is_cmd(n, a, "user"@, "create"@) {
        Some(BuiltinCommand::UserCreate)
    } else if is_cmd(n, a, "init"@, "layout"@) {
        Some(BuiltinCommand::InitLayout)
    } else if is_cmd(n, a, "list"@, "meta"@) {
        Some(BuiltinCommand::ListMeta)
    } else if is_cmd(n, a, "list"@, "route"@) {
        Some(BuiltinCommand::ListRoute)
    } else if is_cmd(n, a, "list"@, "text"@) {
        Some(BuiltinCommand::ListText)
    } else if is_cmd(n, a, "get"@, "meta"@) {
        Some(BuiltinCommand::GetMeta)
    } else if is_cmd(n, a, "get"@, "route"@) {
        Some(BuiltinCommand::GetRoute)
    } else if is_cmd(n, a, "get"@, "text"@) {
        Some(BuiltinCommand::GetText)
    } else if is_cmd(n, a, "set"@, "meta"@) {
        Some(BuiltinCommand::SetMeta)
    } else if is_cmd(n, a, "set"@, "route"@) {
        Some(BuiltinCommand::SetRoute)
    } else if is_cmd(n, a, "set"@, "text"@) {
        Some(BuiltinCommand::SetText)
    } else {
        None
    }
}

/// Creates the router with all commands of this CLI registered: `set:`,
/// `get:` and `list:` for text, routes and meta data, `init:layout`, and
/// the `user:` commands.
pub fn create_router() -> (r: Router<BuiltinCommand>)
    ensures
        r.wf(),
        forall|n: Seq<char>, a: Seq<char>| #[trigger] r.lookup(n, a) == builtin_of(n, a),
{
    let mut router: Router<BuiltinCommand> = Router::new();
    router.register("set", "text", BuiltinCommand::SetText);
    router.register("set", "route", BuiltinCommand::SetRoute);
    router.register("set", "meta", BuiltinCommand::SetMeta);
    router.register("get", "text", BuiltinCommand::GetText);
    router.register("get", "route", BuiltinCommand::GetRoute);
    router.register("get", "meta", BuiltinCommand::GetMeta);
    router.register("list", "text", BuiltinCommand::ListText);
    router.register("list", "route", BuiltinCommand::ListRoute);
    router.register("list", "meta", BuiltinCommand::ListMeta);
    router.register("init", "layout", BuiltinCommand::InitLayout);
    router.register("user", "create", BuiltinCommand::UserCreate);
    router.register("user", "list", BuiltinCommand::UserList);
    router.register("user", "show", BuiltinCommand::UserShow);
    router.register("user", "update", BuiltinCommand::UserUpdate);
    router.register("user", "delete", BuiltinCommand::UserDelete);
    router.register("user", "passwd", BuiltinCommand::UserPasswd);
    router.register("user", "roles", BuiltinCommand::UserRoles);
    router
}

} // verus!
