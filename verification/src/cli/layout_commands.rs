//! Layout creation: `reed init:layout <name>... [--languages ..] [--variants ..]
//! [--routes ..] [--parent ..]`.
//!
//! The flags become a `LayoutConfig`; each new layout gets its templates,
//! stylesheets and the records that register it, route it and give it
//! default text and meta data. Writing those files is the caller's part.
use vstd::prelude::*;
use crate::cli::parser::strings_view;
use crate::csv::record::CsvRecord;
use crate::lists::contains_string;
use crate::reedstream::{
    is_invalid_command, is_validation_error, invalid_command, validation_error, ErrorView,
    ReedError, ReedResponse, ReedResult,
};
use crate::report::{join_seqs, join_strings};
use crate::string_map::StringMap;
use crate::text::{
    byte_len, copy_string, decimal, is_ascii_alnum, is_ascii_alpha, is_ascii_upper, push_str,
    push_u64, push_usize, split_on, split_to_strings, str_byte_len, str_eq, str_to_string, to_chars,
    trim, trim_string, char_is_ascii_alpha, char_is_ascii_alnum,
};

verus! {

/// Template variant types.
#[derive(Debug, Clone, Copy, PartialEq, Eq, Structural)]
pub enum TemplateVariant {
    Mouse,
    Touch,
    Reader,
}

/// `c` lower-cased in ASCII equals `w`.
pub open spec fn lower_matches(c: char, w: char) -> bool {
    if is_ascii_upper(c) { c as u32 + 32 == w as u32 } else { c == w }
}

/// `s` equals the lower-case word `w`, ignoring ASCII case.
pub open spec fn eq_ignore_case(s: Seq<char>, w: Seq<char>) -> bool {
    s.len() == w.len() && forall|i: int| 0 <= i < s.len() ==> lower_matches(#[trigger] s[i], w[i])
}

/// The variant named by `s`, in any letter case.
pub open spec fn variant_named(s: Seq<char>) -> Option<TemplateVariant> {
    if eq_ignore_case(s, "mouse"@) {
        Some(TemplateVariant::Mouse)
    } else if eq_ignore_case(s, "touch"@) {
        Some(TemplateVariant::Touch)
    } else if eq_ignore_case(s, "reader"@) {
        Some(TemplateVariant::Reader)
    } else {
        None
    }
}

pub open spec fn variant_text(v: TemplateVariant) -> Seq<char> {
    match v {
        TemplateVariant::Mouse => "mouse"@,
        TemplateVariant::Touch => "touch"@,
        TemplateVariant::Reader => "reader"@,
    }
}

/// A lower-case word matches itself, ignoring case.
proof fn lemma_lower_word_matches(w: Seq<char>)
    requires
        forall|i: int| 0 <= i < w.len() ==> !is_ascii_upper(#[trigger] w[i]),
    ensures
        eq_ignore_case(w, w),
{
}

/// A variant's name converts back to the variant: `from_str(v.as_str())`
/// gives `Ok(v)` for every variant.
pub proof fn lemma_variant_round_trip(v: TemplateVariant)
    ensures
        variant_named(variant_text(v)) == Some(v),
{
    reveal_strlit("mouse");
    reveal_strlit("touch");
    reveal_strlit("reader");
    let w = variant_text(v);
    assert forall|i: int| 0 <= i < w.len() implies !is_ascii_upper(#[trigger] w[i]) by {
        assert(w[i] == 'm' || w[i] == 'o' || w[i] == 'u' || w[i] == 's' || w[i] == 'e' || w[i] == 't'
            || w[i] == 'c' || w[i] == 'h' || w[i] == 'r' || w[i] == 'a' || w[i] == 'd');
    }
    lemma_lower_word_matches(w);
    assert(!lower_matches("touch"@[0], "mouse"@[0]));
}

/// Whether `s` equals the lower-case word `w`, ignoring ASCII case.
fn matches_ignore_case(s: &Vec<char>, w: &str) -> (r: bool)
    ensures
        r == eq_ignore_case(s@, w@),
{
    let wv = to_chars(w);
    if s.len() != wv.len() {
        return false;
    }
    let mut i: usize = 0;
    while i < s.len()
        invariant
            wv@ == w@,
            s@.len() == wv@.len(),
            i <= s@.len(),
            forall|j: int| 0 <= j < i ==> lower_matches(#[trigger] s@[j], w@[j]),
        decreases s.len() - i,
    {
        let c = s[i];
        let d = wv[i];
        let ok = if 'A' <= c && c <= 'Z' { (c as u32) + 32 == (d as u32) } else { c == d };
        if !ok {
            assert(!lower_matches(s@[i as int], w@[i as int]));
            return false;
        }
        i += 1;
    }
    true
}

impl TemplateVariant {
    /// Converts a name to a variant: `mouse`, `touch` or `reader`, in any
    /// letter case (other characters never lower-case to these letters).
    pub fn from_str(s: &str) -> (r: ReedResult<TemplateVariant>)
        ensures
            match variant_named(s@) {
                Some(v) => r == Ok::<TemplateVariant, ReedError>(v),
                None => r matches Err(e) && is_validation_error(
                    e,
                    "variant"@,
                    s@,
                    "Must be: mouse, touch, or reader"@,
                ),
            },
    {
        let cs = to_chars(s);
        if matches_ignore_case(&cs, "mouse") {
            Ok(TemplateVariant::Mouse)
        } else if matches_ignore_case(&cs, "touch") {
            Ok(TemplateVariant::Touch)
        } else if matches_ignore_case(&cs, "reader") {
            Ok(TemplateVariant::Reader)
        } else {
            Err(
                validation_error(
                    "variant",
                    str_to_string(s),
                    str_to_string("Must be: mouse, touch, or reader"),
                ),
            )
        }
    }

    /// Converts variant to string.
    pub fn as_str(&self) -> (r: &'static str)
        ensures
            r@ == variant_text(*self),
    {
        match self {
            TemplateVariant::Mouse => "mouse",
            TemplateVariant::Touch => "touch",
            TemplateVariant::Reader => "reader",
        }
    }
}

/// Layout configuration.
#[derive(Debug, Clone)]
pub struct LayoutConfig {
    pub variants: Vec<TemplateVariant>,
    pub languages: Vec<String>,
    pub routes: StringMap,
    pub parent: Option<String>,
}

// ---------------------------------------------------------------------------
// Flags
// ---------------------------------------------------------------------------

/// The routes of `lang:route,...`: the pairs in order, or the first piece
/// that is not `lang:route`.
pub open spec fn parse_routes_spec(pieces: Seq<Seq<char>>) -> Result<Seq<(Seq<char>, Seq<char>)>, Seq<char>>
    decreases pieces.len(),
{
    if pieces.len() == 0 {
        Ok(Seq::empty())
    } else {
        match parse_routes_spec(pieces.drop_last()) {
            Err(bad) => Err(bad),
            Ok(pairs) => {
                let parts = split_on(trim(pieces.last()), ':');
                if parts.len() != 2 {
                    Err(pieces.last())
                } else {
                    Ok(pairs.push((parts[0], parts[1])))
                }
            },
        }
    }
}

/// The map that inserting the pairs in order gives.
pub open spec fn pairs_lookup(pairs: Seq<(Seq<char>, Seq<char>)>, k: Seq<char>) -> Option<Seq<char>>
    decreases pairs.len(),
{
    if pairs.len() == 0 {
        None
    } else if pairs.last().0 == k {
        Some(pairs.last().1)
    } else {
        pairs_lookup(pairs.drop_last(), k)
    }
}

/// `m` maps exactly as inserting the pairs in order does.
pub open spec fn holds_pairs(m: StringMap, pairs: Seq<(Seq<char>, Seq<char>)>) -> bool {
    m.wf() && forall|k: Seq<char>| #[trigger] m.lookup(k) == pairs_lookup(pairs, k)
}

/// Parses a route string (format: `de:wissen,en:knowledge`).
pub fn parse_routes(route_str: &str) -> (r: ReedResult<StringMap>)
    ensures
        match parse_routes_spec(split_on(route_str@, ',')) {
            Ok(pairs) => r matches Ok(m) && holds_pairs(m, pairs),
            Err(bad) => r matches Err(e) && is_validation_error(
                e,
                "routes"@,
                bad,
                "Format: lang:route (e.g., de:wissen,en:knowledge)"@,
            ),
        },
{
    let pieces = split_to_strings(route_str, ',');
    let ghost pv = split_on(route_str@, ',');
    assert(strings_view(pieces@) =~= pv);
    let mut routes = StringMap::new();
    let ghost mut pairs: Seq<(Seq<char>, Seq<char>)> = Seq::empty();
    let mut i: usize = 0;
    while i < pieces.len()
        invariant
            i <= pieces@.len(),
            pv == strings_view(pieces@),
            pv == split_on(route_str@, ','),
            parse_routes_spec(pv.take(i as int)) == Ok::<Seq<(Seq<char>, Seq<char>)>, Seq<char>>(pairs),
            holds_pairs(routes, pairs),
        decreases pieces.len() - i,
    {
        proof {
            assert(pv.take(i + 1).drop_last() =~= pv.take(i as int));
            assert(pv.take(i + 1).last() == pieces@[i as int]@);
        }
        let t = trim_string(pieces[i].as_str());
        let parts = split_to_strings(t.as_str(), ':');
        if parts.len() != 2 {
            proof {
                lemma_parse_routes_err(pv, i as int + 1);
            }
            return Err(
                validation_error(
                    "routes",
                    copy_string(&pieces[i]),
                    str_to_string("Format: lang:route (e.g., de:wissen,en:knowledge)"),
                ),
            );
        }
        let k = copy_string(&parts[0]);
        let v = copy_string(&parts[1]);
        let ghost kv = (k@, v@);
        routes.insert(k, v);
        proof {
            let old_pairs = pairs;
            pairs = pairs.push(kv);
            assert(pairs.drop_last() =~= old_pairs);
            assert forall|x: Seq<char>| #[trigger] routes.lookup(x) == pairs_lookup(pairs, x) by {}
        }
        i += 1;
    }
    assert(pv.take(i as int) =~= pv);
    Ok(routes)
}

proof fn lemma_parse_routes_err(pv: Seq<Seq<char>>, n: int)
    requires
        0 < n <= pv.len(),
        parse_routes_spec(pv.take(n - 1)) is Ok,
        split_on(trim(pv[n - 1]), ':').len() != 2,
    ensures
        parse_routes_spec(pv) == Err::<Seq<(Seq<char>, Seq<char>)>, Seq<char>>(pv[n - 1]),
    decreases pv.len() - n,
{
    assert(pv.take(n).drop_last() =~= pv.take(n - 1));
    assert(parse_routes_spec(pv.take(n)) == Err::<Seq<(Seq<char>, Seq<char>)>, Seq<char>>(pv[n - 1]));
    lemma_parse_routes_err_extends(pv, n);
}

proof fn lemma_parse_routes_err_extends(pv: Seq<Seq<char>>, n: int)
    requires
        0 <= n <= pv.len(),
        parse_routes_spec(pv.take(n)) is Err,
    ensures
        parse_routes_spec(pv) == parse_routes_spec(pv.take(n)),
    decreases pv.len() - n,
{
    if n == pv.len() {
        assert(pv.take(n) =~= pv);
    } else {
        assert(pv.take(n + 1).drop_last() =~= pv.take(n));
        lemma_parse_routes_err_extends(pv, n + 1);
    }
}

/// The variants named by the pieces (each trimmed), or the first piece
/// that names none.
pub open spec fn parse_variants_spec(pieces: Seq<Seq<char>>) -> Result<Seq<TemplateVariant>, Seq<char>>
    decreases pieces.len(),
{
    if pieces.len() == 0 {
        Ok(Seq::empty())
    } else {
        match parse_variants_spec(pieces.drop_last()) {
            Err(bad) => Err(bad),
            Ok(vs) => match variant_named(trim(pieces.last())) {
                Some(v) => Ok(vs.push(v)),
                None => Err(trim(pieces.last())),
            },
        }
    }
}

proof fn lemma_parse_variants_err_extends(pv: Seq<Seq<char>>, n: int)
    requires
        0 <= n <= pv.len(),
        parse_variants_spec(pv.take(n)) is Err,
    ensures
        parse_variants_spec(pv) == parse_variants_spec(pv.take(n)),
    decreases pv.len() - n,
{
    if n == pv.len() {
        assert(pv.take(n) =~= pv);
    } else {
        assert(pv.take(n + 1).drop_last() =~= pv.take(n));
        lemma_parse_variants_err_extends(pv, n + 1);
    }
}

fn parse_variants(vars: &str) -> (r: ReedResult<Vec<TemplateVariant>>)
    ensures
        match parse_variants_spec(split_on(vars@, ',')) {
            Ok(vs) => r matches Ok(v) && v@ == vs,
            Err(bad) => r matches Err(e) && is_validation_error(
                e,
                "variant"@,
                bad,
                "Must be: mouse, touch, or reader"@,
            ),
        },
{
    let pieces = split_to_strings(vars, ',');
    let ghost pv = split_on(vars@, ',');
    assert(strings_view(pieces@) =~= pv);
    let mut out: Vec<TemplateVariant> = Vec::new();
    let mut i: usize = 0;
    while i < pieces.len()
        invariant
            i <= pieces@.len(),
            pv == strings_view(pieces@),
            pv == split_on(vars@, ','),
            parse_variants_spec(pv.take(i as int)) == Ok::<Seq<TemplateVariant>, Seq<char>>(out@),
        decreases pieces.len() - i,
    {
        proof {
            assert(pv.take(i + 1).drop_last() =~= pv.take(i as int));
            assert(pv.take(i + 1).last() == pieces@[i as int]@);
        }
        let t = trim_string(pieces[i].as_str());
        match TemplateVariant::from_str(t.as_str()) {
            Ok(v) => {
                out.push(v);
            },
            Err(e) => {
                proof {
                    lemma_parse_variants_err_extends(pv, i + 1);
                }
                return Err(e);
            },
        }
        i += 1;
    }
    assert(pv.take(i as int) =~= pv);
    Ok(out)
}

/// The languages of `--languages` (each trimmed), else `de`, `en`.
pub open spec fn config_languages(flags: StringMap) -> Seq<Seq<char>> {
    match flags.lookup("languages"@) {
        Some(l) => split_on(l, ',').map_values(|p: Seq<char>| trim(p)),
        None => seq!["de"@, "en"@],
    }
}

/// What the flags configure, or the validation error they give.
pub open spec fn layout_config_spec(flags: StringMap) -> Result<
    (Seq<Seq<char>>, Seq<TemplateVariant>, Seq<(Seq<char>, Seq<char>)>, Option<Seq<char>>),
    ErrorView,
> {
    let variants: Result<Seq<TemplateVariant>, ErrorView> = match flags.lookup("variants"@) {
        Some(v) => match parse_variants_spec(split_on(v, ',')) {
            Ok(vs) => Ok(vs),
            Err(bad) => Err(
                ErrorView::ValidationError {
                    field: "variant"@,
                    value: bad,
                    constraint: "Must be: mouse, touch, or reader"@,
                },
            ),
        },
        None => Ok(seq![TemplateVariant::Mouse, TemplateVariant::Touch, TemplateVariant::Reader]),
    };
    let routes: Result<Seq<(Seq<char>, Seq<char>)>, ErrorView> = match flags.lookup("routes"@) {
        Some(r) => match parse_routes_spec(split_on(r, ',')) {
            Ok(p) => Ok(p),
            Err(bad) => Err(
                ErrorView::ValidationError {
                    field: "routes"@,
                    value: bad,
                    constraint: "Format: lang:route (e.g., de:wissen,en:knowledge)"@,
                },
            ),
        },
        None => Ok(Seq::empty()),
    };
    match variants {
        Err(e) => Err(e),
        Ok(vs) => match routes {
            Err(e) => Err(e),
            Ok(p) => Ok((config_languages(flags), vs, p, flags.lookup("parent"@))),
        },
    }
}

/// `c` is the configuration with these languages, variants, routes and
/// parent.
pub open spec fn config_is(
    c: LayoutConfig,
    spec: (Seq<Seq<char>>, Seq<TemplateVariant>, Seq<(Seq<char>, Seq<char>)>, Option<Seq<char>>),
) -> bool {
    &&& strings_view(c.languages@) == spec.0
    &&& c.variants@ == spec.1
    &&& holds_pairs(c.routes, spec.2)
    &&& crate::reedstream::opt_str_view(c.parent) == spec.3
}

/// Parses the layout configuration from the flags.
pub fn parse_layout_config(flags: &StringMap) -> (r: ReedResult<LayoutConfig>)
    requires
        flags.wf(),
    ensures
        match layout_config_spec(*flags) {
            Ok(spec) => r matches Ok(c) && config_is(c, spec),
            Err(ev) => r matches Err(e) && e@ == ev,
        },
{
    let languages: Vec<String> = match flags.get("languages") {
        Some(l) => {
            let pieces = split_to_strings(l.as_str(), ',');
            let ghost pv = split_on(l@, ',');
            let mut out: Vec<String> = Vec::new();
            let mut i: usize = 0;
            while i < pieces.len()
                invariant
                    i <= pieces@.len(),
                    pieces@.len() == pv.len(),
                    forall|k: int| 0 <= k < pieces@.len() ==> #[trigger] pieces@[k]@ == pv[k],
                    out@.len() == i,
                    forall|k: int| 0 <= k < i ==> #[trigger] out@[k]@ == trim(pv[k]),
                decreases pieces.len() - i,
            {
                out.push(trim_string(pieces[i].as_str()));
                i += 1;
            }
            assert(strings_view(out@) =~= pv.map_values(|p: Seq<char>| trim(p)));
            out
        },
        None => {
            let v = vec![str_to_string("de"), str_to_string("en")];
            assert(strings_view(v@) =~= seq!["de"@, "en"@]);
            v
        },
    };
    let variants = match flags.get("variants") {
        Some(v) => match parse_variants(v.as_str()) {
            Ok(vs) => vs,
            Err(e) => {
                return Err(e);
            },
        },
        None => {
            let v = vec![TemplateVariant::Mouse, TemplateVariant::Touch, TemplateVariant::Reader];
            assert(v@ =~= seq![TemplateVariant::Mouse, TemplateVariant::Touch, TemplateVariant::Reader]);
            v
        },
    };
    let routes = match flags.get("routes") {
        Some(r) => match parse_routes(r.as_str()) {
            Ok(m) => m,
            Err(e) => {
                return Err(e);
            },
        },
        None => {
            let m = StringMap::new();
            assert(holds_pairs(m, Seq::empty()));
            m
        },
    };
    let parent = match flags.get("parent") {
        Some(p) => Some(copy_string(p)),
        None => None,
    };
    Ok(LayoutConfig { variants, languages, routes, parent })
}

// ---------------------------------------------------------------------------
// Names
// ---------------------------------------------------------------------------

pub open spec fn layout_name_char(c: char) -> bool {
    is_ascii_alnum(c) || c == '-' || c == '_'
}

pub open spec fn reserved_names() -> Seq<Seq<char>> {
    seq!["admin"@, "system"@, "api"@, "debug"@, "test"@]
}

/// The constraint that a layout name breaks, if any.
pub open spec fn layout_name_problem(name: Seq<char>) -> Option<Seq<char>> {
    if byte_len(name) < 3 || byte_len(name) > 32 {
        Some("Must be 3-32 characters"@)
    } else if !is_ascii_alpha(name[0]) {
        Some("Must start with letter"@)
    } else if exists|i: int| 0 <= i < name.len() && !layout_name_char(#[trigger] name[i]) {
        Some("Only alphanumeric, hyphen, underscore allowed"@)
    } else if reserved_names().contains(name) {
        Some("Reserved name"@)
    } else {
        None
    }
}

/// Validates a layout name: 3 to 32 bytes, a letter first, only ASCII
/// letters, digits, `-` and `_`, and not a reserved name.
pub fn validate_layout_name(name: &str) -> (r: ReedResult<()>)
    ensures
        match layout_name_problem(name@) {
            None => r is Ok,
            Some(c) => r matches Err(e) && is_validation_error(e, "layout_name"@, name@, c),
        },
{
    let n = str_byte_len(name);
    if n < 3 || n > 32 {
        return Err(validation_error("layout_name", str_to_string(name), str_to_string("Must be 3-32 characters")));
    }
    let cs = to_chars(name);
    proof {
        if name@.len() == 0 {
            assert(vstd::utf8::encode_utf8(name@) =~= Seq::<u8>::empty());
        }
    }
    if cs.len() == 0 || !char_is_ascii_alpha(cs[0]) {
        return Err(validation_error("layout_name", str_to_string(name), str_to_string("Must start with letter")));
    }
    let mut i: usize = 0;
    while i < cs.len()
        invariant
            cs@ == name@,
            i <= cs@.len(),
            3 <= byte_len(name@) <= 32,
            name@.len() > 0 && is_ascii_alpha(name@[0]),
            forall|j: int| 0 <= j < i ==> layout_name_char(#[trigger] name@[j]),
        decreases cs.len() - i,
    {
        let c = cs[i];
        if !(char_is_ascii_alnum(c) || c == '-' || c == '_') {
            assert(!layout_name_char(name@[i as int]));
            return Err(
                validation_error(
                    "layout_name",
                    str_to_string(name),
                    str_to_string("Only alphanumeric, hyphen, underscore allowed"),
                ),
            );
        }
        i += 1;
    }
    if str_eq(name, "admin") || str_eq(name, "system") || str_eq(name, "api") || str_eq(name, "debug")
        || str_eq(name, "test") {
        return Err(validation_error("layout_name", str_to_string(name), str_to_string("Reserved name")));
    }
    proof {
        if reserved_names().contains(name@) {
            let j = choose|j: int| 0 <= j < reserved_names().len() && reserved_names()[j] == name@;
            assert(false);
        }
    }
    Ok(())
}

/// The directory of a layout.
pub fn layout_dir(name: &str) -> (r: String)
    ensures
        r@ == "templates/layouts/"@ + name@,
{
    let mut r = str_to_string("templates/layouts/");
    push_str(&mut r, name);
    r
}

/// The problem of one name: its constraint, or that the layout exists.
pub open spec fn name_check(name: Seq<char>, existing: Seq<Seq<char>>) -> Option<(Seq<char>, Seq<char>)> {
    match layout_name_problem(name) {
        Some(c) => Some((name, c)),
        None => if existing.contains(name) {
            Some((name, "Layout already exists"@))
        } else {
            None
        },
    }
}

/// The first name, in order, that cannot become a new layout.
pub open spec fn first_name_problem(names: Seq<Seq<char>>, existing: Seq<Seq<char>>) -> Option<
    (Seq<char>, Seq<char>),
>
    decreases names.len(),
{
    if names.len() == 0 {
        None
    } else {
        match first_name_problem(names.drop_last(), existing) {
            Some(p) => Some(p),
            None => name_check(names.last(), existing),
        }
    }
}

proof fn lemma_first_problem_extends(names: Seq<Seq<char>>, existing: Seq<Seq<char>>, n: int)
    requires
        0 <= n <= names.len(),
        first_name_problem(names.take(n), existing) is Some,
    ensures
        first_name_problem(names, existing) == first_name_problem(names.take(n), existing),
    decreases names.len() - n,
{
    if n == names.len() {
        assert(names.take(n) =~= names);
    } else {
        assert(names.take(n + 1).drop_last() =~= names.take(n));
        lemma_first_problem_extends(names, existing, n + 1);
    }
}

/// Checks `reed init:layout <name>...`: at least one name, flags that
/// parse, and names that are valid and not yet taken (`existing` holds the
/// names whose layout directory exists). Gives the configuration to
/// create the layouts with.
pub fn init_layout(args: &Vec<String>, flags: &StringMap, existing: &Vec<String>) -> (r: ReedResult<
    LayoutConfig,
>)
    requires
        flags.wf(),
    ensures
        args@.len() == 0 ==> (r matches Err(e) && is_invalid_command(
            e,
            "init:layout"@,
            "Requires at least 1 layout name"@,
        )),
        args@.len() > 0 ==> match layout_config_spec(*flags) {
            Err(ev) => r matches Err(e) && e@ == ev,
            Ok(spec) => match first_name_problem(strings_view(args@), strings_view(existing@)) {
                Some((n, c)) => r matches Err(e) && is_validation_error(e, "layout_name"@, n, c),
                None => r matches Ok(cfg) && config_is(cfg, spec),
            },
        },
{
    if args.len() == 0 {
        return Err(invalid_command("init:layout", str_to_string("Requires at least 1 layout name")));
    }
    let config = parse_layout_config(flags)?;
    let ghost names = strings_view(args@);
    let ghost ex = strings_view(existing@);
    let mut i: usize = 0;
    while i < args.len()
        invariant
            i <= args@.len(),
            names == strings_view(args@),
            ex == strings_view(existing@),
            layout_config_spec(*flags) matches Ok(spec) && config_is(config, spec),
            first_name_problem(names.take(i as int), ex) is None,
        decreases args.len() - i,
    {
        proof {
            assert(names.take(i + 1).drop_last() =~= names.take(i as int));
            assert(names.take(i + 1).last() == args@[i as int]@);
        }
        let name = args[i].as_str();
        match validate_layout_name(name) {
            Err(e) => {
                proof {
                    lemma_first_problem_extends(names, ex, i + 1);
                }
                return Err(e);
            },
            Ok(()) => {},
        }
        if contains_string(existing, name) {
            proof {
                lemma_first_problem_extends(names, ex, i + 1);
            }
            return Err(validation_error("layout_name", str_to_string(name), str_to_string("Layout already exists")));
        }
        i += 1;
    }
    assert(names.take(i as int) =~= names);
    Ok(config)
}

// ---------------------------------------------------------------------------
// What a new layout consists of
// ---------------------------------------------------------------------------

/// The file of a layout in one variant with extension `ext`.
pub open spec fn layout_file_path(layout: Seq<char>, variant: TemplateVariant, ext: Seq<char>) -> Seq<char> {
    "templates/layouts/"@ + layout + "/"@ + layout + "."@ + variant_text(variant) + "."@ + ext
}

pub fn layout_file(layout: &str, variant: TemplateVariant, ext: &str) -> (r: String)
    ensures
        r@ == layout_file_path(layout@, variant, ext@),
{
    let mut r = str_to_string("templates/layouts/");
    push_str(&mut r, layout);
    push_str(&mut r, "/");
    push_str(&mut r, layout);
    push_str(&mut r, ".");
    push_str(&mut r, variant.as_str());
    push_str(&mut r, ".");
    push_str(&mut r, ext);
    r
}

pub const TEMPLATE_HEAD: &'static str = "{# Copyright 2025 Vivian Voss. Licensed under the Apache License, Version 2.0. #}\n{# SPDX-License-Identifier: Apache-2.0 #}\n\n<!DOCTYPE html>\n<html lang=\"{{ lang }}\">\n<head>\n    <meta charset=\"UTF-8\">\n    <meta name=\"viewport\" content=\"width=device-width, initial-scale=1.0\">\n    <title>{{ \"";

/// The Jinja template of a new layout in one variant.
pub open spec fn template_text(layout: Seq<char>, variant: TemplateVariant) -> Seq<char> {
    let v = variant_text(variant);
    TEMPLATE_HEAD@ + layout + ".title\" | text(lang) }}</title>\n    <meta name=\"description\" content=\"{{ \""@
        + layout + ".description\" | meta }}\">\n    <link rel=\"stylesheet\" href=\"/css/"@ + layout + "."@
        + v + ".css\">\n</head>\n<body class=\""@ + v + "\">\n    <main>\n        <h1>{{ \""@ + layout
        + ".heading\" | text(lang) }}</h1>\n        <p>{{ \""@ + layout
        + ".content\" | text(lang) }}</p>\n    </main>\n</body>\n</html>\n"@
}

pub fn template_content(layout: &str, variant: TemplateVariant) -> (r: String)
    ensures
        r@ == template_text(layout@, variant),
{
    let v = variant.as_str();
    let mut r = str_to_string(TEMPLATE_HEAD);
    push_str(&mut r, layout);
    push_str(&mut r, ".title\" | text(lang) }}</title>\n    <meta name=\"description\" content=\"{{ \"");
    push_str(&mut r, layout);
    push_str(&mut r, ".description\" | meta }}\">\n    <link rel=\"stylesheet\" href=\"/css/");
    push_str(&mut r, layout);
    push_str(&mut r, ".");
    push_str(&mut r, v);
    push_str(&mut r, ".css\">\n</head>\n<body class=\"");
    push_str(&mut r, v);
    push_str(&mut r, "\">\n    <main>\n        <h1>{{ \"");
    push_str(&mut r, layout);
    push_str(&mut r, ".heading\" | text(lang) }}</h1>\n        <p>{{ \"");
    push_str(&mut r, layout);
    push_str(&mut r, ".content\" | text(lang) }}</p>\n    </main>\n</body>\n</html>\n");
    r
}

pub const CSS_HEAD: &'static str = "/* Copyright 2025 Vivian Voss. Licensed under the Apache License, Version 2.0. */\n/* SPDX-License-Identifier: Apache-2.0 */\n\n/* Layout: ";

pub const CSS_TAIL: &'static str = " {\n    font-family: system-ui, -apple-system, sans-serif;\n    line-height: 1.6;\n    padding: 2rem;\n}\n\nmain {\n    max-width: 1200px;\n    margin: 0 auto;\n}\n\nh1 {\n    margin-bottom: 1rem;\n}\n";

/// The stylesheet of a new layout in one variant.
pub open spec fn css_text(layout: Seq<char>, variant: TemplateVariant) -> Seq<char> {
    let v = variant_text(variant);
    CSS_HEAD@ + layout + " */\n/* Variant: "@ + v
        + " */\n\n* {\n    margin: 0;\n    padding: 0;\n    box-sizing: border-box;\n}\n\nbody."@ + v
        + CSS_TAIL@
}

pub fn css_content(layout: &str, variant: TemplateVariant) -> (r: String)
    ensures
        r@ == css_text(layout@, variant),
{
    let v = variant.as_str();
    let mut r = str_to_string(CSS_HEAD);
    push_str(&mut r, layout);
    push_str(&mut r, " */\n/* Variant: ");
    push_str(&mut r, v);
    push_str(&mut r, " */\n\n* {\n    margin: 0;\n    padding: 0;\n    box-sizing: border-box;\n}\n\nbody.");
    push_str(&mut r, v);
    push_str(&mut r, CSS_TAIL);
    r
}

pub open spec fn variants_text(vs: Seq<TemplateVariant>) -> Seq<Seq<char>> {
    vs.map_values(|v: TemplateVariant| variant_text(v))
}

fn variant_names(vs: &Vec<TemplateVariant>) -> (r: Vec<String>)
    ensures
        strings_view(r@) == variants_text(vs@),
{
    let mut r: Vec<String> = Vec::new();
    let mut i: usize = 0;
    while i < vs.len()
        invariant
            i <= vs@.len(),
            strings_view(r@) == variants_text(vs@).take(i as int),
        decreases vs.len() - i,
    {
        let ghost before = r@;
        let s = str_to_string(vs[i].as_str());
        r.push(s);
        assert(strings_view(r@) =~= strings_view(before).push(s@));
        assert(strings_view(r@) =~= variants_text(vs@).take(i + 1));
        i += 1;
    }
    assert(variants_text(vs@).take(i as int) =~= variants_text(vs@));
    r
}

/// The registry value of a layout: variants, languages, parent, creation
/// time and the active flag, separated by `|`.
pub open spec fn registry_value(c: LayoutConfig, timestamp: u64) -> Seq<char> {
    join_seqs(variants_text(c.variants@), ","@) + "|"@ + join_seqs(strings_view(c.languages@), ","@)
        + "|"@ + (match c.parent {
        Some(p) => p@,
        None => Seq::empty(),
    }) + "|"@ + decimal(timestamp as nat) + "|true"@
}

/// The registry record of a new layout created at `timestamp`.
pub fn registry_record(layout: &str, config: &LayoutConfig, timestamp: u64) -> (r: CsvRecord)
    ensures
        r.key@ == layout@,
        r.value@ == registry_value(*config, timestamp),
        crate::reedstream::opt_str_view(r.description) == Some("Layout: "@ + layout@),
{
    let names = variant_names(&config.variants);
    let mut value = join_strings(&names, ",");
    push_str(&mut value, "|");
    let langs = join_strings(&config.languages, ",");
    push_str(&mut value, langs.as_str());
    push_str(&mut value, "|");
    match &config.parent {
        Some(p) => push_str(&mut value, p.as_str()),
        None => {},
    }
    push_str(&mut value, "|");
    push_u64(&mut value, timestamp);
    push_str(&mut value, "|true");
    let mut description = str_to_string("Layout: ");
    push_str(&mut description, layout);
    CsvRecord { key: str_to_string(layout), value, description: Some(description) }
}

/// The routes of a new layout: the configured ones, else the layout's
/// name in every language.
pub open spec fn layout_routes(c: LayoutConfig, layout: Seq<char>) -> Seq<(Seq<char>, Seq<char>)> {
    if c.routes.entries().len() == 0 {
        strings_view(c.languages@).map_values(|l: Seq<char>| (l, layout))
    } else {
        c.routes.entries()
    }
}

/// The route record of `layout` in one language.
pub open spec fn route_record_is(r: CsvRecord, layout: Seq<char>, lang_route: (Seq<char>, Seq<char>)) -> bool {
    &&& r.key@ == layout + "@"@ + lang_route.0
    &&& r.value@ == lang_route.1
    &&& crate::reedstream::opt_str_view(r.description) == Some(
        lang_route.0 + " route for "@ + layout + " layout"@,
    )
}

fn route_record(layout: &str, lang: &str, route: &str) -> (r: CsvRecord)
    ensures
        route_record_is(r, layout@, (lang@, route@)),
{
    let mut key = str_to_string(layout);
    push_str(&mut key, "@");
    push_str(&mut key, lang);
    let mut description = str_to_string(lang);
    push_str(&mut description, " route for ");
    push_str(&mut description, layout);
    push_str(&mut description, " layout");
    CsvRecord { key, value: str_to_string(route), description: Some(description) }
}

/// The route records of a new layout, in the order of its routes.
pub fn route_records(layout: &str, config: &LayoutConfig) -> (r: Vec<CsvRecord>)
    ensures
        r@.len() == layout_routes(*config, layout@).len(),
        forall|i: int| 0 <= i < r@.len() ==> route_record_is(#[trigger] r@[i], layout@, layout_routes(*config, layout@)[i]),
{
    let mut r: Vec<CsvRecord> = Vec::new();
    let ghost lr = layout_routes(*config, layout@);
    if config.routes.is_empty() {
        let mut i: usize = 0;
        while i < config.languages.len()
            invariant
                i <= config.languages@.len(),
                config.routes.entries().len() == 0,
                lr == layout_routes(*config, layout@),
                r@.len() == i,
                forall|j: int| 0 <= j < i ==> route_record_is(#[trigger] r@[j], layout@, lr[j]),
            decreases config.languages.len() - i,
        {
            r.push(route_record(layout, config.languages[i].as_str(), layout));
            i += 1;
        }
    } else {
        let mut i: usize = 0;
        while i < config.routes.len()
            invariant
                i <= config.routes.entries().len(),
                config.routes.entries().len() > 0,
                lr == layout_routes(*config, layout@),
                r@.len() == i,
                forall|j: int| 0 <= j < i ==> route_record_is(#[trigger] r@[j], layout@, lr[j]),
            decreases config.routes.entries().len() - i,
        {
            let (lang, route) = config.routes.entry(i);
            r.push(route_record(layout, lang.as_str(), route.as_str()));
            i += 1;
        }
    }
    r
}

/// The default texts: key suffix and value word.
pub open spec fn default_texts() -> Seq<(Seq<char>, Seq<char>)> {
    seq![("title"@, "Title"@), ("heading"@, "Heading"@), ("description"@, "Description"@), ("content"@, "Content"@)]
}

/// The text record of `layout` for one language and default text.
pub open spec fn text_record_is(r: CsvRecord, layout: Seq<char>, lang: Seq<char>, d: (Seq<char>, Seq<char>)) -> bool {
    &&& r.key@ == layout + "."@ + d.0 + "@"@ + lang
    &&& r.value@ == layout + " "@ + d.1
    &&& crate::reedstream::opt_str_view(r.description) == Some(layout + " "@ + d.0 + " text"@)
}

fn text_record(layout: &str, lang: &str, suffix: &str, word: &str) -> (r: CsvRecord)
    ensures
        text_record_is(r, layout@, lang@, (suffix@, word@)),
{
    let mut key = str_to_string(layout);
    push_str(&mut key, ".");
    push_str(&mut key, suffix);
    push_str(&mut key, "@");
    push_str(&mut key, lang);
    let mut value = str_to_string(layout);
    push_str(&mut value, " ");
    push_str(&mut value, word);
    let mut description = str_to_string(layout);
    push_str(&mut description, " ");
    push_str(&mut description, suffix);
    push_str(&mut description, " text");
    CsvRecord { key, value, description: Some(description) }
}

/// The default text records of a new layout: for each language, in
/// order, the title, heading, description and content.
pub fn default_text_records(layout: &str, languages: &Vec<String>) -> (r: Vec<CsvRecord>)
    ensures
        r@.len() == 4 * languages@.len(),
        forall|i: int, j: int|
            0 <= i < languages@.len() && 0 <= j < 4 ==> text_record_is(
                #[trigger] r@[4 * i + j],
                layout@,
                languages@[i]@,
                default_texts()[j],
            ),
{
    let mut r: Vec<CsvRecord> = Vec::new();
    let mut i: usize = 0;
    while i < languages.len()
        invariant
            i <= languages@.len(),
            r@.len() == 4 * i,
            forall|a: int, b: int|
                0 <= a < i && 0 <= b < 4 ==> text_record_is(
                    #[trigger] r@[4 * a + b],
                    layout@,
                    languages@[a]@,
                    default_texts()[b],
                ),
        decreases languages.len() - i,
    {
        let lang = languages[i].as_str();
        r.push(text_record(layout, lang, "title", "Title"));
        r.push(text_record(layout, lang, "heading", "Heading"));
        r.push(text_record(layout, lang, "description", "Description"));
        r.push(text_record(layout, lang, "content", "Content"));
        assert forall|a: int, b: int|
            0 <= a < i + 1 && 0 <= b < 4 implies text_record_is(
                #[trigger] r@[4 * a + b],
                layout@,
                languages@[a]@,
                default_texts()[b],
            ) by {
            if a == i {
                assert(4 * a + b == 4 * i + b);
            }
        }
        i += 1;
    }
    r
}

/// The default meta records of a new layout: cache TTL 3600 and cache
/// enabled.
pub fn default_meta_records(layout: &str) -> (r: Vec<CsvRecord>)
    ensures
        r@.len() == 2,
        r@[0].key@ == layout@ + ".cache.ttl"@,
        r@[0].value@ == "3600"@,
        r@[1].key@ == layout@ + ".cache.enabled"@,
        r@[1].value@ == "true"@,
        crate::reedstream::opt_str_view(r@[0].description) == Some(layout@ + " meta"@),
        crate::reedstream::opt_str_view(r@[1].description) == Some(layout@ + " meta"@),
{
    let mut k1 = str_to_string(layout);
    push_str(&mut k1, ".cache.ttl");
    let mut k2 = str_to_string(layout);
    push_str(&mut k2, ".cache.enabled");
    let mut d1 = str_to_string(layout);
    push_str(&mut d1, " meta");
    let mut d2 = str_to_string(layout);
    push_str(&mut d2, " meta");
    let mut r: Vec<CsvRecord> = Vec::new();
    r.push(CsvRecord { key: k1, value: str_to_string("3600"), description: Some(d1) });
    r.push(CsvRecord { key: k2, value: str_to_string("true"), description: Some(d2) });
    r
}

/// The answer of `init:layout` once the layouts were created.
pub open spec fn created_text(names: Seq<Seq<char>>, c: LayoutConfig) -> Seq<char> {
    "✓ Created "@ + decimal(names.len()) + " layout"@ + (if names.len() == 1 { Seq::empty() } else { "s"@ })
        + ": "@ + join_seqs(names, ", "@) + "\n  Languages: "@ + join_seqs(strings_view(c.languages@), ", "@)
        + "\n  Variants: "@ + join_seqs(variants_text(c.variants@), ", "@) + "\n  Routes: "@ + decimal(
        c.routes.entries().len(),
    )
}

pub fn created_message(created: &Vec<String>, config: &LayoutConfig) -> (r: ReedResponse<String>)
    ensures
        r.data@ == created_text(strings_view(created@), *config),
        r.source@ == "cli::layout_commands::init_layout"@,
{
    let mut out = str_to_string("✓ Created ");
    push_usize(&mut out, created.len());
    push_str(&mut out, " layout");
    if created.len() != 1 {
        push_str(&mut out, "s");
    }
    push_str(&mut out, ": ");
    let names = join_strings(created, ", ");
    push_str(&mut out, names.as_str());
    push_str(&mut out, "\n  Languages: ");
    let langs = join_strings(&config.languages, ", ");
    push_str(&mut out, langs.as_str());
    push_str(&mut out, "\n  Variants: ");
    let vnames = variant_names(&config.variants);
    let vs = join_strings(&vnames, ", ");
    push_str(&mut out, vs.as_str());
    push_str(&mut out, "\n  Routes: ");
    push_usize(&mut out, config.routes.len());
    assert(out@ =~= created_text(strings_view(created@), *config));
    ReedResponse::new(out, "cli::layout_commands::init_layout")
}

} // verus!
