//! Data consistency checks: `reed validate:routes|consistency|text|references`.
//!
//! The checks work on what was read from the project: the CSV files of
//! `.reed/` (absent, unreadable, or their records), the template files that
//! exist, and the time the run took. Each command returns its report text.
use vstd::prelude::*;
use crate::cli::parser::strings_view;
use crate::csv::record::CsvRecord;
use crate::lists::{contains_string, distinct, distinct_strings, keys_of, record_keys};
use crate::reedstream::{error_text, validation_error, is_validation_error, ReedError, ReedResponse, ReedResult};
use crate::report::{check_section, duration_line, join_seqs, join_strings, push_check_section, push_duration_line};
use crate::string_map::StringMap;
use crate::text::{
    char_is_alphanumeric, chars_to_string, copy_string, decimal, push_str, push_u64, push_usize, str_to_string,
    to_chars, unicode_alphanumeric,
};

verus! {

/// What was read from the project for a validation run.
pub struct ProjectFiles {
    /// `.reed/text.csv`: `None` when absent.
    pub text: Option<ReedResult<Vec<CsvRecord>>>,
    /// `.reed/routes.csv`: `None` when absent.
    pub routes: Option<ReedResult<Vec<CsvRecord>>>,
    /// `.reed/meta.csv`: `None` when absent.
    pub meta: Option<ReedResult<Vec<CsvRecord>>>,
    /// `.reed/registry.csv`: `None` when absent.
    pub registry: Option<ReedResult<Vec<CsvRecord>>>,
    /// Template paths (see `template_path`) that exist.
    pub existing_templates: Vec<String>,
    /// How long the run took: seconds with two decimals, as the caller
    /// formatted them.
    pub duration: String,
}

// ---------------------------------------------------------------------------
// Findings
// ---------------------------------------------------------------------------

/// The values of the records with key `k`, in order.
pub open spec fn values_for(rs: Seq<CsvRecord>, k: Seq<char>) -> Seq<Seq<char>>
    decreases rs.len(),
{
    if rs.len() == 0 {
        Seq::empty()
    } else {
        let p = values_for(rs.drop_last(), k);
        if rs.last().key@ == k { p.push(rs.last().value@) } else { p }
    }
}

/// For each key of `ks` used by more than one record:
/// `"key → N layout(s): v1, v2"`.
pub open spec fn duplicate_items(rs: Seq<CsvRecord>, ks: Seq<Seq<char>>) -> Seq<Seq<char>>
    decreases ks.len(),
{
    if ks.len() == 0 {
        Seq::empty()
    } else {
        let p = duplicate_items(rs, ks.drop_last());
        let vs = values_for(rs, ks.last());
        if vs.len() > 1 {
            p.push(ks.last() + " → "@ + decimal(vs.len()) + " layout(s): "@ + join_seqs(vs, ", "@))
        } else {
            p
        }
    }
}

/// `"key → value"` for each record whose value is not among `layouts`.
pub open spec fn dangling_items(rs: Seq<CsvRecord>, layouts: Seq<Seq<char>>) -> Seq<Seq<char>>
    decreases rs.len(),
{
    if rs.len() == 0 {
        Seq::empty()
    } else {
        let p = dangling_items(rs.drop_last(), layouts);
        if layouts.contains(rs.last().value@) {
            p
        } else {
            p.push(rs.last().key@ + " → "@ + rs.last().value@)
        }
    }
}

/// Where the template of a layout in one variant lives.
pub open spec fn template_path(layout: Seq<char>, variant: Seq<char>) -> Seq<char> {
    "templates/layouts/"@ + layout + "/"@ + layout + "."@ + variant + ".jinja"@
}

/// The template file's name, preceded by `"layout → "` when `arrow`.
pub open spec fn template_item(layout: Seq<char>, variant: Seq<char>, arrow: bool) -> Seq<char> {
    if arrow {
        layout + " → "@ + layout + "."@ + variant + ".jinja"@
    } else {
        layout + "."@ + variant + ".jinja"@
    }
}

pub open spec fn variant_finding(
    layout: Seq<char>,
    variant: Seq<char>,
    existing: Seq<Seq<char>>,
    arrow: bool,
) -> Seq<Seq<char>> {
    if existing.contains(template_path(layout, variant)) {
        Seq::empty()
    } else {
        seq![template_item(layout, variant, arrow)]
    }
}

/// The missing templates of one layout, in the order mouse, touch, reader.
pub open spec fn layout_findings(layout: Seq<char>, existing: Seq<Seq<char>>, arrow: bool) -> Seq<
    Seq<char>,
> {
    variant_finding(layout, "mouse"@, existing, arrow) + variant_finding(
        layout,
        "touch"@,
        existing,
        arrow,
    ) + variant_finding(layout, "reader"@, existing, arrow)
}

/// The missing templates of all layouts, in order.
pub open spec fn template_findings(layouts: Seq<Seq<char>>, existing: Seq<Seq<char>>, arrow: bool) -> Seq<
    Seq<char>,
>
    decreases layouts.len(),
{
    if layouts.len() == 0 {
        Seq::empty()
    } else {
        template_findings(layouts.drop_last(), existing, arrow) + layout_findings(
            layouts.last(),
            existing,
            arrow,
        )
    }
}

/// A route may hold letters, digits, `-`, `/` and `_`.
pub open spec fn route_char_ok(c: char) -> bool {
    unicode_alphanumeric(c) || c == '-' || c == '/' || c == '_'
}

pub open spec fn valid_route(k: Seq<char>) -> bool {
    forall|i: int| 0 <= i < k.len() ==> route_char_ok(#[trigger] k[i])
}

/// The keys of the records that are not valid routes.
pub open spec fn invalid_route_items(rs: Seq<CsvRecord>) -> Seq<Seq<char>>
    decreases rs.len(),
{
    if rs.len() == 0 {
        Seq::empty()
    } else {
        let p = invalid_route_items(rs.drop_last());
        if valid_route(rs.last().key@) { p } else { p.push(rs.last().key@) }
    }
}

// ---------------------------------------------------------------------------
// Sizes of the findings
// ---------------------------------------------------------------------------

pub proof fn lemma_distinct_len(s: Seq<Seq<char>>)
    ensures
        distinct(s).len() <= s.len(),
    decreases s.len(),
{
    if s.len() > 0 {
        lemma_distinct_len(s.drop_last());
    }
}

pub proof fn lemma_duplicate_items_len(rs: Seq<CsvRecord>, ks: Seq<Seq<char>>)
    ensures
        duplicate_items(rs, ks).len() <= ks.len(),
    decreases ks.len(),
{
    if ks.len() > 0 {
        lemma_duplicate_items_len(rs, ks.drop_last());
    }
}

pub proof fn lemma_dangling_items_len(rs: Seq<CsvRecord>, layouts: Seq<Seq<char>>)
    ensures
        dangling_items(rs, layouts).len() <= rs.len(),
    decreases rs.len(),
{
    if rs.len() > 0 {
        lemma_dangling_items_len(rs.drop_last(), layouts);
    }
}

pub proof fn lemma_template_findings_len(layouts: Seq<Seq<char>>, existing: Seq<Seq<char>>, arrow: bool)
    ensures
        template_findings(layouts, existing, arrow).len() <= 3 * layouts.len(),
    decreases layouts.len(),
{
    if layouts.len() > 0 {
        lemma_template_findings_len(layouts.drop_last(), existing, arrow);
    }
}

pub proof fn lemma_invalid_route_items_len(rs: Seq<CsvRecord>)
    ensures
        invalid_route_items(rs).len() <= rs.len(),
    decreases rs.len(),
{
    if rs.len() > 0 {
        lemma_invalid_route_items_len(rs.drop_last());
    }
}

// ---------------------------------------------------------------------------
// Computing the findings
// ---------------------------------------------------------------------------

/// The values of the records with key `k`, in order.
pub fn values_for_key(records: &Vec<CsvRecord>, k: &str) -> (r: Vec<String>)
    ensures
        strings_view(r@) == values_for(records@, k@),
{
    let mut r: Vec<String> = Vec::new();
    let mut i: usize = 0;
    while i < records.len()
        invariant
            i <= records@.len(),
            strings_view(r@) == values_for(records@.take(i as int), k@),
        decreases records.len() - i,
    {
        proof {
            assert(records@.take(i + 1).drop_last() =~= records@.take(i as int));
        }
        if crate::text::str_eq(records[i].key.as_str(), k) {
            let ghost before = r@;
            let v = copy_string(&records[i].value);
            r.push(v);
            assert(strings_view(r@) =~= strings_view(before).push(records@[i as int].value@));
        }
        i += 1;
    }
    assert(records@.take(i as int) =~= records@);
    r
}

/// Routes used by more than one record, with their layouts.
pub fn duplicate_route_items(records: &Vec<CsvRecord>) -> (r: Vec<String>)
    ensures
        strings_view(r@) == duplicate_items(records@, distinct(record_keys(records@))),
{
    let keys = keys_of(records);
    let ks = distinct_strings(&keys);
    let ghost kv = strings_view(ks@);
    let mut r: Vec<String> = Vec::new();
    let mut j: usize = 0;
    while j < ks.len()
        invariant
            j <= ks@.len(),
            kv == strings_view(ks@),
            strings_view(r@) == duplicate_items(records@, kv.take(j as int)),
        decreases ks.len() - j,
    {
        proof {
            assert(kv.take(j + 1).drop_last() =~= kv.take(j as int));
            assert(kv.take(j + 1).last() == ks@[j as int]@);
        }
        let vs = values_for_key(records, ks[j].as_str());
        if vs.len() > 1 {
            let mut item = copy_string(&ks[j]);
            push_str(&mut item, " → ");
            push_usize(&mut item, vs.len());
            push_str(&mut item, " layout(s): ");
            let joined = join_strings(&vs, ", ");
            push_str(&mut item, joined.as_str());
            let ghost before = r@;
            r.push(item);
            assert(strings_view(r@) =~= strings_view(before).push(item@));
        }
        j += 1;
    }
    assert(kv.take(j as int) =~= kv);
    r
}

/// `"key → value"` for each record whose value is not among `layouts`.
pub fn dangling_route_items(records: &Vec<CsvRecord>, layouts: &Vec<String>) -> (r: Vec<String>)
    ensures
        strings_view(r@) == dangling_items(records@, strings_view(layouts@)),
{
    let mut r: Vec<String> = Vec::new();
    let mut i: usize = 0;
    while i < records.len()
        invariant
            i <= records@.len(),
            strings_view(r@) == dangling_items(records@.take(i as int), strings_view(layouts@)),
        decreases records.len() - i,
    {
        proof {
            assert(records@.take(i + 1).drop_last() =~= records@.take(i as int));
        }
        if !contains_string(layouts, records[i].value.as_str()) {
            let mut item = copy_string(&records[i].key);
            push_str(&mut item, " → ");
            push_str(&mut item, records[i].value.as_str());
            let ghost before = r@;
            r.push(item);
            assert(strings_view(r@) =~= strings_view(before).push(item@));
        }
        i += 1;
    }
    assert(records@.take(i as int) =~= records@);
    r
}

/// The path of a layout's template in one variant.
pub fn template_file_path(layout: &str, variant: &str) -> (r: String)
    ensures
        r@ == template_path(layout@, variant@),
{
    let mut r = str_to_string("templates/layouts/");
    push_str(&mut r, layout);
    push_str(&mut r, "/");
    push_str(&mut r, layout);
    push_str(&mut r, ".");
    push_str(&mut r, variant);
    push_str(&mut r, ".jinja");
    r
}

fn push_variant_finding(
    items: &mut Vec<String>,
    layout: &str,
    variant: &str,
    existing: &Vec<String>,
    arrow: bool,
)
    ensures
        strings_view(final(items)@) == strings_view(old(items)@) + variant_finding(
            layout@,
            variant@,
            strings_view(existing@),
            arrow,
        ),
{
    let path = template_file_path(layout, variant);
    if !contains_string(existing, path.as_str()) {
        let mut item = str_to_string(layout);
        if arrow {
            push_str(&mut item, " → ");
            push_str(&mut item, layout);
        }
        push_str(&mut item, ".");
        push_str(&mut item, variant);
        push_str(&mut item, ".jinja");
        let ghost before = items@;
        items.push(item);
        assert(strings_view(items@) =~= strings_view(before) + seq![item@]);
    } else {
        assert(strings_view(items@) =~= strings_view(items@) + Seq::<Seq<char>>::empty());
    }
}

/// The missing templates of the layouts (see `template_findings`).
pub fn missing_template_items(layouts: &Vec<String>, existing: &Vec<String>, arrow: bool) -> (r: Vec<
    String,
>)
    ensures
        strings_view(r@) == template_findings(strings_view(layouts@), strings_view(existing@), arrow),
{
    let ghost lv = strings_view(layouts@);
    let ghost ev = strings_view(existing@);
    let mut r: Vec<String> = Vec::new();
    let mut i: usize = 0;
    while i < layouts.len()
        invariant
            i <= layouts@.len(),
            lv == strings_view(layouts@),
            ev == strings_view(existing@),
            strings_view(r@) == template_findings(lv.take(i as int), ev, arrow),
        decreases layouts.len() - i,
    {
        proof {
            assert(lv.take(i + 1).drop_last() =~= lv.take(i as int));
            assert(lv.take(i + 1).last() == layouts@[i as int]@);
        }
        let layout = layouts[i].as_str();
        push_variant_finding(&mut r, layout, "mouse", existing, arrow);
        push_variant_finding(&mut r, layout, "touch", existing, arrow);
        push_variant_finding(&mut r, layout, "reader", existing, arrow);
        assert(strings_view(r@) =~= template_findings(lv.take(i + 1), ev, arrow));
        i += 1;
    }
    assert(lv.take(i as int) =~= lv);
    r
}

/// Whether every character of `k` may stand in a route.
pub fn is_valid_route(k: &str) -> (r: bool)
    ensures
        r == valid_route(k@),
{
    let cs = to_chars(k);
    let mut i: usize = 0;
    while i < cs.len()
        invariant
            cs@ == k@,
            i <= cs@.len(),
            forall|j: int| 0 <= j < i ==> route_char_ok(#[trigger] k@[j]),
        decreases cs.len() - i,
    {
        let c = cs[i];
        if !(char_is_alphanumeric(c) || c == '-' || c == '/' || c == '_') {
            assert(!route_char_ok(k@[i as int]));
            return false;
        }
        i += 1;
    }
    true
}

/// The keys of the records that are not valid routes.
pub fn invalid_routes(records: &Vec<CsvRecord>) -> (r: Vec<String>)
    ensures
        strings_view(r@) == invalid_route_items(records@),
{
    let mut r: Vec<String> = Vec::new();
    let mut i: usize = 0;
    while i < records.len()
        invariant
            i <= records@.len(),
            strings_view(r@) == invalid_route_items(records@.take(i as int)),
        decreases records.len() - i,
    {
        proof {
            assert(records@.take(i + 1).drop_last() =~= records@.take(i as int));
        }
        if !is_valid_route(records[i].key.as_str()) {
            let ghost before = r@;
            let k = copy_string(&records[i].key);
            r.push(k);
            assert(strings_view(r@) =~= strings_view(before).push(records@[i as int].key@));
        }
        i += 1;
    }
    assert(records@.take(i as int) =~= records@);
    r
}

// ---------------------------------------------------------------------------
// Reports
// ---------------------------------------------------------------------------

/// The records of a file that was read, else none.
pub open spec fn loaded(f: Option<ReedResult<Vec<CsvRecord>>>) -> Seq<CsvRecord> {
    match f {
        Some(Ok(v)) => v@,
        _ => Seq::empty(),
    }
}

/// Record counts small enough for the reports' tallies.
pub open spec fn counts_fit(files: ProjectFiles) -> bool {
    3 * (loaded(files.text).len() + loaded(files.routes).len() + loaded(files.meta).len() + loaded(
        files.registry,
    ).len()) + 8 <= usize::MAX
}

/// A successful validation response carrying `text`.
pub open spec fn report_is(r: ReedResult<ReedResponse<String>>, text: Seq<char>) -> bool {
    r matches Ok(resp) && resp.data@ == text && resp.source@ == "validation"@ && !resp.cached
        && resp.metrics is None
}

pub open spec fn summary_line(issues: nat, what: Seq<char>) -> Seq<char> {
    "\n📋 Summary: "@ + decimal(issues) + what
}

/// The report of `validate:routes` on the records of routes.csv and
/// registry.csv.
pub open spec fn routes_report(
    rs: Seq<CsvRecord>,
    registry: Seq<CsvRecord>,
    existing: Seq<Seq<char>>,
    seconds: Seq<char>,
) -> Seq<char> {
    let layouts = distinct(record_keys(registry));
    let dups = duplicate_items(rs, distinct(record_keys(rs)));
    let missing = dangling_items(rs, layouts);
    let templates = template_findings(layouts, existing, false);
    let invalid = invalid_route_items(rs);
    "🔍 Validating routes...\n\n"@ + "📊 Total routes: "@ + decimal(rs.len()) + "\n\n"@
        + check_section(
        dups,
        "✓ Route uniqueness: OK (no duplicates)\n"@,
        "⚠ Route uniqueness: "@,
        " duplicate(s) found\n"@,
        dups.len(),
        false,
    ) + check_section(
        missing,
        "✓ Layout references: OK (all layouts exist in registry)\n"@,
        "⚠ Layout references: "@,
        " missing layout(s)\n"@,
        5,
        true,
    ) + check_section(
        templates,
        "✓ Template files: OK (all templates exist)\n"@,
        "⚠ Template files: "@,
        " missing\n"@,
        5,
        true,
    ) + check_section(
        invalid,
        "✓ Route format: OK\n"@,
        "⚠ Route format: "@,
        " invalid route(s)\n"@,
        5,
        false,
    ) + summary_line(
        (dups.len() + missing.len() + templates.len() + invalid.len()) as nat,
        " issue(s) found\n"@,
    ) + duration_line(seconds)
}

/// Validates route consistency (`reed validate:routes [--fix]`).
///
/// Checks that routes are unique, that their layouts are registered, that
/// every registered layout has its three templates and that routes hold
/// only letters, digits, `-`, `/` and `_`. Without routes.csv the report
/// says so; an unreadable routes.csv or registry.csv is the error.
pub fn validate_routes(flags: &StringMap, files: ProjectFiles) -> (r: ReedResult<ReedResponse<String>>)
    requires
        counts_fit(files),
    ensures
        match files.routes {
            None => report_is(r, "🔍 Validating routes...\n\n"@ + "⚠ No routes.csv found\n"@),
            Some(Err(e)) => r == Err::<ReedResponse<String>, ReedError>(e),
            Some(Ok(rs)) => match files.registry {
                Some(Err(e)) => r == Err::<ReedResponse<String>, ReedError>(e),
                _ => report_is(
                    r,
                    routes_report(rs@, loaded(files.registry), strings_view(files.existing_templates@), files.duration@),
                ),
            },
        },
{
    let ghost input = files;
    let ProjectFiles { text, routes, meta, registry, existing_templates, duration } = files;
    let mut output = str_to_string("🔍 Validating routes...\n\n");
    let rs = match routes {
        None => {
            push_str(&mut output, "⚠ No routes.csv found\n");
            return Ok(ReedResponse::new(output, "validation"));
        },
        Some(Err(e)) => {
            return Err(e);
        },
        Some(Ok(v)) => v,
    };
    let reg: Vec<CsvRecord> = match registry {
        None => Vec::new(),
        Some(Err(e)) => {
            return Err(e);
        },
        Some(Ok(v)) => v,
    };
    assert(reg@ == loaded(input.registry));
    push_str(&mut output, "📊 Total routes: ");
    push_usize(&mut output, rs.len());
    push_str(&mut output, "\n\n");
    let dups = duplicate_route_items(&rs);
    push_check_section(
        &mut output,
        &dups,
        "✓ Route uniqueness: OK (no duplicates)\n",
        "⚠ Route uniqueness: ",
        " duplicate(s) found\n",
        dups.len(),
        false,
    );
    let keys = keys_of(&reg);
    let layouts = distinct_strings(&keys);
    let missing = dangling_route_items(&rs, &layouts);
    push_check_section(
        &mut output,
        &missing,
        "✓ Layout references: OK (all layouts exist in registry)\n",
        "⚠ Layout references: ",
        " missing layout(s)\n",
        5,
        true,
    );
    let templates = missing_template_items(&layouts, &existing_templates, false);
    push_check_section(
        &mut output,
        &templates,
        "✓ Template files: OK (all templates exist)\n",
        "⚠ Template files: ",
        " missing\n",
        5,
        true,
    );
    let invalid = invalid_routes(&rs);
    push_check_section(
        &mut output,
        &invalid,
        "✓ Route format: OK\n",
        "⚠ Route format: ",
        " invalid route(s)\n",
        5,
        false,
    );
    proof {
        lemma_distinct_len(record_keys(rs@));
        lemma_duplicate_items_len(rs@, distinct(record_keys(rs@)));
        lemma_distinct_len(record_keys(reg@));
        lemma_dangling_items_len(rs@, distinct(record_keys(reg@)));
        lemma_template_findings_len(distinct(record_keys(reg@)), strings_view(existing_templates@), false);
        lemma_invalid_route_items_len(rs@);
    }
    let issues = dups.len() + missing.len() + templates.len() + invalid.len();
    push_str(&mut output, "\n📋 Summary: ");
    push_usize(&mut output, issues);
    push_str(&mut output, " issue(s) found\n");
    push_duration_line(&mut output, duration.as_str());
    assert(output@ =~= routes_report(rs@, reg@, strings_view(existing_templates@), duration@));
    Ok(ReedResponse::new(output, "validation"))
}

/// The line of one CSV file in the consistency report.
pub open spec fn csv_file_line(name: Seq<char>, f: Option<ReedResult<Vec<CsvRecord>>>) -> Seq<char> {
    match f {
        None => "⚠ "@ + name + ": Missing\n"@,
        Some(Ok(v)) => "✓ "@ + name + ": "@ + decimal(v@.len()) + " entries, valid structure\n"@,
        Some(Err(e)) => "⚠ "@ + name + ": Error reading - "@ + error_text(e@) + "\n"@,
    }
}

pub open spec fn file_issue(f: Option<ReedResult<Vec<CsvRecord>>>) -> nat {
    match f {
        Some(Ok(_)) => 0,
        _ => 1,
    }
}

/// Missing templates of the registered layouts, counted per layout entry.
pub open spec fn missing_template_count(files: ProjectFiles) -> nat {
    match files.registry {
        Some(Ok(ls)) => template_findings(record_keys(ls@), strings_view(files.existing_templates@), false).len(),
        _ => 0,
    }
}

pub open spec fn relationship_lines(files: ProjectFiles) -> Seq<char> {
    let m = missing_template_count(files);
    (match files.registry {
        Some(Ok(_)) => if m == 0 {
            "✓ Template-layout mappings: OK\n"@
        } else {
            "⚠ Template-layout mappings: "@ + decimal(m) + " missing template(s)\n"@
        },
        _ => Seq::empty(),
    }) + if files.text is Some && files.routes is Some {
        "✓ Text-route files: Both present\n"@
    } else {
        (if files.text is None { "⚠ Text-route: text.csv missing\n"@ } else { Seq::empty() }) + (
        if files.routes is None {
            "⚠ Text-route: routes.csv missing\n"@
        } else {
            Seq::empty()
        })
    }
}

pub open spec fn consistency_issues(files: ProjectFiles) -> nat {
    file_issue(files.text) + file_issue(files.routes) + file_issue(files.meta) + file_issue(
        files.registry,
    ) + missing_template_count(files) + (if files.text is None { 1nat } else { 0nat }) + (
    if files.routes is None {
        1nat
    } else {
        0nat
    })
}

/// The report of `validate:consistency`.
pub open spec fn consistency_report(files: ProjectFiles) -> Seq<char> {
    "🔍 Running comprehensive consistency check...\n\n"@ + "CSV Files:\n"@ + csv_file_line(
        "text.csv"@,
        files.text,
    ) + csv_file_line("routes.csv"@, files.routes) + csv_file_line("meta.csv"@, files.meta)
        + csv_file_line("registry.csv"@, files.registry) + "\nRelationships:\n"@
        + relationship_lines(files) + summary_line(consistency_issues(files), " issue(s) found\n"@)
        + duration_line(files.duration@)
}

fn push_csv_file_line(out: &mut String, name: &str, f: &Option<ReedResult<Vec<CsvRecord>>>) -> (issue: usize)
    ensures
        final(out)@ == old(out)@ + csv_file_line(name@, *f),
        issue == file_issue(*f),
{
    match f {
        None => {
            push_str(out, "⚠ ");
            push_str(out, name);
            push_str(out, ": Missing\n");
            1
        },
        Some(Ok(v)) => {
            push_str(out, "✓ ");
            push_str(out, name);
            push_str(out, ": ");
            push_usize(out, v.len());
            push_str(out, " entries, valid structure\n");
            0
        },
        Some(Err(e)) => {
            push_str(out, "⚠ ");
            push_str(out, name);
            push_str(out, ": Error reading - ");
            let d = e.describe();
            push_str(out, d.as_str());
            push_str(out, "\n");
            1
        },
    }
}

fn push_relationship_lines(out: &mut String, files: &ProjectFiles) -> (n: usize)
    requires
        counts_fit(*files),
    ensures
        final(out)@ == old(out)@ + relationship_lines(*files),
        n == missing_template_count(*files) + (if files.text is None { 1nat } else { 0nat }) + (
        if files.routes is None {
            1nat
        } else {
            0nat
        }),
{
    let ghost start = out@;
    let mut n: usize = 0;
    match &files.registry {
        Some(Ok(ls)) => {
            let keys = keys_of(ls);
            let missing = missing_template_items(&keys, &files.existing_templates, false);
            proof {
                lemma_template_findings_len(record_keys(ls@), strings_view(files.existing_templates@), false);
            }
            if missing.len() == 0 {
                push_str(out, "✓ Template-layout mappings: OK\n");
            } else {
                push_str(out, "⚠ Template-layout mappings: ");
                push_usize(out, missing.len());
                push_str(out, " missing template(s)\n");
                n = missing.len();
            }
        },
        _ => {},
    }
    let ghost mid = out@;
    if files.text.is_some() && files.routes.is_some() {
        push_str(out, "✓ Text-route files: Both present\n");
    } else {
        if files.text.is_none() {
            push_str(out, "⚠ Text-route: text.csv missing\n");
            n = n + 1;
        }
        if files.routes.is_none() {
            push_str(out, "⚠ Text-route: routes.csv missing\n");
            n = n + 1;
        }
    }
    assert(out@ =~= start + relationship_lines(*files));
    n
}

/// Checks the project's data as a whole (`reed validate:consistency`).
///
/// Reports each CSV file of `.reed/` (missing, unreadable or its entry
/// count), registered layouts without templates and whether text.csv and
/// routes.csv are both present. An unreadable registry.csv is the error.
pub fn validate_consistency(flags: &StringMap, files: ProjectFiles) -> (r: ReedResult<
    ReedResponse<String>,
>)
    requires
        counts_fit(files),
    ensures
        match files.registry {
            Some(Err(e)) => r == Err::<ReedResponse<String>, ReedError>(e),
            _ => report_is(r, consistency_report(files)),
        },
{
    let mut output = str_to_string("🔍 Running comprehensive consistency check...\n\n");
    push_str(&mut output, "CSV Files:\n");
    let i1 = push_csv_file_line(&mut output, "text.csv", &files.text);
    let i2 = push_csv_file_line(&mut output, "routes.csv", &files.routes);
    let i3 = push_csv_file_line(&mut output, "meta.csv", &files.meta);
    let i4 = push_csv_file_line(&mut output, "registry.csv", &files.registry);
    push_str(&mut output, "\nRelationships:\n");
    proof {
        lemma_template_findings_len(record_keys(loaded(files.registry)), strings_view(files.existing_templates@), false);
    }
    let rel = push_relationship_lines(&mut output, &files);
    let total: usize = i1 + i2 + i3 + i4 + rel;
    push_str(&mut output, "\n📋 Summary: ");
    push_usize(&mut output, total);
    push_str(&mut output, " issue(s) found\n");
    push_duration_line(&mut output, files.duration.as_str());
    assert(output@ =~= consistency_report(files));
    match files.registry {
        Some(Err(e)) => Err(e),
        _ => Ok(ReedResponse::new(output, "validation")),
    }
}

// ---------------------------------------------------------------------------
// Text entries
// ---------------------------------------------------------------------------

/// Index of the last `c` in `s`, or -1.
pub open spec fn last_index_of(s: Seq<char>, c: char) -> int
    decreases s.len(),
{
    if s.len() == 0 {
        -1
    } else if s.last() == c {
        s.len() - 1
    } else {
        last_index_of(s.drop_last(), c)
    }
}

/// The key holds an `@` (a language suffix).
pub open spec fn has_lang(k: Seq<char>) -> bool {
    last_index_of(k, '@') >= 0
}

/// The key before its last `@`.
pub open spec fn key_base(k: Seq<char>) -> Seq<char> {
    k.subrange(0, last_index_of(k, '@'))
}

/// The key after its last `@`.
pub open spec fn key_lang(k: Seq<char>) -> Seq<char> {
    k.subrange(last_index_of(k, '@') + 1, k.len() as int)
}

/// The bases of the keys that have a language suffix, in order.
pub open spec fn key_bases(es: Seq<CsvRecord>) -> Seq<Seq<char>>
    decreases es.len(),
{
    if es.len() == 0 {
        Seq::empty()
    } else {
        let p = key_bases(es.drop_last());
        if has_lang(es.last().key@) { p.push(key_base(es.last().key@)) } else { p }
    }
}

/// The languages in which base key `b` exists, in order.
pub open spec fn langs_for(es: Seq<CsvRecord>, b: Seq<char>) -> Seq<Seq<char>>
    decreases es.len(),
{
    if es.len() == 0 {
        Seq::empty()
    } else {
        let p = langs_for(es.drop_last(), b);
        let k = es.last().key@;
        if has_lang(k) && key_base(k) == b { p.push(key_lang(k)) } else { p }
    }
}

/// `"base (exists in: l1, l2)"` for each base missing language `lang`.
pub open spec fn missing_translation_items(es: Seq<CsvRecord>, bases: Seq<Seq<char>>, lang: Seq<char>) -> Seq<
    Seq<char>,
>
    decreases bases.len(),
{
    if bases.len() == 0 {
        Seq::empty()
    } else {
        let p = missing_translation_items(es, bases.drop_last(), lang);
        let ls = langs_for(es, bases.last());
        if ls.contains(lang) {
            p
        } else {
            p.push(bases.last() + " (exists in: "@ + join_seqs(ls, ", "@) + ")"@)
        }
    }
}

/// How many keys have no language suffix.
pub open spec fn keys_without_lang(es: Seq<CsvRecord>) -> nat
    decreases es.len(),
{
    if es.len() == 0 {
        0
    } else {
        keys_without_lang(es.drop_last()) + if has_lang(es.last().key@) { 0nat } else { 1nat }
    }
}

/// Keys in language `lang` whose value is empty.
pub open spec fn empty_value_items(es: Seq<CsvRecord>, lang: Seq<char>) -> Seq<Seq<char>>
    decreases es.len(),
{
    if es.len() == 0 {
        Seq::empty()
    } else {
        let p = empty_value_items(es.drop_last(), lang);
        let e = es.last();
        if crate::text::ends_with(e.key@, "@"@ + lang) && e.value@.len() == 0 {
            p.push(e.key@)
        } else {
            p
        }
    }
}

pub proof fn lemma_last_index_range(s: Seq<char>, c: char)
    ensures
        -1 <= last_index_of(s, c) < s.len(),
        last_index_of(s, c) >= 0 ==> s[last_index_of(s, c)] == c,
    decreases s.len(),
{
    if s.len() > 0 && s.last() != c {
        lemma_last_index_range(s.drop_last(), c);
    }
}

proof fn lemma_last_index_take(s: Seq<char>, c: char, i: int)
    requires
        0 <= i <= s.len(),
        forall|j: int| i <= j < s.len() ==> s[j] != c,
    ensures
        last_index_of(s, c) == last_index_of(s.take(i), c),
    decreases s.len() - i,
{
    if i == s.len() {
        assert(s.take(i) =~= s);
    } else {
        lemma_last_index_take(s.drop_last(), c, i);
        assert(s.drop_last().take(i) =~= s.take(i));
    }
}

/// Index of the last `@` of the characters.
fn last_at(cs: &Vec<char>) -> (r: Option<usize>)
    ensures
        match r {
            Some(i) => i == last_index_of(cs@, '@') && i < cs@.len(),
            None => last_index_of(cs@, '@') == -1,
        },
{
    let mut i = cs.len();
    while i > 0
        invariant
            i <= cs@.len(),
            forall|j: int| i <= j < cs@.len() ==> cs@[j] != '@',
        decreases i,
    {
        if cs[i - 1] == '@' {
            proof {
                lemma_last_index_take(cs@, '@', i as int);
                assert(cs@.take(i as int).last() == '@');
            }
            return Some(i - 1);
        }
        i -= 1;
    }
    proof {
        lemma_last_index_take(cs@, '@', 0);
    }
    None
}

/// Splits a key at its last `@` into base and language.
pub fn split_lang(k: &str) -> (r: Option<(String, String)>)
    ensures
        match r {
            Some((b, l)) => has_lang(k@) && b@ == key_base(k@) && l@ == key_lang(k@),
            None => !has_lang(k@),
        },
{
    let cs = to_chars(k);
    match last_at(&cs) {
        Some(i) => {
            let n = cs.len();
            assert(i < n);
            let b = chars_to_string(cs.as_slice(), 0, i);
            let l = chars_to_string(cs.as_slice(), i + 1, n);
            Some((b, l))
        },
        None => None,
    }
}

fn key_bases_of(es: &Vec<CsvRecord>) -> (r: Vec<String>)
    ensures
        strings_view(r@) == key_bases(es@),
{
    let mut r: Vec<String> = Vec::new();
    let mut i: usize = 0;
    while i < es.len()
        invariant
            i <= es@.len(),
            strings_view(r@) == key_bases(es@.take(i as int)),
        decreases es.len() - i,
    {
        proof {
            assert(es@.take(i + 1).drop_last() =~= es@.take(i as int));
        }
        match split_lang(es[i].key.as_str()) {
            Some((b, _l)) => {
                let ghost before = r@;
                r.push(b);
                assert(strings_view(r@) =~= strings_view(before).push(key_base(es@[i as int].key@)));
            },
            None => {},
        }
        i += 1;
    }
    assert(es@.take(i as int) =~= es@);
    r
}

fn langs_of(es: &Vec<CsvRecord>, b: &str) -> (r: Vec<String>)
    ensures
        strings_view(r@) == langs_for(es@, b@),
{
    let mut r: Vec<String> = Vec::new();
    let mut i: usize = 0;
    while i < es.len()
        invariant
            i <= es@.len(),
            strings_view(r@) == langs_for(es@.take(i as int), b@),
        decreases es.len() - i,
    {
        proof {
            assert(es@.take(i + 1).drop_last() =~= es@.take(i as int));
        }
        match split_lang(es[i].key.as_str()) {
            Some((kb, l)) => {
                if crate::text::str_eq(kb.as_str(), b) {
                    let ghost before = r@;
                    r.push(l);
                    assert(strings_view(r@) =~= strings_view(before).push(key_lang(es@[i as int].key@)));
                }
            },
            None => {},
        }
        i += 1;
    }
    assert(es@.take(i as int) =~= es@);
    r
}

fn missing_translations(es: &Vec<CsvRecord>, bases: &Vec<String>, lang: &str) -> (r: Vec<String>)
    ensures
        strings_view(r@) == missing_translation_items(es@, strings_view(bases@), lang@),
{
    let ghost bv = strings_view(bases@);
    let mut r: Vec<String> = Vec::new();
    let mut j: usize = 0;
    while j < bases.len()
        invariant
            j <= bases@.len(),
            bv == strings_view(bases@),
            strings_view(r@) == missing_translation_items(es@, bv.take(j as int), lang@),
        decreases bases.len() - j,
    {
        proof {
            assert(bv.take(j + 1).drop_last() =~= bv.take(j as int));
            assert(bv.take(j + 1).last() == bases@[j as int]@);
        }
        let ls = langs_of(es, bases[j].as_str());
        if !contains_string(&ls, lang) {
            let mut item = copy_string(&bases[j]);
            push_str(&mut item, " (exists in: ");
            let joined = join_strings(&ls, ", ");
            push_str(&mut item, joined.as_str());
            push_str(&mut item, ")");
            let ghost before = r@;
            r.push(item);
            assert(strings_view(r@) =~= strings_view(before).push(item@));
        }
        j += 1;
    }
    assert(bv.take(j as int) =~= bv);
    r
}

fn count_without_lang(es: &Vec<CsvRecord>) -> (n: usize)
    ensures
        n == keys_without_lang(es@),
        n <= es@.len(),
{
    let mut n: usize = 0;
    let mut i: usize = 0;
    while i < es.len()
        invariant
            i <= es@.len(),
            n == keys_without_lang(es@.take(i as int)),
            n <= i,
        decreases es.len() - i,
    {
        proof {
            assert(es@.take(i + 1).drop_last() =~= es@.take(i as int));
        }
        if split_lang(es[i].key.as_str()).is_none() {
            n = n + 1;
        }
        i += 1;
    }
    assert(es@.take(i as int) =~= es@);
    n
}

fn empty_values(es: &Vec<CsvRecord>, lang: &str) -> (r: Vec<String>)
    ensures
        strings_view(r@) == empty_value_items(es@, lang@),
        r@.len() <= es@.len(),
{
    let mut suffix = str_to_string("@");
    push_str(&mut suffix, lang);
    let mut r: Vec<String> = Vec::new();
    let mut i: usize = 0;
    while i < es.len()
        invariant
            i <= es@.len(),
            suffix@ == "@"@ + lang@,
            strings_view(r@) == empty_value_items(es@.take(i as int), lang@),
            r@.len() <= i,
        decreases es.len() - i,
    {
        proof {
            assert(es@.take(i + 1).drop_last() =~= es@.take(i as int));
        }
        if crate::text::str_ends_with(es[i].key.as_str(), suffix.as_str()) && es[i].value.as_str().is_empty() {
            let ghost before = r@;
            let k = copy_string(&es[i].key);
            r.push(k);
            assert(strings_view(r@) =~= strings_view(before).push(es@[i as int].key@));
        }
        i += 1;
    }
    assert(es@.take(i as int) =~= es@);
    r
}

pub proof fn lemma_missing_translations_len(es: Seq<CsvRecord>, bases: Seq<Seq<char>>, lang: Seq<char>)
    ensures
        missing_translation_items(es, bases, lang).len() <= bases.len(),
    decreases bases.len(),
{
    if bases.len() > 0 {
        lemma_missing_translations_len(es, bases.drop_last(), lang);
    }
}

pub proof fn lemma_key_bases_len(es: Seq<CsvRecord>)
    ensures
        key_bases(es).len() <= es.len(),
    decreases es.len(),
{
    if es.len() > 0 {
        lemma_key_bases_len(es.drop_last());
    }
}

pub open spec fn text_header(lang: Seq<char>) -> Seq<char> {
    "🔍 Validating text content for language: "@ + lang + "\n\n"@
}

/// The checks of `validate:text`: entry count, key format, missing
/// translations and empty values.
pub open spec fn text_checks(es: Seq<CsvRecord>, lang: Seq<char>) -> Seq<char> {
    let bases = distinct(key_bases(es));
    let missing = missing_translation_items(es, bases, lang);
    let invalid = keys_without_lang(es);
    let empty = empty_value_items(es, lang);
    "📊 Total entries: "@ + decimal(es.len()) + "\n\n"@ + (if invalid == 0 {
        "✓ Key format: OK (all have @lang suffix)\n"@
    } else {
        "⚠ Key format: "@ + decimal(invalid) + " key(s) missing @lang suffix\n"@
    }) + check_section(
        missing,
        "✓ Missing translations: None for language '"@ + lang + "'\n"@,
        "⚠ Missing translations: "@,
        " found\n"@,
        10,
        true,
    ) + check_section(
        empty,
        "✓ Empty values: None found\n"@,
        "⚠ Empty values: "@,
        " found\n"@,
        5,
        false,
    )
}

/// The summary of `validate:text`: issue count, completeness, duration.
pub open spec fn text_summary(es: Seq<CsvRecord>, lang: Seq<char>, percent: Seq<char>, seconds: Seq<char>) -> Seq<char> {
    let bases = distinct(key_bases(es));
    let missing = missing_translation_items(es, bases, lang);
    let invalid = keys_without_lang(es);
    let empty = empty_value_items(es, lang);
    let translated = (bases.len() - missing.len()) as nat;
    summary_line(invalid + missing.len() + empty.len(), " issue(s) found\n"@) + "Completeness: "@
        + percent + "% ("@ + decimal(translated) + " of "@ + decimal(
        bases.len(),
    ) + " base keys)\n"@ + duration_line(seconds)
}

/// The report of `validate:text` for language `lang`.
pub open spec fn text_report(es: Seq<CsvRecord>, lang: Seq<char>, percent: Seq<char>, seconds: Seq<char>) -> Seq<char> {
    text_header(lang) + text_checks(es, lang) + text_summary(es, lang, percent, seconds)
}

#[verifier::spinoff_prover]
#[verifier::rlimit(40)]
fn push_text_report_body(out: &mut String, es: &Vec<CsvRecord>, lang: &str, percent: &str, seconds: &str)
    requires
        3 * es@.len() + 8 <= usize::MAX,
    ensures
        final(out)@ == old(out)@ + text_checks(es@, lang@) + text_summary(es@, lang@, percent@, seconds@),
{
    let ghost start = out@;
    push_str(out, "📊 Total entries: ");
    push_usize(out, es.len());
    push_str(out, "\n\n");
    let all_bases = key_bases_of(es);
    let bases = distinct_strings(&all_bases);
    let invalid = count_without_lang(es);
    if invalid == 0 {
        push_str(out, "✓ Key format: OK (all have @lang suffix)\n");
    } else {
        push_str(out, "⚠ Key format: ");
        push_usize(out, invalid);
        push_str(out, " key(s) missing @lang suffix\n");
    }
    let missing = missing_translations(es, &bases, lang);
    let mut ok_line = str_to_string("✓ Missing translations: None for language '");
    push_str(&mut ok_line, lang);
    push_str(&mut ok_line, "'\n");
    push_check_section(out, &missing, ok_line.as_str(), "⚠ Missing translations: ", " found\n", 10, true);
    let empty = empty_values(es, lang);
    push_check_section(out, &empty, "✓ Empty values: None found\n", "⚠ Empty values: ", " found\n", 5, false);
    assert(out@ =~= start + text_checks(es@, lang@));
    let ghost mid = out@;
    proof {
        lemma_key_bases_len(es@);
        lemma_distinct_len(key_bases(es@));
        lemma_missing_translations_len(es@, distinct(key_bases(es@)), lang@);
    }
    let issues = invalid + missing.len() + empty.len();
    push_str(out, "\n📋 Summary: ");
    push_usize(out, issues);
    push_str(out, " issue(s) found\n");
    let total = bases.len();
    let translated = total - missing.len();
    push_str(out, "Completeness: ");
    push_str(out, percent);
    push_str(out, "% (");
    push_usize(out, translated);
    push_str(out, " of ");
    push_usize(out, total);
    push_str(out, " base keys)\n");
    push_duration_line(out, seconds);
    assert(out@ =~= mid + text_summary(es@, lang@, percent@, seconds@));
}

/// The completeness of a language that `validate:text` reports: the
/// number of base keys that have an entry in the language, and the number
/// of base keys. The report shows `translated / total * 100` percent with
/// one decimal (`100.0` when there are no base keys); the caller formats
/// that figure and hands it to `validate_text`.
pub fn text_completeness(es: &Vec<CsvRecord>, lang: &str) -> (r: (usize, usize))
    ensures
        r.1 == distinct(key_bases(es@)).len(),
        r.0 == distinct(key_bases(es@)).len() - missing_translation_items(
            es@,
            distinct(key_bases(es@)),
            lang@,
        ).len(),
{
    let all_bases = key_bases_of(es);
    let bases = distinct_strings(&all_bases);
    let missing = missing_translations(es, &bases, lang);
    proof {
        lemma_missing_translations_len(es@, distinct(key_bases(es@)), lang@);
    }
    (bases.len() - missing.len(), bases.len())
}

/// Validates the text entries of one language
/// (`reed validate:text --language <lang>`).
///
/// Reports keys without a language suffix, base keys that lack the
/// language, entries of the language with an empty value, and how complete
/// the language is (`completeness`: the figure of `text_completeness`,
/// formatted by the caller). Without `--language` the command is refused;
/// without text.csv the report says so; an unreadable text.csv is the
/// error.
pub fn validate_text(flags: &StringMap, files: ProjectFiles, completeness: &str) -> (r: ReedResult<
    ReedResponse<String>,
>)
    requires
        flags.wf(),
        counts_fit(files),
    ensures
        match flags.lookup("language"@) {
            None => r matches Err(e) && is_validation_error(
                e,
                "language"@,
                Seq::empty(),
                "--language flag required"@,
            ),
            Some(lang) => match files.text {
                None => report_is(r, text_header(lang) + "⚠ No text.csv found\n"@),
                Some(Err(e)) => r == Err::<ReedResponse<String>, ReedError>(e),
                Some(Ok(es)) => report_is(r, text_report(es@, lang, completeness@, files.duration@)),
            },
        },
{
    let language = match flags.get("language") {
        None => {
            return Err(
                validation_error("language", String::new(), str_to_string("--language flag required")),
            );
        },
        Some(l) => l,
    };
    let mut output = str_to_string("🔍 Validating text content for language: ");
    push_str(&mut output, language.as_str());
    push_str(&mut output, "\n\n");
    let es = match files.text {
        None => {
            push_str(&mut output, "⚠ No text.csv found\n");
            return Ok(ReedResponse::new(output, "validation"));
        },
        Some(Err(e)) => {
            return Err(e);
        },
        Some(Ok(v)) => v,
    };
    let lang = language.as_str();
    let ghost head = output@;
    push_text_report_body(&mut output, &es, lang, completeness, files.duration.as_str());
    assert(output@ =~= text_report(es@, lang@, completeness@, files.duration@));
    Ok(ReedResponse::new(output, "validation"))
}

pub open spec fn layout_reference_findings(files: ProjectFiles) -> Seq<Seq<char>> {
    template_findings(record_keys(loaded(files.registry)), strings_view(files.existing_templates@), true)
}

pub open spec fn route_reference_findings(files: ProjectFiles) -> Seq<Seq<char>> {
    dangling_items(loaded(files.routes), record_keys(loaded(files.registry)))
}

/// The report of `validate:references`.
pub open spec fn references_report(files: ProjectFiles) -> Seq<char> {
    let lf = layout_reference_findings(files);
    let rf = route_reference_findings(files);
    let layout_issues: nat = if files.registry is Some { lf.len() } else { 1 };
    let route_issues: nat = if files.registry is Some && files.routes is Some { rf.len() } else { 0 };
    "🔍 Validating reference integrity...\n\n"@ + (if files.registry is Some {
        check_section(
            lf,
            "✓ Layout references: OK (all templates exist)\n"@,
            "⚠ Layout references: "@,
            " broken reference(s)\n"@,
            5,
            false,
        )
    } else {
        "⚠ Layout references: registry.csv not found\n"@
    }) + (if files.registry is Some && files.routes is Some {
        check_section(
            rf,
            "✓ Route references: OK (all layouts exist)\n"@,
            "⚠ Route references: "@,
            " broken reference(s)\n"@,
            5,
            false,
        )
    } else {
        Seq::empty()
    }) + summary_line(layout_issues + route_issues, " broken reference(s) found\n"@)
        + duration_line(files.duration@)
}

/// Validates reference integrity (`reed validate:references`).
///
/// Reports registered layouts whose templates are missing and routes whose
/// layout is not registered. An unreadable registry.csv is the error, and
/// so is an unreadable routes.csv when registry.csv exists.
pub fn validate_references(flags: &StringMap, files: ProjectFiles) -> (r: ReedResult<
    ReedResponse<String>,
>)
    requires
        counts_fit(files),
    ensures
        match files.registry {
            Some(Err(e)) => r == Err::<ReedResponse<String>, ReedError>(e),
            Some(Ok(_)) => match files.routes {
                Some(Err(e)) => r == Err::<ReedResponse<String>, ReedError>(e),
                _ => report_is(r, references_report(files)),
            },
            None => report_is(r, references_report(files)),
        },
{
    let ghost input = files;
    let ProjectFiles { text, routes, meta, registry, existing_templates, duration } = files;
    let mut output = str_to_string("🔍 Validating reference integrity...\n\n");
    let mut issues: usize = 0;
    let reg_present = registry.is_some();
    let layouts: Vec<CsvRecord> = match registry {
        Some(Err(e)) => {
            return Err(e);
        },
        Some(Ok(v)) => v,
        None => Vec::new(),
    };
    assert(layouts@ == loaded(input.registry));
    let keys = keys_of(&layouts);
    if reg_present {
        let missing = missing_template_items(&keys, &existing_templates, true);
        proof {
            lemma_template_findings_len(record_keys(layouts@), strings_view(existing_templates@), true);
        }
        push_check_section(
            &mut output,
            &missing,
            "✓ Layout references: OK (all templates exist)\n",
            "⚠ Layout references: ",
            " broken reference(s)\n",
            5,
            false,
        );
        issues = missing.len();
    } else {
        push_str(&mut output, "⚠ Layout references: registry.csv not found\n");
        issues = 1;
    }
    if reg_present && routes.is_some() {
        let rs = match routes {
            Some(Err(e)) => {
                return Err(e);
            },
            Some(Ok(v)) => v,
            None => Vec::new(),
        };
        assert(rs@ == loaded(input.routes));
        let broken = dangling_route_items(&rs, &keys);
        proof {
            lemma_dangling_items_len(rs@, record_keys(layouts@));
        }
        push_check_section(
            &mut output,
            &broken,
            "✓ Route references: OK (all layouts exist)\n",
            "⚠ Route references: ",
            " broken reference(s)\n",
            5,
            false,
        );
        issues = issues + broken.len();
    }
    push_str(&mut output, "\n📋 Summary: ");
    push_usize(&mut output, issues);
    push_str(&mut output, " broken reference(s) found\n");
    push_duration_line(&mut output, duration.as_str());
    assert(output@ =~= references_report(input));
    Ok(ReedResponse::new(output, "validation"))
}

} // verus!
