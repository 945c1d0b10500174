//! Bulk migration commands: `reed migrate:text` and `reed migrate:routes`.
//!
//! A migration reads CSV files and merges the records that are new into
//! `.reed/text.csv` or `.reed/routes.csv`. The library checks the
//! arguments, decides which records are imported, what the merged file
//! holds and whether a backup is taken, and writes the report; the caller
//! reads, backs up and writes the files.
use vstd::prelude::*;
use crate::csv::record::{CsvRecord, RecordView};
use crate::lists::{contains_string, keys_of, last_value, record_keys, records_to_map};
use crate::reedstream::{error_text, is_validation_error, validation_error, ReedError, ReedResult};
use crate::report::{bullets, duration_line, push_bullets, push_duration_line};
use crate::string_map::StringMap;
use crate::text::{copy_string, decimal, ends_with, push_str, push_usize, str_contains_char, str_ends_with, str_eq, str_to_string};

verus! {

/// The options of a migration run.
#[derive(Debug, Clone)]
pub struct MigrationOptions {
    /// The file or directory to migrate from.
    pub path: String,
    /// `--recursive`: descend into subdirectories.
    pub recursive: bool,
    /// `--dry-run`: report only.
    pub dry_run: bool,
    /// No `--no-backup`: back up the target before writing it.
    pub backup: bool,
    /// `--force`: import despite conflicts.
    pub force: bool,
}

/// The options that the flags give for a migration from `path`.
pub open spec fn options_are(o: MigrationOptions, path: Seq<char>, flags: StringMap) -> bool {
    &&& o.path@ == path
    &&& o.recursive == flags.lookup("recursive"@) is Some
    &&& o.dry_run == flags.lookup("dry-run"@) is Some
    &&& o.backup == flags.lookup("no-backup"@) is None
    &&& o.force == flags.lookup("force"@) is Some
}

/// `NotFound` for a path that does not exist.
pub open spec fn is_missing_path(e: ReedError, path: Seq<char>, context: Seq<char>) -> bool {
    e matches ReedError::NotFound { resource, context: Some(c) } && resource@ == "path: "@ + path && c@
        == context
}

fn options_from(path: &String, flags: &StringMap) -> (o: MigrationOptions)
    requires
        flags.wf(),
    ensures
        options_are(o, path@, *flags),
{
    MigrationOptions {
        path: copy_string(path),
        recursive: flags.contains_key("recursive"),
        dry_run: flags.contains_key("dry-run"),
        backup: !flags.contains_key("no-backup"),
        force: flags.contains_key("force"),
    }
}

fn missing_path(path: &String, context: &str) -> (e: ReedError)
    ensures
        is_missing_path(e, path@, context@),
{
    let mut resource = str_to_string("path: ");
    push_str(&mut resource, path.as_str());
    ReedError::NotFound { resource, context: Some(str_to_string(context)) }
}

/// Checks `reed migrate:text <path> [--recursive] [--dry-run]
/// [--no-backup]`; `path_exists` tells whether the path exists.
pub fn migrate_text(args: &Vec<String>, flags: &StringMap, path_exists: bool) -> (r: ReedResult<
    MigrationOptions,
>)
    requires
        flags.wf(),
    ensures
        args@.len() == 0 ==> (r matches Err(e) && is_validation_error(
            e,
            "path"@,
            Seq::empty(),
            "path to .text.csv file or directory required"@,
        )),
        args@.len() > 0 && !path_exists ==> (r matches Err(e) && is_missing_path(
            e,
            args@[0]@,
            "File or directory does not exist"@,
        )),
        args@.len() > 0 && path_exists ==> (r matches Ok(o) && options_are(o, args@[0]@, *flags)),
{
    if args.len() == 0 {
        return Err(
            validation_error("path", String::new(), str_to_string("path to .text.csv file or directory required")),
        );
    }
    if !path_exists {
        return Err(missing_path(&args[0], "File or directory does not exist"));
    }
    Ok(options_from(&args[0], flags))
}

/// Checks `reed migrate:routes <path> [--dry-run] [--no-backup] [--force]`;
/// `path_exists` tells whether the file exists.
pub fn migrate_routes(args: &Vec<String>, flags: &StringMap, path_exists: bool) -> (r: ReedResult<
    MigrationOptions,
>)
    requires
        flags.wf(),
    ensures
        args@.len() == 0 ==> (r matches Err(e) && is_validation_error(
            e,
            "path"@,
            Seq::empty(),
            "path to routes.csv file required"@,
        )),
        args@.len() > 0 && !path_exists ==> (r matches Err(e) && is_missing_path(
            e,
            args@[0]@,
            "File does not exist"@,
        )),
        args@.len() > 0 && path_exists ==> (r matches Ok(o) && options_are(o, args@[0]@, *flags)),
{
    if args.len() == 0 {
        return Err(validation_error("path", String::new(), str_to_string("path to routes.csv file required")));
    }
    if !path_exists {
        return Err(missing_path(&args[0], "File does not exist"));
    }
    Ok(options_from(&args[0], flags))
}

/// Whether a file name marks a text CSV file: `text.csv` or `*.text.csv`.
pub fn is_text_csv_name(name: &str) -> (r: bool)
    ensures
        r == (name@ == "text.csv"@ || ends_with(name@, ".text.csv"@)),
{
    str_eq(name, "text.csv") || str_ends_with(name, ".text.csv")
}

// ---------------------------------------------------------------------------
// Text migration
// ---------------------------------------------------------------------------

/// One source file: its name as shown, and its records or why it could not
/// be read.
#[derive(Debug)]
pub struct SourceFile {
    pub name: String,
    pub records: ReedResult<Vec<CsvRecord>>,
}

pub open spec fn views(rs: Seq<CsvRecord>) -> Seq<RecordView> {
    rs.map_values(|r: CsvRecord| r@)
}

/// The report line of one source entry: a key without `@lang` is an error,
/// a key already in the target is skipped, any other entry is imported.
pub open spec fn entry_line(e: CsvRecord, existing: Seq<Seq<char>>) -> Seq<char> {
    if !e.key@.contains('@') {
        "  ⚠ Key missing @lang suffix: "@ + e.key@ + "\n"@
    } else if existing.contains(e.key@) {
        "  ⊘ Skipped duplicate: "@ + e.key@ + "\n"@
    } else {
        Seq::empty()
    }
}

pub open spec fn is_new_text(e: CsvRecord, existing: Seq<Seq<char>>) -> bool {
    e.key@.contains('@') && !existing.contains(e.key@)
}

pub open spec fn entries_text(es: Seq<CsvRecord>, existing: Seq<Seq<char>>) -> Seq<char>
    decreases es.len(),
{
    if es.len() == 0 {
        Seq::empty()
    } else {
        entries_text(es.drop_last(), existing) + entry_line(es.last(), existing)
    }
}

/// The entries that are imported, in order.
pub open spec fn entries_new(es: Seq<CsvRecord>, existing: Seq<Seq<char>>) -> Seq<RecordView>
    decreases es.len(),
{
    if es.len() == 0 {
        Seq::empty()
    } else {
        let p = entries_new(es.drop_last(), existing);
        if is_new_text(es.last(), existing) { p.push(es.last()@) } else { p }
    }
}

/// The entries without `@lang`.
pub open spec fn entries_errors(es: Seq<CsvRecord>) -> nat
    decreases es.len(),
{
    if es.len() == 0 {
        0
    } else {
        entries_errors(es.drop_last()) + if es.last().key@.contains('@') { 0nat } else { 1nat }
    }
}

/// The entries skipped as duplicates.
pub open spec fn entries_skipped(es: Seq<CsvRecord>, existing: Seq<Seq<char>>) -> nat
    decreases es.len(),
{
    if es.len() == 0 {
        0
    } else {
        entries_skipped(es.drop_last(), existing) + if es.last().key@.contains('@') && existing.contains(
            es.last().key@,
        ) {
            1nat
        } else {
            0nat
        }
    }
}

/// The report of one source file.
pub open spec fn file_text(f: SourceFile, existing: Seq<Seq<char>>) -> Seq<char> {
    "Processing: "@ + f.name@ + "\n"@ + match f.records {
        Err(e) => "  ⚠ Error reading file: "@ + error_text(e@) + "\n"@,
        Ok(es) => entries_text(es@, existing),
    }
}

pub open spec fn files_text(fs: Seq<SourceFile>, existing: Seq<Seq<char>>) -> Seq<char>
    decreases fs.len(),
{
    if fs.len() == 0 {
        Seq::empty()
    } else {
        files_text(fs.drop_last(), existing) + file_text(fs.last(), existing)
    }
}

/// All entries read, over the files that could be read.
pub open spec fn files_total(fs: Seq<SourceFile>) -> nat
    decreases fs.len(),
{
    if fs.len() == 0 {
        0
    } else {
        files_total(fs.drop_last()) + match fs.last().records {
            Ok(es) => es@.len(),
            Err(_) => 0,
        }
    }
}

/// Files that could not be read, and entries without `@lang`.
pub open spec fn files_errors(fs: Seq<SourceFile>) -> nat
    decreases fs.len(),
{
    if fs.len() == 0 {
        0
    } else {
        files_errors(fs.drop_last()) + match fs.last().records {
            Ok(es) => entries_errors(es@),
            Err(_) => 1,
        }
    }
}

pub open spec fn files_skipped(fs: Seq<SourceFile>, existing: Seq<Seq<char>>) -> nat
    decreases fs.len(),
{
    if fs.len() == 0 {
        0
    } else {
        files_skipped(fs.drop_last(), existing) + match fs.last().records {
            Ok(es) => entries_skipped(es@, existing),
            Err(_) => 0,
        }
    }
}

/// The entries imported from all files, in order.
pub open spec fn files_new(fs: Seq<SourceFile>, existing: Seq<Seq<char>>) -> Seq<RecordView>
    decreases fs.len(),
{
    if fs.len() == 0 {
        Seq::empty()
    } else {
        files_new(fs.drop_last(), existing) + match fs.last().records {
            Ok(es) => entries_new(es@, existing),
            Err(_) => Seq::empty(),
        }
    }
}

pub open spec fn dry_run_line(dry_run: bool) -> Seq<char> {
    if dry_run { "🔍 Dry-run mode: No changes applied\n"@ } else { Seq::empty() }
}

/// The report of a text migration up to the decision whether to write.
pub open spec fn text_plan_text(path: Seq<char>, fs: Seq<SourceFile>, existing: Seq<Seq<char>>, dry_run: bool) -> Seq<
    char,
> {
    "📦 Migrating text from: "@ + path + "\n"@ + "✓ Found "@ + decimal(fs.len()) + " .text.csv file(s)\n\n"@
        + files_text(fs, existing) + "\nValidation:\n"@ + "✓ Total entries: "@ + decimal(files_total(fs)) + "\n"@
        + "✓ To import: "@ + decimal(files_new(fs, existing).len()) + "\n"@ + "⊘ Skipped (duplicates): "@
        + decimal(files_skipped(fs, existing)) + "\n"@ + "⚠ Errors: "@ + decimal(files_errors(fs)) + "\n\n"@
        + dry_run_line(dry_run)
}

/// Imported text entries carry a language suffix and a key the target
/// does not hold.
pub open spec fn all_new_text(rs: Seq<RecordView>, existing: Seq<Seq<char>>) -> bool {
    forall|i: int| 0 <= i < rs.len() ==> (#[trigger] rs[i]).0.contains('@') && !existing.contains(rs[i].0)
}

proof fn lemma_entries_new_are_new(es: Seq<CsvRecord>, existing: Seq<Seq<char>>)
    ensures
        all_new_text(entries_new(es, existing), existing),
    decreases es.len(),
{
    if es.len() > 0 {
        lemma_entries_new_are_new(es.drop_last(), existing);
    }
}

/// A text migration imports only entries that carry a language suffix
/// and whose key the target does not hold yet.
pub proof fn lemma_text_imports_are_new(fs: Seq<SourceFile>, existing: Seq<Seq<char>>)
    ensures
        all_new_text(files_new(fs, existing), existing),
    decreases fs.len(),
{
    if fs.len() > 0 {
        lemma_text_imports_are_new(fs.drop_last(), existing);
        let p = files_new(fs.drop_last(), existing);
        match fs.last().records {
            Ok(es) => {
                lemma_entries_new_are_new(es@, existing);
                let q = entries_new(es@, existing);
                assert forall|i: int| 0 <= i < (p + q).len() implies (#[trigger] (p + q)[i]).0.contains('@')
                    && !existing.contains((p + q)[i].0) by {
                    if i >= p.len() {
                        assert((p + q)[i] == q[i - p.len()]);
                    }
                }
            },
            Err(_) => {
                assert(p + Seq::<RecordView>::empty() =~= p);
            },
        }
    }
}

/// What a migration will do.
#[derive(Debug, Clone)]
pub struct MigrationPlan {
    /// Whether there is anything to report beyond `report` (no source
    /// files, or a migration aborted on conflicts, end the run).
    pub proceed: bool,
    /// The report so far.
    pub report: String,
    /// The records to import, in order.
    pub new_entries: Vec<CsvRecord>,
    /// What the target file holds after the import.
    pub merged: Vec<CsvRecord>,
    /// Whether the target file is written.
    pub write: bool,
    /// Whether the target file is backed up first.
    pub backup: bool,
}

proof fn lemma_counts_bounded(fs: Seq<SourceFile>, existing: Seq<Seq<char>>)
    ensures
        files_errors(fs) + files_skipped(fs, existing) + files_new(fs, existing).len() <= files_total(fs) + fs.len(),
    decreases fs.len(),
{
    if fs.len() > 0 {
        lemma_counts_bounded(fs.drop_last(), existing);
        match fs.last().records {
            Ok(es) => lemma_entry_counts(es@, existing),
            Err(_) => {},
        }
    }
}

proof fn lemma_entry_counts(es: Seq<CsvRecord>, existing: Seq<Seq<char>>)
    ensures
        entries_errors(es) + entries_skipped(es, existing) + entries_new(es, existing).len() == es.len(),
    decreases es.len(),
{
    if es.len() > 0 {
        lemma_entry_counts(es.drop_last(), existing);
    }
}

proof fn lemma_files_total_prefix(fs: Seq<SourceFile>, n: int)
    requires
        0 <= n <= fs.len(),
    ensures
        files_total(fs.take(n)) <= files_total(fs),
    decreases fs.len() - n,
{
    if n < fs.len() {
        assert(fs.take(n + 1).drop_last() =~= fs.take(n));
        lemma_files_total_prefix(fs, n + 1);
    } else {
        assert(fs.take(n) =~= fs);
    }
}

/// Appends the records, copied.
fn push_records(out: &mut Vec<CsvRecord>, rs: &Vec<CsvRecord>)
    ensures
        views(final(out)@) == views(old(out)@) + views(rs@),
{
    let ghost start = views(out@);
    let mut i: usize = 0;
    while i < rs.len()
        invariant
            i <= rs@.len(),
            views(out@) == start + views(rs@.take(i as int)),
        decreases rs.len() - i,
    {
        let ghost before = views(out@);
        out.push(rs[i].duplicate());
        assert(views(out@) =~= before.push(rs@[i as int]@));
        assert(views(rs@.take(i + 1)) =~= views(rs@.take(i as int)).push(rs@[i as int]@));
        i += 1;
    }
    assert(rs@.take(i as int) =~= rs@);
}

/// Reports one file's entries and collects those to import.
fn scan_entries(
    es: &Vec<CsvRecord>,
    existing: &Vec<String>,
    out: &mut String,
    new_entries: &mut Vec<CsvRecord>,
    errors: &mut usize,
    skipped: &mut usize,
)
    requires
        *old(errors) + *old(skipped) + old(new_entries)@.len() + es@.len() <= usize::MAX,
    ensures
        final(out)@ == old(out)@ + entries_text(es@, crate::cli::parser::strings_view(existing@)),
        views(final(new_entries)@) == views(old(new_entries)@) + entries_new(
            es@,
            crate::cli::parser::strings_view(existing@),
        ),
        *final(errors) == *old(errors) + entries_errors(es@),
        *final(skipped) == *old(skipped) + entries_skipped(es@, crate::cli::parser::strings_view(existing@)),
{
    let ghost ex = crate::cli::parser::strings_view(existing@);
    let ghost out0 = out@;
    let ghost new0 = views(new_entries@);
    let ghost err0 = *errors as nat;
    let ghost skip0 = *skipped as nat;
    let mut i: usize = 0;
    while i < es.len()
        invariant
            i <= es@.len(),
            ex == crate::cli::parser::strings_view(existing@),
            out@ == out0 + entries_text(es@.take(i as int), ex),
            views(new_entries@) == new0 + entries_new(es@.take(i as int), ex),
            *errors == err0 + entries_errors(es@.take(i as int)),
            *skipped == skip0 + entries_skipped(es@.take(i as int), ex),
            err0 + skip0 + new0.len() + es@.len() <= usize::MAX,
        decreases es.len() - i,
    {
        proof {
            let t = es@.take(i + 1);
            assert(t.drop_last() =~= es@.take(i as int));
            assert(t.last() == es@[i as int]);
            lemma_entry_counts(es@.take(i as int), ex);
        }
        let e = &es[i];
        if !str_contains_char(e.key.as_str(), '@') {
            push_str(out, "  ⚠ Key missing @lang suffix: ");
            push_str(out, e.key.as_str());
            push_str(out, "\n");
            *errors = *errors + 1;
        } else if contains_string(existing, e.key.as_str()) {
            push_str(out, "  ⊘ Skipped duplicate: ");
            push_str(out, e.key.as_str());
            push_str(out, "\n");
            *skipped = *skipped + 1;
        } else {
            let ghost before = views(new_entries@);
            new_entries.push(e.duplicate());
            assert(views(new_entries@) =~= before.push(e@));
        }
        i += 1;
    }
    assert(es@.take(i as int) =~= es@);
}

/// Decides a text migration from the options, the source files as read,
/// the records of `.reed/text.csv` and whether that file exists.
///
/// Without source files the report is `No .text.csv files found in
/// <path>` and nothing else happens. Otherwise every entry is reported or
/// imported (see `entry_line`); keys are compared with those of the
/// target only. The target is written unless it is a dry run or nothing
/// is new, and backed up first when it exists and `--no-backup` was not
/// given.
pub fn plan_text_migration(
    options: &MigrationOptions,
    files: &Vec<SourceFile>,
    existing: &Vec<CsvRecord>,
    target_exists: bool,
) -> (p: MigrationPlan)
    requires
        files_total(files@) + files@.len() <= usize::MAX,
    ensures
        files@.len() == 0 ==> !p.proceed && p.report@ == "No .text.csv files found in "@ + options.path@
            && p.new_entries@.len() == 0 && !p.write && !p.backup,
        files@.len() > 0 ==> p.proceed && p.report@ == text_plan_text(
            options.path@,
            files@,
            record_keys(existing@),
            options.dry_run,
        ) && views(p.new_entries@) == files_new(files@, record_keys(existing@)) && views(p.merged@) == views(
            existing@,
        ) + views(p.new_entries@) && p.write == (!options.dry_run && p.new_entries@.len() > 0) && p.backup == (
        p.write && options.backup && target_exists),
{
    if files.len() == 0 {
        let mut report = str_to_string("No .text.csv files found in ");
        push_str(&mut report, options.path.as_str());
        return MigrationPlan {
            proceed: false,
            report,
            new_entries: Vec::new(),
            merged: Vec::new(),
            write: false,
            backup: false,
        };
    }
    let keys = keys_of(existing);
    let ghost ex = record_keys(existing@);
    let mut report = str_to_string("📦 Migrating text from: ");
    push_str(&mut report, options.path.as_str());
    push_str(&mut report, "\n");
    push_str(&mut report, "✓ Found ");
    push_usize(&mut report, files.len());
    push_str(&mut report, " .text.csv file(s)\n\n");
    let ghost head = report@;
    let mut new_entries: Vec<CsvRecord> = Vec::new();
    let mut total: usize = 0;
    let mut errors: usize = 0;
    let mut skipped: usize = 0;
    let mut i: usize = 0;
    while i < files.len()
        invariant
            i <= files@.len(),
            crate::cli::parser::strings_view(keys@) == ex,
            ex == record_keys(existing@),
            files_total(files@) + files@.len() <= usize::MAX,
            report@ == head + files_text(files@.take(i as int), ex),
            views(new_entries@) == files_new(files@.take(i as int), ex),
            total == files_total(files@.take(i as int)),
            errors == files_errors(files@.take(i as int)),
            skipped == files_skipped(files@.take(i as int), ex),
        decreases files.len() - i,
    {
        let ghost t = files@.take(i + 1);
        proof {
            assert(t.drop_last() =~= files@.take(i as int));
            assert(t.last() == files@[i as int]);
            lemma_files_total_prefix(files@, i + 1);
            lemma_counts_bounded(t, ex);
        }
        let f = &files[i];
        push_str(&mut report, "Processing: ");
        push_str(&mut report, f.name.as_str());
        push_str(&mut report, "\n");
        match &f.records {
            Err(e) => {
                push_str(&mut report, "  ⚠ Error reading file: ");
                let text = e.describe();
                push_str(&mut report, text.as_str());
                push_str(&mut report, "\n");
                errors = errors + 1;
            },
            Ok(es) => {
                proof {
                    lemma_entry_counts(es@, ex);
                    let p = files@.take(i as int);
                    assert(files_errors(t) == files_errors(p) + entries_errors(es@));
                    assert(files_skipped(t, ex) == files_skipped(p, ex) + entries_skipped(es@, ex));
                    assert(files_new(t, ex).len() == files_new(p, ex).len() + entries_new(es@, ex).len());
                    assert(files_total(t) == files_total(p) + es@.len());
                }
                total = total + es.len();
                scan_entries(es, &keys, &mut report, &mut new_entries, &mut errors, &mut skipped);
            },
        }
        assert(report@ =~= head + files_text(t, ex));
        i += 1;
    }
    assert(files@.take(i as int) =~= files@);
    push_str(&mut report, "\nValidation:\n");
    push_str(&mut report, "✓ Total entries: ");
    push_usize(&mut report, total);
    push_str(&mut report, "\n");
    push_str(&mut report, "✓ To import: ");
    push_usize(&mut report, new_entries.len());
    push_str(&mut report, "\n");
    push_str(&mut report, "⊘ Skipped (duplicates): ");
    push_usize(&mut report, skipped);
    push_str(&mut report, "\n");
    push_str(&mut report, "⚠ Errors: ");
    push_usize(&mut report, errors);
    push_str(&mut report, "\n\n");
    if options.dry_run {
        push_str(&mut report, "🔍 Dry-run mode: No changes applied\n");
    }
    assert(report@ =~= text_plan_text(options.path@, files@, ex, options.dry_run));
    let mut merged: Vec<CsvRecord> = Vec::new();
    push_records(&mut merged, existing);
    push_records(&mut merged, &new_entries);
    let write = !options.dry_run && new_entries.len() > 0;
    MigrationPlan { proceed: true, report, new_entries, merged, write, backup: write && options.backup && target_exists }
}

/// The lines that close a migration that went on: the backup and import
/// lines when the target was written, then the duration.
pub open spec fn closing_text(written: bool, backup: bool, imported: Seq<char>, seconds: Seq<char>) -> Seq<char> {
    (if written {
        (if backup { "✓ Backup created\n"@ } else { Seq::empty() }) + imported
    } else {
        Seq::empty()
    }) + "\n"@ + duration_line(seconds)
}

/// The whole report of a text migration that went on, once the target
/// was written as planned; `seconds` is how long the run took, with two
/// decimals as the caller formatted it.
pub fn text_migration_report(plan: &MigrationPlan, seconds: &str) -> (r: String)
    ensures
        r@ == plan.report@ + closing_text(
            plan.write,
            plan.backup,
            "✓ Imported "@ + decimal(plan.new_entries@.len()) + " entries to .reed/text.csv\n"@,
            seconds@,
        ),
{
    let mut r = copy_string(&plan.report);
    if plan.write {
        if plan.backup {
            push_str(&mut r, "✓ Backup created\n");
        }
        push_str(&mut r, "✓ Imported ");
        push_usize(&mut r, plan.new_entries.len());
        push_str(&mut r, " entries to .reed/text.csv\n");
    }
    push_str(&mut r, "\n");
    push_duration_line(&mut r, seconds);
    r
}

// ---------------------------------------------------------------------------
// Route migration
// ---------------------------------------------------------------------------

/// `key → existing: old, new: new`, for a route the target maps elsewhere.
pub open spec fn conflict_item(key: Seq<char>, old_layout: Seq<char>, new_layout: Seq<char>) -> Seq<char> {
    key + " → existing: "@ + old_layout + ", new: "@ + new_layout
}

/// The conflicts of the source routes with the target: routes already
/// there with another layout (the target's last record for a key counts).
pub open spec fn route_conflicts(src: Seq<CsvRecord>, existing: Seq<CsvRecord>) -> Seq<Seq<char>>
    decreases src.len(),
{
    if src.len() == 0 {
        Seq::empty()
    } else {
        let p = route_conflicts(src.drop_last(), existing);
        let e = src.last();
        match last_value(existing, e.key@) {
            Some(v) => if v != e.value@ { p.push(conflict_item(e.key@, v, e.value@)) } else { p },
            None => p,
        }
    }
}

/// The source routes that the target lacks, in order.
pub open spec fn route_new(src: Seq<CsvRecord>, existing: Seq<CsvRecord>) -> Seq<RecordView>
    decreases src.len(),
{
    if src.len() == 0 {
        Seq::empty()
    } else {
        let p = route_new(src.drop_last(), existing);
        if last_value(existing, src.last().key@) is None { p.push(src.last()@) } else { p }
    }
}

/// The source routes that the target already has.
pub open spec fn route_skipped(src: Seq<CsvRecord>, existing: Seq<CsvRecord>) -> nat
    decreases src.len(),
{
    if src.len() == 0 {
        0
    } else {
        route_skipped(src.drop_last(), existing) + if last_value(existing, src.last().key@) is Some {
            1nat
        } else {
            0nat
        }
    }
}

/// Whether a route migration goes on: no conflicts, or `--force`.
pub open spec fn routes_proceed(src: Seq<CsvRecord>, existing: Seq<CsvRecord>, force: bool) -> bool {
    route_conflicts(src, existing).len() == 0 || force
}

/// The conflicts of a route migration and what becomes of it.
pub open spec fn conflict_block(c: Seq<Seq<char>>, force: bool) -> Seq<char> {
    if c.len() > 0 {
        "⚠ Found "@ + decimal(c.len()) + " route conflict(s):\n"@ + bullets(c) + "\n"@ + if force {
            "⚠ Proceeding with --force flag\n\n"@
        } else {
            "❌ Migration aborted. Use --force to override conflicts.\n"@
        }
    } else {
        Seq::empty()
    }
}

/// The figures of a route migration that goes on.
pub open spec fn validation_block(n_new: nat, skipped: nat, dry_run: bool) -> Seq<char> {
    "Validation:\n"@ + "✓ To import: "@ + decimal(n_new) + "\n"@ + "⊘ Skipped (duplicates): "@ + decimal(skipped)
        + "\n\n"@ + dry_run_line(dry_run)
}

/// The report of a route migration from its figures: the number of
/// source routes, the conflicts, the number of new routes and of skipped
/// ones.
pub open spec fn route_report_text(
    path: Seq<char>,
    n_src: nat,
    c: Seq<Seq<char>>,
    n_new: nat,
    skipped: nat,
    force: bool,
    dry_run: bool,
) -> Seq<char> {
    "📦 Migrating routes from: "@ + path + "\n\n"@ + "✓ Found "@ + decimal(n_src) + " route(s) in source file\n\n"@
        + conflict_block(c, force) + if c.len() == 0 || force {
        validation_block(n_new, skipped, dry_run)
    } else {
        Seq::empty()
    }
}

/// The report of a route migration up to the decision whether to write.
pub open spec fn route_plan_text(
    path: Seq<char>,
    src: Seq<CsvRecord>,
    existing: Seq<CsvRecord>,
    force: bool,
    dry_run: bool,
) -> Seq<char> {
    route_report_text(
        path,
        src.len(),
        route_conflicts(src, existing),
        route_new(src, existing).len(),
        route_skipped(src, existing),
        force,
        dry_run,
    )
}

/// A route migration imports only routes that the target lacks.
pub proof fn lemma_route_imports_are_new(src: Seq<CsvRecord>, existing: Seq<CsvRecord>)
    ensures
        forall|i: int| 0 <= i < route_new(src, existing).len() ==> last_value(
            existing,
            (#[trigger] route_new(src, existing)[i]).0,
        ) is None,
    decreases src.len(),
{
    if src.len() > 0 {
        lemma_route_imports_are_new(src.drop_last(), existing);
    }
}

/// Every source route is either imported or skipped, and conflicts are
/// among the skipped routes.
pub proof fn lemma_route_counts(src: Seq<CsvRecord>, existing: Seq<CsvRecord>)
    ensures
        route_new(src, existing).len() + route_skipped(src, existing) == src.len(),
        route_conflicts(src, existing).len() <= route_skipped(src, existing),
    decreases src.len(),
{
    if src.len() > 0 {
        lemma_route_counts(src.drop_last(), existing);
    }
}

/// Decides a route migration from the options, the source routes, the
/// records of `.reed/routes.csv` and whether that file exists.
///
/// A source route whose key the target already holds is skipped, and is a
/// conflict when the target maps it to another layout. With conflicts and
/// without `--force` the migration is aborted and the report ends there.
/// Otherwise the target is written unless it is a dry run or nothing is
/// new, and backed up first when it exists and `--no-backup` was not
/// given.
pub fn plan_route_migration(
    options: &MigrationOptions,
    source: &Vec<CsvRecord>,
    existing: &Vec<CsvRecord>,
    target_exists: bool,
) -> (p: MigrationPlan)
    ensures
        p.proceed == routes_proceed(source@, existing@, options.force),
        p.report@ == route_plan_text(options.path@, source@, existing@, options.force, options.dry_run),
        views(p.new_entries@) == route_new(source@, existing@),
        views(p.merged@) == views(existing@) + views(p.new_entries@),
        p.write == (p.proceed && !options.dry_run && p.new_entries@.len() > 0),
        p.backup == (p.write && options.backup && target_exists),
{
    let (conflicts, new_entries, skipped) = classify_routes(source, existing);
    let proceed = conflicts.len() == 0 || options.force;
    let report = route_report(options, source.len(), &conflicts, new_entries.len(), skipped);
    let mut merged: Vec<CsvRecord> = Vec::new();
    push_records(&mut merged, existing);
    push_records(&mut merged, &new_entries);
    let write = proceed && !options.dry_run && new_entries.len() > 0;
    MigrationPlan { proceed, report, new_entries, merged, write, backup: write && options.backup && target_exists }
}

/// The conflicts, the new routes and the number of skipped routes.
fn classify_routes(source: &Vec<CsvRecord>, existing: &Vec<CsvRecord>) -> (r: (Vec<String>, Vec<CsvRecord>, usize))
    ensures
        crate::cli::parser::strings_view(r.0@) == route_conflicts(source@, existing@),
        views(r.1@) == route_new(source@, existing@),
        r.2 == route_skipped(source@, existing@),
{
    let map = records_to_map(existing);
    let mut conflicts: Vec<String> = Vec::new();
    let mut new_entries: Vec<CsvRecord> = Vec::new();
    let mut skipped: usize = 0;
    let mut i: usize = 0;
    while i < source.len()
        invariant
            i <= source@.len(),
            map.wf(),
            forall|k: Seq<char>| #[trigger] map.lookup(k) == last_value(existing@, k),
            crate::cli::parser::strings_view(conflicts@) == route_conflicts(source@.take(i as int), existing@),
            views(new_entries@) == route_new(source@.take(i as int), existing@),
            skipped == route_skipped(source@.take(i as int), existing@),
        decreases source.len() - i,
    {
        proof {
            let t = source@.take(i + 1);
            assert(t.drop_last() =~= source@.take(i as int));
            assert(t.last() == source@[i as int]);
            lemma_route_counts(source@.take(i as int), existing@);
        }
        let e = &source[i];
        match map.get(e.key.as_str()) {
            Some(layout) => {
                if !str_eq(layout.as_str(), e.value.as_str()) {
                    let mut c = copy_string(&e.key);
                    push_str(&mut c, " → existing: ");
                    push_str(&mut c, layout.as_str());
                    push_str(&mut c, ", new: ");
                    push_str(&mut c, e.value.as_str());
                    let ghost before = crate::cli::parser::strings_view(conflicts@);
                    conflicts.push(c);
                    assert(crate::cli::parser::strings_view(conflicts@) =~= before.push(c@));
                }
                skipped = skipped + 1;
            },
            None => {
                let ghost before = views(new_entries@);
                new_entries.push(e.duplicate());
                assert(views(new_entries@) =~= before.push(e@));
            },
        }
        i += 1;
    }
    assert(source@.take(i as int) =~= source@);
    (conflicts, new_entries, skipped)
}

fn push_conflict_block(out: &mut String, conflicts: &Vec<String>, force: bool)
    ensures
        final(out)@ == old(out)@ + conflict_block(crate::cli::parser::strings_view(conflicts@), force),
{
    if conflicts.len() > 0 {
        let ghost start = out@;
        push_str(out, "⚠ Found ");
        push_usize(out, conflicts.len());
        push_str(out, " route conflict(s):\n");
        push_bullets(out, conflicts, conflicts.len());
        assert(crate::cli::parser::strings_view(conflicts@).take(conflicts@.len() as int) =~= crate::cli::parser::strings_view(conflicts@));
        push_str(out, "\n");
        if force {
            push_str(out, "⚠ Proceeding with --force flag\n\n");
        } else {
            push_str(out, "❌ Migration aborted. Use --force to override conflicts.\n");
        }
        assert(out@ =~= start + conflict_block(crate::cli::parser::strings_view(conflicts@), force));
    }
}

fn push_validation_block(out: &mut String, n_new: usize, skipped: usize, dry_run: bool)
    ensures
        final(out)@ == old(out)@ + validation_block(n_new as nat, skipped as nat, dry_run),
{
    let ghost start = out@;
    push_str(out, "Validation:\n");
    push_str(out, "✓ To import: ");
    push_usize(out, n_new);
    push_str(out, "\n");
    push_str(out, "⊘ Skipped (duplicates): ");
    push_usize(out, skipped);
    push_str(out, "\n\n");
    if dry_run {
        push_str(out, "🔍 Dry-run mode: No changes applied\n");
    }
    assert(out@ =~= start + validation_block(n_new as nat, skipped as nat, dry_run));
}

fn route_report(options: &MigrationOptions, n_src: usize, conflicts: &Vec<String>, n_new: usize, skipped: usize) -> (r:
    String)
    ensures
        r@ == route_report_text(
            options.path@,
            n_src as nat,
            crate::cli::parser::strings_view(conflicts@),
            n_new as nat,
            skipped as nat,
            options.force,
            options.dry_run,
        ),
{
    let mut report = str_to_string("📦 Migrating routes from: ");
    push_str(&mut report, options.path.as_str());
    push_str(&mut report, "\n\n");
    push_str(&mut report, "✓ Found ");
    push_usize(&mut report, n_src);
    push_str(&mut report, " route(s) in source file\n\n");
    push_conflict_block(&mut report, conflicts, options.force);
    if conflicts.len() == 0 || options.force {
        push_validation_block(&mut report, n_new, skipped, options.dry_run);
    }
    report
}

/// The whole report of a route migration that went on, once the target
/// was written as planned; `seconds` is how long the run took, with two
/// decimals as the caller formatted it.
pub fn route_migration_report(plan: &MigrationPlan, seconds: &str) -> (r: String)
    ensures
        r@ == plan.report@ + closing_text(
            plan.write,
            plan.backup,
            "✓ Imported "@ + decimal(plan.new_entries@.len()) + " route(s) to .reed/routes.csv\n"@,
            seconds@,
        ),
{
    let mut r = copy_string(&plan.report);
    if plan.write {
        if plan.backup {
            push_str(&mut r, "✓ Backup created\n");
        }
        push_str(&mut r, "✓ Imported ");
        push_usize(&mut r, plan.new_entries.len());
        push_str(&mut r, " route(s) to .reed/routes.csv\n");
    }
    push_str(&mut r, "\n");
    push_duration_line(&mut r, seconds);
    r
}

} // verus!
