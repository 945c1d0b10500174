//! Backup commands: `reed backup:list|restore|verify|prune`.
//!
//! Backups of a CSV file are kept by the backup service; the commands
//! name the file they concern and format what the service reports.
use vstd::prelude::*;
use crate::cli::parser::strings_view;
use crate::reedstream::{ReedResponse, ReedResult, ResponseMetrics, validation_error, is_validation_error};
use crate::report::more_line;
use crate::text::{copy_string, decimal, push_str, push_u64, push_usize, split_on, split_to_strings, str_eq, str_to_string, to_chars};

verus! {

/// One backup as the backup service lists it.
#[derive(Debug, Clone)]
pub struct BackupInfo {
    /// The CSV file it is a backup of (e.g. `text.csv`).
    pub original_name: String,
    /// When it was taken, as the service writes it.
    pub timestamp: String,
    /// Its size in bytes.
    pub size: u64,
    /// Where it lies.
    pub path: String,
}

/// A backup as texts: file name, timestamp, size, path.
pub type BackupView = (Seq<char>, Seq<char>, u64, Seq<char>);

impl View for BackupInfo {
    type V = BackupView;

    open spec fn view(&self) -> BackupView {
        (self.original_name@, self.timestamp@, self.size, self.path@)
    }
}

pub open spec fn backup_views(bs: Seq<BackupInfo>) -> Seq<BackupView> {
    bs.map_values(|b: BackupInfo| b@)
}

/// The CSV file a backup command concerns: `.reed/<first argument>`, else
/// `.reed/text.csv`.
pub open spec fn backup_csv_path_spec(args: Seq<Seq<char>>) -> Seq<char> {
    if args.len() > 0 { ".reed/"@ + args[0] } else { ".reed/text.csv"@ }
}

pub fn backup_csv_path(args: &Vec<String>) -> (r: String)
    ensures
        r@ == backup_csv_path_spec(strings_view(args@)),
{
    if args.len() > 0 {
        assert(strings_view(args@)[0] == args@[0]@);
        let mut r = str_to_string(".reed/");
        push_str(&mut r, args[0].as_str());
        r
    } else {
        str_to_string(".reed/text.csv")
    }
}

fn timed_response(data: String, source: &str, micros: u64, files: u32) -> (r: ReedResponse<String>)
    ensures
        r.data == data,
        r.source@ == source@,
        !r.cached,
        r.metrics matches Some(m) && m.processing_time_us == micros && m.csv_files_accessed == files
            && m.memory_allocated is None && m.cache_info is None,
{
    let mut r = ReedResponse::new(data, source);
    r.metrics = Some(ResponseMetrics { processing_time_us: micros, memory_allocated: None, csv_files_accessed: files, cache_info: None });
    r
}

// ---------------------------------------------------------------------------
// Sizes
// ---------------------------------------------------------------------------

/// Tenths of `num / den`, rounded to the nearest, ties to even: the digit
/// that `{:.1}` shows of the exact quotient.
pub open spec fn tenths(num: nat, den: nat) -> nat
    recommends
        den > 0,
{
    let q = num * 10 / den;
    let r = num * 10 % den;
    if 2 * r > den || (2 * r == den && q % 2 == 1) { q + 1 } else { q }
}

pub open spec fn one_decimal(t: nat) -> Seq<char> {
    decimal(t / 10) + "."@ + decimal(t % 10)
}

/// A size in B, KB, MB or GB (of 1024), with one decimal above bytes.
pub open spec fn bytes_text(bytes: nat) -> Seq<char> {
    if bytes < 1024 {
        decimal(bytes) + " B"@
    } else if bytes < 1024 * 1024 {
        one_decimal(tenths(bytes, 1024)) + " KB"@
    } else if bytes < 1024 * 1024 * 1024 {
        one_decimal(tenths(bytes, 1024 * 1024)) + " MB"@
    } else {
        one_decimal(tenths(bytes, 1024 * 1024 * 1024)) + " GB"@
    }
}

fn push_tenths(out: &mut String, bytes: u64, den: u64)
    requires
        0 < den <= 1024 * 1024 * 1024,
    ensures
        final(out)@ == old(out)@ + one_decimal(tenths(bytes as nat, den as nat)),
{
    let num: u128 = (bytes as u128) * 10;
    let q: u128 = num / (den as u128);
    let r: u128 = num % (den as u128);
    assert(q == (bytes as nat) * 10 / (den as nat));
    assert(r == (bytes as nat) * 10 % (den as nat));
    let t: u128 = if 2 * r > den as u128 || (2 * r == den as u128 && q % 2 == 1) { q + 1 } else { q };
    assert(q <= (bytes as nat) * 10) by (nonlinear_arith)
        requires
            q == (bytes as nat) * 10 / (den as nat),
            den > 0,
    ;
    assert(t / 10 <= u64::MAX);
    push_u64(out, (t / 10) as u64);
    push_str(out, ".");
    push_u64(out, (t % 10) as u64);
}

/// Formats a size in bytes as `{:.1}` of KB, MB or GB shows it.
pub fn format_bytes(bytes: u64) -> (r: String)
    ensures
        r@ == bytes_text(bytes as nat),
{
    let mut out = String::new();
    if bytes < 1024 {
        push_u64(&mut out, bytes);
        push_str(&mut out, " B");
    } else if bytes < 1024 * 1024 {
        push_tenths(&mut out, bytes, 1024);
        push_str(&mut out, " KB");
    } else if bytes < 1024 * 1024 * 1024 {
        push_tenths(&mut out, bytes, 1024 * 1024);
        push_str(&mut out, " MB");
    } else {
        push_tenths(&mut out, bytes, 1024 * 1024 * 1024);
        push_str(&mut out, " GB");
    }
    out
}

// ---------------------------------------------------------------------------
// Listing
// ---------------------------------------------------------------------------

/// The order of strings: code point by code point, a prefix first (the
/// order of their UTF-8 bytes).
pub open spec fn text_lt(a: Seq<char>, b: Seq<char>) -> bool
    decreases a.len(),
{
    if a.len() == 0 {
        b.len() > 0
    } else if b.len() == 0 {
        false
    } else if a[0] == b[0] {
        text_lt(a.drop_first(), b.drop_first())
    } else {
        a[0] < b[0]
    }
}

proof fn lemma_text_lt_irreflexive(a: Seq<char>)
    ensures
        !text_lt(a, a),
    decreases a.len(),
{
    if a.len() > 0 {
        lemma_text_lt_irreflexive(a.drop_first());
    }
}

proof fn lemma_text_lt_transitive(a: Seq<char>, b: Seq<char>, c: Seq<char>)
    requires
        text_lt(a, b),
        text_lt(b, c),
    ensures
        text_lt(a, c),
    decreases a.len(),
{
    if a.len() > 0 && b.len() > 0 && c.len() > 0 && a[0] == b[0] && b[0] == c[0] {
        lemma_text_lt_transitive(a.drop_first(), b.drop_first(), c.drop_first());
    }
}

proof fn lemma_text_lt_total(a: Seq<char>, b: Seq<char>)
    requires
        a != b,
    ensures
        text_lt(a, b) || text_lt(b, a),
    decreases a.len(),
{
    if a.len() > 0 && b.len() > 0 && a[0] == b[0] {
        if a.drop_first() == b.drop_first() {
            assert(a =~= seq![a[0]] + a.drop_first());
            assert(b =~= seq![b[0]] + b.drop_first());
        }
        lemma_text_lt_total(a.drop_first(), b.drop_first());
    } else if a.len() == 0 && b.len() == 0 {
        assert(a =~= b);
    }
}

/// Whether `a` comes before `b`.
pub fn text_less(a: &str, b: &str) -> (r: bool)
    ensures
        r == text_lt(a@, b@),
{
    let va = to_chars(a);
    let vb = to_chars(b);
    let mut i: usize = 0;
    assert(a@.skip(0) =~= a@ && b@.skip(0) =~= b@);
    while i < va.len() && i < vb.len() && va[i] == vb[i]
        invariant
            i <= va@.len(),
            i <= vb@.len(),
            va@ == a@,
            vb@ == b@,
            text_lt(a@, b@) == text_lt(a@.skip(i as int), b@.skip(i as int)),
        decreases va.len() - i,
    {
        proof {
            let x = a@.skip(i as int);
            let y = b@.skip(i as int);
            assert(x.drop_first() =~= a@.skip(i + 1));
            assert(y.drop_first() =~= b@.skip(i + 1));
        }
        i += 1;
    }
    proof {
        let x = a@.skip(i as int);
        let y = b@.skip(i as int);
        if i < va.len() && i < vb.len() {
            assert(x[0] == va@[i as int] && y[0] == vb@[i as int]);
        }
    }
    if i == va.len() {
        i < vb.len()
    } else if i == vb.len() {
        false
    } else {
        va[i] < vb[i]
    }
}

/// Strictly increasing.
pub open spec fn sorted_texts(s: Seq<Seq<char>>) -> bool {
    forall|i: int, j: int| 0 <= i < j < s.len() ==> text_lt(#[trigger] s[i], #[trigger] s[j])
}

/// The names of the backups' files.
pub open spec fn backup_names(bs: Seq<BackupView>) -> Seq<Seq<char>> {
    bs.map_values(|b: BackupView| b.0)
}

/// The backups of one file, in order.
pub open spec fn backups_of(bs: Seq<BackupView>, name: Seq<char>) -> Seq<BackupView>
    decreases bs.len(),
{
    if bs.len() == 0 {
        Seq::empty()
    } else {
        let p = backups_of(bs.drop_last(), name);
        if bs.last().0 == name { p.push(bs.last()) } else { p }
    }
}

/// One backup's lines, numbered from 1.
pub open spec fn backup_item(i: nat, b: BackupView) -> Seq<char> {
    "  "@ + decimal(i + 1) + ". "@ + b.1 + " - "@ + bytes_text(b.2 as nat) + "\n      Path: "@ + b.3 + "\n"@
}

pub open spec fn backup_items(bs: Seq<BackupView>) -> Seq<char>
    decreases bs.len(),
{
    if bs.len() == 0 {
        Seq::empty()
    } else {
        backup_items(bs.drop_last()) + backup_item((bs.len() - 1) as nat, bs.last())
    }
}

/// The block of one file: its name and count, its first ten backups and
/// how many more there are.
pub open spec fn backup_group(name: Seq<char>, g: Seq<BackupView>) -> Seq<char> {
    name + " ("@ + decimal(g.len()) + " backups):\n"@ + backup_items(g.take(if g.len() < 10 { g.len() as int } else { 10 }))
        + more_line(g.len(), 10) + "\n"@
}

pub open spec fn backup_groups(names: Seq<Seq<char>>, bs: Seq<BackupView>) -> Seq<char>
    decreases names.len(),
{
    if names.len() == 0 {
        Seq::empty()
    } else {
        backup_groups(names.drop_last(), bs) + backup_group(names.last(), backups_of(bs, names.last()))
    }
}

/// `names` holds each file name of the backups once, in increasing order.
pub open spec fn names_in_order(names: Seq<Seq<char>>, bs: Seq<BackupView>) -> bool {
    &&& sorted_texts(names)
    &&& forall|n: Seq<char>| names.contains(n) <==> backup_names(bs).contains(n)
}

/// The listing: the backups grouped by file, the files in increasing
/// order.
pub open spec fn backup_list_text(bs: Seq<BackupView>) -> Seq<char> {
    "📦 Available Backups\n\n"@ + backup_groups(choose|ns: Seq<Seq<char>>| names_in_order(ns, bs), bs)
}

/// The file names of the backups, each once, in increasing order.
fn sorted_names(backups: &Vec<BackupInfo>) -> (r: Vec<String>)
    ensures
        names_in_order(strings_view(r@), backup_views(backups@)),
{
    let ghost bv = backup_views(backups@);
    let mut names: Vec<String> = Vec::new();
    let mut i: usize = 0;
    while i < backups.len()
        invariant
            i <= backups@.len(),
            bv == backup_views(backups@),
            names_in_order(strings_view(names@), bv.take(i as int)),
        decreases backups.len() - i,
    {
        let ghost before = strings_view(names@);
        let ghost t = bv.take(i + 1);
        assert(t.drop_last() =~= bv.take(i as int));
        assert(backup_names(t) =~= backup_names(bv.take(i as int)).push(backups@[i as int].original_name@));
        let n = backups[i].original_name.as_str();
        let mut p: usize = 0;
        while p < names.len()
            invariant
                p <= names@.len(),
                strings_view(names@) == before,
                sorted_texts(before),
                forall|k: int| 0 <= k < p ==> text_lt(#[trigger] before[k], n@),
            ensures
                p <= names@.len(),
                forall|k: int| 0 <= k < p ==> text_lt(#[trigger] before[k], n@),
                p < names@.len() ==> (before[p as int] == n@ || text_lt(n@, before[p as int])),
            decreases names.len() - p,
        {
            if str_eq(names[p].as_str(), n) || text_less(n, names[p].as_str()) {
                break;
            }
            proof {
                lemma_text_lt_total(before[p as int], n@);
            }
            p += 1;
        }
        let found = p < names.len() && str_eq(names[p].as_str(), n);
        if !found {
            let ghost ins = before.insert(p as int, n@);
            names.insert(p, str_to_string(n));
            assert(strings_view(names@) =~= ins);
            proof {
                before.insert_ensures(p as int, n@);
                assert forall|a: int, b: int| 0 <= a < b < ins.len() implies text_lt(#[trigger] ins[a], #[trigger] ins[b]) by {
                    if b < p {
                        assert(ins[a] == before[a] && ins[b] == before[b]);
                    } else if b == p {
                        assert(ins[a] == before[a]);
                    } else if a == p {
                        assert(ins[b] == before[b - 1]);
                        if p < before.len() {
                            assert(text_lt(n@, before[p as int]));
                            if b - 1 > p {
                                lemma_text_lt_transitive(n@, before[p as int], before[b - 1]);
                            }
                        }
                    } else if a < p {
                        assert(ins[a] == before[a] && ins[b] == before[b - 1]);
                    } else {
                        assert(ins[a] == before[a - 1] && ins[b] == before[b - 1]);
                    }
                }
                assert forall|x: Seq<char>| ins.contains(x) <==> backup_names(t).contains(x) by {
                    if ins.contains(x) {
                        let k = choose|k: int| 0 <= k < ins.len() && ins[k] == x;
                        if k != p {
                            if k < p {
                                assert(ins[k] == before[k]);
                                assert(before[k] == x);
                            } else {
                                assert(ins[(k - 1) + 1] == before[k - 1]);
                                assert(before[k - 1] == x);
                            }
                            assert(before.contains(x));
                            assert(backup_names(bv.take(i as int)).contains(x));
                            let j = choose|j: int| 0 <= j < backup_names(bv.take(i as int)).len() && backup_names(
                                bv.take(i as int),
                            )[j] == x;
                            assert(backup_names(t)[j] == x);
                        } else {
                            assert(backup_names(t)[i as int] == x);
                        }
                    }
                    if backup_names(t).contains(x) {
                        let k = choose|k: int| 0 <= k < backup_names(t).len() && backup_names(t)[k] == x;
                        if k < i {
                            assert(backup_names(bv.take(i as int))[k] == x);
                            assert(backup_names(bv.take(i as int)).contains(x));
                            assert(before.contains(x));
                            let m = choose|m: int| 0 <= m < before.len() && before[m] == x;
                            if m < p {
                                assert(ins[m] == x);
                            } else {
                                assert(ins[m + 1] == x);
                            }
                        } else {
                            assert(ins[p as int] == x);
                        }
                    }
                }
            }
        } else {
            proof {
                assert forall|x: Seq<char>| before.contains(x) <==> backup_names(t).contains(x) by {
                    if backup_names(t).contains(x) {
                        let k = choose|k: int| 0 <= k < backup_names(t).len() && backup_names(t)[k] == x;
                        if k < i {
                            assert(backup_names(bv.take(i as int))[k] == x);
                        } else {
                            assert(before[p as int] == x);
                        }
                    }
                    if before.contains(x) {
                        let m = choose|m: int| 0 <= m < before.len() && before[m] == x;
                        assert(backup_names(bv.take(i as int)).contains(x));
                        let k = choose|k: int| 0 <= k < i && backup_names(bv.take(i as int))[k] == x;
                        assert(backup_names(t)[k] == x);
                    }
                }
            }
        }
        i += 1;
    }
    assert(bv.take(i as int) =~= bv);
    names
}

/// Sequences that are sorted and hold the same texts are equal.
proof fn lemma_sorted_unique(a: Seq<Seq<char>>, b: Seq<Seq<char>>)
    requires
        sorted_texts(a),
        sorted_texts(b),
        forall|n: Seq<char>| a.contains(n) <==> b.contains(n),
    ensures
        a == b,
    decreases a.len(),
{
    if a.len() == 0 {
        if b.len() > 0 {
            assert(b.contains(b[0]));
        }
        assert(b.len() == 0);
        assert(a =~= b);
    } else {
        assert(a.contains(a.last()));
        assert(b.contains(a.last()));
        assert(b.len() > 0);
        assert(b.contains(b.last()));
        assert(a.contains(b.last()));
        let ia = choose|k: int| 0 <= k < a.len() && a[k] == b.last();
        let ib = choose|k: int| 0 <= k < b.len() && b[k] == a.last();
        if a.last() != b.last() {
            lemma_text_lt_total(a.last(), b.last());
            if text_lt(a.last(), b.last()) {
                if ia < a.len() - 1 {
                    lemma_text_lt_transitive(a[ia], a.last(), b.last());
                }
                lemma_text_lt_irreflexive(b.last());
            } else {
                if ib < b.len() - 1 {
                    lemma_text_lt_transitive(b[ib], b.last(), a.last());
                }
                lemma_text_lt_irreflexive(a.last());
            }
        }
        let x = a.last();
        assert forall|n: Seq<char>| a.drop_last().contains(n) <==> b.drop_last().contains(n) by {
            if a.drop_last().contains(n) {
                let k = choose|k: int| 0 <= k < a.drop_last().len() && a.drop_last()[k] == n;
                assert(text_lt(a[k], x));
                assert(b.contains(n));
                let m = choose|m: int| 0 <= m < b.len() && b[m] == n;
                if m == b.len() - 1 {
                    lemma_text_lt_irreflexive(x);
                }
                assert(b.drop_last()[m] == n);
            }
            if b.drop_last().contains(n) {
                let k = choose|k: int| 0 <= k < b.drop_last().len() && b.drop_last()[k] == n;
                assert(text_lt(b[k], x));
                assert(a.contains(n));
                let m = choose|m: int| 0 <= m < a.len() && a[m] == n;
                if m == a.len() - 1 {
                    lemma_text_lt_irreflexive(x);
                }
                assert(a.drop_last()[m] == n);
            }
        }
        lemma_sorted_unique(a.drop_last(), b.drop_last());
        assert(a =~= a.drop_last().push(x));
        assert(b =~= b.drop_last().push(x));
    }
}

fn backups_named(backups: &Vec<BackupInfo>, name: &str) -> (r: Vec<BackupInfo>)
    ensures
        backup_views(r@) == backups_of(backup_views(backups@), name@),
{
    let ghost bv = backup_views(backups@);
    let mut r: Vec<BackupInfo> = Vec::new();
    let mut i: usize = 0;
    while i < backups.len()
        invariant
            i <= backups@.len(),
            bv == backup_views(backups@),
            backup_views(r@) == backups_of(bv.take(i as int), name@),
        decreases backups.len() - i,
    {
        assert(bv.take(i + 1).drop_last() =~= bv.take(i as int));
        assert(bv.take(i + 1).last() == backups@[i as int]@);
        if str_eq(backups[i].original_name.as_str(), name) {
            let b = BackupInfo {
                original_name: copy_string(&backups[i].original_name),
                timestamp: copy_string(&backups[i].timestamp),
                size: backups[i].size,
                path: copy_string(&backups[i].path),
            };
            let ghost before = backup_views(r@);
            r.push(b);
            assert(backup_views(r@) =~= before.push(b@));
        }
        i += 1;
    }
    assert(bv.take(i as int) =~= bv);
    r
}

fn push_group(out: &mut String, name: &str, g: &Vec<BackupInfo>)
    ensures
        final(out)@ == old(out)@ + backup_group(name@, backup_views(g@)),
{
    let ghost gv = backup_views(g@);
    let ghost start = out@;
    push_str(out, name);
    push_str(out, " (");
    push_usize(out, g.len());
    push_str(out, " backups):\n");
    let ghost mid = out@;
    let shown = if g.len() < 10 { g.len() } else { 10 };
    let mut i: usize = 0;
    while i < shown
        invariant
            i <= shown,
            shown <= g@.len(),
            gv == backup_views(g@),
            out@ == mid + backup_items(gv.take(i as int)),
        decreases shown - i,
    {
        assert(gv.take(i + 1).drop_last() =~= gv.take(i as int));
        assert(gv.take(i + 1).last() == g@[i as int]@);
        let b = &g[i];
        let ghost before = out@;
        push_str(out, "  ");
        push_usize(out, i + 1);
        push_str(out, ". ");
        push_str(out, b.timestamp.as_str());
        push_str(out, " - ");
        let size = format_bytes(b.size);
        push_str(out, size.as_str());
        push_str(out, "\n      Path: ");
        push_str(out, b.path.as_str());
        push_str(out, "\n");
        assert(out@ =~= before + backup_item(i as nat, b@));
        i += 1;
    }
    if g.len() > 10 {
        push_str(out, "  ... and ");
        push_usize(out, g.len() - 10);
        push_str(out, " more\n");
    }
    push_str(out, "\n");
    assert(out@ =~= start + backup_group(name@, gv));
}

/// Formats the backups for display, grouped by file.
pub fn format_backup_list(backups: &Vec<BackupInfo>) -> (r: String)
    ensures
        r@ == backup_list_text(backup_views(backups@)),
{
    let names = sorted_names(backups);
    let ghost ns = strings_view(names@);
    let ghost bv = backup_views(backups@);
    proof {
        let c = choose|c: Seq<Seq<char>>| names_in_order(c, bv);
        lemma_sorted_unique(ns, c);
    }
    let mut out = str_to_string("📦 Available Backups\n\n");
    let ghost head = out@;
    let mut k: usize = 0;
    while k < names.len()
        invariant
            k <= names@.len(),
            ns == strings_view(names@),
            bv == backup_views(backups@),
            out@ == head + backup_groups(ns.take(k as int), bv),
        decreases names.len() - k,
    {
        assert(ns.take(k + 1).drop_last() =~= ns.take(k as int));
        assert(ns.take(k + 1).last() == names@[k as int]@);
        let g = backups_named(backups, names[k].as_str());
        push_group(&mut out, names[k].as_str(), &g);
        k += 1;
    }
    assert(ns.take(k as int) =~= ns);
    out
}

/// The answer of `backup:list` for the backups found; `elapsed_us` is how
/// long the listing took.
pub fn backup_list_handler(backups: &Vec<BackupInfo>, elapsed_us: u64) -> (r: ReedResponse<String>)
    ensures
        r.data@ == (if backups@.len() == 0 { "No backups found."@ } else { backup_list_text(backup_views(backups@)) }),
        r.source@ == "backup:list"@,
        r.metrics matches Some(m) && m.processing_time_us == elapsed_us && m.csv_files_accessed == 0,
{
    let data = if backups.len() == 0 { str_to_string("No backups found.") } else { format_backup_list(backups) };
    timed_response(data, "backup:list", elapsed_us, 0)
}

/// The answer of `backup:prune` for the number of backups removed.
pub fn backup_prune_handler(pruned: usize, elapsed_us: u64) -> (r: ReedResponse<String>)
    ensures
        r.data@ == (if pruned == 0 {
            "No backups to prune (retention limit not exceeded)."@
        } else {
            "✓ Pruned "@ + decimal(pruned as nat) + " backup(s)"@
        }),
        r.source@ == "backup:prune"@,
        r.metrics matches Some(m) && m.processing_time_us == elapsed_us && m.csv_files_accessed == 0,
{
    let data = if pruned == 0 {
        str_to_string("No backups to prune (retention limit not exceeded).")
    } else {
        let mut d = str_to_string("✓ Pruned ");
        push_usize(&mut d, pruned);
        push_str(&mut d, " backup(s)");
        d
    };
    timed_response(data, "backup:prune", elapsed_us, 0)
}

/// The backup path argument of `backup:restore` and `backup:verify`.
pub fn backup_path_arg(args: &Vec<String>) -> (r: ReedResult<String>)
    ensures
        args@.len() == 0 ==> (r matches Err(e) && is_validation_error(e, "backup_path"@, Seq::empty(), "Backup path is required"@)),
        args@.len() > 0 ==> (r matches Ok(p) && p@ == args@[0]@),
{
    if args.len() == 0 {
        return Err(validation_error("backup_path", String::new(), str_to_string("Backup path is required")));
    }
    Ok(copy_string(&args[0]))
}

/// Where a backup is restored to: `.reed/<name up to the first dot>.csv`
/// for a backup file such as `text.csv.20250102_143022.xz`.
pub fn restore_target(backup_file_name: &str) -> (r: String)
    ensures
        r@ == ".reed/"@ + split_on(backup_file_name@, '.')[0] + ".csv"@,
{
    let parts = split_to_strings(backup_file_name, '.');
    proof {
        crate::text::lemma_split_nonempty(backup_file_name@, '.');
    }
    let mut r = str_to_string(".reed/");
    push_str(&mut r, parts[0].as_str());
    push_str(&mut r, ".csv");
    r
}

/// The answer of `backup:restore`: a dry run only checks that the backup
/// can be opened.
pub fn backup_restore_report(backup_path: &str, target: Option<&str>, elapsed_us: u64) -> (r: ReedResponse<String>)
    ensures
        r.data@ == match target {
            None => "✓ Dry run successful\nBackup is valid: "@ + backup_path@,
            Some(t) => "✓ Backup restored successfully\nSource: "@ + backup_path@ + "\nTarget: "@ + t@,
        },
        r.source@ == "backup:restore"@,
        r.metrics matches Some(m) && m.processing_time_us == elapsed_us && m.csv_files_accessed == (if target is Some {
            1u32
        } else {
            0u32
        }),
{
    match target {
        None => {
            let mut d = str_to_string("✓ Dry run successful\nBackup is valid: ");
            push_str(&mut d, backup_path);
            timed_response(d, "backup:restore", elapsed_us, 0)
        },
        Some(t) => {
            let mut d = str_to_string("✓ Backup restored successfully\nSource: ");
            push_str(&mut d, backup_path);
            push_str(&mut d, "\nTarget: ");
            push_str(&mut d, t);
            timed_response(d, "backup:restore", elapsed_us, 1)
        },
    }
}

/// The answer of `backup:verify`: whether the backup could be opened, and
/// the error text when not.
pub fn backup_verify_report(backup_path: &str, failure: Option<&str>, elapsed_us: u64) -> (r: ReedResponse<String>)
    ensures
        r.data@ == match failure {
            None => "✓ Backup verified successfully\n  Path: "@ + backup_path@
                + "\n  Status: Valid\n  Decompression: OK\n  CSV structure: OK"@,
            Some(e) => "✗ Backup verification failed\n  Path: "@ + backup_path@ + "\n  Error: "@ + e@,
        },
        r.source@ == "backup:verify"@,
{
    let mut d = String::new();
    match failure {
        None => {
            push_str(&mut d, "✓ Backup verified successfully\n  Path: ");
            push_str(&mut d, backup_path);
            push_str(&mut d, "\n  Status: Valid\n  Decompression: OK\n  CSV structure: OK");
        },
        Some(e) => {
            push_str(&mut d, "✗ Backup verification failed\n  Path: ");
            push_str(&mut d, backup_path);
            push_str(&mut d, "\n  Error: ");
            push_str(&mut d, e);
        },
    }
    timed_response(d, "backup:verify", elapsed_us, 0)
}

} // verus!
