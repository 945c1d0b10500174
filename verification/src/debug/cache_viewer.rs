//! The cache viewer: what `reed debug:cache` shows of the ReedBase cache.
use vstd::prelude::*;
use crate::report::more_line;
use crate::text::{decimal, push_str, push_u64, push_usize};

verus! {

/// One cached value.
#[derive(Debug, Clone)]
pub struct CacheEntry {
    pub key: String,
    pub value: String,
    pub cache_type: String,
}

/// What the viewer shows: the filters, the entries and the average
/// lookup time. The hit rate, a fraction that the monitor measures, is
/// handed to `format` already written with one decimal.
#[derive(Debug, Clone)]
pub struct CacheListing {
    pub cache_type: Option<String>,
    pub search_term: Option<String>,
    pub entries: Vec<CacheEntry>,
    pub avg_lookup_time_us: u64,
}

pub open spec fn entry_line(i: nat, e: CacheEntry) -> Seq<char> {
    "  "@ + decimal(i + 1) + ". ["@ + e.cache_type@ + "] "@ + e.key@ + " = \""@ + e.value@ + "\"\n"@
}

/// The numbered lines of the first entries.
pub open spec fn entry_lines(es: Seq<CacheEntry>) -> Seq<char>
    decreases es.len(),
{
    if es.len() == 0 {
        Seq::empty()
    } else {
        entry_lines(es.drop_last()) + entry_line((es.len() - 1) as nat, es.last())
    }
}

/// The viewer's heading, filters and statistics.
pub open spec fn cache_view_head(l: CacheListing, hit_rate: Seq<char>) -> Seq<char> {
    "📦 ReedBase Cache Viewer\n\n"@ + (match l.cache_type {
        Some(t) => "Cache Type: "@ + t@ + "\n"@,
        None => Seq::empty(),
    }) + (match l.search_term {
        Some(s) => "Search: \""@ + s@ + "\"\n"@,
        None => Seq::empty(),
    }) + "\nCache Statistics:\n"@ + "  Hit Rate: "@ + hit_rate + "%\n"@ + "  Avg Lookup Time: "@ + decimal(
        l.avg_lookup_time_us as nat,
    ) + "μs\n"@
}

/// The first twenty entries, numbered, or a note that there are none.
pub open spec fn cache_view_entries(es: Seq<CacheEntry>) -> Seq<char> {
    if es.len() > 0 {
        "\nEntries ("@ + decimal(es.len()) + "):\n"@ + entry_lines(
            es.take(if es.len() < 20 { es.len() as int } else { 20 }),
        ) + more_line(es.len(), 20)
    } else {
        "\nNo entries to display.\n"@ + "Note: Direct cache access requires runtime integration.\n"@
    }
}

/// The viewer's text; `hit_rate` is the hit rate in percent as written.
pub open spec fn cache_view_text(l: CacheListing, hit_rate: Seq<char>) -> Seq<char> {
    cache_view_head(l, hit_rate) + cache_view_entries(l.entries@)
}

fn push_cache_head(out: &mut String, l: &CacheListing, hit_rate: &str)
    ensures
        final(out)@ == old(out)@ + cache_view_head(*l, hit_rate@),
{
    let ghost start = out@;
    push_str(out, "📦 ReedBase Cache Viewer\n\n");
    match &l.cache_type {
        Some(t) => {
            push_str(out, "Cache Type: ");
            push_str(out, t.as_str());
            push_str(out, "\n");
        },
        None => {},
    }
    match &l.search_term {
        Some(s) => {
            push_str(out, "Search: \"");
            push_str(out, s.as_str());
            push_str(out, "\"\n");
        },
        None => {},
    }
    push_str(out, "\nCache Statistics:\n");
    push_str(out, "  Hit Rate: ");
    push_str(out, hit_rate);
    push_str(out, "%\n");
    push_str(out, "  Avg Lookup Time: ");
    push_u64(out, l.avg_lookup_time_us);
    push_str(out, "μs\n");
    assert(out@ =~= start + cache_view_head(*l, hit_rate@));
}

fn push_cache_entries(out: &mut String, entries: &Vec<CacheEntry>)
    ensures
        final(out)@ == old(out)@ + cache_view_entries(entries@),
{
    let ghost start0 = out@;
    let n = entries.len();
    if n > 0 {
        push_str(out, "\nEntries (");
        push_usize(out, n);
        push_str(out, "):\n");
        let ghost start = out@;
        let shown = if n < 20 { n } else { 20 };
        let mut i: usize = 0;
        while i < shown
            invariant
                i <= shown,
                shown <= entries@.len(),
                out@ == start + entry_lines(entries@.take(i as int)),
            decreases shown - i,
        {
            let e = &entries[i];
            assert(entries@.take(i + 1).drop_last() =~= entries@.take(i as int));
            let ghost before = out@;
            push_str(out, "  ");
            push_usize(out, i + 1);
            push_str(out, ". [");
            push_str(out, e.cache_type.as_str());
            push_str(out, "] ");
            push_str(out, e.key.as_str());
            push_str(out, " = \"");
            push_str(out, e.value.as_str());
            push_str(out, "\"\n");
            assert(out@ =~= before + entry_line(i as nat, *e));
            i += 1;
        }
        let ghost mid = out@;
        if n > 20 {
            push_str(out, "  ... and ");
            push_usize(out, n - 20);
            push_str(out, " more\n");
        }
        assert(out@ =~= start0 + cache_view_entries(entries@));
    } else {
        push_str(out, "\nNo entries to display.\n");
        push_str(out, "Note: Direct cache access requires runtime integration.\n");
    }
}

impl CacheListing {
    /// Formats the cache view; `hit_rate` is the hit rate in percent with
    /// one decimal.
    pub fn format(&self, hit_rate: &str) -> (r: String)
        ensures
            r@ == cache_view_text(*self, hit_rate@),
    {
        let mut out = String::new();
        push_cache_head(&mut out, self, hit_rate);
        push_cache_entries(&mut out, &self.entries);
        out
    }
}

} // verus!
