//! Lists of strings: membership, first occurrences, record keys.
use vstd::prelude::*;
use crate::cli::parser::strings_view;
use crate::csv::record::CsvRecord;
use crate::string_map::StringMap;
use crate::text::{copy_string, str_eq};

verus! {

/// Each item once, in the order of its first occurrence.
pub open spec fn distinct(s: Seq<Seq<char>>) -> Seq<Seq<char>>
    decreases s.len(),
{
    if s.len() == 0 {
        Seq::empty()
    } else {
        let d = distinct(s.drop_last());
        if d.contains(s.last()) { d } else { d.push(s.last()) }
    }
}

/// The keys of the records, in order.
pub open spec fn record_keys(rs: Seq<CsvRecord>) -> Seq<Seq<char>> {
    rs.map_values(|r: CsvRecord| r.key@)
}

proof fn lemma_push_contains(t: Seq<Seq<char>>, y: Seq<char>, x: Seq<char>)
    ensures
        t.push(y).contains(x) <==> (t.contains(x) || y == x),
{
    if t.contains(x) {
        let j = choose|j: int| 0 <= j < t.len() && t[j] == x;
        assert(t.push(y)[j] == x);
    }
    if y == x {
        assert(t.push(y)[t.len() as int] == x);
    }
    if t.push(y).contains(x) && y != x {
        let j = choose|j: int| 0 <= j < t.push(y).len() && t.push(y)[j] == x;
        assert(j < t.len());
        assert(t[j] == x);
    }
}

/// An item is among the distinct items exactly when it is among the items.
pub proof fn lemma_distinct_contains(s: Seq<Seq<char>>, x: Seq<char>)
    ensures
        distinct(s).contains(x) <==> s.contains(x),
    decreases s.len(),
{
    if s.len() > 0 {
        let t = s.drop_last();
        let y = s.last();
        lemma_distinct_contains(t, x);
        lemma_distinct_contains(t, y);
        assert(s =~= t.push(y));
        lemma_push_contains(t, y, x);
        lemma_push_contains(distinct(t), y, x);
    } else {
        assert(distinct(s) =~= Seq::<Seq<char>>::empty());
    }
}

/// Whether `s` occurs in `v`.
pub fn contains_string(v: &Vec<String>, s: &str) -> (r: bool)
    ensures
        r == strings_view(v@).contains(s@),
{
    let mut i: usize = 0;
    while i < v.len()
        invariant
            i <= v@.len(),
            forall|j: int| 0 <= j < i ==> v@[j]@ != s@,
        decreases v.len() - i,
    {
        if str_eq(v[i].as_str(), s) {
            assert(strings_view(v@)[i as int] == s@);
            return true;
        }
        i += 1;
    }
    proof {
        if strings_view(v@).contains(s@) {
            let j = choose|j: int| 0 <= j < strings_view(v@).len() && strings_view(v@)[j] == s@;
            assert(v@[j]@ == s@);
        }
    }
    false
}

/// Each string once, in the order of its first occurrence.
pub fn distinct_strings(v: &Vec<String>) -> (r: Vec<String>)
    ensures
        strings_view(r@) == distinct(strings_view(v@)),
{
    let mut r: Vec<String> = Vec::new();
    let mut i: usize = 0;
    while i < v.len()
        invariant
            i <= v@.len(),
            strings_view(r@) == distinct(strings_view(v@).take(i as int)),
        decreases v.len() - i,
    {
        let ghost sv = strings_view(v@);
        proof {
            assert(sv.take(i + 1).drop_last() =~= sv.take(i as int));
            assert(sv.take(i + 1).last() == v@[i as int]@);
        }
        if !contains_string(&r, v[i].as_str()) {
            r.push(copy_string(&v[i]));
            assert(strings_view(r@) =~= distinct(sv.take(i as int)).push(v@[i as int]@));
        }
        i += 1;
    }
    assert(strings_view(v@).take(i as int) =~= strings_view(v@));
    r
}

/// The keys of the records, in order.
pub fn keys_of(records: &Vec<CsvRecord>) -> (r: Vec<String>)
    ensures
        strings_view(r@) == record_keys(records@),
{
    let mut r: Vec<String> = Vec::new();
    let mut i: usize = 0;
    while i < records.len()
        invariant
            i <= records@.len(),
            strings_view(r@) == record_keys(records@).take(i as int),
        decreases records.len() - i,
    {
        let ghost before = r@;
        let k = copy_string(&records[i].key);
        r.push(k);
        assert(strings_view(r@) =~= strings_view(before).push(records@[i as int].key@));
        assert(strings_view(r@) =~= record_keys(records@).take(i + 1));
        i += 1;
    }
    assert(record_keys(records@).take(i as int) =~= record_keys(records@));
    r
}

/// The value of the last record with key `k`.
pub open spec fn last_value(rs: Seq<CsvRecord>, k: Seq<char>) -> Option<Seq<char>>
    decreases rs.len(),
{
    if rs.len() == 0 {
        None
    } else if rs.last().key@ == k {
        Some(rs.last().value@)
    } else {
        last_value(rs.drop_last(), k)
    }
}

pub proof fn lemma_last_value_some(rs: Seq<CsvRecord>, k: Seq<char>)
    ensures
        last_value(rs, k) is Some <==> record_keys(rs).contains(k),
    decreases rs.len(),
{
    if rs.len() > 0 {
        lemma_last_value_some(rs.drop_last(), k);
        assert(record_keys(rs) =~= record_keys(rs.drop_last()).push(rs.last().key@));
        lemma_push_contains(record_keys(rs.drop_last()), rs.last().key@, k);
    } else {
        assert(record_keys(rs) =~= Seq::<Seq<char>>::empty());
    }
}

/// The records as a map: each key holds the value of its last record.
pub fn records_to_map(records: &Vec<CsvRecord>) -> (m: StringMap)
    ensures
        m.wf(),
        forall|k: Seq<char>| #[trigger] m.lookup(k) == last_value(records@, k),
        m.entries().len() == distinct(record_keys(records@)).len(),
{
    let mut m = StringMap::new();
    let mut i: usize = 0;
    assert(distinct(record_keys(records@.take(0))) =~= Seq::<Seq<char>>::empty()) by {
        assert(record_keys(records@.take(0)) =~= Seq::<Seq<char>>::empty());
    }
    while i < records.len()
        invariant
            i <= records@.len(),
            m.wf(),
            forall|k: Seq<char>| #[trigger] m.lookup(k) == last_value(records@.take(i as int), k),
            m.entries().len() == distinct(record_keys(records@.take(i as int))).len(),
        decreases records.len() - i,
    {
        let ghost pre = records@.take(i as int);
        let ghost post = records@.take(i + 1);
        let ghost kk = records@[i as int].key@;
        proof {
            assert(post.drop_last() =~= pre);
            assert(record_keys(post) =~= record_keys(pre).push(kk));
            assert(record_keys(pre).push(kk).drop_last() =~= record_keys(pre));
            lemma_last_value_some(pre, kk);
            lemma_distinct_contains(record_keys(pre), kk);
        }
        let k = copy_string(&records[i].key);
        let v = copy_string(&records[i].value);
        m.insert(k, v);
        assert forall|x: Seq<char>| #[trigger] m.lookup(x) == last_value(post, x) by {}
        i += 1;
    }
    assert(records@.take(i as int) =~= records@);
    m
}

} // verus!
