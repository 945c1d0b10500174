//! Writes into the records of a CSV file: what a file holds after a value
//! is stored under a key, and what a read then gives back.
use vstd::prelude::*;
use crate::csv::record::{CsvRecord, RecordView};
use crate::lists::last_value;
use crate::reedstream::{opt_str_view, ReedRequest};
use crate::text::{copy_string, str_eq, str_to_string};

verus! {

/// The records as views.
pub open spec fn record_views(rs: Seq<CsvRecord>) -> Seq<RecordView> {
    rs.map_values(|r: CsvRecord| r@)
}

/// Whether a record holds `key`.
pub open spec fn holds_key(rs: Seq<RecordView>, key: Seq<char>) -> bool {
    exists|i: int| 0 <= i < rs.len() && rs[i].0 == key
}

/// One record after `value` was written under `key`: a record of that key
/// takes the value, and the description when one is given.
pub open spec fn rewrite(r: RecordView, key: Seq<char>, value: Seq<char>, desc: Option<Seq<char>>) -> RecordView {
    if r.0 == key {
        (key, value, match desc {
            Some(d) => Some(d),
            None => r.2,
        })
    } else {
        r
    }
}

/// The records after writing `value` under `key`: the records of that key
/// are rewritten in place; without one, a record is appended.
pub open spec fn write_spec(rs: Seq<RecordView>, key: Seq<char>, value: Seq<char>, desc: Option<Seq<char>>) -> Seq<
    RecordView,
> {
    if holds_key(rs, key) {
        rs.map_values(|r: RecordView| rewrite(r, key, value, desc))
    } else {
        rs.push((key, value, desc))
    }
}

/// The value a read of `key` gives: that of the last record with the key.
pub open spec fn read_spec(rs: Seq<RecordView>, key: Seq<char>) -> Option<Seq<char>>
    decreases rs.len(),
{
    if rs.len() == 0 {
        None
    } else if rs.last().0 == key {
        Some(rs.last().1)
    } else {
        read_spec(rs.drop_last(), key)
    }
}

/// Writes `value` under `key` into the records.
pub fn write_record(records: &mut Vec<CsvRecord>, key: &str, value: &str, desc: Option<&str>)
    ensures
        record_views(final(records)@) == write_spec(
            record_views(old(records)@),
            key@,
            value@,
            match desc {
                Some(d) => Some(d@),
                None => None,
            },
        ),
{
    let ghost dv = match desc {
        Some(d) => Some(d@),
        None => None::<Seq<char>>,
    };
    let ghost before = record_views(records@);
    let mut found = false;
    let mut i: usize = 0;
    while i < records.len()
        invariant
            i <= records@.len(),
            records@.len() == before.len(),
            dv == match desc {
                Some(d) => Some(d@),
                None => None::<Seq<char>>,
            },
            forall|j: int| 0 <= j < i ==> (#[trigger] record_views(records@)[j]) == rewrite(before[j], key@, value@, dv),
            forall|j: int| i <= j < records@.len() ==> (#[trigger] records@[j])@ == before[j],
            found == exists|j: int| 0 <= j < i && before[j].0 == key@,
        decreases records.len() - i,
    {
        assert(records@[i as int]@ == before[i as int]);
        let ghost prev = records@;
        if str_eq(records[i].key.as_str(), key) {
            assert(before[i as int].0 == key@);
            assert(before[i as int].2 == crate::csv::record::opt_view(records@[i as int].description));
            let description: Option<String> = match desc {
                Some(d) => {
                    let t = str_to_string(d);
                    assert(dv == Some(t@));
                    Some(t)
                },
                None => {
                    assert(dv is None);
                    match &records[i].description {
                        Some(old_d) => Some(copy_string(old_d)),
                        None => None,
                    }
                },
            };
            assert(crate::csv::record::opt_view(description) == match dv {
                Some(d) => Some(d),
                None => before[i as int].2,
            });
            let rec = CsvRecord { key: str_to_string(key), value: str_to_string(value), description };
            assert(rec@ == rewrite(before[i as int], key@, value@, dv));
            records.set(i, rec);
            found = true;
        } else {
            assert(before[i as int].0 != key@);
        }
        assert forall|j: int| 0 <= j < i + 1 implies (#[trigger] record_views(records@)[j]) == rewrite(
            before[j],
            key@,
            value@,
            dv,
        ) by {
            if j < i {
                assert(records@[j] == prev[j]);
                assert(record_views(prev)[j] == rewrite(before[j], key@, value@, dv));
            }
        }
        assert forall|j: int| i + 1 <= j < records@.len() implies (#[trigger] records@[j])@ == before[j] by {
            assert(records@[j] == prev[j]);
        }
        i += 1;
    }
    if !found {
        let description = match desc {
            Some(d) => Some(str_to_string(d)),
            None => None,
        };
        proof {
            assert forall|j: int| 0 <= j < before.len() implies before[j].0 != key@ by {}
            assert(record_views(records@) =~= before);
        }
        records.push(CsvRecord { key: str_to_string(key), value: str_to_string(value), description });
        assert(record_views(records@) =~= before.push((key@, value@, dv)));
    } else {
        assert(record_views(records@) =~= before.map_values(|r: RecordView| rewrite(r, key@, value@, dv)));
    }
}

/// The records after every request that carries a value was written, in
/// order (requests without a value write nothing).
pub open spec fn apply_spec(rs: Seq<RecordView>, requests: Seq<ReedRequest>) -> Seq<RecordView>
    decreases requests.len(),
{
    if requests.len() == 0 {
        rs
    } else {
        let p = apply_spec(rs, requests.drop_last());
        let q = requests.last();
        match q.value {
            Some(v) => write_spec(p, q.key@, v@, opt_str_view(q.description)),
            None => p,
        }
    }
}

/// Writes the values of the requests into the records, in order.
pub fn apply_requests(records: &Vec<CsvRecord>, requests: &Vec<ReedRequest>) -> (r: Vec<CsvRecord>)
    ensures
        record_views(r@) == apply_spec(record_views(records@), requests@),
{
    let mut r: Vec<CsvRecord> = Vec::new();
    let mut k: usize = 0;
    while k < records.len()
        invariant
            k <= records@.len(),
            record_views(r@) == record_views(records@.take(k as int)),
        decreases records.len() - k,
    {
        let ghost prev = record_views(r@);
        r.push(records[k].duplicate());
        assert(record_views(r@) =~= prev.push(records@[k as int]@));
        assert(record_views(records@.take(k + 1)) =~= record_views(records@.take(k as int)).push(records@[k as int]@));
        k += 1;
    }
    assert(records@.take(k as int) =~= records@);
    let mut i: usize = 0;
    while i < requests.len()
        invariant
            i <= requests@.len(),
            record_views(r@) == apply_spec(record_views(records@), requests@.take(i as int)),
        decreases requests.len() - i,
    {
        assert(requests@.take(i + 1).drop_last() =~= requests@.take(i as int));
        assert(requests@.take(i + 1).last() == requests@[i as int]);
        let q = &requests[i];
        match &q.value {
            Some(v) => {
                let d = match &q.description {
                    Some(d) => Some(d.as_str()),
                    None => None,
                };
                write_record(&mut r, q.key.as_str(), v.as_str(), d);
            },
            None => {},
        }
        i += 1;
    }
    assert(requests@.take(i as int) =~= requests@);
    r
}

/// A read after a write gives the value written.
pub proof fn lemma_read_after_write(rs: Seq<RecordView>, key: Seq<char>, value: Seq<char>, desc: Option<Seq<char>>)
    ensures
        read_spec(write_spec(rs, key, value, desc), key) == Some(value),
{
    if holds_key(rs, key) {
        let w = rs.map_values(|r: RecordView| rewrite(r, key, value, desc));
        lemma_read_rewritten(rs, key, value, desc);
    } else {
        assert(rs.push((key, value, desc)).drop_last() =~= rs);
    }
}

proof fn lemma_read_rewritten(rs: Seq<RecordView>, key: Seq<char>, value: Seq<char>, desc: Option<Seq<char>>)
    requires
        holds_key(rs, key),
    ensures
        read_spec(rs.map_values(|r: RecordView| rewrite(r, key, value, desc)), key) == Some(value),
    decreases rs.len(),
{
    let w = rs.map_values(|r: RecordView| rewrite(r, key, value, desc));
    assert(w.drop_last() =~= rs.drop_last().map_values(|r: RecordView| rewrite(r, key, value, desc)));
    if rs.last().0 != key {
        let i = choose|i: int| 0 <= i < rs.len() && rs[i].0 == key;
        assert(i < rs.len() - 1);
        assert(rs.drop_last()[i].0 == key);
        lemma_read_rewritten(rs.drop_last(), key, value, desc);
    }
}

/// A write under one key leaves what a read of any other key gives.
pub proof fn lemma_write_keeps_others(
    rs: Seq<RecordView>,
    key: Seq<char>,
    value: Seq<char>,
    desc: Option<Seq<char>>,
    other: Seq<char>,
)
    requires
        other != key,
    ensures
        read_spec(write_spec(rs, key, value, desc), other) == read_spec(rs, other),
    decreases rs.len(),
{
    if holds_key(rs, key) {
        lemma_rewrite_keeps_others(rs, key, value, desc, other);
    } else {
        assert(rs.push((key, value, desc)).drop_last() =~= rs);
    }
}

proof fn lemma_rewrite_keeps_others(
    rs: Seq<RecordView>,
    key: Seq<char>,
    value: Seq<char>,
    desc: Option<Seq<char>>,
    other: Seq<char>,
)
    requires
        other != key,
    ensures
        read_spec(rs.map_values(|r: RecordView| rewrite(r, key, value, desc)), other) == read_spec(rs, other),
    decreases rs.len(),
{
    if rs.len() > 0 {
        let w = rs.map_values(|r: RecordView| rewrite(r, key, value, desc));
        assert(w.drop_last() =~= rs.drop_last().map_values(|r: RecordView| rewrite(r, key, value, desc)));
        lemma_rewrite_keeps_others(rs.drop_last(), key, value, desc, other);
    }
}

/// Writes under distinct keys all stand: after the requests are applied,
/// a read of each request's key gives the value that request wrote.
pub proof fn lemma_apply_distinct_writes(
    rs: Seq<RecordView>,
    requests: Seq<ReedRequest>,
    kvs: Seq<(Seq<char>, Seq<char>)>,
    i: int,
)
    requires
        requests.len() == kvs.len(),
        forall|j: int| 0 <= j < requests.len() ==> (#[trigger] requests[j]).key@ == kvs[j].0 && opt_str_view(
            requests[j].value,
        ) == Some(kvs[j].1),
        crate::string_map::keys_unique(kvs),
        0 <= i < kvs.len(),
    ensures
        read_spec(apply_spec(rs, requests), kvs[i].0) == Some(kvs[i].1),
    decreases requests.len(),
{
    let n = requests.len() - 1;
    let q = requests.last();
    assert(q == requests[n]);
    let v = q.value.unwrap();
    let p = apply_spec(rs, requests.drop_last());
    assert(apply_spec(rs, requests) == write_spec(p, q.key@, v@, opt_str_view(q.description)));
    if i == n {
        lemma_read_after_write(p, q.key@, v@, opt_str_view(q.description));
    } else {
        assert(kvs[i].0 != kvs[n].0);
        lemma_write_keeps_others(p, q.key@, v@, opt_str_view(q.description), kvs[i].0);
        let ks = kvs.drop_last();
        assert forall|j: int| 0 <= j < requests.drop_last().len() implies (#[trigger] requests.drop_last()[j]).key@
            == ks[j].0 && opt_str_view(requests.drop_last()[j].value) == Some(ks[j].1) by {
            assert(requests.drop_last()[j] == requests[j]);
        }
        lemma_apply_distinct_writes(rs, requests.drop_last(), ks, i);
    }
}

/// A write never drops a record: the file holds as many records as before,
/// or one more for a new key.
pub proof fn lemma_write_len(rs: Seq<RecordView>, key: Seq<char>, value: Seq<char>, desc: Option<Seq<char>>)
    ensures
        write_spec(rs, key, value, desc).len() == rs.len() + if holds_key(rs, key) { 0int } else { 1int },
{
}

/// What a read gives back of the records is what a lookup finds: the
/// value of the last record with the key.
pub proof fn lemma_read_is_last_value(rs: Seq<CsvRecord>, key: Seq<char>)
    ensures
        read_spec(record_views(rs), key) == last_value(rs, key),
    decreases rs.len(),
{
    if rs.len() > 0 {
        assert(record_views(rs).drop_last() =~= record_views(rs.drop_last()));
        lemma_read_is_last_value(rs.drop_last(), key);
    }
}

/// A value set through a request is what a lookup of its key then finds.
pub proof fn lemma_get_after_set(rs: Seq<CsvRecord>, written: Seq<CsvRecord>, request: ReedRequest)
    requires
        request.value is Some,
        record_views(written) == apply_spec(record_views(rs), seq![request]),
    ensures
        last_value(written, request.key@) == Some(request.value.unwrap()@),
{
    let one = seq![request];
    assert(one.drop_last() =~= Seq::<ReedRequest>::empty());
    assert(one.last() == request);
    assert(apply_spec(record_views(rs), one.drop_last()) == record_views(rs));
    assert(apply_spec(record_views(rs), one) == write_spec(
        record_views(rs),
        request.key@,
        request.value.unwrap()@,
        opt_str_view(request.description),
    ));
    lemma_read_after_write(
        record_views(rs),
        request.key@,
        request.value.unwrap()@,
        opt_str_view(request.description),
    );
    lemma_read_is_last_value(written, request.key@);
}

} // verus!
