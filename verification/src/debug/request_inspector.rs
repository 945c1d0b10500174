//! Simulated request inspection: headers and a timing breakdown.
use vstd::prelude::*;
use crate::string_map::StringMap;
use crate::text::{copy_string, decimal, push_str, push_u64, str_eq, str_to_string};

verus! {

/// A request as the inspector shows it. Timings are per phase, in
/// microseconds.
#[derive(Debug, Clone)]
pub struct RequestInspection {
    pub url: String,
    pub method: String,
    pub status: u16,
    pub headers: StringMap,
    pub response_headers: StringMap,
    pub timing: Vec<(String, u64)>,
}

pub open spec fn timing_view(t: Seq<(String, u64)>) -> Seq<(Seq<char>, u64)> {
    t.map_values(|p: (String, u64)| (p.0@, p.1))
}

/// The timings after setting phase `k` to `v`: an existing entry for the
/// phase takes the value, else the phase is appended.
pub open spec fn set_phase(t: Seq<(Seq<char>, u64)>, k: Seq<char>, v: u64) -> Seq<(Seq<char>, u64)> {
    if exists|i: int| 0 <= i < t.len() && t[i].0 == k {
        let i = choose|i: int| 0 <= i < t.len() && t[i].0 == k && forall|j: int| 0 <= j < i ==> t[j].0 != k;
        t.update(i, (k, v))
    } else {
        t.push((k, v))
    }
}

/// The request headers of a new inspection.
pub open spec fn default_headers() -> Seq<(Seq<char>, Seq<char>)> {
    seq![("User-Agent"@, "ReedCMS-Debug/1.0"@), ("Accept"@, "*/*"@), ("Host"@, "localhost:8333"@)]
}

/// The response headers of a new inspection.
pub open spec fn default_response_headers() -> Seq<(Seq<char>, Seq<char>)> {
    seq![("Content-Type"@, "text/html; charset=utf-8"@), ("Cache-Control"@, "public, max-age=3600"@)]
}

/// The phases that `simulate_timing` sets, with their durations.
pub open spec fn simulated_timing(t: Seq<(Seq<char>, u64)>) -> Seq<(Seq<char>, u64)> {
    set_phase(set_phase(set_phase(set_phase(t, "routing"@, 2000), "reedbase"@, 8000), "rendering"@, 32000), "total"@, 42000)
}

fn insert_new(m: &mut StringMap, k: &str, v: &str)
    requires
        old(m).wf(),
        old(m).lookup(k@) is None,
    ensures
        final(m).wf(),
        final(m).entries() == old(m).entries().push((k@, v@)),
        forall|x: Seq<char>| x != k@ ==> final(m).lookup(x) == old(m).lookup(x),
{
    m.insert(str_to_string(k), str_to_string(v));
}

impl RequestInspection {
    /// A GET request for `url` with the default headers and no timings.
    pub fn new(url: &str) -> (r: RequestInspection)
        ensures
            r.url@ == url@,
            r.method@ == "GET"@,
            r.status == 200,
            r.headers.wf(),
            r.headers.entries() == default_headers(),
            r.response_headers.wf(),
            r.response_headers.entries() == default_response_headers(),
            r.timing@.len() == 0,
    {
        let mut headers = StringMap::new();
        proof {
            reveal_strlit("User-Agent");
            reveal_strlit("Accept");
            reveal_strlit("Host");
            reveal_strlit("Content-Type");
            reveal_strlit("Cache-Control");
            assert("Accept"@[0] != "User-Agent"@[0]);
            assert("Host"@[0] != "User-Agent"@[0] && "Host"@[0] != "Accept"@[0]);
            assert("Cache-Control"@[0] != "Content-Type"@[2]);
            assert("Cache-Control"@ != "Content-Type"@) by {
                assert("Cache-Control"@[1] != "Content-Type"@[1]);
            }
        }
        insert_new(&mut headers, "User-Agent", "ReedCMS-Debug/1.0");
        insert_new(&mut headers, "Accept", "*/*");
        insert_new(&mut headers, "Host", "localhost:8333");
        let mut response_headers = StringMap::new();
        insert_new(&mut response_headers, "Content-Type", "text/html; charset=utf-8");
        insert_new(&mut response_headers, "Cache-Control", "public, max-age=3600");
        assert(headers.entries() =~= default_headers());
        assert(response_headers.entries() =~= default_response_headers());
        RequestInspection {
            url: str_to_string(url),
            method: str_to_string("GET"),
            status: 200,
            headers,
            response_headers,
            timing: Vec::new(),
        }
    }

    /// Sets the duration of one phase.
    pub fn set_timing(&mut self, phase: &str, micros: u64)
        ensures
            timing_view(final(self).timing@) == set_phase(timing_view(old(self).timing@), phase@, micros),
            final(self).url == old(self).url,
            final(self).method == old(self).method,
            final(self).status == old(self).status,
            final(self).headers == old(self).headers,
            final(self).response_headers == old(self).response_headers,
    {
        let ghost t = timing_view(self.timing@);
        let mut i: usize = 0;
        while i < self.timing.len()
            invariant
                i <= self.timing@.len(),
                *self == *old(self),
                t == timing_view(self.timing@),
                forall|j: int| 0 <= j < i ==> t[j].0 != phase@,
            decreases self.timing.len() - i,
        {
            if str_eq(self.timing[i].0.as_str(), phase) {
                proof {
                    assert(t[i as int].0 == phase@);
                    let c = choose|k: int| 0 <= k < t.len() && t[k].0 == phase@ && forall|j: int| 0 <= j < k ==> t[j].0 != phase@;
                    assert(c == i) by {
                        if c < i {
                            assert(t[c].0 != phase@);
                        }
                        if c > i {
                            assert(t[i as int].0 != phase@);
                        }
                    }
                }
                let k = copy_string(&self.timing[i].0);
                self.timing.set(i, (k, micros));
                assert(timing_view(self.timing@) =~= t.update(i as int, (phase@, micros)));
                return;
            }
            i += 1;
        }
        let ghost before = self.timing@;
        self.timing.push((str_to_string(phase), micros));
        assert(timing_view(self.timing@) =~= t.push((phase@, micros)));
    }

    /// Fills in simulated timings: routing 2ms, ReedBase 8ms, rendering
    /// 32ms, 42ms in total.
    pub fn simulate_timing(&mut self)
        ensures
            timing_view(final(self).timing@) == simulated_timing(timing_view(old(self).timing@)),
            final(self).url == old(self).url,
            final(self).method == old(self).method,
            final(self).status == old(self).status,
            final(self).headers == old(self).headers,
            final(self).response_headers == old(self).response_headers,
    {
        self.set_timing("routing", 2000);
        self.set_timing("reedbase", 8000);
        self.set_timing("rendering", 32000);
        self.set_timing("total", 42000);
    }
}

/// `"  key: value\n"` for each entry, in order.
pub open spec fn entry_lines(es: Seq<(Seq<char>, Seq<char>)>) -> Seq<char>
    decreases es.len(),
{
    if es.len() == 0 {
        Seq::empty()
    } else {
        entry_lines(es.drop_last()) + "  "@ + es.last().0 + ": "@ + es.last().1 + "\n"@
    }
}

/// Appends `"  key: value\n"` for each entry of the map.
pub fn push_entry_lines(out: &mut String, m: &StringMap)
    ensures
        final(out)@ == old(out)@ + entry_lines(m.entries()),
{
    let ghost start = out@;
    let ghost es = m.entries();
    let mut i: usize = 0;
    while i < m.len()
        invariant
            i <= es.len(),
            es == m.entries(),
            out@ == start + entry_lines(es.take(i as int)),
        decreases es.len() - i,
    {
        let (k, v) = m.entry(i);
        push_str(out, "  ");
        push_str(out, k.as_str());
        push_str(out, ": ");
        push_str(out, v.as_str());
        push_str(out, "\n");
        proof {
            assert(es.take(i + 1).drop_last() =~= es.take(i as int));
        }
        assert(out@ =~= start + entry_lines(es.take(i + 1)));
        i += 1;
    }
    assert(es.take(i as int) =~= es);
}

/// Milliseconds with one decimal, from microseconds (rounded half up).
pub open spec fn ms_text(micros: nat) -> Seq<char> {
    let t = (micros + 50) / 100;
    decimal(t / 10) + "."@ + decimal(t % 10)
}

fn push_ms(out: &mut String, micros: u64)
    ensures
        final(out)@ == old(out)@ + ms_text(micros as nat),
{
    let t: u64 = micros / 100 + if micros % 100 >= 50 { 1 } else { 0 };
    assert(t == (micros + 50) / 100);
    push_u64(out, t / 10);
    push_str(out, ".");
    push_u64(out, t % 10);
}

/// The timing lines of all phases but the total, in order.
pub open spec fn phase_lines(t: Seq<(Seq<char>, u64)>) -> Seq<char>
    decreases t.len(),
{
    if t.len() == 0 {
        Seq::empty()
    } else {
        phase_lines(t.drop_last()) + if t.last().0 == "total"@ {
            Seq::empty()
        } else {
            "  "@ + t.last().0 + ": "@ + ms_text(t.last().1 as nat) + "ms\n"@
        }
    }
}

/// The first timing of phase `k`.
pub open spec fn phase_value(t: Seq<(Seq<char>, u64)>, k: Seq<char>) -> Option<u64>
    decreases t.len(),
{
    if t.len() == 0 {
        None
    } else {
        match phase_value(t.drop_last(), k) {
            Some(v) => Some(v),
            None => if t.last().0 == k { Some(t.last().1) } else { None },
        }
    }
}

/// The inspection as the debug command prints it.
pub open spec fn inspection_text(r: RequestInspection) -> Seq<char> {
    let t = timing_view(r.timing@);
    "🔍 Request Inspector: "@ + r.url@ + "\n\n"@ + "Request:\n"@ + "  Method: "@ + r.method@ + "\n"@ + "  URL: "@
        + r.url@ + "\n"@ + "\nRequest Headers:\n"@ + entry_lines(r.headers.entries()) + "\nResponse:\n"@
        + "  Status: "@ + decimal(r.status as nat) + " OK\n"@ + "\nResponse Headers:\n"@ + entry_lines(
        r.response_headers.entries(),
    ) + "\nTiming Breakdown:\n"@ + phase_lines(t) + (match phase_value(t, "total"@) {
        Some(v) => "  Total: "@ + ms_text(v as nat) + "ms\n"@,
        None => Seq::empty(),
    }) + "\nNote: This is a simulated inspection.\n"@
        + "For live inspection, use profiler middleware during server runtime.\n"@
}

impl RequestInspection {
    /// The inspection as text.
    pub fn format(&self) -> (r: String)
        ensures
            r@ == inspection_text(*self),
    {
        let mut out = str_to_string("🔍 Request Inspector: ");
        push_str(&mut out, self.url.as_str());
        push_str(&mut out, "\n\n");
        push_str(&mut out, "Request:\n");
        push_str(&mut out, "  Method: ");
        push_str(&mut out, self.method.as_str());
        push_str(&mut out, "\n");
        push_str(&mut out, "  URL: ");
        push_str(&mut out, self.url.as_str());
        push_str(&mut out, "\n");
        push_str(&mut out, "\nRequest Headers:\n");
        push_entry_lines(&mut out, &self.headers);
        push_str(&mut out, "\nResponse:\n");
        push_str(&mut out, "  Status: ");
        push_u64(&mut out, self.status as u64);
        push_str(&mut out, " OK\n");
        push_str(&mut out, "\nResponse Headers:\n");
        push_entry_lines(&mut out, &self.response_headers);
        push_str(&mut out, "\nTiming Breakdown:\n");
        let ghost t = timing_view(self.timing@);
        let ghost head = out@;
        let mut total: Option<u64> = None;
        let mut i: usize = 0;
        while i < self.timing.len()
            invariant
                i <= self.timing@.len(),
                t == timing_view(self.timing@),
                out@ == head + phase_lines(t.take(i as int)),
                total == phase_value(t.take(i as int), "total"@),
            decreases self.timing.len() - i,
        {
            proof {
                assert(t.take(i + 1).drop_last() =~= t.take(i as int));
                assert(t.take(i + 1).last() == (self.timing@[i as int].0@, self.timing@[i as int].1));
            }
            if str_eq(self.timing[i].0.as_str(), "total") {
                if total.is_none() {
                    total = Some(self.timing[i].1);
                }
            } else {
                push_str(&mut out, "  ");
                push_str(&mut out, self.timing[i].0.as_str());
                push_str(&mut out, ": ");
                push_ms(&mut out, self.timing[i].1);
                push_str(&mut out, "ms\n");
            }
            assert(out@ =~= head + phase_lines(t.take(i + 1)));
            i += 1;
        }
        assert(t.take(i as int) =~= t);
        match total {
            Some(v) => {
                push_str(&mut out, "  Total: ");
                push_ms(&mut out, v);
                push_str(&mut out, "ms\n");
            },
            None => {},
        }
        push_str(&mut out, "\nNote: This is a simulated inspection.\n");
        push_str(&mut out, "For live inspection, use profiler middleware during server runtime.\n");
        assert(out@ =~= inspection_text(*self));
        out
    }
}

/// `i` is the first index of phase `k`.
pub open spec fn first_phase_at(t: Seq<(Seq<char>, u64)>, k: Seq<char>, i: int) -> bool {
    0 <= i < t.len() && t[i].0 == k && forall|j: int| 0 <= j < i ==> t[j].0 != k
}

proof fn lemma_phase_value_at(t: Seq<(Seq<char>, u64)>, k: Seq<char>, i: int)
    requires
        first_phase_at(t, k, i),
    ensures
        phase_value(t, k) == Some(t[i].1),
    decreases t.len(),
{
    if i < t.len() - 1 {
        assert(first_phase_at(t.drop_last(), k, i));
        lemma_phase_value_at(t.drop_last(), k, i);
    } else {
        lemma_phase_value_none(t.drop_last(), k);
    }
}

proof fn lemma_phase_value_none(t: Seq<(Seq<char>, u64)>, k: Seq<char>)
    requires
        forall|j: int| 0 <= j < t.len() ==> t[j].0 != k,
    ensures
        phase_value(t, k) is None,
    decreases t.len(),
{
    if t.len() > 0 {
        assert(t.last() == t[t.len() - 1]);
        lemma_phase_value_none(t.drop_last(), k);
    }
}

proof fn lemma_phase_none_all(t: Seq<(Seq<char>, u64)>, k: Seq<char>)
    requires
        phase_value(t, k) is None,
    ensures
        forall|j: int| 0 <= j < t.len() ==> t[j].0 != k,
    decreases t.len(),
{
    if t.len() > 0 {
        lemma_phase_none_all(t.drop_last(), k);
        assert forall|j: int| 0 <= j < t.len() implies t[j].0 != k by {
            if j < t.len() - 1 {
                assert(t.drop_last()[j] == t[j]);
            }
        }
    }
}

proof fn lemma_phase_value_some(t: Seq<(Seq<char>, u64)>, k: Seq<char>)
    requires
        phase_value(t, k) is Some,
    ensures
        exists|i: int| first_phase_at(t, k, i) && t[i].1 == phase_value(t, k)->Some_0,
    decreases t.len(),
{
    let n = t.len() - 1;
    match phase_value(t.drop_last(), k) {
        Some(_) => {
            lemma_phase_value_some(t.drop_last(), k);
            let i = choose|i: int| first_phase_at(t.drop_last(), k, i) && t.drop_last()[i].1 == phase_value(
                t.drop_last(),
                k,
            )->Some_0;
            assert(t.drop_last()[i] == t[i]);
            assert forall|j: int| 0 <= j < i implies t[j].0 != k by {
                assert(t.drop_last()[j] == t[j]);
            }
            assert(first_phase_at(t, k, i));
        },
        None => {
            lemma_phase_none_all(t.drop_last(), k);
            assert forall|j: int| 0 <= j < n implies t[j].0 != k by {
                assert(t.drop_last()[j] == t[j]);
            }
            assert(first_phase_at(t, k, n));
        },
    }
}

/// Two first indices of a phase are one.
proof fn lemma_first_phase_unique(t: Seq<(Seq<char>, u64)>, k: Seq<char>, i: int, j: int)
    requires
        first_phase_at(t, k, i),
        first_phase_at(t, k, j),
    ensures
        i == j,
{
}

/// Setting a phase, read back: the phase has the value set.
proof fn lemma_set_phase_reads(t: Seq<(Seq<char>, u64)>, k: Seq<char>, v: u64)
    ensures
        phase_value(set_phase(t, k, v), k) == Some(v),
{
    if exists|i: int| 0 <= i < t.len() && t[i].0 == k {
        if phase_value(t, k) is None {
            lemma_phase_none_all(t, k);
        }
        lemma_phase_value_some(t, k);
        let i = choose|i: int| 0 <= i < t.len() && t[i].0 == k && forall|j: int| 0 <= j < i ==> t[j].0 != k;
        let u = t.update(i, (k, v));
        assert(first_phase_at(u, k, i));
        lemma_phase_value_at(u, k, i);
    } else {
        let u = t.push((k, v));
        assert(first_phase_at(u, k, t.len() as int));
        lemma_phase_value_at(u, k, t.len() as int);
    }
}

/// Reads of a phase agree on two timings that agree wherever the phase
/// stands.
proof fn lemma_phase_same(s: Seq<(Seq<char>, u64)>, u: Seq<(Seq<char>, u64)>, k: Seq<char>)
    requires
        s.len() == u.len(),
        forall|j: int| 0 <= j < s.len() ==> ((s[j].0 == k) == (u[j].0 == k) && (s[j].0 == k ==> s[j].1 == u[j].1)),
    ensures
        phase_value(s, k) == phase_value(u, k),
    decreases s.len(),
{
    if s.len() > 0 {
        assert(s.last() == s[s.len() - 1] && u.last() == u[u.len() - 1]);
        assert forall|j: int| 0 <= j < s.drop_last().len() implies ((s.drop_last()[j].0 == k) == (
        u.drop_last()[j].0 == k) && (s.drop_last()[j].0 == k ==> s.drop_last()[j].1 == u.drop_last()[j].1)) by {
            assert(s.drop_last()[j] == s[j] && u.drop_last()[j] == u[j]);
        }
        lemma_phase_same(s.drop_last(), u.drop_last(), k);
    }
}

/// Setting one phase leaves the reads of every other phase.
proof fn lemma_set_phase_keeps(t: Seq<(Seq<char>, u64)>, k: Seq<char>, v: u64, other: Seq<char>)
    requires
        other != k,
    ensures
        phase_value(set_phase(t, k, v), other) == phase_value(t, other),
{
    if exists|i: int| 0 <= i < t.len() && t[i].0 == k {
        if phase_value(t, k) is None {
            lemma_phase_none_all(t, k);
        }
        lemma_phase_value_some(t, k);
        let i = choose|i: int| 0 <= i < t.len() && t[i].0 == k && forall|j: int| 0 <= j < i ==> t[j].0 != k;
        let u = t.update(i, (k, v));
        lemma_phase_same(t, u, other);
    } else {
        let u = t.push((k, v));
        assert(u.drop_last() =~= t);
    }
}

/// Setting a phase to the value it reads changes nothing.
proof fn lemma_set_phase_same(t: Seq<(Seq<char>, u64)>, k: Seq<char>, v: u64)
    requires
        phase_value(t, k) == Some(v),
    ensures
        set_phase(t, k, v) == t,
{
    lemma_phase_value_some(t, k);
    let i0 = choose|i: int| first_phase_at(t, k, i) && t[i].1 == v;
    let i = choose|i: int| 0 <= i < t.len() && t[i].0 == k && forall|j: int| 0 <= j < i ==> t[j].0 != k;
    assert(first_phase_at(t, k, i0));
    lemma_first_phase_unique(t, k, i, i0);
    assert(t.update(i, (k, v)) =~= t);
}

/// Simulated timings: routing 2 ms, ReedBase 8 ms, rendering 32 ms, and a
/// total of 42 ms that is the sum of the three; every other phase keeps
/// its timing; simulating twice gives what simulating once gives.
pub proof fn lemma_simulated_timing(t: Seq<(Seq<char>, u64)>)
    ensures
        phase_value(simulated_timing(t), "routing"@) == Some(2000u64),
        phase_value(simulated_timing(t), "reedbase"@) == Some(8000u64),
        phase_value(simulated_timing(t), "rendering"@) == Some(32000u64),
        phase_value(simulated_timing(t), "total"@) == Some(42000u64),
        42000u64 == 2000u64 + 8000u64 + 32000u64,
        forall|k: Seq<char>| k != "routing"@ && k != "reedbase"@ && k != "rendering"@ && k != "total"@ ==> #[trigger] phase_value(simulated_timing(t), k) == phase_value(t, k),
        simulated_timing(simulated_timing(t)) == simulated_timing(t),
{
    reveal_strlit("routing");
    reveal_strlit("reedbase");
    reveal_strlit("rendering");
    reveal_strlit("total");
    let (ro, re, rn, to) = ("routing"@, "reedbase"@, "rendering"@, "total"@);
    assert(ro.len() == 7 && re.len() == 8 && rn.len() == 9 && to.len() == 5);
    assert(ro != re && ro != rn && ro != to && re != rn && re != to && rn != to);
    let t1 = set_phase(t, ro, 2000);
    let t2 = set_phase(t1, re, 8000);
    let t3 = set_phase(t2, rn, 32000);
    let t4 = set_phase(t3, to, 42000);
    lemma_set_phase_reads(t, ro, 2000);
    lemma_set_phase_keeps(t1, re, 8000, ro);
    lemma_set_phase_keeps(t2, rn, 32000, ro);
    lemma_set_phase_keeps(t3, to, 42000, ro);
    lemma_set_phase_reads(t1, re, 8000);
    lemma_set_phase_keeps(t2, rn, 32000, re);
    lemma_set_phase_keeps(t3, to, 42000, re);
    lemma_set_phase_reads(t2, rn, 32000);
    lemma_set_phase_keeps(t3, to, 42000, rn);
    lemma_set_phase_reads(t3, to, 42000);
    assert forall|k: Seq<char>| k != ro && k != re && k != rn && k != to implies #[trigger] phase_value(t4, k)
        == phase_value(t, k) by {
        lemma_set_phase_keeps(t, ro, 2000, k);
        lemma_set_phase_keeps(t1, re, 8000, k);
        lemma_set_phase_keeps(t2, rn, 32000, k);
        lemma_set_phase_keeps(t3, to, 42000, k);
    }
    lemma_set_phase_same(t4, ro, 2000);
    lemma_set_phase_same(t4, re, 8000);
    lemma_set_phase_same(t4, rn, 32000);
    lemma_set_phase_same(t4, to, 42000);
}

/// Simulating from no timings gives the four phases, in order.
proof fn lemma_simulated_from_empty()
    ensures
        simulated_timing(Seq::empty()) == seq![
            ("routing"@, 2000u64),
            ("reedbase"@, 8000u64),
            ("rendering"@, 32000u64),
            ("total"@, 42000u64),
        ],
{
    reveal_strlit("routing");
    reveal_strlit("reedbase");
    reveal_strlit("rendering");
    reveal_strlit("total");
    let (ro, re, rn, to) = ("routing"@, "reedbase"@, "rendering"@, "total"@);
    assert(ro.len() == 7 && re.len() == 8 && rn.len() == 9 && to.len() == 5);
    let e = Seq::<(Seq<char>, u64)>::empty();
    let t1 = e.push((ro, 2000u64));
    assert(set_phase(e, ro, 2000) == t1);
    let t2 = t1.push((re, 8000u64));
    assert(!(exists|i: int| 0 <= i < t1.len() && t1[i].0 == re));
    assert(set_phase(t1, re, 8000) == t2);
    let t3 = t2.push((rn, 32000u64));
    assert(!(exists|i: int| 0 <= i < t2.len() && t2[i].0 == rn));
    assert(set_phase(t2, rn, 32000) == t3);
    let t4 = t3.push((to, 42000u64));
    assert(!(exists|i: int| 0 <= i < t3.len() && t3[i].0 == to));
    assert(set_phase(t3, to, 42000) == t4);
    assert(t4 =~= seq![(ro, 2000u64), (re, 8000u64), (rn, 32000u64), (to, 42000u64)]);
}

/// Inspects a request for `url` with simulated timings.
pub fn inspect_request(url: &str) -> (r: RequestInspection)
    ensures
        r.url@ == url@,
        r.method@ == "GET"@,
        r.status == 200,
        r.headers.wf(),
        r.headers.entries() == default_headers(),
        r.response_headers.wf(),
        r.response_headers.entries() == default_response_headers(),
        timing_view(r.timing@) == simulated_timing(Seq::empty()),
        timing_view(r.timing@) == seq![
            ("routing"@, 2000u64),
            ("reedbase"@, 8000u64),
            ("rendering"@, 32000u64),
            ("total"@, 42000u64),
        ],
{
    proof {
        lemma_simulated_from_empty();
    }
    let mut inspection = RequestInspection::new(url);
    assert(timing_view(inspection.timing@) =~= Seq::<(Seq<char>, u64)>::empty());
    inspection.simulate_timing();
    inspection
}

} // verus!
