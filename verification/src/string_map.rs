//! An insertion-ordered map from strings to strings.
//!
//! Command flags, layout routes and the asset manifest are string-keyed
//! maps. This type keeps its entries in insertion order, with every key at
//! most once, so lookups and listings are deterministic.
use vstd::prelude::*;
use crate::text::{copy_string, str_eq};

verus! {

/// The entries of a map as character sequences.
pub open spec fn entries_view(v: Seq<(String, String)>) -> Seq<(Seq<char>, Seq<char>)> {
    v.map_values(|p: (String, String)| (p.0@, p.1@))
}

/// No key occurs twice.
pub open spec fn keys_unique(s: Seq<(Seq<char>, Seq<char>)>) -> bool {
    forall|i: int, j: int| 0 <= i < j < s.len() ==> s[i].0 != s[j].0
}

/// The value stored under `k`, looking from the newest entry back.
pub open spec fn find_key(s: Seq<(Seq<char>, Seq<char>)>, k: Seq<char>) -> Option<Seq<char>>
    decreases s.len(),
{
    if s.len() == 0 {
        None
    } else if s.last().0 == k {
        Some(s.last().1)
    } else {
        find_key(s.drop_last(), k)
    }
}

/// Looking up after appending an entry.
pub proof fn lemma_find_key_push(s: Seq<(Seq<char>, Seq<char>)>, x: (Seq<char>, Seq<char>), k: Seq<char>)
    ensures
        find_key(s.push(x), k) == (if x.0 == k { Some(x.1) } else { find_key(s, k) }),
{
    assert(s.push(x).drop_last() =~= s);
}

/// With unique keys, the entry at `i` is what `find_key` gives for its key.
pub proof fn lemma_find_key_at(s: Seq<(Seq<char>, Seq<char>)>, i: int)
    requires
        keys_unique(s),
        0 <= i < s.len(),
    ensures
        find_key(s, s[i].0) == Some(s[i].1),
    decreases s.len(),
{
    if i < s.len() - 1 {
        assert(s.last() == s[s.len() - 1]);
        assert(keys_unique(s.drop_last()));
        lemma_find_key_at(s.drop_last(), i);
    }
}

/// A key that no entry holds is not found.
pub proof fn lemma_find_key_absent(s: Seq<(Seq<char>, Seq<char>)>, k: Seq<char>)
    requires
        forall|i: int| 0 <= i < s.len() ==> s[i].0 != k,
    ensures
        find_key(s, k) is None,
    decreases s.len(),
{
    if s.len() > 0 {
        assert(s.last() == s[s.len() - 1]);
        lemma_find_key_absent(s.drop_last(), k);
    }
}

/// Whether some entry holds `k`.
pub open spec fn has_key(s: Seq<(Seq<char>, Seq<char>)>, k: Seq<char>) -> bool {
    exists|i: int| 0 <= i < s.len() && s[i].0 == k
}

pub proof fn lemma_find_key_some(s: Seq<(Seq<char>, Seq<char>)>, k: Seq<char>)
    requires
        keys_unique(s),
    ensures
        (find_key(s, k) is Some) <==> has_key(s, k),
{
    if has_key(s, k) {
        let i = choose|i: int| 0 <= i < s.len() && s[i].0 == k;
        lemma_find_key_at(s, i);
    } else {
        lemma_find_key_absent(s, k);
    }
}

/// A string-to-string map that keeps insertion order.
#[derive(Debug, Clone, PartialEq, Eq)]
pub struct StringMap {
    pairs: Vec<(String, String)>,
}

impl StringMap {
    /// The entries, oldest first.
    pub closed spec fn entries(&self) -> Seq<(Seq<char>, Seq<char>)> {
        entries_view(self.pairs@)
    }

    /// The value stored under `k`.
    pub open spec fn lookup(&self, k: Seq<char>) -> Option<Seq<char>> {
        find_key(self.entries(), k)
    }

    /// Well-formedness: no key occurs twice.
    pub closed spec fn wf(&self) -> bool {
        keys_unique(self.entries())
    }

    /// An empty map.
    pub fn new() -> (r: StringMap)
        ensures
            r.wf(),
            r.entries() == Seq::<(Seq<char>, Seq<char>)>::empty(),
            forall|k: Seq<char>| r.lookup(k) is None,
    {
        let r = StringMap { pairs: Vec::new() };
        assert(r.entries() =~= Seq::<(Seq<char>, Seq<char>)>::empty());
        r
    }

    /// Number of entries.
    pub fn len(&self) -> (r: usize)
        ensures
            r == self.entries().len(),
    {
        self.pairs.len()
    }

    /// Whether the map has no entry.
    pub fn is_empty(&self) -> (r: bool)
        ensures
            r == (self.entries().len() == 0),
    {
        self.pairs.len() == 0
    }

    /// Position of the entry holding `k`.
    fn position(&self, k: &str) -> (r: Option<usize>)
        requires
            self.wf(),
        ensures
            match r {
                Some(i) => i < self.entries().len() && self.entries()[i as int].0 == k@,
                None => !has_key(self.entries(), k@),
            },
    {
        let mut i: usize = 0;
        while i < self.pairs.len()
            invariant
                i <= self.pairs@.len(),
                self.entries() == entries_view(self.pairs@),
                forall|j: int| 0 <= j < i ==> self.entries()[j].0 != k@,
            decreases self.pairs.len() - i,
        {
            if str_eq(self.pairs[i].0.as_str(), k) {
                return Some(i);
            }
            i += 1;
        }
        None
    }

    /// The value stored under `k` (`HashMap::get`).
    pub fn get(&self, k: &str) -> (r: Option<&String>)
        requires
            self.wf(),
        ensures
            match r {
                Some(v) => self.lookup(k@) == Some(v@),
                None => self.lookup(k@) is None,
            },
    {
        proof {
            lemma_find_key_some(self.entries(), k@);
        }
        match self.position(k) {
            Some(i) => {
                proof {
                    lemma_find_key_at(self.entries(), i as int);
                }
                Some(&self.pairs[i].1)
            },
            None => None,
        }
    }

    /// Whether `k` is stored (`HashMap::contains_key`).
    pub fn contains_key(&self, k: &str) -> (r: bool)
        requires
            self.wf(),
        ensures
            r == (self.lookup(k@) is Some),
    {
        proof {
            lemma_find_key_some(self.entries(), k@);
        }
        self.position(k).is_some()
    }

    /// Stores `v` under `k`, replacing and returning an earlier value
    /// (`HashMap::insert`). A new key goes after the existing entries.
    pub fn insert(&mut self, k: String, v: String) -> (r: Option<String>)
        requires
            old(self).wf(),
        ensures
            final(self).wf(),
            final(self).lookup(k@) == Some(v@),
            forall|x: Seq<char>| x != k@ ==> final(self).lookup(x) == old(self).lookup(x),
            match r {
                Some(p) => old(self).lookup(k@) == Some(p@),
                None => old(self).lookup(k@) is None,
            },
            old(self).lookup(k@) is Some ==> final(self).entries().len() == old(self).entries().len(),
            old(self).lookup(k@) is None ==> final(self).entries() == old(self).entries().push((k@, v@)),
    {
        proof {
            lemma_find_key_some(self.entries(), k@);
        }
        let ghost old_entries = self.entries();
        match self.position(k.as_str()) {
            Some(i) => {
                proof {
                    lemma_find_key_at(old_entries, i as int);
                }
                let key_copy = copy_string(&self.pairs[i].0);
                let prev = copy_string(&self.pairs[i].1);
                self.pairs.set(i, (key_copy, v));
                let ghost new_entries = self.entries();
                assert(new_entries =~= old_entries.update(i as int, (k@, v@)));
                assert(keys_unique(new_entries));
                proof {
                    lemma_find_key_at(new_entries, i as int);
                    assert forall|x: Seq<char>| x != k@ implies find_key(new_entries, x) == find_key(old_entries, x) by {
                        lemma_find_key_some(new_entries, x);
                        lemma_find_key_some(old_entries, x);
                        if has_key(old_entries, x) {
                            let j = choose|j: int| 0 <= j < old_entries.len() && old_entries[j].0 == x;
                            lemma_find_key_at(old_entries, j);
                            assert(new_entries[j] == old_entries[j]);
                            lemma_find_key_at(new_entries, j);
                        } else {
                            if has_key(new_entries, x) {
                                let j = choose|j: int| 0 <= j < new_entries.len() && new_entries[j].0 == x;
                                assert(j != i);
                                assert(old_entries[j] == new_entries[j]);
                            }
                        }
                    }
                }
                Some(prev)
            },
            None => {
                let ghost kv = k@;
                let ghost vv = v@;
                self.pairs.push((k, v));
                let ghost new_entries = self.entries();
                assert(new_entries =~= old_entries.push((kv, vv)));
                assert(keys_unique(new_entries));
                assert(new_entries.drop_last() =~= old_entries);
                None
            },
        }
    }

    /// A copy of the map with the same entries.
    pub fn duplicate(&self) -> (r: StringMap)
        requires
            self.wf(),
        ensures
            r.wf(),
            r.entries() == self.entries(),
    {
        let mut pairs: Vec<(String, String)> = Vec::new();
        let mut i: usize = 0;
        while i < self.pairs.len()
            invariant
                i <= self.pairs@.len(),
                entries_view(pairs@) == entries_view(self.pairs@).take(i as int),
            decreases self.pairs.len() - i,
        {
            let k = copy_string(&self.pairs[i].0);
            let v = copy_string(&self.pairs[i].1);
            let ghost before = pairs@;
            let ghost kk = k@;
            let ghost vv = v@;
            pairs.push((k, v));
            assert(entries_view(pairs@) =~= entries_view(before).push((kk, vv)));
            assert(entries_view(self.pairs@)[i as int] == (kk, vv));
            assert(entries_view(pairs@) =~= entries_view(self.pairs@).take(i + 1));
            i += 1;
        }
        assert(entries_view(self.pairs@).take(i as int) =~= entries_view(self.pairs@));
        StringMap { pairs }
    }

    /// The key and value of entry `i` (insertion order).
    pub fn entry(&self, i: usize) -> (r: (&String, &String))
        requires
            i < self.entries().len(),
        ensures
            r.0@ == self.entries()[i as int].0,
            r.1@ == self.entries()[i as int].1,
    {
        (&self.pairs[i].0, &self.pairs[i].1)
    }
}

} // verus!
