//! Character-level string helpers shared by the parsers and formatters.
//!
//! Strings are modelled by their view, a `Seq<char>`. Parsing works on a
//! `Vec<char>` copy of the input so that positions are plain indices.
use vstd::prelude::*;
use vstd::std_specs::iter::IteratorSpec;

verus! {

/// The characters of a string slice, in order.
pub fn to_chars(s: &str) -> (r: Vec<char>)
    ensures
        r@ == s@,
{
    broadcast use vstd::string::group_string_axioms;
    let mut r: Vec<char> = Vec::new();
    let mut it = s.chars();
    loop
        invariant
            r@ + it.remaining() == s@,
            it.obeys_prophetic_iter_laws(),
            it.decrease() is Some,
        ensures
            r@ == s@,
        decreases it.decrease()->0,
    {
        let ghost before = it.remaining();
        match it.next() {
            Some(c) => {
                r.push(c);
                assert(r@ + it.remaining() =~= s@) by {
                    assert(before =~= seq![c] + it.remaining());
                }
            },
            None => {
                assert(r@ =~= s@);
                break;
            },
        }
    }
    r
}


/// Appends one character to a string (`String::push`).
///
/// Trusted: std documents that `push` appends the given `char` to the end
/// of the string; the contract states exactly that over the views.
#[verifier::external_body]
pub(crate) fn push_char(s: &mut String, c: char)
    ensures
        final(s)@ == old(s)@.push(c),
{
    s.push(c);
}

/// Appends `v[lo..hi]` to `s`.
pub fn push_chars(s: &mut String, v: &[char], lo: usize, hi: usize)
    requires
        lo <= hi <= v@.len(),
    ensures
        final(s)@ == old(s)@ + v@.subrange(lo as int, hi as int),
{
    let mut i = lo;
    while i < hi
        invariant
            lo <= i <= hi,
            hi <= v@.len(),
            s@ == old(s)@ + v@.subrange(lo as int, i as int),
        decreases hi - i,
    {
        push_char(s, v[i]);
        assert(v@.subrange(lo as int, i + 1) =~= v@.subrange(lo as int, i as int).push(v@[i as int]));
        i += 1;
    }
}

/// A new string holding `v[lo..hi]`.
pub fn chars_to_string(v: &[char], lo: usize, hi: usize) -> (r: String)
    requires
        lo <= hi <= v@.len(),
    ensures
        r@ == v@.subrange(lo as int, hi as int),
{
    let mut r = String::new();
    push_chars(&mut r, v, lo, hi);
    assert(r@ =~= v@.subrange(lo as int, hi as int));
    r
}

/// A new string with the same characters as `s`.
pub fn str_to_string(s: &str) -> (r: String)
    ensures
        r@ == s@,
{
    s.to_owned()
}

/// A copy of a string.
pub fn copy_string(s: &String) -> (r: String)
    ensures
        r@ == s@,
{
    s.clone()
}

/// Appends `t` to `s`.
pub fn push_str(s: &mut String, t: &str)
    ensures
        final(s)@ == old(s)@ + t@,
{
    s.append(t);
}

/// Whether two strings have the same characters.
pub fn str_eq(a: &str, b: &str) -> (r: bool)
    ensures
        r == (a@ == b@),
{
    let va = to_chars(a);
    let vb = to_chars(b);
    chars_eq(&va, &vb)
}

/// Whether two character vectors are equal.
pub fn chars_eq(a: &Vec<char>, b: &Vec<char>) -> (r: bool)
    ensures
        r == (a@ == b@),
{
    if a.len() != b.len() {
        return false;
    }
    let mut i: usize = 0;
    while i < a.len()
        invariant
            i <= a@.len(),
            a@.len() == b@.len(),
            forall|k: int| 0 <= k < i ==> a@[k] == b@[k],
        decreases a.len() - i,
    {
        if a[i] != b[i] {
            return false;
        }
        i += 1;
    }
    assert(a@ =~= b@);
    true
}

// ---------------------------------------------------------------------------
// Character classes
// ---------------------------------------------------------------------------

/// Unicode `White_Space`, the class that `char::is_whitespace` and
/// `str::trim` use.
pub open spec fn is_ws(c: char) -> bool {
    ||| ('\u{9}' <= c && c <= '\u{d}')
    ||| c == ' '
    ||| c == '\u{85}'
    ||| c == '\u{a0}'
    ||| c == '\u{1680}'
    ||| ('\u{2000}' <= c && c <= '\u{200a}')
    ||| c == '\u{2028}'
    ||| c == '\u{2029}'
    ||| c == '\u{202f}'
    ||| c == '\u{205f}'
    ||| c == '\u{3000}'
}

/// Whether `c` is Unicode white space.
pub fn char_is_ws(c: char) -> (r: bool)
    ensures
        r == is_ws(c),
{
    ('\u{9}' <= c && c <= '\u{d}') || c == ' ' || c == '\u{85}' || c == '\u{a0}' || c == '\u{1680}'
        || ('\u{2000}' <= c && c <= '\u{200a}') || c == '\u{2028}' || c == '\u{2029}' || c
        == '\u{202f}' || c == '\u{205f}' || c == '\u{3000}'
}

pub open spec fn is_ascii_char(c: char) -> bool {
    c <= '\x7f'
}

pub open spec fn is_ascii_digit(c: char) -> bool {
    '0' <= c && c <= '9'
}

pub open spec fn is_ascii_lower(c: char) -> bool {
    'a' <= c && c <= 'z'
}

pub open spec fn is_ascii_upper(c: char) -> bool {
    'A' <= c && c <= 'Z'
}

pub open spec fn is_ascii_alpha(c: char) -> bool {
    is_ascii_lower(c) || is_ascii_upper(c)
}

pub open spec fn is_ascii_alnum(c: char) -> bool {
    is_ascii_alpha(c) || is_ascii_digit(c)
}

pub open spec fn is_ascii_hex(c: char) -> bool {
    is_ascii_digit(c) || ('a' <= c && c <= 'f') || ('A' <= c && c <= 'F')
}

pub fn char_is_ascii_digit(c: char) -> (r: bool)
    ensures
        r == is_ascii_digit(c),
{
    '0' <= c && c <= '9'
}

pub fn char_is_ascii_alpha(c: char) -> (r: bool)
    ensures
        r == is_ascii_alpha(c),
{
    ('a' <= c && c <= 'z') || ('A' <= c && c <= 'Z')
}

pub fn char_is_ascii_alnum(c: char) -> (r: bool)
    ensures
        r == is_ascii_alnum(c),
{
    ('a' <= c && c <= 'z') || ('A' <= c && c <= 'Z') || ('0' <= c && c <= '9')
}

pub fn char_is_ascii_hex(c: char) -> (r: bool)
    ensures
        r == is_ascii_hex(c),
{
    ('0' <= c && c <= '9') || ('a' <= c && c <= 'f') || ('A' <= c && c <= 'F')
}

/// What `char::is_alphanumeric` answers for `c` (Unicode `Alphabetic` or
/// `Numeric`).
pub uninterp spec fn unicode_alphanumeric(c: char) -> bool;

/// `char::is_alphanumeric` from std.
///
/// Trusted: the result is named `unicode_alphanumeric(c)`, a function of `c`
/// alone; for ASCII characters std documents that exactly the letters and
/// digits are alphanumeric. Nothing else is claimed about other characters.
#[verifier::external_body]
pub(crate) fn char_is_alphanumeric(c: char) -> (r: bool)
    ensures
        r == unicode_alphanumeric(c),
        is_ascii_char(c) ==> (r <==> is_ascii_alnum(c)),
{
    c.is_alphanumeric()
}

/// Lower-cases an ASCII letter; other characters are unchanged.
pub open spec fn ascii_lower(c: char) -> char {
    if is_ascii_upper(c) {
        ((c as u32) + 32) as char
    } else {
        c
    }
}

// ---------------------------------------------------------------------------
// Trimming
// ---------------------------------------------------------------------------

pub open spec fn trim_left(s: Seq<char>) -> Seq<char>
    decreases s.len(),
{
    if s.len() > 0 && is_ws(s[0]) {
        trim_left(s.drop_first())
    } else {
        s
    }
}

pub open spec fn trim_right(s: Seq<char>) -> Seq<char>
    decreases s.len(),
{
    if s.len() > 0 && is_ws(s.last()) {
        trim_right(s.drop_last())
    } else {
        s
    }
}

/// `str::trim`: white space removed at both ends.
pub open spec fn trim(s: Seq<char>) -> Seq<char> {
    trim_right(trim_left(s))
}

/// A sequence that `trim` leaves as it is.
pub open spec fn is_trimmed(s: Seq<char>) -> bool {
    s.len() == 0 || (!is_ws(s[0]) && !is_ws(s.last()))
}

pub proof fn lemma_trim_trimmed(s: Seq<char>)
    requires
        is_trimmed(s),
    ensures
        trim(s) == s,
{
}

pub proof fn lemma_trim_is_trimmed(s: Seq<char>)
    ensures
        is_trimmed(trim(s)),
    decreases s.len(),
{
    lemma_trim_left_shape(s);
    lemma_trim_right_shape(trim_left(s));
}

proof fn lemma_trim_left_shape(s: Seq<char>)
    ensures
        trim_left(s).len() == 0 || !is_ws(trim_left(s)[0]),
        trim_left(s).len() <= s.len(),
        exists|k: int| 0 <= k <= s.len() && trim_left(s) == s.subrange(k, s.len() as int),
    decreases s.len(),
{
    if s.len() > 0 && is_ws(s[0]) {
        lemma_trim_left_shape(s.drop_first());
        let k = choose|k: int| 0 <= k <= s.drop_first().len() && trim_left(s.drop_first()) == s.drop_first().subrange(k, s.drop_first().len() as int);
        assert(s.drop_first().subrange(k, s.drop_first().len() as int) =~= s.subrange(k + 1, s.len() as int));
    } else {
        assert(s.subrange(0, s.len() as int) =~= s);
    }
}

proof fn lemma_trim_right_shape(s: Seq<char>)
    ensures
        trim_right(s).len() == 0 || !is_ws(trim_right(s).last()),
        trim_right(s).len() <= s.len(),
        trim_right(s).len() > 0 ==> trim_right(s)[0] == s[0],
    decreases s.len(),
{
    if s.len() > 0 && is_ws(s.last()) {
        lemma_trim_right_shape(s.drop_last());
    }
}

/// Bounds `(a, b)` with `v[a..b] == trim(v[lo..hi])`.
pub fn trim_bounds(v: &Vec<char>, lo: usize, hi: usize) -> (r: (usize, usize))
    requires
        lo <= hi <= v@.len(),
    ensures
        lo <= r.0 <= r.1 <= hi,
        v@.subrange(r.0 as int, r.1 as int) == trim(v@.subrange(lo as int, hi as int)),
{
    let mut a = lo;
    while a < hi && char_is_ws(v[a])
        invariant
            lo <= a <= hi,
            hi <= v@.len(),
            trim_left(v@.subrange(lo as int, hi as int)) == trim_left(v@.subrange(a as int, hi as int)),
        decreases hi - a,
    {
        assert(v@.subrange(a as int, hi as int).drop_first() =~= v@.subrange(a + 1, hi as int));
        a += 1;
    }
    assert(trim_left(v@.subrange(a as int, hi as int)) == v@.subrange(a as int, hi as int));
    let mut b = hi;
    while b > a && char_is_ws(v[b - 1])
        invariant
            lo <= a <= b <= hi,
            hi <= v@.len(),
            trim_right(v@.subrange(a as int, hi as int)) == trim_right(v@.subrange(a as int, b as int)),
        decreases b - a,
    {
        assert(v@.subrange(a as int, b as int).drop_last() =~= v@.subrange(a as int, b - 1));
        b -= 1;
    }
    (a, b)
}

/// `str::trim` as a new string.
pub fn trim_string(s: &str) -> (r: String)
    ensures
        r@ == trim(s@),
{
    let v = to_chars(s);
    let (a, b) = trim_bounds(&v, 0, v.len());
    assert(v@.subrange(0, v@.len() as int) =~= v@);
    chars_to_string(&v, a, b)
}


// ---------------------------------------------------------------------------
// Splitting
// ---------------------------------------------------------------------------

/// `str::split` on one separator character: the pieces between separators,
/// always at least one.
pub open spec fn split_on(s: Seq<char>, sep: char) -> Seq<Seq<char>>
    decreases s.len(),
{
    if s.len() == 0 {
        seq![Seq::<char>::empty()]
    } else {
        let r = split_on(s.drop_last(), sep);
        if s.last() == sep {
            r.push(Seq::<char>::empty())
        } else {
            r.update(r.len() - 1, r.last().push(s.last()))
        }
    }
}

pub proof fn lemma_split_nonempty(s: Seq<char>, sep: char)
    ensures
        split_on(s, sep).len() >= 1,
    decreases s.len(),
{
    if s.len() > 0 {
        lemma_split_nonempty(s.drop_last(), sep);
    }
}

/// A sequence without the separator splits into itself alone.
pub proof fn lemma_split_no_sep(s: Seq<char>, sep: char)
    requires
        !s.contains(sep),
    ensures
        split_on(s, sep) == seq![s],
    decreases s.len(),
{
    if s.len() > 0 {
        assert(!s.drop_last().contains(sep)) by {
            if s.drop_last().contains(sep) {
                let k = choose|k: int| 0 <= k < s.drop_last().len() && s.drop_last()[k] == sep;
                assert(s[k] == sep);
            }
        }
        lemma_split_no_sep(s.drop_last(), sep);
        assert(s.last() != sep) by {
            assert(s[s.len() - 1] == s.last());
        }
        let r = split_on(s.drop_last(), sep);
        assert(r.len() == 1 && r.last() == s.drop_last());
        assert(s.drop_last().push(s.last()) =~= s);
        assert(r.update(0, s.drop_last().push(s.last())) =~= seq![s]);
    } else {
        assert(s =~= Seq::<char>::empty());
    }
}

/// Splitting `a + [sep] + b` where `b` holds no separator.
pub proof fn lemma_split_append_piece(a: Seq<char>, sep: char, b: Seq<char>)
    requires
        !b.contains(sep),
    ensures
        split_on(a + seq![sep] + b, sep) == split_on(a, sep).push(b),
    decreases b.len(),
{
    lemma_split_nonempty(a, sep);
    if b.len() == 0 {
        assert((a + seq![sep] + b).drop_last() =~= a);
        assert((a + seq![sep] + b).last() == sep);
        assert(a + seq![sep] + b =~= a.push(sep));
        assert(b =~= Seq::<char>::empty());
    } else {
        let s = a + seq![sep] + b;
        assert(!b.drop_last().contains(sep)) by {
            if b.drop_last().contains(sep) {
                let k = choose|k: int| 0 <= k < b.drop_last().len() && b.drop_last()[k] == sep;
                assert(b[k] == sep);
            }
        }
        lemma_split_append_piece(a, sep, b.drop_last());
        assert(s.drop_last() =~= a + seq![sep] + b.drop_last());
        assert(s.last() == b.last());
        assert(b.last() != sep) by {
            assert(b[b.len() - 1] == b.last());
        }
        assert(b.drop_last().push(b.last()) =~= b);
        let r = split_on(s.drop_last(), sep);
        assert(r == split_on(a, sep).push(b.drop_last()));
        assert(r.len() - 1 == split_on(a, sep).len());
        assert(r.last() == b.drop_last());
        assert(split_on(s, sep) == r.update(r.len() - 1, r.last().push(s.last())));
        assert(split_on(a, sep).push(b.drop_last()).update(split_on(a, sep).len() as int, b) =~= split_on(a, sep).push(b));
    }
}

/// End of piece `k` when pieces start at `starts` and the input has `n` chars.
pub open spec fn piece_end(starts: Seq<usize>, k: int, n: int) -> int {
    if k + 1 < starts.len() {
        starts[k + 1] - 1
    } else {
        n
    }
}

/// `starts` are the start positions of the pieces of `split_on(v.take(i))`.
pub open spec fn starts_match(v: Seq<char>, sep: char, starts: Seq<usize>, i: int) -> bool {
    &&& starts.len() == split_on(v.take(i), sep).len()
    &&& starts.len() >= 1
    &&& starts[0] == 0
    &&& forall|k: int| #![trigger starts[k]]
        0 <= k < starts.len() ==> {
            &&& starts[k] <= piece_end(starts, k, i) <= i
            &&& split_on(v.take(i), sep)[k] == v.subrange(starts[k] as int, piece_end(starts, k, i))
            &&& (k + 1 < starts.len() ==> v[starts[k + 1] - 1] == sep)
        }
    &&& forall|k: int, j: int| 0 <= k < j < starts.len() ==> starts[k] < starts[j]
}

proof fn lemma_starts_step_sep(v: Seq<char>, sep: char, starts: Seq<usize>, i: int)
    requires
        0 <= i < v.len(),
        v.len() <= usize::MAX,
        v[i] == sep,
        starts_match(v, sep, starts, i),
    ensures
        starts_match(v, sep, starts.push((i + 1) as usize), i + 1),
{
    let prev = split_on(v.take(i), sep);
    lemma_split_nonempty(v.take(i), sep);
    assert(v.take(i + 1).drop_last() =~= v.take(i));
    assert(v.take(i + 1).last() == v[i]);
    assert(split_on(v.take(i + 1), sep) == prev.push(Seq::<char>::empty()));
    let ns = starts.push((i + 1) as usize);
    assert forall|k: int| #![trigger ns[k]]
        0 <= k < ns.len() implies {
            &&& ns[k] <= piece_end(ns, k, i + 1) <= i + 1
            &&& split_on(v.take(i + 1), sep)[k] == v.subrange(ns[k] as int, piece_end(ns, k, i + 1))
            &&& (k + 1 < ns.len() ==> v[ns[k + 1] - 1] == sep)
        } by {
        if k + 1 < starts.len() {
            assert(ns[k] == starts[k]);
            assert(ns[k + 1] == starts[k + 1]);
            assert(starts[k] <= piece_end(starts, k, i));
        } else if k + 1 == starts.len() {
            assert(ns[k] == starts[k]);
            assert(piece_end(starts, k, i) == i);
            assert(starts[k] <= piece_end(starts, k, i));
        } else {
            assert(v.subrange(i + 1, i + 1) =~= Seq::<char>::empty());
        }
    }
    assert forall|k: int, j: int| 0 <= k < j < ns.len() implies ns[k] < ns[j] by {
        if j < starts.len() {
        } else {
            assert(starts[k] <= piece_end(starts, k, i));
        }
    }
}

proof fn lemma_starts_step_other(v: Seq<char>, sep: char, starts: Seq<usize>, i: int)
    requires
        0 <= i < v.len(),
        v[i] != sep,
        starts_match(v, sep, starts, i),
    ensures
        starts_match(v, sep, starts, i + 1),
{
    let prev = split_on(v.take(i), sep);
    lemma_split_nonempty(v.take(i), sep);
    assert(v.take(i + 1).drop_last() =~= v.take(i));
    assert(v.take(i + 1).last() == v[i]);
    assert(split_on(v.take(i + 1), sep) == prev.update(prev.len() - 1, prev.last().push(v[i])));
    let last = starts.len() - 1;
    assert forall|k: int| #![trigger starts[k]]
        0 <= k < starts.len() implies {
            &&& starts[k] <= piece_end(starts, k, i + 1) <= i + 1
            &&& split_on(v.take(i + 1), sep)[k] == v.subrange(starts[k] as int, piece_end(starts, k, i + 1))
            &&& (k + 1 < starts.len() ==> v[starts[k + 1] - 1] == sep)
        } by {
        if k == last {
            assert(piece_end(starts, k, i) == i);
            assert(v.subrange(starts[k] as int, i + 1) =~= v.subrange(starts[k] as int, i).push(v[i]));
        } else {
            assert(piece_end(starts, k, i + 1) == piece_end(starts, k, i));
        }
    }
}

/// Start positions of the pieces that `split_on(v, sep)` gives.
pub fn split_starts(v: &Vec<char>, sep: char) -> (starts: Vec<usize>)
    ensures
        starts_match(v@, sep, starts@, v@.len() as int),
        v@.take(v@.len() as int) == v@,
        forall|k: int| 0 < k < starts@.len() ==> #[trigger] starts@[k] >= 1,
{
    let mut starts: Vec<usize> = Vec::new();
    starts.push(0);
    let mut i: usize = 0;
    assert(v@.take(0) =~= Seq::<char>::empty());
    assert(starts_match(v@, sep, starts@, 0));
    while i < v.len()
        invariant
            i <= v@.len(),
            starts_match(v@, sep, starts@, i as int),
        decreases v.len() - i,
    {
        if v[i] == sep {
            proof {
                lemma_starts_step_sep(v@, sep, starts@, i as int);
            }
            starts.push(i + 1);
        } else {
            proof {
                lemma_starts_step_other(v@, sep, starts@, i as int);
            }
        }
        i += 1;
    }
    assert(v@.take(v@.len() as int) =~= v@);
    assert forall|k: int| 0 < k < starts@.len() implies #[trigger] starts@[k] >= 1 by {
        assert(starts@[0] < starts@[k]);
    }
    starts
}

/// `str::split` on one character, as owned strings.
pub fn split_to_strings(s: &str, sep: char) -> (r: Vec<String>)
    ensures
        r@.len() == split_on(s@, sep).len(),
        forall|k: int| 0 <= k < r@.len() ==> #[trigger] r@[k]@ == split_on(s@, sep)[k],
{
    let v = to_chars(s);
    let starts = split_starts(&v, sep);
    let mut r: Vec<String> = Vec::new();
    let mut k: usize = 0;
    while k < starts.len()
        invariant
            v@ == s@,
            k <= starts@.len(),
            r@.len() == k,
            starts_match(v@, sep, starts@, v@.len() as int),
            v@.take(v@.len() as int) == v@,
            forall|j: int| 0 <= j < k ==> #[trigger] r@[j]@ == split_on(s@, sep)[j],
            forall|j: int| 0 < j < starts@.len() ==> #[trigger] starts@[j] >= 1,
        decreases starts.len() - k,
    {
        let end = if k + 1 < starts.len() {
            starts[k + 1] - 1
        } else {
            v.len()
        };
        assert(starts@[k as int] <= piece_end(starts@, k as int, v@.len() as int));
        let piece = chars_to_string(&v, starts[k], end);
        r.push(piece);
        k += 1;
    }
    r
}

// ---------------------------------------------------------------------------
// Prefixes, suffixes, search
// ---------------------------------------------------------------------------

pub open spec fn starts_with(s: Seq<char>, p: Seq<char>) -> bool {
    p.len() <= s.len() && s.subrange(0, p.len() as int) == p
}

pub open spec fn ends_with(s: Seq<char>, p: Seq<char>) -> bool {
    p.len() <= s.len() && s.subrange(s.len() - p.len(), s.len() as int) == p
}

/// `p` occurs in `s` starting at `i`.
pub open spec fn occurs_at(s: Seq<char>, p: Seq<char>, i: int) -> bool {
    0 <= i && i + p.len() <= s.len() && s.subrange(i, i + p.len()) == p
}

pub open spec fn contains_seq(s: Seq<char>, p: Seq<char>) -> bool {
    exists|i: int| occurs_at(s, p, i)
}

/// Whether `v[at..]` starts with `p`.
pub fn chars_occur_at(v: &Vec<char>, p: &Vec<char>, at: usize) -> (r: bool)
    ensures
        r == occurs_at(v@, p@, at as int),
{
    if at > v.len() || p.len() > v.len() - at {
        return false;
    }
    let vlen = v.len();
    let mut j: usize = 0;
    while j < p.len()
        invariant
            vlen == v@.len(),
            at + p@.len() <= v@.len(),
            j <= p@.len(),
            forall|k: int| 0 <= k < j ==> v@[at + k] == p@[k],
        decreases p.len() - j,
    {
        assert(at + j < v@.len());
        if v[at + j] != p[j] {
            assert(v@.subrange(at as int, at + p@.len())[j as int] != p@[j as int]);
            return false;
        }
        j += 1;
    }
    assert(v@.subrange(at as int, at + p@.len()) =~= p@);
    true
}

/// `str::starts_with`.
pub fn str_starts_with(s: &str, p: &str) -> (r: bool)
    ensures
        r == starts_with(s@, p@),
{
    let v = to_chars(s);
    let pv = to_chars(p);
    chars_occur_at(&v, &pv, 0)
}

/// `str::ends_with`.
pub fn str_ends_with(s: &str, p: &str) -> (r: bool)
    ensures
        r == ends_with(s@, p@),
{
    let v = to_chars(s);
    let pv = to_chars(p);
    if pv.len() > v.len() {
        return false;
    }
    chars_occur_at(&v, &pv, v.len() - pv.len())
}

/// First position where `p` occurs in `v`, if any (`str::find`).
pub fn chars_find(v: &Vec<char>, p: &Vec<char>) -> (r: Option<usize>)
    ensures
        match r {
            Some(i) => occurs_at(v@, p@, i as int) && forall|j: int| 0 <= j < i ==> !occurs_at(v@, p@, j),
            None => !contains_seq(v@, p@),
        },
{
    if p.len() > v.len() {
        assert forall|i: int| !occurs_at(v@, p@, i) by {}
        return None;
    }
    let limit = v.len() - p.len();
    let mut i: usize = 0;
    loop
        invariant
            p@.len() <= v@.len(),
            limit == v@.len() - p@.len(),
            i <= limit,
            forall|j: int| 0 <= j < i ==> !occurs_at(v@, p@, j),
        decreases limit - i,
    {
        if chars_occur_at(v, p, i) {
            return Some(i);
        }
        if i == limit {
            assert forall|j: int| !occurs_at(v@, p@, j) by {
                if 0 <= j < i {
                }
            }
            return None;
        }
        i += 1;
    }
}

/// `str::contains` for a string pattern.
pub fn str_contains(s: &str, p: &str) -> (r: bool)
    ensures
        r == contains_seq(s@, p@),
{
    let v = to_chars(s);
    let pv = to_chars(p);
    chars_find(&v, &pv).is_some()
}

/// Whether `c` occurs in `s`.
pub fn str_contains_char(s: &str, c: char) -> (r: bool)
    ensures
        r == s@.contains(c),
{
    let v = to_chars(s);
    let mut i: usize = 0;
    while i < v.len()
        invariant
            v@ == s@,
            i <= v@.len(),
            forall|k: int| 0 <= k < i ==> v@[k] != c,
        decreases v.len() - i,
    {
        if v[i] == c {
            return true;
        }
        i += 1;
    }
    false
}

// ---------------------------------------------------------------------------
// Decimal numbers
// ---------------------------------------------------------------------------

pub open spec fn digit_char(d: nat) -> char {
    if d == 0 { '0' }
    else if d == 1 { '1' }
    else if d == 2 { '2' }
    else if d == 3 { '3' }
    else if d == 4 { '4' }
    else if d == 5 { '5' }
    else if d == 6 { '6' }
    else if d == 7 { '7' }
    else if d == 8 { '8' }
    else { '9' }
}

/// Decimal digits of `n`, as `{}` prints an unsigned integer.
pub open spec fn decimal(n: nat) -> Seq<char>
    decreases n,
{
    if n < 10 {
        seq![digit_char(n)]
    } else {
        decimal(n / 10).push(digit_char(n % 10))
    }
}

fn digit(d: u64) -> (c: char)
    requires
        d < 10,
    ensures
        c == digit_char(d as nat),
{
    if d == 0 { '0' }
    else if d == 1 { '1' }
    else if d == 2 { '2' }
    else if d == 3 { '3' }
    else if d == 4 { '4' }
    else if d == 5 { '5' }
    else if d == 6 { '6' }
    else if d == 7 { '7' }
    else if d == 8 { '8' }
    else { '9' }
}

/// Appends the decimal digits of `n`.
pub fn push_u64(s: &mut String, n: u64)
    ensures
        final(s)@ == old(s)@ + decimal(n as nat),
{
    let mut acc: Vec<char> = Vec::new();
    let mut m = n;
    while m >= 10
        invariant
            decimal(n as nat) == decimal(m as nat) + acc@,
        decreases m,
    {
        let d = digit(m % 10);
        acc.insert(0, d);
        assert(decimal(m as nat) == decimal((m / 10) as nat).push(digit_char((m % 10) as nat)));
        assert(decimal((m / 10) as nat) + acc@ =~= decimal((m / 10) as nat).push(d) + old_acc_tail(acc@));
        m = m / 10;
    }
    let d = digit(m);
    acc.insert(0, d);
    assert(decimal(n as nat) =~= acc@);
    let len = acc.len();
    push_chars(s, acc.as_slice(), 0, len);
    assert(acc@.subrange(0, len as int) =~= acc@);
}

spec fn old_acc_tail(a: Seq<char>) -> Seq<char> {
    a.drop_first()
}

/// The decimal form of `n`.
pub fn u64_to_string(n: u64) -> (r: String)
    ensures
        r@ == decimal(n as nat),
{
    let mut r = String::new();
    push_u64(&mut r, n);
    assert(r@ =~= decimal(n as nat));
    r
}

/// Appends the decimal digits of `n`.
pub fn push_usize(s: &mut String, n: usize)
    ensures
        final(s)@ == old(s)@ + decimal(n as nat),
{
    push_u64(s, n as u64);
}

/// `"true"` or `"false"`, as `bool::to_string` gives.
pub open spec fn bool_text(b: bool) -> Seq<char> {
    if b { seq!['t', 'r', 'u', 'e'] } else { seq!['f', 'a', 'l', 's', 'e'] }
}

pub fn bool_to_string(b: bool) -> (r: String)
    ensures
        r@ == bool_text(b),
{
    let mut r = String::new();
    if b {
        push_char(&mut r, 't');
        push_char(&mut r, 'r');
        push_char(&mut r, 'u');
        push_char(&mut r, 'e');
    } else {
        push_char(&mut r, 'f');
        push_char(&mut r, 'a');
        push_char(&mut r, 'l');
        push_char(&mut r, 's');
        push_char(&mut r, 'e');
    }
    assert(r@ =~= bool_text(b));
    r
}


/// The length in bytes of the UTF-8 text, as `str::len` gives it.
pub open spec fn byte_len(s: Seq<char>) -> usize {
    vstd::utf8::encode_utf8(s).len() as usize
}

/// The length of `s` in bytes.
pub fn str_byte_len(s: &str) -> (r: usize)
    ensures
        r == byte_len(s@),
{
    s.len()
}

} // verus!
