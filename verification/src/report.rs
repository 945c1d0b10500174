//! Building blocks of the text reports that commands print.
use vstd::prelude::*;
use crate::cli::parser::strings_view;
use crate::text::{decimal, push_str, push_usize};

verus! {

/// `"  - item\n"` for every item, in order.
pub open spec fn bullets(items: Seq<Seq<char>>) -> Seq<char>
    decreases items.len(),
{
    if items.len() == 0 {
        Seq::empty()
    } else {
        bullets(items.drop_last()) + "  - "@ + items.last() + "\n"@
    }
}

/// `"  ... and N more\n"` when more than `shown` items exist.
pub open spec fn more_line(total: nat, shown: nat) -> Seq<char> {
    if total > shown {
        "  ... and "@ + decimal((total - shown) as nat) + " more\n"@
    } else {
        Seq::empty()
    }
}

/// The items joined by `sep`.
pub open spec fn join_seqs(items: Seq<Seq<char>>, sep: Seq<char>) -> Seq<char>
    decreases items.len(),
{
    if items.len() == 0 {
        Seq::empty()
    } else if items.len() == 1 {
        items[0]
    } else {
        join_seqs(items.drop_last(), sep) + sep + items.last()
    }
}

pub open spec fn min_nat(a: nat, b: nat) -> nat {
    if a <= b { a } else { b }
}

/// Appends a bullet line for each of the first `limit` items.
pub fn push_bullets(out: &mut String, items: &Vec<String>, limit: usize)
    ensures
        final(out)@ == old(out)@ + bullets(
            strings_view(items@).take(min_nat(items@.len(), limit as nat) as int),
        ),
{
    let n = if items.len() < limit { items.len() } else { limit };
    let ghost start = out@;
    let mut i: usize = 0;
    while i < n
        invariant
            n <= items@.len(),
            n == min_nat(items@.len(), limit as nat),
            i <= n,
            out@ == start + bullets(strings_view(items@).take(i as int)),
        decreases n - i,
    {
        push_str(out, "  - ");
        push_str(out, items[i].as_str());
        push_str(out, "\n");
        proof {
            let v = strings_view(items@);
            assert(v.take(i + 1).drop_last() =~= v.take(i as int));
            assert(v.take(i + 1).last() == items@[i as int]@);
        }
        i += 1;
    }
}

/// Appends `"  ... and N more\n"` when `total` exceeds `shown`.
pub fn push_more_line(out: &mut String, total: usize, shown: usize)
    ensures
        final(out)@ == old(out)@ + more_line(total as nat, shown as nat),
{
    if total > shown {
        push_str(out, "  ... and ");
        push_usize(out, total - shown);
        push_str(out, " more\n");
    }
}

/// The items joined by `sep`.
pub fn join_strings(items: &Vec<String>, sep: &str) -> (r: String)
    ensures
        r@ == join_seqs(strings_view(items@), sep@),
{
    let mut r = String::new();
    let mut i: usize = 0;
    while i < items.len()
        invariant
            i <= items@.len(),
            r@ == join_seqs(strings_view(items@).take(i as int), sep@),
        decreases items.len() - i,
    {
        let ghost v = strings_view(items@);
        if i > 0 {
            push_str(&mut r, sep);
        }
        push_str(&mut r, items[i].as_str());
        proof {
            assert(v.take(i + 1).drop_last() =~= v.take(i as int));
            if i == 0 {
                assert(r@ =~= v.take(1)[0]);
            }
        }
        i += 1;
    }
    proof {
        assert(strings_view(items@).take(i as int) =~= strings_view(items@));
    }
    r
}


/// One check of a report: `ok` when nothing was found, else `head`, the
/// number of findings, `tail`, and bullet lines for the first `limit`
/// findings (followed by a "more" line when `with_more`).
pub open spec fn check_section(
    items: Seq<Seq<char>>,
    ok: Seq<char>,
    head: Seq<char>,
    tail: Seq<char>,
    limit: nat,
    with_more: bool,
) -> Seq<char> {
    if items.len() == 0 {
        ok
    } else {
        head + decimal(items.len()) + tail + bullets(items.take(min_nat(items.len(), limit) as int))
            + if with_more { more_line(items.len(), limit) } else { Seq::empty() }
    }
}

/// Appends one check of a report (see `check_section`).
pub fn push_check_section(
    out: &mut String,
    items: &Vec<String>,
    ok: &str,
    head: &str,
    tail: &str,
    limit: usize,
    with_more: bool,
)
    ensures
        final(out)@ == old(out)@ + check_section(
            strings_view(items@),
            ok@,
            head@,
            tail@,
            limit as nat,
            with_more,
        ),
{
    let ghost start = out@;
    if items.len() == 0 {
        push_str(out, ok);
    } else {
        push_str(out, head);
        push_usize(out, items.len());
        push_str(out, tail);
        push_bullets(out, items, limit);
        if with_more {
            push_more_line(out, items.len(), limit);
        }
        let ghost v = strings_view(items@);
        assert(out@ =~= start + check_section(v, ok@, head@, tail@, limit as nat, with_more));
    }
}

/// `"Duration: <seconds>s\n"`, the seconds as the caller formatted them
/// (with two decimals).
pub open spec fn duration_line(seconds: Seq<char>) -> Seq<char> {
    "Duration: "@ + seconds + "s\n"@
}

pub fn push_duration_line(out: &mut String, seconds: &str)
    ensures
        final(out)@ == old(out)@ + duration_line(seconds@),
{
    push_str(out, "Duration: ");
    push_str(out, seconds);
    push_str(out, "s\n");
}

/// `s` padded with spaces on the right to `width` characters, as
/// `{:<width}` formats it.
pub open spec fn pad_right(s: Seq<char>, width: nat) -> Seq<char> {
    if s.len() >= width {
        s
    } else {
        s + Seq::new((width - s.len()) as nat, |i: int| ' ')
    }
}

/// Appends `s` padded with spaces to `width` characters.
pub fn push_padded(out: &mut String, s: &str, width: usize)
    ensures
        final(out)@ == old(out)@ + pad_right(s@, width as nat),
{
    let ghost start = out@;
    push_str(out, s);
    let n = crate::text::to_chars(s).len();
    if n < width {
        let mut k: usize = n;
        while k < width
            invariant
                n <= k <= width,
                n == s@.len(),
                out@ == start + s@ + Seq::new((k - n) as nat, |i: int| ' '),
            decreases width - k,
        {
            crate::text::push_char(out, ' ');
            k += 1;
            assert(out@ =~= start + s@ + Seq::new((k - n) as nat, |i: int| ' '));
        }
    } else {
        assert(out@ =~= start + s@);
    }
}

/// `n` copies of `c`.
pub open spec fn repeat_char(c: char, n: nat) -> Seq<char> {
    Seq::new(n, |i: int| c)
}

/// Appends `n` copies of `c`.
pub fn push_repeated(out: &mut String, c: char, n: usize)
    ensures
        final(out)@ == old(out)@ + repeat_char(c, n as nat),
{
    let ghost start = out@;
    let mut k: usize = 0;
    while k < n
        invariant
            k <= n,
            out@ == start + repeat_char(c, k as nat),
        decreases n - k,
    {
        crate::text::push_char(out, c);
        k += 1;
        assert(out@ =~= start + repeat_char(c, k as nat));
    }
}

} // verus!
