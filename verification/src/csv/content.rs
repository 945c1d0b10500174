//! Whole CSV files: text to records and records to text.
use vstd::prelude::*;
use crate::csv::record::{
    canonical_row, create_row, create_row_spec, lemma_record_round_trip, parse_row,
    parse_row_spec, well_formed_record, CsvRecord, RecordView,
};
use crate::reedstream::{is_parse_error, ReedError, ReedResult};
use crate::text::{
    chars_to_string, decimal, is_trimmed, is_ws, lemma_split_append_piece, lemma_split_no_sep,
    lemma_split_nonempty, piece_end, push_char, push_str, push_usize, split_on, split_starts,
    to_chars, trim, trim_bounds,
};

verus! {

/// A trimmed line that the reader skips: empty, or a `#` comment.
pub open spec fn skipped_line(t: Seq<char>) -> bool {
    t.len() == 0 || t[0] == '#'
}

/// Records of the lines, or the first failing line: its index, its
/// trimmed text and the reason.
pub open spec fn parse_lines_spec(lines: Seq<Seq<char>>) -> Result<
    Seq<RecordView>,
    (int, Seq<char>, Seq<char>),
>
    decreases lines.len(),
{
    if lines.len() == 0 {
        Ok(Seq::empty())
    } else {
        match parse_lines_spec(lines.drop_last()) {
            Err(e) => Err(e),
            Ok(rs) => {
                let t = trim(lines.last());
                if skipped_line(t) {
                    Ok(rs)
                } else {
                    match parse_row_spec(t) {
                        Ok(r) => Ok(rs.push(r)),
                        Err(reason) => Err(((lines.len() - 1) as int, t, reason)),
                    }
                }
            },
        }
    }
}

/// What a file's text holds: the records of its lines (`str::lines`; a
/// trailing `\r` and a final empty line vanish in the trimming and skipping).
pub open spec fn parse_content_spec(content: Seq<char>) -> Result<
    Seq<RecordView>,
    (int, Seq<char>, Seq<char>),
> {
    parse_lines_spec(split_on(content, '\n'))
}

/// The error input for a failing line: `path:line - input`.
pub open spec fn located_input(path: Seq<char>, index: int, input: Seq<char>) -> Seq<char> {
    path + seq![':'] + decimal((index + 1) as nat) + " - "@ + input
}

/// Parses the text of a pipe-delimited CSV file into records.
///
/// Lines are trimmed; empty lines and lines starting with `#` are skipped.
/// The first line that does not parse is reported as a `ParseError` whose
/// input is `path:line - text` (lines counted from 1).
pub fn parse_csv_content(content: &str, path: &str) -> (r: ReedResult<Vec<CsvRecord>>)
    ensures
        match r {
            Ok(recs) => parse_content_spec(content@) == Ok::<Seq<RecordView>, (int, Seq<char>, Seq<char>)>(
                recs@.map_values(|x: CsvRecord| x@),
            ),
            Err(e) => parse_content_spec(content@) matches Err((i, input, reason)) && is_parse_error(
                e,
                located_input(path@, i, input),
                reason,
            ),
        },
{
    let v = to_chars(content);
    let starts = split_starts(&v, '\n');
    let ghost lines = split_on(content@, '\n');
    let mut records: Vec<CsvRecord> = Vec::new();
    let mut k: usize = 0;
    assert(lines.take(0) =~= Seq::<Seq<char>>::empty());
    assert(records@.map_values(|x: CsvRecord| x@) =~= Seq::<RecordView>::empty());
    while k < starts.len()
        invariant
            v@ == content@,
            lines == split_on(v@, '\n'),
            crate::text::starts_match(v@, '\n', starts@, v@.len() as int),
            v@.take(v@.len() as int) == v@,
            forall|j: int| 0 < j < starts@.len() ==> #[trigger] starts@[j] >= 1,
            k <= starts@.len(),
            parse_lines_spec(lines.take(k as int)) == Ok::<Seq<RecordView>, (int, Seq<char>, Seq<char>)>(
                records@.map_values(|x: CsvRecord| x@),
            ),
        decreases starts.len() - k,
    {
        assert(starts@[k as int] <= piece_end(starts@, k as int, v@.len() as int));
        let end = if k + 1 < starts.len() {
            starts[k + 1] - 1
        } else {
            v.len()
        };
        let (a, b) = trim_bounds(&v, starts[k], end);
        let ghost t = trim(lines[k as int]);
        assert(lines[k as int] == v@.subrange(starts@[k as int] as int, end as int));
        assert(lines.take(k + 1).drop_last() =~= lines.take(k as int));
        assert(lines.take(k + 1).last() == lines[k as int]);
        if a == b || v[a] == '#' {
            assert(skipped_line(t));
        } else {
            let line = chars_to_string(&v, a, b);
            assert(line@ == t);
            match parse_row(line.as_str()) {
                Ok(rec) => {
                    let ghost before = records@;
                    records.push(rec);
                    assert(records@.map_values(|x: CsvRecord| x@) =~= before.map_values(|x: CsvRecord| x@).push(rec@));
                },
                Err(e) => {
                    let ghost reason = parse_row_spec(t)->Err_0;
                    assert(parse_lines_spec(lines.take(k + 1)) == Err::<Seq<RecordView>, (int, Seq<char>, Seq<char>)>((k as int, t, reason)));
                    proof {
                        lemma_parse_lines_error_stays(lines, (k + 1) as int);
                    }
                    let mut input = String::from_str(path);
                    push_char(&mut input, ':');
                    push_usize(&mut input, k + 1);
                    push_str(&mut input, " - ");
                    push_str(&mut input, line.as_str());
                    assert(input@ == located_input(path@, k as int, t));
                    assert(parse_content_spec(content@) == Err::<Seq<RecordView>, (int, Seq<char>, Seq<char>)>((k as int, t, reason)));
                    return match e {
                        ReedError::ParseError { input: _, reason: rt } => {
                            Err(ReedError::ParseError { input, reason: rt })
                        },
                        other => Err(other),
                    };
                },
            }
        }
        k += 1;
    }
    assert(lines.take(k as int) =~= lines);
    Ok(records)
}

/// Once a prefix of the lines fails, every longer prefix fails the same way.
proof fn lemma_parse_lines_error_stays(lines: Seq<Seq<char>>, n: int)
    requires
        0 <= n <= lines.len(),
        parse_lines_spec(lines.take(n)) is Err,
    ensures
        parse_lines_spec(lines) == parse_lines_spec(lines.take(n)),
    decreases lines.len() - n,
{
    if n < lines.len() {
        assert(lines.take(n + 1).drop_last() =~= lines.take(n));
        lemma_parse_lines_error_stays(lines, n + 1);
    } else {
        assert(lines.take(n) =~= lines);
    }
}

/// The text that `write_csv` puts in a file: every row followed by `\n`.
pub open spec fn build_content_spec(rs: Seq<RecordView>) -> Seq<char>
    decreases rs.len(),
{
    if rs.len() == 0 {
        Seq::empty()
    } else {
        build_content_spec(rs.drop_last()) + create_row_spec(rs.last()) + seq!['\n']
    }
}

/// Renders records as file text, one row per line, each line ended by `\n`.
pub fn build_csv_content(records: &[CsvRecord]) -> (r: String)
    ensures
        r@ == build_content_spec(records@.map_values(|x: CsvRecord| x@)),
{
    let mut content = String::new();
    let mut i: usize = 0;
    while i < records.len()
        invariant
            i <= records@.len(),
            content@ == build_content_spec(records@.map_values(|x: CsvRecord| x@).take(i as int)),
        decreases records.len() - i,
    {
        let row = create_row(&records[i]);
        push_str(&mut content, row.as_str());
        push_char(&mut content, '\n');
        let ghost rs = records@.map_values(|x: CsvRecord| x@);
        assert(rs.take(i + 1).drop_last() =~= rs.take(i as int));
        assert(rs.take(i + 1).last() == records@[i as int]@);
        i += 1;
    }
    assert(records@.map_values(|x: CsvRecord| x@).take(i as int) =~= records@.map_values(|x: CsvRecord| x@));
    content
}

// ---------------------------------------------------------------------------
// File round trip
// ---------------------------------------------------------------------------

/// A record that survives being written to a file and read back: well
/// formed, no line break in any field, and a key that does not start with
/// `#` (such a line would read as a comment).
pub open spec fn file_safe_record(r: RecordView) -> bool {
    &&& well_formed_record(r)
    &&& !r.0.contains('\n')
    &&& !r.1.contains('\n')
    &&& (r.2 matches Some(d) ==> !d.contains('\n'))
    &&& r.0[0] != '#'
}

/// Splitting `s + t` where `t` holds no separator extends the last piece.
proof fn lemma_split_append_nosep(s: Seq<char>, t: Seq<char>, sep: char)
    requires
        !t.contains(sep),
    ensures
        split_on(s + t, sep) == split_on(s, sep).update(
            split_on(s, sep).len() - 1,
            split_on(s, sep).last() + t,
        ),
    decreases t.len(),
{
    lemma_split_nonempty(s, sep);
    if t.len() == 0 {
        assert(s + t =~= s);
        assert(split_on(s, sep).last() + t =~= split_on(s, sep).last());
        assert(split_on(s, sep).update(split_on(s, sep).len() - 1, split_on(s, sep).last()) =~= split_on(s, sep));
    } else {
        assert(!t.drop_last().contains(sep)) by {
            if t.drop_last().contains(sep) {
                let k = choose|k: int| 0 <= k < t.drop_last().len() && t.drop_last()[k] == sep;
                assert(t[k] == sep);
            }
        }
        lemma_split_append_nosep(s, t.drop_last(), sep);
        assert((s + t).drop_last() =~= s + t.drop_last());
        assert((s + t).last() == t.last());
        assert(t.last() != sep) by {
            assert(t[t.len() - 1] == t.last());
        }
        let p = split_on(s, sep);
        let q = p.update(p.len() - 1, p.last() + t.drop_last());
        assert(q.last() == p.last() + t.drop_last());
        assert((p.last() + t.drop_last()).push(t.last()) =~= p.last() + t);
        assert(q.update(q.len() - 1, q.last().push(t.last())) =~= p.update(p.len() - 1, p.last() + t));
    }
}

/// The rows of the records.
pub open spec fn rows_of(rs: Seq<RecordView>) -> Seq<Seq<char>> {
    rs.map_values(|r: RecordView| create_row_spec(r))
}

proof fn lemma_row_no_newline(r: RecordView)
    requires
        file_safe_record(r),
    ensures
        !create_row_spec(r).contains('\n'),
{
    let row = create_row_spec(r);
    if row.contains('\n') {
        let k = choose|k: int| 0 <= k < row.len() && row[k] == '\n';
        let a = r.0.len();
        let b = r.1.len();
        if k < a {
            assert(r.0[k] == '\n');
        } else if k == a {
        } else if k < a + 1 + b {
            assert(r.1[k - a - 1] == '\n');
        } else if k == a + 1 + b {
        } else {
            let d = r.2->Some_0;
            assert(d[k - a - 2 - b] == '\n');
        }
    }
}

/// The lines of written records: one per record, then the empty line after
/// the final `\n`.
proof fn lemma_split_built(rs: Seq<RecordView>)
    requires
        forall|i: int| 0 <= i < rs.len() ==> file_safe_record(#[trigger] rs[i]),
    ensures
        split_on(build_content_spec(rs), '\n') == rows_of(rs).push(Seq::<char>::empty()),
    decreases rs.len(),
{
    if rs.len() == 0 {
        assert(rows_of(rs).push(Seq::<char>::empty()) =~= seq![Seq::<char>::empty()]);
    } else {
        let prev = rs.drop_last();
        assert forall|i: int| 0 <= i < prev.len() implies file_safe_record(#[trigger] prev[i]) by {
            assert(prev[i] == rs[i]);
        }
        lemma_split_built(prev);
        assert(rs.last() == rs[rs.len() - 1]);
        let row = create_row_spec(rs.last());
        lemma_row_no_newline(rs.last());
        let pre = build_content_spec(prev);
        lemma_split_append_nosep(pre, row, '\n');
        let p = split_on(pre, '\n');
        assert(p.last() =~= Seq::<char>::empty());
        assert(p.update(p.len() - 1, p.last() + row) =~= rows_of(rs));
        assert(build_content_spec(rs) =~= (pre + row).push('\n'));
        assert((pre + row).push('\n').drop_last() =~= pre + row);
        assert((pre + row).push('\n').last() == '\n');
    }
}

proof fn lemma_row_trimmed(r: RecordView)
    requires
        file_safe_record(r),
    ensures
        trim(create_row_spec(r)) == create_row_spec(r),
        create_row_spec(r)[0] == r.0[0],
{
    let row = create_row_spec(r);
    assert(row[0] == r.0[0]);
    assert(!is_ws(row.last())) by {
        match r.2 {
            Some(d) => {
                assert(row.last() == d.last());
            },
            None => {
                if r.1.len() > 0 {
                    assert(row.last() == r.1.last());
                } else {
                    assert(row.last() == '|');
                }
            },
        }
    }
    assert(is_trimmed(row));
    crate::text::lemma_trim_trimmed(row);
}

proof fn lemma_parse_rows(rs: Seq<RecordView>)
    requires
        forall|i: int| 0 <= i < rs.len() ==> file_safe_record(#[trigger] rs[i]),
    ensures
        parse_lines_spec(rows_of(rs)) == Ok::<Seq<RecordView>, (int, Seq<char>, Seq<char>)>(rs),
    decreases rs.len(),
{
    if rs.len() > 0 {
        let prev = rs.drop_last();
        assert forall|i: int| 0 <= i < prev.len() implies file_safe_record(#[trigger] prev[i]) by {
            assert(prev[i] == rs[i]);
        }
        lemma_parse_rows(prev);
        assert(rows_of(rs).drop_last() =~= rows_of(prev));
        assert(rs.last() == rs[rs.len() - 1]);
        assert(rows_of(rs).last() == create_row_spec(rs.last()));
        lemma_row_trimmed(rs.last());
        lemma_record_round_trip(rs.last());
        assert(rs.last().0.len() > 0);
        let row = create_row_spec(rs.last());
        assert(row.len() > 0);
        assert(!skipped_line(trim(rows_of(rs).last())));
        assert(parse_row_spec(trim(rows_of(rs).last())) == Ok::<RecordView, Seq<char>>(rs.last()));
        assert(prev.push(rs.last()) =~= rs);
    } else {
        assert(rows_of(rs) =~= Seq::<Seq<char>>::empty());
        assert(rs =~= Seq::<RecordView>::empty());
    }
}

/// File round trip: records written as file text are read back unchanged.
pub proof fn lemma_content_round_trip(rs: Seq<RecordView>)
    requires
        forall|i: int| 0 <= i < rs.len() ==> file_safe_record(#[trigger] rs[i]),
    ensures
        parse_content_spec(build_content_spec(rs)) == Ok::<Seq<RecordView>, (int, Seq<char>, Seq<char>)>(rs),
{
    lemma_split_built(rs);
    lemma_parse_rows(rs);
    let lines = rows_of(rs).push(Seq::<char>::empty());
    assert(lines.drop_last() =~= rows_of(rs));
    assert(trim(Seq::<char>::empty()) =~= Seq::<char>::empty());
}

} // verus!
