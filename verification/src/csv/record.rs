//! One pipe-delimited CSV row: `key|value|description` or `key|value`.
use vstd::prelude::*;
use crate::reedstream::{is_parse_error, ReedError, ReedResult};
use crate::text::{
    chars_to_string, copy_string, decimal, is_trimmed, lemma_split_append_piece, lemma_split_no_sep,
    lemma_split_nonempty, lemma_trim_trimmed, piece_end, push_char, push_str, push_usize, split_on,
    split_starts, str_to_string, to_chars, trim, trim_bounds,
};

verus! {

/// Pipe-delimited CSV record with optional description.
#[derive(Debug, Clone, PartialEq)]
pub struct CsvRecord {
    /// Key in dot notation (e.g. "page-header.logo.title@de").
    pub key: String,
    /// Value associated with the key.
    pub value: String,
    /// Optional description or metadata.
    pub description: Option<String>,
}

/// A record as character sequences: key, value, description.
pub type RecordView = (Seq<char>, Seq<char>, Option<Seq<char>>);

pub open spec fn opt_view(o: Option<String>) -> Option<Seq<char>> {
    match o {
        Some(s) => Some(s@),
        None => None,
    }
}

impl View for CsvRecord {
    type V = RecordView;

    open spec fn view(&self) -> RecordView {
        (self.key@, self.value@, opt_view(self.description))
    }
}

impl CsvRecord {
    /// Creates a new CSV record.
    pub fn new(key: String, value: String, description: Option<String>) -> (r: CsvRecord)
        ensures
            r.key == key,
            r.value == value,
            r.description == description,
    {
        CsvRecord { key, value, description }
    }

    /// A copy of the record.
    pub fn duplicate(&self) -> (r: CsvRecord)
        ensures
            r@ == self@,
    {
        let description = match &self.description {
            Some(d) => Some(copy_string(d)),
            None => None,
        };
        CsvRecord { key: copy_string(&self.key), value: copy_string(&self.value), description }
    }
}

/// Why a row is refused, or the record it holds.
pub open spec fn parse_row_spec(line: Seq<char>) -> Result<RecordView, Seq<char>> {
    let parts = split_on(line, '|');
    if parts.len() < 2 {
        Err("Expected at least 2 fields, found "@ + decimal(parts.len()))
    } else if trim(parts[0]).len() == 0 {
        Err("Key cannot be empty"@)
    } else {
        Ok(
            (
                trim(parts[0]),
                trim(parts[1]),
                if parts.len() >= 3 && trim(parts[2]).len() > 0 {
                    Some(trim(parts[2]))
                } else {
                    None
                },
            ),
        )
    }
}

/// The row text of a record.
pub open spec fn create_row_spec(r: RecordView) -> Seq<char> {
    match r.2 {
        Some(d) => r.0 + seq!['|'] + r.1 + seq!['|'] + d,
        None => r.0 + seq!['|'] + r.1,
    }
}

/// Parses a pipe-delimited CSV row into a CsvRecord.
///
/// Fields are split at `|` and trimmed; only the first three fields are
/// used. A row with fewer than two fields, or an empty key, is refused
/// with a `ParseError` whose input is the row.
pub fn parse_row(line: &str) -> (r: ReedResult<CsvRecord>)
    ensures
        match r {
            Ok(rec) => parse_row_spec(line@) == Ok::<RecordView, Seq<char>>(rec@),
            Err(e) => parse_row_spec(line@) matches Err(reason) && is_parse_error(e, line@, reason),
        },
{
    let v = to_chars(line);
    let starts = split_starts(&v, '|');
    let ghost parts = split_on(line@, '|');
    proof {
        lemma_split_nonempty(line@, '|');
    }
    if starts.len() < 2 {
        let mut reason = String::from_str("Expected at least 2 fields, found ");
        push_usize(&mut reason, starts.len());
        return Err(ReedError::ParseError { input: str_to_string(line), reason });
    }
    assert(starts@[0] <= piece_end(starts@, 0, v@.len() as int));
    let end0 = starts[1] - 1;
    let (ka, kb) = trim_bounds(&v, 0, end0);
    assert(parts[0] == v@.subrange(0, end0 as int));
    if ka == kb {
        let reason = String::from_str("Key cannot be empty");
        return Err(ReedError::ParseError { input: str_to_string(line), reason });
    }
    assert(starts@[1] <= piece_end(starts@, 1, v@.len() as int));
    let end1 = if starts.len() > 2 { starts[2] - 1 } else { v.len() };
    let (va, vb) = trim_bounds(&v, starts[1], end1);
    assert(parts[1] == v@.subrange(starts@[1] as int, end1 as int));
    let key = chars_to_string(&v, ka, kb);
    let value = chars_to_string(&v, va, vb);
    let description = if starts.len() >= 3 {
        assert(starts@[2] <= piece_end(starts@, 2, v@.len() as int));
        let end2 = if starts.len() > 3 { starts[3] - 1 } else { v.len() };
        let (da, db) = trim_bounds(&v, starts[2], end2);
        assert(parts[2] == v@.subrange(starts@[2] as int, end2 as int));
        if da == db {
            None
        } else {
            Some(chars_to_string(&v, da, db))
        }
    } else {
        None
    };
    Ok(CsvRecord { key, value, description })
}

/// Creates a pipe-delimited CSV row from a CsvRecord.
pub fn create_row(record: &CsvRecord) -> (r: String)
    ensures
        r@ == create_row_spec(record@),
{
    let mut r = copy_string(&record.key);
    push_char(&mut r, '|');
    push_str(&mut r, record.value.as_str());
    match &record.description {
        Some(desc) => {
            push_char(&mut r, '|');
            push_str(&mut r, desc.as_str());
        },
        None => {},
    }
    r
}

// ---------------------------------------------------------------------------
// Laws
// ---------------------------------------------------------------------------

/// A field that a row keeps as it is: trimmed and without `|`.
pub open spec fn clean_field(s: Seq<char>) -> bool {
    is_trimmed(s) && !s.contains('|')
}

/// A record that `create_row` renders without loss: a non-empty key, and
/// an empty description stored as `None`.
pub open spec fn well_formed_record(r: RecordView) -> bool {
    &&& clean_field(r.0)
    &&& r.0.len() > 0
    &&& clean_field(r.1)
    &&& match r.2 {
        Some(d) => clean_field(d) && d.len() > 0,
        None => true,
    }
}

/// `split_on` of pieces joined by the separator gives the pieces back.
pub proof fn lemma_split_two(a: Seq<char>, b: Seq<char>, sep: char)
    requires
        !a.contains(sep),
        !b.contains(sep),
    ensures
        split_on(a + seq![sep] + b, sep) == seq![a, b],
{
    lemma_split_no_sep(a, sep);
    lemma_split_append_piece(a, sep, b);
}

pub proof fn lemma_split_three(a: Seq<char>, b: Seq<char>, c: Seq<char>, sep: char)
    requires
        !a.contains(sep),
        !b.contains(sep),
        !c.contains(sep),
    ensures
        split_on(a + seq![sep] + b + seq![sep] + c, sep) == seq![a, b, c],
{
    lemma_split_two(a, b, sep);
    lemma_split_append_piece(a + seq![sep] + b, sep, c);
    assert(seq![a, b].push(c) =~= seq![a, b, c]);
}

/// Row round trip: rendering a well-formed record and parsing the row
/// gives the record back.
pub proof fn lemma_record_round_trip(r: RecordView)
    requires
        well_formed_record(r),
    ensures
        parse_row_spec(create_row_spec(r)) == Ok::<RecordView, Seq<char>>(r),
{
    lemma_trim_trimmed(r.0);
    lemma_trim_trimmed(r.1);
    match r.2 {
        Some(d) => {
            lemma_trim_trimmed(d);
            lemma_split_three(r.0, r.1, d, '|');
        },
        None => {
            lemma_split_two(r.0, r.1, '|');
        },
    }
}

/// `parts` joined by `sep`.
pub open spec fn join_on(parts: Seq<Seq<char>>, sep: char) -> Seq<char>
    decreases parts.len(),
{
    if parts.len() <= 1 {
        if parts.len() == 1 {
            parts[0]
        } else {
            Seq::<char>::empty()
        }
    } else {
        join_on(parts.drop_last(), sep) + seq![sep] + parts.last()
    }
}

proof fn lemma_join_extend_last(parts: Seq<Seq<char>>, sep: char, c: char)
    requires
        parts.len() >= 1,
    ensures
        join_on(parts.update(parts.len() - 1, parts.last().push(c)), sep) == join_on(parts, sep).push(c),
{
    let q = parts.update(parts.len() - 1, parts.last().push(c));
    if parts.len() == 1 {
    } else {
        assert(q.drop_last() =~= parts.drop_last());
        assert(q.last() == parts.last().push(c));
        assert(join_on(q, sep) == join_on(parts.drop_last(), sep) + seq![sep] + parts.last().push(c));
        assert(join_on(parts.drop_last(), sep) + seq![sep] + parts.last().push(c) =~= (join_on(parts.drop_last(), sep) + seq![sep] + parts.last()).push(c));
    }
}

/// Joining the pieces of a split gives the input back.
pub proof fn lemma_join_split(s: Seq<char>, sep: char)
    ensures
        join_on(split_on(s, sep), sep) == s,
    decreases s.len(),
{
    if s.len() == 0 {
    } else {
        lemma_join_split(s.drop_last(), sep);
        lemma_split_nonempty(s.drop_last(), sep);
        let r = split_on(s.drop_last(), sep);
        if s.last() == sep {
            assert(r.push(Seq::<char>::empty()).drop_last() =~= r);
            assert(join_on(r.push(Seq::<char>::empty()), sep) =~= join_on(r, sep) + seq![sep] + Seq::<char>::empty());
            assert(s.drop_last() + seq![sep] + Seq::<char>::empty() =~= s);
        } else {
            lemma_join_extend_last(r, sep, s.last());
            assert(s.drop_last().push(s.last()) =~= s);
        }
    }
}

/// A row that holds at most three fields, each trimmed, with a non-empty
/// third field when there is one: what `create_row` writes.
pub open spec fn canonical_row(line: Seq<char>) -> bool {
    let parts = split_on(line, '|');
    &&& 2 <= parts.len() <= 3
    &&& forall|k: int| 0 <= k < parts.len() ==> is_trimmed(#[trigger] parts[k])
    &&& parts.len() == 3 ==> parts[2].len() > 0
}

/// Row round trip from text: a canonical row that parses is written back
/// exactly.
pub proof fn lemma_row_text_round_trip(line: Seq<char>)
    requires
        canonical_row(line),
        parse_row_spec(line) is Ok,
    ensures
        create_row_spec(parse_row_spec(line)->Ok_0) == line,
{
    let parts = split_on(line, '|');
    assert(is_trimmed(parts[0]));
    assert(is_trimmed(parts[1]));
    lemma_trim_trimmed(parts[0]);
    lemma_trim_trimmed(parts[1]);
    lemma_join_split(line, '|');
    if parts.len() == 3 {
        assert(is_trimmed(parts[2]));
        lemma_trim_trimmed(parts[2]);
        assert(parts.drop_last().drop_last() =~= seq![parts[0]]);
        assert(parts.drop_last().last() == parts[1]);
        assert(join_on(parts.drop_last().drop_last(), '|') == parts[0]);
        assert(join_on(parts.drop_last(), '|') == parts[0] + seq!['|'] + parts[1]);
        assert(join_on(parts, '|') == parts[0] + seq!['|'] + parts[1] + seq!['|'] + parts[2]);
    } else {
        assert(parts.drop_last() =~= seq![parts[0]]);
        assert(join_on(parts.drop_last(), '|') == parts[0]);
        assert(join_on(parts, '|') == parts[0] + seq!['|'] + parts[1]);
    }
}

} // verus!
