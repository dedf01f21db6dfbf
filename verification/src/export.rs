//! Tables as text: a header line of column names, then one line per record,
//! the cells of a line separated by commas.
//!
//! An integer is written in decimal, a duration as its seconds followed by
//! `s`, a ratio as numerator, `/`, denominator, a timestamp in RFC 3339 (or,
//! for an instant that the calendar does not reach, as `@` and its seconds),
//! text between double quotes with every double quote doubled, a set of
//! identifiers between square brackets, and a ratio over nothing as `n/a`. An
//! absent value is an empty cell, which no other value is.

use crate::calendar::{rendered, rfc3339};
use crate::collection::{all_rows, value_views, Collection};
use crate::decimal::{
    digits, id_lines, ids_header, ids_of_text, ids_text, lemma_ids_round_trip, push_decimal,
};
use crate::predicate::{read_field, read_of};
use crate::record::{name_label, Accessor, Name, Record};
use crate::stage::rows_fit;
use crate::value::{language_label, Value, ValueView};
use vstd::prelude::*;
use vstd::utf8::encode_utf8;

verus! {

/// Appends bytes to a buffer.
pub fn append(out: &mut Vec<u8>, bytes: &[u8])
    ensures
        final(out)@ == old(out)@ + bytes@,
{
    let mut i: usize = 0;
    assert(old(out)@ + bytes@.take(0) =~= old(out)@);
    while i < bytes.len()
        invariant
            i <= bytes.len(),
            out@ == old(out)@ + bytes@.take(i as int),
        decreases bytes.len() - i,
    {
        out.push(bytes[i]);
        assert(old(out)@ + bytes@.take(i + 1) =~= (old(out)@ + bytes@.take(i as int)).push(
            bytes@[i as int],
        ));
        i += 1;
    }
    assert(bytes@.take(i as int) =~= bytes@);
}

/// Text with every double quote doubled.
pub open spec fn escaped(b: Seq<u8>) -> Seq<u8>
    decreases b.len(),
{
    if b.len() == 0 {
        Seq::empty()
    } else if b.last() == 34 {
        escaped(b.drop_last()).push(34u8).push(34u8)
    } else {
        escaped(b.drop_last()).push(b.last())
    }
}

/// Text between double quotes.
pub open spec fn quoted(b: Seq<u8>) -> Seq<u8> {
    seq![34u8] + escaped(b) + seq![34u8]
}

/// Identifiers in decimal, separated by semicolons.
pub open spec fn id_list(ids: Seq<u64>) -> Seq<u8>
    decreases ids.len(),
{
    if ids.len() == 0 {
        Seq::empty()
    } else if ids.len() == 1 {
        digits(ids.last() as nat)
    } else {
        id_list(ids.drop_last()).push(59u8) + digits(ids.last() as nat)
    }
}

/// The magnitude of a signed integer.
pub open spec fn magnitude(t: i64) -> nat {
    if t < 0 {
        (-t) as nat
    } else {
        t as nat
    }
}

/// The cell of a timestamp, given the text chrono has for it: that text, or,
/// for an instant outside chrono's calendar, `@` and the seconds in decimal.
pub open spec fn timestamp_cell(t: i64, rendered: Option<Seq<char>>) -> Seq<u8> {
    match rendered {
        Some(text) => encode_utf8(text),
        None => if t < 0 {
            seq![64u8, 45u8] + digits(magnitude(t))
        } else {
            seq![64u8] + digits(magnitude(t))
        },
    }
}

/// The cell that a value is written as.
pub open spec fn cell(v: ValueView) -> Seq<u8> {
    match v {
        ValueView::Absent => Seq::empty(),
        ValueView::NotApplicable => encode_utf8("n/a"@),
        ValueView::Integer(n) => digits(n as nat),
        ValueView::Timestamp(t) => timestamp_cell(t, rendered(t)),
        ValueView::Duration(d) => digits(d as nat).push(115u8),
        ValueView::Text(b) => quoted(b),
        ValueView::Lang(l) => encode_utf8(language_label(l)),
        ValueView::Flag(b) => if b {
            encode_utf8("true"@)
        } else {
            encode_utf8("false"@)
        },
        ValueView::Ratio(f) => digits(f.num as nat).push(47u8) + digits(f.den as nat),
        ValueView::Ids(ids) => seq![91u8] + id_list(ids) + seq![93u8],
    }
}

/// Appends the cell of a timestamp, given the text chrono has for it.
pub fn push_timestamp(out: &mut Vec<u8>, t: i64, rendered: Option<String>)
    ensures
        final(out)@ == old(out)@ + timestamp_cell(
            t,
            match rendered {
                Some(text) => Some(text@),
                None => None,
            },
        ),
{
    match rendered {
        Some(text) => {
            append(out, text.as_str().as_bytes());
        },
        None => {
            out.push(64u8);
            if t < 0 {
                out.push(45u8);
                let m: u64 = (-(t as i128)) as u64;
                push_decimal(out, m);
                assert(final(out)@ =~= old(out)@ + (seq![64u8, 45u8] + digits(magnitude(t))));
            } else {
                push_decimal(out, t as u64);
                assert(final(out)@ =~= old(out)@ + (seq![64u8] + digits(magnitude(t))));
            }
        },
    }
}

fn push_quoted(out: &mut Vec<u8>, b: &Vec<u8>)
    ensures
        final(out)@ == old(out)@ + quoted(b@),
{
    out.push(34u8);
    let ghost start = out@;
    let mut i: usize = 0;
    assert(b@.take(0) =~= Seq::<u8>::empty());
    assert(start + escaped(b@.take(0)) =~= start);
    while i < b.len()
        invariant
            i <= b.len(),
            out@ == start + escaped(b@.take(i as int)),
        decreases b.len() - i,
    {
        assert(b@.take(i + 1).drop_last() =~= b@.take(i as int));
        let ghost before = escaped(b@.take(i as int));
        if b[i] == 34u8 {
            out.push(34u8);
            out.push(34u8);
            assert(out@ =~= start + before.push(34u8).push(34u8));
        } else {
            out.push(b[i]);
            assert(out@ =~= start + before.push(b@[i as int]));
        }
        i += 1;
    }
    assert(b@.take(i as int) =~= b@);
    out.push(34u8);
    assert(final(out)@ =~= old(out)@ + quoted(b@));
}

fn push_id_list(out: &mut Vec<u8>, ids: &Vec<u64>)
    ensures
        final(out)@ == old(out)@ + id_list(ids@),
{
    let ghost start = out@;
    let mut i: usize = 0;
    assert(ids@.take(0) =~= Seq::<u64>::empty());
    assert(start + id_list(ids@.take(0)) =~= start);
    while i < ids.len()
        invariant
            i <= ids.len(),
            start == old(out)@,
            out@ == start + id_list(ids@.take(i as int)),
        decreases ids.len() - i,
    {
        assert(ids@.take(i + 1).drop_last() =~= ids@.take(i as int));
        let ghost before = id_list(ids@.take(i as int));
        if i > 0 {
            out.push(59u8);
        }
        push_decimal(out, ids[i]);
        proof {
            if i > 0 {
                assert(out@ =~= start + (before.push(59u8) + digits(ids@[i as int] as nat)));
            } else {
                assert(before =~= Seq::<u8>::empty());
                assert(out@ =~= start + digits(ids@[i as int] as nat));
            }
        }
        i += 1;
    }
    assert(ids@.take(i as int) =~= ids@);
}

/// Appends the cell of a value.
pub fn push_cell(out: &mut Vec<u8>, v: &Value)
    ensures
        final(out)@ == old(out)@ + cell(v@),
{
    match v {
        Value::Absent => {
            assert(out@ + cell(v@) =~= out@);
        },
        Value::NotApplicable => {
            append(out, "n/a".as_bytes());
        },
        Value::Integer(n) => {
            push_decimal(out, *n);
        },
        Value::Timestamp(t) => {
            push_timestamp(out, *t, rfc3339(*t));
        },
        Value::Duration(d) => {
            push_decimal(out, *d);
            out.push(115u8);
            assert(final(out)@ =~= old(out)@ + digits(*d as nat).push(115u8));
        },
        Value::Text(b) => {
            push_quoted(out, b);
        },
        Value::Lang(l) => {
            append(out, l.label().as_bytes());
        },
        Value::Flag(b) => {
            if *b {
                append(out, "true".as_bytes());
            } else {
                append(out, "false".as_bytes());
            }
        },
        Value::Ratio(f) => {
            push_decimal(out, f.num);
            out.push(47u8);
            push_decimal(out, f.den);
            assert(final(out)@ =~= old(out)@ + (digits(f.num as nat).push(47u8) + digits(
                f.den as nat,
            )));
        },
        Value::Ids(ids) => {
            out.push(91u8);
            push_id_list(out, ids);
            out.push(93u8);
            assert(final(out)@ =~= old(out)@ + (seq![91u8] + id_list(ids@) + seq![93u8]));
        },
    }
}

/// The comma that stands before every cell of a line but the first.
pub open spec fn separator(position: int) -> Seq<u8> {
    if position > 0 {
        seq![44u8]
    } else {
        Seq::empty()
    }
}

/// The cells of a record for the given columns, separated by commas.
pub open spec fn cells(r: Record, columns: Seq<Accessor>) -> Seq<u8>
    decreases columns.len(),
{
    if columns.len() == 0 {
        Seq::empty()
    } else {
        cells(r, columns.drop_last()) + separator(columns.len() - 1) + cell(
            read_field(r, columns.last()),
        )
    }
}

/// The names of the columns, separated by commas.
pub open spec fn labels(columns: Seq<Accessor>) -> Seq<u8>
    decreases columns.len(),
{
    if columns.len() == 0 {
        Seq::empty()
    } else {
        labels(columns.drop_last()) + separator(columns.len() - 1) + encode_utf8(
            name_label(columns.last().name),
        )
    }
}

/// The lines of the records at `rows`.
pub open spec fn lines(rows: Seq<usize>, src: Seq<Record>, columns: Seq<Accessor>) -> Seq<u8>
    decreases rows.len(),
{
    if rows.len() == 0 {
        Seq::empty()
    } else {
        lines(rows.drop_last(), src, columns) + cells(src[rows.last() as int], columns).push(10u8)
    }
}

/// The table of the records at `rows`: the header line, then the lines.
pub open spec fn table(rows: Seq<usize>, src: Seq<Record>, columns: Seq<Accessor>) -> Seq<u8> {
    labels(columns).push(10u8) + lines(rows, src, columns)
}

/// The lines of a list of values, one value per line.
pub open spec fn value_lines(values: Seq<ValueView>) -> Seq<u8>
    decreases values.len(),
{
    if values.len() == 0 {
        Seq::empty()
    } else {
        value_lines(values.drop_last()) + cell(values.last()).push(10u8)
    }
}

/// The table of a projection: the name of the field, then one value per line.
pub open spec fn column(name: Name, values: Seq<ValueView>) -> Seq<u8> {
    encode_utf8(name_label(name)).push(10u8) + value_lines(values)
}

fn push_labels(out: &mut Vec<u8>, columns: &Vec<Accessor>)
    ensures
        final(out)@ == old(out)@ + labels(columns@),
{
    let ghost start = out@;
    let mut c: usize = 0;
    assert(columns@.take(0) =~= Seq::<Accessor>::empty());
    assert(start + labels(columns@.take(0)) =~= start);
    while c < columns.len()
        invariant
            c <= columns.len(),
            start == old(out)@,
            out@ == start + labels(columns@.take(c as int)),
        decreases columns.len() - c,
    {
        assert(columns@.take(c + 1).drop_last() =~= columns@.take(c as int));
        let ghost before = labels(columns@.take(c as int));
        if c > 0 {
            out.push(44u8);
        }
        let ghost mid = out@;
        append(out, columns[c].name.label().as_bytes());
        proof {
            assert(mid =~= start + before + separator(c as int));
            assert(out@ =~= start + (before + separator(c as int) + encode_utf8(
                name_label(columns@[c as int].name),
            )));
        }
        c += 1;
    }
    assert(columns@.take(c as int) =~= columns@);
}

fn push_cells(out: &mut Vec<u8>, r: &Record, columns: &Vec<Accessor>)
    ensures
        final(out)@ == old(out)@ + cells(*r, columns@),
{
    let ghost start = out@;
    let mut c: usize = 0;
    assert(columns@.take(0) =~= Seq::<Accessor>::empty());
    assert(start + cells(*r, columns@.take(0)) =~= start);
    while c < columns.len()
        invariant
            c <= columns.len(),
            start == old(out)@,
            out@ == start + cells(*r, columns@.take(c as int)),
        decreases columns.len() - c,
    {
        assert(columns@.take(c + 1).drop_last() =~= columns@.take(c as int));
        let ghost before = cells(*r, columns@.take(c as int));
        if c > 0 {
            out.push(44u8);
        }
        let ghost mid = out@;
        let x = read_of(r, columns[c]);
        push_cell(out, x.get());
        proof {
            assert(mid =~= start + before + separator(c as int));
            assert(out@ =~= start + (before + separator(c as int) + cell(
                read_field(*r, columns@[c as int]),
            )));
        }
        c += 1;
    }
    assert(columns@.take(c as int) =~= columns@);
}

/// Writes the table of the selected records of a collection.
pub fn write_table(c: &Collection, columns: &Vec<Accessor>) -> (out: Vec<u8>)
    ensures
        out@ == table(all_rows(c.layout()), c.records(), columns@),
{
    let rows = c.rows();
    let mut out: Vec<u8> = Vec::new();
    push_labels(&mut out, columns);
    out.push(10u8);
    let ghost head = out@;
    assert(head =~= labels(columns@).push(10u8));
    let mut i: usize = 0;
    assert(rows@.take(0) =~= Seq::<usize>::empty());
    assert(head + lines(rows@.take(0), c.records(), columns@) =~= head);
    while i < rows.len()
        invariant
            i <= rows.len(),
            rows_fit(rows@, c.records().len() as int),
            out@ == head + lines(rows@.take(i as int), c.records(), columns@),
        decreases rows.len() - i,
    {
        assert(rows@.take(i + 1).drop_last() =~= rows@.take(i as int));
        let ghost before = lines(rows@.take(i as int), c.records(), columns@);
        let r = c.record(rows[i]);
        push_cells(&mut out, r, columns);
        out.push(10u8);
        assert(out@ =~= head + (before + cells(*r, columns@).push(10u8)));
        i += 1;
    }
    assert(rows@.take(i as int) =~= rows@);
    out
}

/// Writes the table of a projection.
pub fn write_column(name: Name, values: &Vec<Value>) -> (out: Vec<u8>)
    ensures
        out@ == column(name, value_views(values@)),
{
    let mut out: Vec<u8> = Vec::new();
    append(&mut out, name.label().as_bytes());
    out.push(10u8);
    let ghost head = out@;
    assert(head =~= encode_utf8(name_label(name)).push(10u8));
    let ghost all = value_views(values@);
    let mut i: usize = 0;
    assert(all.take(0) =~= Seq::<ValueView>::empty());
    assert(head + value_lines(all.take(0)) =~= head);
    while i < values.len()
        invariant
            i <= values.len(),
            all == value_views(values@),
            out@ == head + value_lines(all.take(i as int)),
        decreases values.len() - i,
    {
        assert(all.take(i + 1).drop_last() =~= all.take(i as int));
        assert(all.take(i + 1).last() == values@[i as int]@);
        let ghost before = value_lines(all.take(i as int));
        push_cell(&mut out, &values[i]);
        out.push(10u8);
        assert(out@ =~= head + (before + cell(values@[i as int]@).push(10u8)));
        i += 1;
    }
    assert(all.take(i as int) =~= all);
    out
}

/// The integers of a sequence of values that are all integers.
pub open spec fn all_integers(values: Seq<ValueView>, ids: Seq<u64>) -> bool {
    values.len() == ids.len() && forall|i: int|
        0 <= i < ids.len() ==> #[trigger] values[i] == ValueView::Integer(ids[i])
}

/// The lines of values that are integers are the lines of a list of
/// identifiers.
pub proof fn lemma_integer_lines(values: Seq<ValueView>, ids: Seq<u64>)
    requires
        all_integers(values, ids),
    ensures
        value_lines(values) == id_lines(ids),
    decreases ids.len(),
{
    if ids.len() > 0 {
        let rest = values.drop_last();
        assert(all_integers(rest, ids.drop_last())) by {
            assert forall|i: int| 0 <= i < ids.drop_last().len() implies #[trigger] rest[i]
                == ValueView::Integer(ids.drop_last()[i]) by {
                assert(values[i] == ValueView::Integer(ids[i]));
            }
        }
        lemma_integer_lines(rest, ids.drop_last());
        assert(values.last() == values[ids.len() - 1]);
        assert(values.last() == ValueView::Integer(ids.last()));
    }
}

/// The table of a projection to the identifier is the text of a list of
/// identifiers, so what a pipeline ending in such a projection exports is read
/// back by the reader of identifier lists: as the same list, and so the same
/// set.
pub proof fn lemma_exported_ids_round_trip(values: Seq<ValueView>, ids: Seq<u64>)
    requires
        all_integers(values, ids),
    ensures
        column(Name::Id, values) == ids_text(ids),
        ids_of_text(column(Name::Id, values)) == Some(ids),
        ids_of_text(column(Name::Id, values)).unwrap().to_set() == ids.to_set(),
{
    lemma_integer_lines(values, ids);
    let label = name_label(Name::Id);
    reveal_strlit("id");
    assert(label.len() == 2);
    assert(label[0] == 'i' && label[1] == 'd');
    assert(vstd::utf8::is_ascii_chars(label));
    vstd::utf8::is_ascii_chars_encode_utf8(label);
    let bytes = encode_utf8(label);
    assert(bytes.len() == 2);
    assert(bytes[0] == label[0] as u8);
    assert(bytes[1] == label[1] as u8);
    assert(bytes.push(10u8) =~= ids_header());
    lemma_ids_round_trip(ids);
}

} // verus!
