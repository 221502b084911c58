//! The row mapping engine: folds the rows of a table into a document.

use vstd::prelude::*;
use vstd::math::min;
use crate::args::Args;
use crate::document::{DocModel, Document, FieldModel, FieldValue, JsonObject, ObjectModel, empty_doc};
use crate::entries::{set_entry, unique_keys};

verus! {

/// Why a conversion run failed.
#[derive(Debug, Clone, Copy, PartialEq, Eq, Structural)]
pub enum ConvertError {
    /// A row with no fields in keyed mode: it has no key.
    InvalidRow,
    /// The source text is not well-formed comma-separated text.
    MalformedCsv,
}

/// The value written for a source field: null for a blank field when blanks
/// are nulled, the field's own text otherwise.
pub open spec fn field_of(v: Seq<char>, null_blanks: bool) -> FieldModel {
    if v.len() == 0 && null_blanks {
        None
    } else {
        Some(v)
    }
}

/// How many fields of `row` are read: those that have a header.
pub open spec fn field_count(headers: Seq<Seq<char>>, row: Seq<Seq<char>>) -> int {
    min(headers.len() as int, row.len() as int)
}

/// The writes that a row makes into its object, in order: for each position
/// from `first` up to `field_count`, its header and its field's value.
pub open spec fn row_writes(
    headers: Seq<Seq<char>>,
    row: Seq<Seq<char>>,
    null_blanks: bool,
    first: int,
) -> Seq<(Seq<char>, FieldModel)> {
    let n = field_count(headers, row);
    Seq::new(
        if first <= n { (n - first) as nat } else { 0 },
        |i: int| (headers[i + first], field_of(row[i + first], null_blanks)),
    )
}

/// The object that a sequence of writes builds, starting from the empty object.
pub open spec fn build_object(w: Seq<(Seq<char>, FieldModel)>) -> ObjectModel
    decreases w.len(),
{
    if w.len() == 0 {
        Seq::empty()
    } else {
        set_entry(build_object(w.drop_last()), w.last().0, w.last().1)
    }
}

/// The object that a row contributes: all its fields in array mode; all but
/// the key field in keyed mode.
pub open spec fn row_object(
    headers: Seq<Seq<char>>,
    row: Seq<Seq<char>>,
    null_blanks: bool,
    keyed: bool,
) -> ObjectModel {
    build_object(row_writes(headers, row, null_blanks, if keyed { 1 } else { 0 }))
}

/// One step of the fold: the document after `row`, or `None` where the row
/// has no key in keyed mode.
pub open spec fn map_row(
    doc: DocModel,
    row: Seq<Seq<char>>,
    headers: Seq<Seq<char>>,
    null_blanks: bool,
) -> Option<DocModel> {
    match doc {
        DocModel::Array(a) => Some(
            DocModel::Array(a.push(row_object(headers, row, null_blanks, false))),
        ),
        DocModel::Keyed(e) => if row.len() == 0 {
            None
        } else if headers.len() == 0 {
            Some(doc)
        } else {
            Some(DocModel::Keyed(set_entry(e, row[0], row_object(headers, row, null_blanks, true))))
        },
    }
}

/// The document after all `rows`, in order, or `None` where a step fails.
pub open spec fn map_rows(
    doc: DocModel,
    rows: Seq<Seq<Seq<char>>>,
    headers: Seq<Seq<char>>,
    null_blanks: bool,
) -> Option<DocModel>
    decreases rows.len(),
{
    if rows.len() == 0 {
        Some(doc)
    } else {
        match map_rows(doc, rows.drop_last(), headers, null_blanks) {
            Some(d) => map_row(d, rows.last(), headers, null_blanks),
            None => None,
        }
    }
}

/// Objects built by writes have distinct keys.
pub proof fn lemma_build_object_unique(w: Seq<(Seq<char>, FieldModel)>)
    ensures
        unique_keys(build_object(w)),
    decreases w.len(),
{
    if w.len() == 0 {
        assert(crate::entries::keys_of(build_object(w)) =~= Seq::empty());
    } else {
        lemma_build_object_unique(w.drop_last());
        crate::entries::lemma_set_entry_keys(build_object(w.drop_last()), w.last().0, w.last().1);
    }
}

/// The JSON value for one source field.
pub fn field_value(value: &String, is_nulled: bool) -> (r: FieldValue)
    ensures
        r@ == field_of(value@, is_nulled),
{
    if value.as_str().is_empty() && is_nulled {
        FieldValue::Null
    } else {
        FieldValue::Text(value.clone())
    }
}

/// Builds the object of one row from position `first` on.
fn build_row_object(record: &Vec<String>, headers: &[String], first: usize, is_nulled: bool) -> (r:
    JsonObject)
    requires
        first <= 1,
    ensures
        r@ == build_object(row_writes(headers.deep_view(), record.deep_view(), is_nulled, first as int)),
        unique_keys(r@),
{
    let ghost h = headers.deep_view();
    let ghost row = record.deep_view();
    let ghost w = row_writes(h, row, is_nulled, first as int);
    let n: usize = if headers.len() < record.len() { headers.len() } else { record.len() };
    let mut element = JsonObject::new();
    let mut index: usize = first;
    assert(w.take(0) =~= Seq::<(Seq<char>, FieldModel)>::empty());
    while index < n
        invariant
            first <= index,
            n == field_count(h, row),
            index <= n || index == first,
            h == headers.deep_view(),
            row == record.deep_view(),
            w == row_writes(h, row, is_nulled, first as int),
            element@ == build_object(w.take(index - first)),
            unique_keys(element@),
        decreases n - index,
    {
        let v = field_value(&record[index], is_nulled);
        let header = headers[index].clone();
        proof {
            assert(w.take(index - first + 1).drop_last() =~= w.take(index - first));
            assert(w[index - first] == (header@, v@));
        }
        element.set(header, v);
        assert(w.take(index - first + 1).last() == w[index - first]);
        index += 1;
    }
    proof {
        if first <= n {
            assert(w.take(index - first) =~= w);
        } else {
            assert(w =~= Seq::<(Seq<char>, FieldModel)>::empty());
        }
    }
    element
}

/// Adds one row to the document. In array mode the row's object, with all
/// its fields, is appended. In keyed mode the entry for the row's first field
/// is set, replacing any earlier one, to the object of the other fields.
/// Only fields that have a header are read; a row with no field fails in
/// keyed mode.
pub fn update_json_with_record_row(json: Document, record: Vec<String>, headers: &[String], args: &Args) -> (r: Result<Document, ConvertError>)
    requires
        json@.wf(),
        json@.is_keyed() == args.is_keyed,
    ensures
        match r {
            Ok(d) => map_row(json@, record.deep_view(), headers.deep_view(), args.is_nulled) == Some(d@)
                && d@.wf(),
            Err(e) => map_row(json@, record.deep_view(), headers.deep_view(), args.is_nulled) is None
                && e == ConvertError::InvalidRow,
        },
{
    let mut json = json;
    if !args.is_keyed {
        let element = build_row_object(&record, headers, 0, args.is_nulled);
        json.push(element);
        Ok(json)
    } else if record.len() == 0 {
        Err(ConvertError::InvalidRow)
    } else if headers.len() == 0 {
        Ok(json)
    } else {
        let element = build_row_object(&record, headers, 1, args.is_nulled);
        let key = record[0].clone();
        json.set(key, element);
        Ok(json)
    }
}

/// A failed prefix fails the whole fold.
pub proof fn lemma_map_rows_failed_prefix(
    doc: DocModel,
    rows: Seq<Seq<Seq<char>>>,
    headers: Seq<Seq<char>>,
    null_blanks: bool,
    k: int,
)
    requires
        0 <= k <= rows.len(),
        map_rows(doc, rows.take(k), headers, null_blanks) is None,
    ensures
        map_rows(doc, rows, headers, null_blanks) is None,
    decreases rows.len(),
{
    if k == rows.len() {
        assert(rows.take(k) =~= rows);
    } else {
        assert(rows.drop_last().take(k) =~= rows.take(k));
        lemma_map_rows_failed_prefix(doc, rows.drop_last(), headers, null_blanks, k);
    }
}

/// Folds `rows`, in order, into a document that starts empty: an object in
/// keyed mode, an array otherwise. Fails on the first row that fails.
pub fn convert_rows(headers: &[String], rows: &Vec<Vec<String>>, args: &Args) -> (r: Result<Document, ConvertError>)
    ensures
        match r {
            Ok(d) => map_rows(empty_doc(args.is_keyed), rows.deep_view(), headers.deep_view(), args.is_nulled)
                == Some(d@) && d@.wf(),
            Err(e) => map_rows(empty_doc(args.is_keyed), rows.deep_view(), headers.deep_view(), args.is_nulled)
                is None && e == ConvertError::InvalidRow,
        },
{
    let ghost all = rows.deep_view();
    let ghost h = headers.deep_view();
    let ghost init = empty_doc(args.is_keyed);
    let mut json = Document::new_for(args.is_keyed);
    let mut i: usize = 0;
    assert(all.take(0) =~= Seq::<Seq<Seq<char>>>::empty());
    while i < rows.len()
        invariant
            i <= rows.len(),
            all == rows.deep_view(),
            h == headers.deep_view(),
            init == empty_doc(args.is_keyed),
            map_rows(init, all.take(i as int), h, args.is_nulled) == Some(json@),
            json@.wf(),
            json@.is_keyed() == args.is_keyed,
        decreases rows.len() - i,
    {
        let record = rows[i].clone();
        assert(record.deep_view() =~= all[i as int]);
        assert(all.take(i + 1).drop_last() =~= all.take(i as int));
        assert(all.take(i + 1).last() == all[i as int]);
        match update_json_with_record_row(json, record, headers, args) {
            Ok(d) => {
                json = d;
            },
            Err(e) => {
                proof {
                    lemma_map_rows_failed_prefix(init, all, h, args.is_nulled, i + 1);
                }
                return Err(e);
            },
        }
        i += 1;
    }
    assert(all.take(i as int) =~= all);
    Ok(json)
}

} // verus!
