//! Properties of the row mapping engine, stated over its model and proved.

use vstd::prelude::*;
use crate::document::{DocModel, FieldModel, empty_doc};
use crate::entries::{
    keys_of, lookup, unique_keys, lemma_set_entry_keys, lemma_set_entry_lookup,
};
use crate::mapping::{
    build_object, field_count, field_of, map_row, map_rows, row_object, row_writes,
    lemma_build_object_unique,
};

verus! {

/// The keys of the rows' objects in keyed mode: each row's first field.
pub open spec fn row_keys(rows: Seq<Seq<Seq<char>>>) -> Seq<Seq<char>> {
    rows.map_values(|r: Seq<Seq<char>>| r[0])
}

/// Mapping a row is a function of the document, the row, the headers and the
/// null option: any two documents that it may give from the same state are
/// the same document.
pub proof fn law_map_row_deterministic(
    doc: DocModel,
    row: Seq<Seq<char>>,
    headers: Seq<Seq<char>>,
    null_blanks: bool,
    d1: DocModel,
    d2: DocModel,
)
    requires
        map_row(doc, row, headers, null_blanks) == Some(d1),
        map_row(doc, row, headers, null_blanks) == Some(d2),
    ensures
        d1 == d2,
{
}

/// A row makes one write per field that has a header, that is
/// `min(len(headers), len(row))` writes, less the key field in keyed mode.
pub proof fn law_fields_written(
    headers: Seq<Seq<char>>,
    row: Seq<Seq<char>>,
    null_blanks: bool,
    keyed: bool,
)
    requires
        keyed ==> field_count(headers, row) >= 1,
    ensures
        row_writes(headers, row, null_blanks, if keyed { 1 } else { 0 }).len() == field_count(
            headers,
            row,
        ) - if keyed {
            1int
        } else {
            0int
        },
{
}

/// Where the headers are distinct, the object that a row contributes has
/// exactly as many entries as writes were made.
pub proof fn law_object_size(
    headers: Seq<Seq<char>>,
    row: Seq<Seq<char>>,
    null_blanks: bool,
    keyed: bool,
)
    requires
        headers.no_duplicates(),
        keyed ==> field_count(headers, row) >= 1,
    ensures
        row_object(headers, row, null_blanks, keyed).len() == field_count(headers, row) - if keyed {
            1int
        } else {
            0int
        },
{
    let first: int = if keyed { 1 } else { 0 };
    let w = row_writes(headers, row, null_blanks, first);
    assert(keys_of(w).no_duplicates()) by {
        assert forall|a: int, b: int| 0 <= a < keys_of(w).len() && 0 <= b < keys_of(w).len() && a != b
            implies keys_of(w)[a] != keys_of(w)[b] by {
            assert(keys_of(w)[a] == headers[a + first]);
            assert(keys_of(w)[b] == headers[b + first]);
        }
    }
    lemma_build_object_size(w);
}

/// An object built from writes with distinct keys has one entry per write.
proof fn lemma_build_object_size(w: Seq<(Seq<char>, FieldModel)>)
    requires
        keys_of(w).no_duplicates(),
    ensures
        build_object(w).len() == w.len(),
        keys_of(build_object(w)).to_set() == keys_of(w).to_set(),
    decreases w.len(),
{
    if w.len() == 0 {
        assert(keys_of(build_object(w)) =~= Seq::<Seq<char>>::empty());
        assert(keys_of(w) =~= Seq::<Seq<char>>::empty());
    } else {
        let p = w.drop_last();
        assert(keys_of(p) =~= keys_of(w).drop_last());
        lemma_build_object_size(p);
        lemma_build_object_unique(p);
        let o = build_object(p);
        lemma_set_entry_keys(o, w.last().0, w.last().1);
        if crate::entries::has_key(o, w.last().0) {
            let i = choose|i: int| 0 <= i < o.len() && o[i].0 == w.last().0;
            assert(keys_of(o)[i] == w.last().0);
            assert(keys_of(o).to_set().contains(w.last().0));
            let j = choose|j: int| 0 <= j < keys_of(p).len() && keys_of(p)[j] == w.last().0;
            assert(keys_of(w)[j] == keys_of(w)[w.len() - 1]);
        }
        assert(keys_of(w) =~= keys_of(p).push(w.last().0));
        assert(keys_of(w).to_set() =~= keys_of(p).to_set().insert(w.last().0)) by {
            assert forall|x: Seq<char>| keys_of(w).to_set().contains(x) <==> keys_of(
                p,
            ).to_set().insert(w.last().0).contains(x) by {
                if keys_of(w).to_set().contains(x) {
                    let j = choose|j: int| 0 <= j < keys_of(w).len() && keys_of(w)[j] == x;
                    if j < p.len() {
                        assert(keys_of(p)[j] == x);
                    }
                }
                if keys_of(p).to_set().contains(x) {
                    let j = choose|j: int| 0 <= j < keys_of(p).len() && keys_of(p)[j] == x;
                    assert(keys_of(w)[j] == x);
                }
                if x == w.last().0 {
                    assert(keys_of(w)[w.len() - 1] == x);
                }
            }
        }
    }
}

/// In an object built from writes with distinct keys, each key holds the
/// value written for it.
proof fn lemma_build_object_lookup(w: Seq<(Seq<char>, FieldModel)>, i: int)
    requires
        keys_of(w).no_duplicates(),
        0 <= i < w.len(),
    ensures
        lookup(build_object(w), w[i].0) == Some(w[i].1),
    decreases w.len(),
{
    let p = w.drop_last();
    lemma_build_object_unique(p);
    lemma_set_entry_lookup(build_object(p), w.last().0, w.last().1, w[i].0);
    if i < w.len() - 1 {
        assert(keys_of(p) =~= keys_of(w).drop_last());
        assert(keys_of(w)[i] != keys_of(w)[w.len() - 1]);
        assert(p[i] == w[i]);
        lemma_build_object_lookup(p, i);
    }
}

/// Where the headers are distinct, each field that has a header is written
/// under its header as JSON null exactly when it is blank and blanks are
/// nulled, and as its own unmodified text otherwise.
pub proof fn law_null_blank(
    headers: Seq<Seq<char>>,
    row: Seq<Seq<char>>,
    null_blanks: bool,
    keyed: bool,
    i: int,
)
    requires
        headers.no_duplicates(),
        (if keyed { 1int } else { 0int }) <= i < field_count(headers, row),
    ensures
        lookup(row_object(headers, row, null_blanks, keyed), headers[i]) == Some(
            field_of(row[i], null_blanks),
        ),
        field_of(row[i], null_blanks) is None <==> (row[i].len() == 0 && null_blanks),
        field_of(row[i], null_blanks) is Some ==> field_of(row[i], null_blanks)->0 == row[i],
{
    let first: int = if keyed { 1 } else { 0 };
    let w = row_writes(headers, row, null_blanks, first);
    assert(keys_of(w).no_duplicates()) by {
        assert forall|a: int, b: int| 0 <= a < keys_of(w).len() && 0 <= b < keys_of(w).len() && a != b
            implies keys_of(w)[a] != keys_of(w)[b] by {
            assert(keys_of(w)[a] == headers[a + first]);
            assert(keys_of(w)[b] == headers[b + first]);
        }
    }
    lemma_build_object_lookup(w, i - first);
}

/// Keyed documents keep distinct keys through the fold.
proof fn lemma_map_rows_keyed(
    doc: DocModel,
    rows: Seq<Seq<Seq<char>>>,
    headers: Seq<Seq<char>>,
    null_blanks: bool,
    d: DocModel,
)
    requires
        doc is Keyed,
        unique_keys(doc->Keyed_0),
        headers.len() > 0,
        map_rows(doc, rows, headers, null_blanks) == Some(d),
    ensures
        d is Keyed,
        unique_keys(d->Keyed_0),
        keys_of(d->Keyed_0).to_set() == keys_of(doc->Keyed_0).to_set() + row_keys(rows).to_set(),
        forall|j: int| 0 <= j < rows.len() ==> rows[j].len() > 0,
    decreases rows.len(),
{
    if rows.len() == 0 {
        assert(row_keys(rows).to_set() =~= Set::<Seq<char>>::empty());
        assert(keys_of(doc->Keyed_0).to_set() + row_keys(rows).to_set() =~= keys_of(
            doc->Keyed_0,
        ).to_set());
    } else {
        let p = rows.drop_last();
        let prev = map_rows(doc, p, headers, null_blanks)->0;
        lemma_map_rows_keyed(doc, p, headers, null_blanks, prev);
        let e = prev->Keyed_0;
        let k = rows.last()[0];
        lemma_set_entry_keys(e, k, row_object(headers, rows.last(), null_blanks, true));
        assert(row_keys(rows) =~= row_keys(p).push(k));
        assert(row_keys(rows).to_set() =~= row_keys(p).to_set().insert(k)) by {
            assert forall|x: Seq<char>| row_keys(rows).to_set().contains(x) <==> row_keys(
                p,
            ).to_set().insert(k).contains(x) by {
                if row_keys(rows).to_set().contains(x) {
                    let j = choose|j: int| 0 <= j < row_keys(rows).len() && row_keys(rows)[j] == x;
                    if j < p.len() {
                        assert(row_keys(p)[j] == x);
                    }
                }
                if row_keys(p).to_set().contains(x) {
                    let j = choose|j: int| 0 <= j < row_keys(p).len() && row_keys(p)[j] == x;
                    assert(row_keys(rows)[j] == x);
                }
                if x == k {
                    assert(row_keys(rows)[rows.len() - 1] == x);
                }
            }
        }
        assert(keys_of(d->Keyed_0).to_set() =~= keys_of(doc->Keyed_0).to_set() + row_keys(
            rows,
        ).to_set());
        assert forall|j: int| 0 <= j < rows.len() implies rows[j].len() > 0 by {
            if j < p.len() {
                assert(p[j] == rows[j]);
            }
        }
    }
}

/// In keyed mode the entry for a key reflects only the last row with that
/// key: it is exactly that row's object, whatever earlier rows held.
pub proof fn law_last_write_wins(
    doc: DocModel,
    rows: Seq<Seq<Seq<char>>>,
    headers: Seq<Seq<char>>,
    null_blanks: bool,
    j: int,
    d: DocModel,
)
    requires
        doc is Keyed,
        unique_keys(doc->Keyed_0),
        headers.len() > 0,
        0 <= j < rows.len(),
        rows[j].len() > 0,
        forall|l: int| j < l < rows.len() && rows[l].len() > 0 ==> rows[l][0] != rows[j][0],
        map_rows(doc, rows, headers, null_blanks) == Some(d),
    ensures
        d is Keyed,
        lookup(d->Keyed_0, rows[j][0]) == Some(row_object(headers, rows[j], null_blanks, true)),
    decreases rows.len(),
{
    let p = rows.drop_last();
    let prev = map_rows(doc, p, headers, null_blanks)->0;
    lemma_map_rows_keyed(doc, p, headers, null_blanks, prev);
    let e = prev->Keyed_0;
    let last = rows.last();
    lemma_set_entry_lookup(e, last[0], row_object(headers, last, null_blanks, true), rows[j][0]);
    if j < rows.len() - 1 {
        assert forall|l: int| j < l < p.len() && p[l].len() > 0 implies p[l][0] != p[j][0] by {
            assert(p[l] == rows[l]);
        }
        law_last_write_wins(doc, p, headers, null_blanks, j, prev);
    }
}

/// In array mode the document gains exactly one object per row.
pub proof fn law_array_shape(
    doc: DocModel,
    rows: Seq<Seq<Seq<char>>>,
    headers: Seq<Seq<char>>,
    null_blanks: bool,
)
    requires
        doc is Array,
    ensures
        map_rows(doc, rows, headers, null_blanks) is Some,
        map_rows(doc, rows, headers, null_blanks)->0 is Array,
        map_rows(doc, rows, headers, null_blanks)->0->Array_0.len() == doc->Array_0.len()
            + rows.len(),
    decreases rows.len(),
{
    if rows.len() > 0 {
        law_array_shape(doc, rows.drop_last(), headers, null_blanks);
    }
}

/// A conversion starts from an empty document. In array mode it yields as
/// many objects as there are rows; in keyed mode, where it succeeds, as many
/// entries as there are distinct keys among the rows.
pub proof fn law_shape(
    rows: Seq<Seq<Seq<char>>>,
    headers: Seq<Seq<char>>,
    null_blanks: bool,
    keyed: bool,
)
    requires
        headers.len() > 0,
    ensures
        !keyed ==> match map_rows(empty_doc(keyed), rows, headers, null_blanks) {
            Some(DocModel::Array(a)) => a.len() == rows.len(),
            _ => false,
        },
        keyed ==> match map_rows(empty_doc(keyed), rows, headers, null_blanks) {
            Some(DocModel::Keyed(e)) => e.len() == row_keys(rows).to_set().len(),
            Some(DocModel::Array(_)) => false,
            None => true,
        },
{
    if !keyed {
        law_array_shape(empty_doc(keyed), rows, headers, null_blanks);
    } else {
        let doc = empty_doc(keyed);
        assert(keys_of(doc->Keyed_0) =~= Seq::<Seq<char>>::empty());
        if let Some(d) = map_rows(doc, rows, headers, null_blanks) {
            lemma_map_rows_keyed(doc, rows, headers, null_blanks, d);
            let e = d->Keyed_0;
            assert(keys_of(doc->Keyed_0).to_set() =~= Set::<Seq<char>>::empty());
            assert(keys_of(e).to_set() =~= row_keys(rows).to_set());
            keys_of(e).unique_seq_to_set();
        }
    }
}

} // verus!
