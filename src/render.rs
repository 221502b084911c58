//! Rendering a document as compact JSON text.
//!
//! The structure (brackets, braces, commas, colons, `null`) is written here;
//! the quoting and escaping of each string is the json crate's.

use vstd::prelude::*;
use crate::document::{DocModel, Document, FieldModel, FieldValue, JsonObject, ObjectModel};

verus! {

/// The JSON string literal for `s`, quoted and escaped, as the json crate writes it.
pub uninterp spec fn json_quoted(s: Seq<char>) -> Seq<char>;

/// Relies on `json::stringify` applied to a `&str`: it renders the string as
/// a JSON string literal, and the result depends on the string alone.
#[verifier::external_body]
fn quote(s: &str) -> (r: String)
    ensures
        r@ == json_quoted(s@),
{
    json::stringify(s)
}

/// `parts` separated by commas.
pub open spec fn join(parts: Seq<Seq<char>>) -> Seq<char>
    decreases parts.len(),
{
    if parts.len() == 0 {
        Seq::empty()
    } else if parts.len() == 1 {
        parts[0]
    } else {
        join(parts.drop_last()) + ","@ + parts.last()
    }
}

/// The text of a field: `null`, or the quoted string.
pub open spec fn field_text(f: FieldModel) -> Seq<char> {
    match f {
        None => "null"@,
        Some(s) => json_quoted(s),
    }
}

/// The text of one member of an object: quoted key, colon, value.
pub open spec fn member_text(k: Seq<char>, value_text: Seq<char>) -> Seq<char> {
    json_quoted(k) + ":"@ + value_text
}

/// The text of a flat object.
pub open spec fn object_text(o: ObjectModel) -> Seq<char> {
    "{"@ + join(o.map_values(|e: (Seq<char>, FieldModel)| member_text(e.0, field_text(e.1)))) + "}"@
}

/// The text of a document: an array of objects, or an object of objects.
pub open spec fn doc_text(d: DocModel) -> Seq<char> {
    match d {
        DocModel::Array(a) => "["@ + join(a.map_values(|o: ObjectModel| object_text(o))) + "]"@,
        DocModel::Keyed(e) => "{"@ + join(
            e.map_values(|e: (Seq<char>, ObjectModel)| member_text(e.0, object_text(e.1))),
        ) + "}"@,
    }
}

/// Joining one more part adds a comma before it, unless it is the first.
proof fn lemma_join_step(parts: Seq<Seq<char>>, i: int)
    requires
        0 <= i < parts.len(),
    ensures
        join(parts.take(i + 1)) == if i == 0 {
            parts[0]
        } else {
            join(parts.take(i)) + ","@ + parts[i]
        },
{
    assert(parts.take(i + 1).drop_last() =~= parts.take(i));
    assert(parts.take(i + 1).last() == parts[i]);
}

fn write_field(out: &mut String, f: &FieldValue)
    ensures
        final(out)@ == old(out)@ + field_text(f@),
{
    match f {
        FieldValue::Null => out.append("null"),
        FieldValue::Text(s) => {
            let q = quote(s.as_str());
            out.append(q.as_str());
        },
    }
}

fn write_key(out: &mut String, k: &String)
    ensures
        final(out)@ == old(out)@ + json_quoted(k@) + ":"@,
{
    let q = quote(k.as_str());
    out.append(q.as_str());
    out.append(":");
}

fn write_object(out: &mut String, o: &JsonObject)
    ensures
        final(out)@ == old(out)@ + object_text(o@),
{
    let ghost start = out@;
    let ghost parts = o@.map_values(|e: (Seq<char>, FieldModel)| member_text(e.0, field_text(e.1)));
    out.append("{");
    let mut i: usize = 0;
    assert(parts.take(0) =~= Seq::<Seq<char>>::empty());
    while i < o.entries.len()
        invariant
            i <= o.entries.len(),
            parts == o@.map_values(|e: (Seq<char>, FieldModel)| member_text(e.0, field_text(e.1))),
            out@ == start + "{"@ + join(parts.take(i as int)),
        decreases o.entries.len() - i,
    {
        if i > 0 {
            out.append(",");
        }
        write_key(out, &o.entries[i].0);
        write_field(out, &o.entries[i].1);
        proof {
            lemma_join_step(parts, i as int);
            assert(parts[i as int] == member_text(o.entries@[i as int].0@, field_text(o.entries@[i as int].1@)));
            assert(out@ =~= start + "{"@ + join(parts.take(i + 1)));
        }
        i += 1;
    }
    assert(parts.take(i as int) =~= parts);
    out.append("}");
    assert(out@ =~= start + object_text(o@));
}

impl JsonObject {
    /// The object as compact JSON text.
    pub fn to_json_string(&self) -> (r: String)
        ensures
            r@ == object_text(self@),
    {
        let mut out = String::new();
        write_object(&mut out, self);
        assert(out@ =~= object_text(self@));
        out
    }
}

impl Document {
    /// The document as compact JSON text.
    pub fn to_json_string(&self) -> (r: String)
        ensures
            r@ == doc_text(self@),
    {
        let mut out = String::new();
        match self {
            Document::Array(a) => {
                let ghost parts = a@.map_values(|o: JsonObject| o@).map_values(
                    |o: ObjectModel| object_text(o),
                );
                out.append("[");
                let mut i: usize = 0;
                assert(parts.take(0) =~= Seq::<Seq<char>>::empty());
                while i < a.len()
                    invariant
                        i <= a.len(),
                        parts == a@.map_values(|o: JsonObject| o@).map_values(
                            |o: ObjectModel| object_text(o),
                        ),
                        out@ == "["@ + join(parts.take(i as int)),
                    decreases a.len() - i,
                {
                    if i > 0 {
                        out.append(",");
                    }
                    write_object(&mut out, &a[i]);
                    proof {
                        lemma_join_step(parts, i as int);
                        assert(out@ =~= "["@ + join(parts.take(i + 1)));
                    }
                    i += 1;
                }
                assert(parts.take(i as int) =~= parts);
                out.append("]");
                assert(out@ =~= doc_text(self@));
            },
            Document::Keyed(e) => {
                let ghost parts = self@->Keyed_0.map_values(
                    |e: (Seq<char>, ObjectModel)| member_text(e.0, object_text(e.1)),
                );
                out.append("{");
                let mut i: usize = 0;
                assert(parts.take(0) =~= Seq::<Seq<char>>::empty());
                while i < e.len()
                    invariant
                        i <= e.len(),
                        self@ == DocModel::Keyed(crate::entries::view_entries(e@)),
                        parts == self@->Keyed_0.map_values(
                            |e: (Seq<char>, ObjectModel)| member_text(e.0, object_text(e.1)),
                        ),
                        out@ == "{"@ + join(parts.take(i as int)),
                    decreases e.len() - i,
                {
                    if i > 0 {
                        out.append(",");
                    }
                    write_key(&mut out, &e[i].0);
                    write_object(&mut out, &e[i].1);
                    proof {
                        lemma_join_step(parts, i as int);
                        assert(out@ =~= "{"@ + join(parts.take(i + 1)));
                    }
                    i += 1;
                }
                assert(parts.take(i as int) =~= parts);
                out.append("}");
                assert(out@ =~= doc_text(self@));
            },
        }
        out
    }
}

} // verus!
