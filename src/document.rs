//! The JSON document that a conversion builds, and its mathematical model.
//!
//! Every converted field is a JSON string or JSON null, every row becomes a
//! flat JSON object, and the document is either an array of such objects or
//! an object that maps each row's key to such an object.

use vstd::prelude::*;
use crate::entries::{set_entry, set_entry_exec, unique_keys, view_entries, lemma_set_entry_keys};

verus! {

/// The model of a field: `None` for JSON null, `Some(s)` for the JSON string `s`.
pub type FieldModel = Option<Seq<char>>;

/// The model of a flat JSON object: its entries in order.
pub type ObjectModel = Seq<(Seq<char>, FieldModel)>;

/// The model of a document.
pub enum DocModel {
    /// A JSON array of flat objects.
    Array(Seq<ObjectModel>),
    /// A JSON object whose values are flat objects.
    Keyed(Seq<(Seq<char>, ObjectModel)>),
}

impl DocModel {
    /// Keys are distinct in every object of the document, the outer one included.
    pub open spec fn wf(self) -> bool {
        match self {
            DocModel::Array(a) => forall|i: int| 0 <= i < a.len() ==> unique_keys(#[trigger] a[i]),
            DocModel::Keyed(e) => unique_keys(e) && forall|i: int|
                0 <= i < e.len() ==> unique_keys(#[trigger] e[i].1),
        }
    }

    pub open spec fn is_keyed(self) -> bool {
        self is Keyed
    }
}

/// The value of a converted field.
#[derive(Debug)]
pub enum FieldValue {
    Null,
    Text(String),
}

impl View for FieldValue {
    type V = FieldModel;

    open spec fn view(&self) -> FieldModel {
        match self {
            FieldValue::Null => None,
            FieldValue::Text(s) => Some(s@),
        }
    }
}

/// A flat JSON object with string or null values.
#[derive(Debug)]
pub struct JsonObject {
    pub entries: Vec<(String, FieldValue)>,
}

impl View for JsonObject {
    type V = ObjectModel;

    open spec fn view(&self) -> ObjectModel {
        view_entries(self.entries@)
    }
}

impl JsonObject {
    /// The empty object.
    pub fn new() -> (r: JsonObject)
        ensures
            r@ == Seq::<(Seq<char>, FieldModel)>::empty(),
    {
        let r = JsonObject { entries: Vec::new() };
        assert(r@ =~= Seq::<(Seq<char>, FieldModel)>::empty());
        r
    }

    /// Binds `key` to `value`, in place where the key is present, at the end where not.
    pub fn set(&mut self, key: String, value: FieldValue)
        requires
            unique_keys(old(self)@),
        ensures
            final(self)@ == set_entry(old(self)@, key@, value@),
            unique_keys(final(self)@),
    {
        proof {
            lemma_set_entry_keys(self@, key@, value@);
        }
        set_entry_exec(&mut self.entries, key, value);
    }
}

/// The document that a conversion accumulates.
#[derive(Debug)]
pub enum Document {
    /// A JSON array with one object per row.
    Array(Vec<JsonObject>),
    /// A JSON object that maps each row's key to an object of its other fields.
    Keyed(Vec<(String, JsonObject)>),
}

impl View for Document {
    type V = DocModel;

    open spec fn view(&self) -> DocModel {
        match self {
            Document::Array(a) => DocModel::Array(a@.map_values(|o: JsonObject| o@)),
            Document::Keyed(e) => DocModel::Keyed(view_entries(e@)),
        }
    }
}

impl Document {
    /// The empty JSON array.
    pub fn new_array() -> (r: Document)
        ensures
            r@ == DocModel::Array(Seq::empty()),
            r@.wf(),
    {
        let a: Vec<JsonObject> = Vec::new();
        assert(a@.map_values(|o: JsonObject| o@) =~= Seq::empty());
        let r = Document::Array(a);
        r
    }

    /// The empty JSON object.
    pub fn new_object() -> (r: Document)
        ensures
            r@ == DocModel::Keyed(Seq::empty()),
            r@.wf(),
    {
        let e: Vec<(String, JsonObject)> = Vec::new();
        assert(view_entries(e@) =~= Seq::empty());
        let r = Document::Keyed(e);
        assert(r@ == DocModel::Keyed(Seq::empty()));
        r
    }

    /// The empty document of the given shape.
    pub fn new_for(keyed: bool) -> (r: Document)
        ensures
            r@ == empty_doc(keyed),
            r@.wf(),
    {
        if keyed {
            Document::new_object()
        } else {
            Document::new_array()
        }
    }

    /// Whether this document is a JSON object rather than an array.
    pub fn is_keyed(&self) -> (r: bool)
        ensures
            r == self@.is_keyed(),
    {
        match self {
            Document::Array(_) => false,
            Document::Keyed(_) => true,
        }
    }

    /// Appends `o` to an array document.
    pub fn push(&mut self, o: JsonObject)
        requires
            !old(self)@.is_keyed(),
            old(self)@.wf(),
            unique_keys(o@),
        ensures
            final(self)@ == DocModel::Array(old(self)@->Array_0.push(o@)),
            final(self)@.wf(),
    {
        match self {
            Document::Array(a) => {
                let ghost before = a@;
                a.push(o);
                assert(a@.map_values(|x: JsonObject| x@) =~= before.map_values(
                    |x: JsonObject| x@,
                ).push(o@));
            },
            Document::Keyed(_) => {},
        }
    }

    /// Binds `key` to `o` in a keyed document, replacing any earlier entry for it.
    pub fn set(&mut self, key: String, o: JsonObject)
        requires
            old(self)@.is_keyed(),
            old(self)@.wf(),
            unique_keys(o@),
        ensures
            final(self)@ == DocModel::Keyed(set_entry(old(self)@->Keyed_0, key@, o@)),
            final(self)@.wf(),
    {
        match self {
            Document::Array(_) => {},
            Document::Keyed(e) => {
                let ghost before = view_entries(e@);
                let ghost kv = key@;
                let ghost ov = o@;
                proof {
                    lemma_set_entry_keys(before, kv, ov);
                }
                set_entry_exec(e, key, o);
                let ghost after = view_entries(e@);
                assert forall|i: int| 0 <= i < after.len() implies unique_keys(
                    #[trigger] after[i].1,
                ) by {
                    if i < before.len() && after[i] == before[i] {
                    } else {
                        assert(after[i].1 == ov);
                    }
                }
            },
        }
    }
}

/// The empty document: an object in keyed mode, an array otherwise.
pub open spec fn empty_doc(keyed: bool) -> DocModel {
    if keyed {
        DocModel::Keyed(Seq::empty())
    } else {
        DocModel::Array(Seq::empty())
    }
}

} // verus!
