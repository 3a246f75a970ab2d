//! The JSON data model: the executable value and its mathematical model.

use vstd::prelude::*;

verus! {

/// A JSON number. Integers keep their exact value; a floating-point number is
/// carried as the bit pattern of its IEEE-754 double, which this library never
/// interprets.
#[derive(Clone, Copy, Debug, PartialEq, Eq, Structural)]
pub enum JsonNumber {
    /// A non-negative integer.
    PosInt(u64),
    /// A negative integer.
    NegInt(i64),
    /// A floating-point number, as the bits of an `f64`.
    Float(u64),
}

/// The mathematical model of a JSON value: sequences in place of vectors and
/// character sequences in place of strings.
pub enum Json {
    Null,
    Bool(bool),
    Number(JsonNumber),
    String(Seq<char>),
    Array(Seq<Json>),
    /// Entries in insertion order.
    Object(Seq<(Seq<char>, Json)>),
}

/// A JSON value.
#[derive(Debug, PartialEq)]
pub enum JsonValue {
    Null,
    Bool(bool),
    Number(JsonNumber),
    String(String),
    Array(Vec<JsonValue>),
    /// Entries in insertion order. Lookups go by the first entry whose key
    /// matches, and the operations of this library never add a second entry
    /// under a key that is present.
    Object(Vec<(String, JsonValue)>),
}

impl JsonValue {
    pub open spec fn view(&self) -> Json
        decreases self,
    {
        match self {
            JsonValue::Null => Json::Null,
            JsonValue::Bool(b) => Json::Bool(*b),
            JsonValue::Number(n) => Json::Number(*n),
            JsonValue::String(s) => Json::String(s@),
            JsonValue::Array(a) => Json::Array(
                Seq::new(a@.len(), |i: int| if 0 <= i < a@.len() { a@[i].view() } else { Json::Null }),
            ),
            JsonValue::Object(m) => Json::Object(
                Seq::new(
                    m@.len(),
                    |i: int|
                        if 0 <= i < m@.len() {
                            (m@[i].0@, m@[i].1.view())
                        } else {
                            (Seq::empty(), Json::Null)
                        },
                ),
            ),
        }
    }
}

} // verus!

verus! {

/// The kind of a JSON value.
#[derive(Clone, Copy, Debug, PartialEq, Eq, Structural)]
pub enum ValueKind {
    Null,
    Bool,
    Number,
    String,
    Array,
    Object,
}

pub open spec fn kind_of(j: Json) -> ValueKind {
    match j {
        Json::Null => ValueKind::Null,
        Json::Bool(_) => ValueKind::Bool,
        Json::Number(_) => ValueKind::Number,
        Json::String(_) => ValueKind::String,
        Json::Array(_) => ValueKind::Array,
        Json::Object(_) => ValueKind::Object,
    }
}

/// The models of a sequence of values.
pub open spec fn items_view(a: Seq<JsonValue>) -> Seq<Json> {
    Seq::new(a.len(), |i: int| a[i]@)
}

/// The models of a sequence of mapping entries.
pub open spec fn entries_view(es: Seq<(String, JsonValue)>) -> Seq<(Seq<char>, Json)> {
    Seq::new(es.len(), |i: int| (es[i].0@, es[i].1@))
}

/// The model of an array is the sequence of its items' models.
pub broadcast proof fn lemma_array_view(a: Vec<JsonValue>)
    ensures
        #[trigger] JsonValue::Array(a)@ == Json::Array(items_view(a@)),
{
    assert(items_view(a@) =~= match JsonValue::Array(a)@ {
        Json::Array(s) => s,
        _ => seq![],
    });
}

/// The model of a mapping is the sequence of its entries' models.
pub broadcast proof fn lemma_object_view(es: Vec<(String, JsonValue)>)
    ensures
        #[trigger] JsonValue::Object(es)@ == Json::Object(entries_view(es@)),
{
    assert(entries_view(es@) =~= match JsonValue::Object(es)@ {
        Json::Object(s) => s,
        _ => seq![],
    });
}

/// Replacing one entry replaces that entry's model.
pub broadcast proof fn lemma_entries_update(es: Seq<(String, JsonValue)>, i: int, e: (String, JsonValue))
    requires
        0 <= i < es.len(),
    ensures
        #[trigger] entries_view(es.update(i, e)) == entries_view(es).update(i, (e.0@, e.1@)),
        e.0@ == es[i].0@ && e.1@ == es[i].1@ ==> entries_view(es.update(i, e)) == entries_view(es),
{
    assert(entries_view(es.update(i, e)) =~= entries_view(es).update(i, (e.0@, e.1@)));
    if e.0@ == es[i].0@ && e.1@ == es[i].1@ {
        assert(entries_view(es.update(i, e)) =~= entries_view(es));
    }
}

/// Replacing one item replaces that item's model.
pub broadcast proof fn lemma_items_update(a: Seq<JsonValue>, i: int, x: JsonValue)
    requires
        0 <= i < a.len(),
    ensures
        #[trigger] items_view(a.update(i, x)) == items_view(a).update(i, x@),
        x@ == a[i]@ ==> items_view(a.update(i, x)) == items_view(a),
{
    assert(items_view(a.update(i, x)) =~= items_view(a).update(i, x@));
    if x@ == a[i]@ {
        assert(items_view(a.update(i, x)) =~= items_view(a));
    }
}

/// Removing one entry removes that entry's model.
pub broadcast proof fn lemma_entries_remove(es: Seq<(String, JsonValue)>, i: int)
    requires
        0 <= i < es.len(),
    ensures
        #[trigger] entries_view(es.remove(i)) == entries_view(es).remove(i),
{
    assert(entries_view(es.remove(i)) =~= entries_view(es).remove(i));
}

/// Removing one item removes that item's model.
pub broadcast proof fn lemma_items_remove(a: Seq<JsonValue>, i: int)
    requires
        0 <= i < a.len(),
    ensures
        #[trigger] items_view(a.remove(i)) == items_view(a).remove(i),
{
    assert(items_view(a.remove(i)) =~= items_view(a).remove(i));
}

pub broadcast group group_json_view {
    lemma_entries_remove,
    lemma_items_remove,
    lemma_array_view,
    lemma_object_view,
    lemma_entries_update,
    lemma_items_update,
}

impl JsonValue {
    /// The kind of this value.
    pub fn kind(&self) -> (r: ValueKind)
        ensures
            r == kind_of(self@),
    {
        match self {
            JsonValue::Null => ValueKind::Null,
            JsonValue::Bool(_) => ValueKind::Bool,
            JsonValue::Number(_) => ValueKind::Number,
            JsonValue::String(_) => ValueKind::String,
            JsonValue::Array(_) => ValueKind::Array,
            JsonValue::Object(_) => ValueKind::Object,
        }
    }

    /// A new empty mapping.
    pub fn empty_object() -> (r: JsonValue)
        ensures
            r@ == Json::Object(seq![]),
    {
        let es: Vec<(String, JsonValue)> = Vec::new();
        proof {
            lemma_object_view(es);
        }
        let r = JsonValue::Object(es);
        assert(r@ == Json::Object(seq![])) by {
            assert(entries_view(Seq::<(String, JsonValue)>::empty()) =~= seq![]);
        }
        r
    }
}

impl Clone for JsonValue {
    fn clone(&self) -> (r: JsonValue)
        ensures
            r@ == self@,
        decreases self@,
    {
        match self {
            JsonValue::Null => JsonValue::Null,
            JsonValue::Bool(b) => JsonValue::Bool(*b),
            JsonValue::Number(n) => JsonValue::Number(*n),
            JsonValue::String(s) => JsonValue::String(s.clone()),
            JsonValue::Array(a) => {
                proof {
                    lemma_array_view(*a);
                }
                let mut out: Vec<JsonValue> = Vec::new();
                let mut i: usize = 0;
                while i < a.len()
                    invariant
                        self@ == Json::Array(items_view(a@)),
                        i <= a@.len(),
                        out@.len() == i,
                        forall|k: int| 0 <= k < i ==> #[trigger] out@[k]@ == a@[k]@,
                    decreases a@.len() - i,
                {
                    assert(decreases_to!(self@ => self@->Array_0[i as int]));
                    out.push(a[i].clone());
                    i = i + 1;
                }
                assert(items_view(out@) =~= items_view(a@));
                proof {
                    lemma_array_view(out);
                }
                JsonValue::Array(out)
            },
            JsonValue::Object(es) => {
                proof {
                    lemma_object_view(*es);
                }
                let mut out: Vec<(String, JsonValue)> = Vec::new();
                let mut i: usize = 0;
                while i < es.len()
                    invariant
                        self@ == Json::Object(entries_view(es@)),
                        i <= es@.len(),
                        out@.len() == i,
                        forall|k: int| 0 <= k < i ==> #[trigger] out@[k].0@ == es@[k].0@ && out@[k].1@ == es@[k].1@,
                    decreases es@.len() - i,
                {
                    assert(decreases_to!(self@ => self@->Object_0[i as int].1));
                    let key = es[i].0.clone();
                    let value = es[i].1.clone();
                    out.push((key, value));
                    i = i + 1;
                }
                assert(entries_view(out@) =~= entries_view(es@));
                proof {
                    lemma_object_view(out);
                }
                JsonValue::Object(out)
            },
        }
    }
}

} // verus!
