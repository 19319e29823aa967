//! A small JSON-like value model.
//!
//! Step inputs, step outputs and audit details are JSON-shaped data. The
//! orchestration core only ever reads scalar leaves (strings, integers,
//! booleans) and walks object fields, so the model carries exactly that:
//! numbers are signed 64-bit integers, objects are association lists in
//! insertion order.

use vstd::prelude::*;
use crate::strutil::str_eq;

verus! {

/// Mathematical model of a JSON value.
pub enum JsonSpec {
    Null,
    Bool(bool),
    Int(int),
    Str(Seq<char>),
    Arr(Seq<JsonSpec>),
    Obj(Seq<(Seq<char>, JsonSpec)>),
}

/// A JSON-like value: the unit of data flowing between steps.
#[derive(Debug)]
pub enum JsonValue {
    Null,
    Bool(bool),
    Int(i64),
    Str(String),
    Arr(Vec<JsonValue>),
    Obj(Vec<(String, JsonValue)>),
}

/// The model of a [`JsonValue`].
pub open spec fn jv_model(v: JsonValue) -> JsonSpec
    decreases v, 1int,
{
    match v {
        JsonValue::Null => JsonSpec::Null,
        JsonValue::Bool(b) => JsonSpec::Bool(b),
        JsonValue::Int(i) => JsonSpec::Int(i as int),
        JsonValue::Str(s) => JsonSpec::Str(s@),
        JsonValue::Arr(items) => JsonSpec::Arr(jv_model_seq(items@)),
        JsonValue::Obj(fields) => JsonSpec::Obj(jv_model_fields(fields@)),
    }
}

/// The models of a sequence of values.
pub open spec fn jv_model_seq(s: Seq<JsonValue>) -> Seq<JsonSpec>
    decreases s, 0int,
{
    Seq::new(s.len(), |i: int| if 0 <= i < s.len() {
        jv_model(s[i])
    } else {
        JsonSpec::Null
    })
}

/// The models of an object's field list.
pub open spec fn jv_model_fields(s: Seq<(String, JsonValue)>) -> Seq<(Seq<char>, JsonSpec)>
    decreases s, 0int,
{
    Seq::new(s.len(), |i: int| if 0 <= i < s.len() {
        (s[i].0@, jv_model(s[i].1))
    } else {
        (Seq::empty(), JsonSpec::Null)
    })
}

/// A model sequence is as long as its value sequence.
pub broadcast proof fn lemma_jv_model_seq_len(s: Seq<JsonValue>)
    ensures
        #[trigger] jv_model_seq(s).len() == s.len(),
{
}

/// A model sequence holds the models of its values, position by position.
pub broadcast proof fn lemma_jv_model_seq_index(s: Seq<JsonValue>, k: int)
    requires
        0 <= k < s.len(),
    ensures
        #[trigger] jv_model_seq(s)[k] == jv_model(s[k]),
{
}

/// A field-list model is as long as its field list.
pub broadcast proof fn lemma_jv_model_fields_len(s: Seq<(String, JsonValue)>)
    ensures
        #[trigger] jv_model_fields(s).len() == s.len(),
{
}

/// A field-list model holds key views and value models, position by position.
pub broadcast proof fn lemma_jv_model_fields_index(s: Seq<(String, JsonValue)>, k: int)
    requires
        0 <= k < s.len(),
    ensures
        #[trigger] jv_model_fields(s)[k] == (s[k].0@, jv_model(s[k].1)),
{
}

impl View for JsonValue {
    type V = JsonSpec;

    open spec fn view(&self) -> JsonSpec {
        jv_model(*self)
    }
}

/// The field list of an object value; empty for every other value.
pub open spec fn obj_fields(v: JsonSpec) -> Seq<(Seq<char>, JsonSpec)> {
    match v {
        JsonSpec::Obj(fields) => fields,
        _ => Seq::empty(),
    }
}

/// The first binding of `key` in a field list, if any.
pub open spec fn first_binding(fields: Seq<(Seq<char>, JsonSpec)>, key: Seq<char>) -> Option<JsonSpec>
    decreases fields.len(),
{
    if fields.len() == 0 {
        None
    } else if fields[0].0 == key {
        Some(fields[0].1)
    } else {
        first_binding(fields.drop_first(), key)
    }
}

/// What looking a key up in a JSON value yields: the first binding of the
/// key when the value is an object that has it, `None` otherwise.
pub open spec fn spec_get_field(v: JsonSpec, key: Seq<char>) -> Option<JsonSpec> {
    first_binding(obj_fields(v), key)
}

/// Appending an entry of a fresh key makes it that key's first binding.
pub proof fn lemma_first_binding_push_absent(
    fields: Seq<(Seq<char>, JsonSpec)>,
    key: Seq<char>,
    v: JsonSpec,
)
    requires
        first_binding(fields, key) is None,
    ensures
        first_binding(fields.push((key, v)), key) == Option::Some(v),
    decreases fields.len(),
{
    reveal_with_fuel(first_binding, 3);
    if fields.len() == 0 {
        assert(fields.push((key, v))[0] == (key, v));
    } else {
        assert(fields.push((key, v))[0] == fields[0]);
        if fields[0].0 == key {
        } else {
            assert(fields.push((key, v)).drop_first() =~= fields.drop_first().push((key, v)));
            lemma_first_binding_push_absent(fields.drop_first(), key, v);
        }
    }
}

/// Appending an entry leaves every other key's first binding alone, and a
/// found binding in place.
pub proof fn lemma_first_binding_push_other(
    fields: Seq<(Seq<char>, JsonSpec)>,
    key: Seq<char>,
    entry: (Seq<char>, JsonSpec),
)
    requires
        first_binding(fields, key) is Some || entry.0 != key,
    ensures
        first_binding(fields.push(entry), key) == first_binding(fields, key),
    decreases fields.len(),
{
    reveal_with_fuel(first_binding, 3);
    if fields.len() == 0 {
        assert(fields.push(entry)[0] == entry);
        assert(fields.push(entry).drop_first()
            =~= Seq::<(Seq<char>, JsonSpec)>::empty());
    } else {
        assert(fields.push(entry)[0] == fields[0]);
        if fields[0].0 == key {
        } else {
            assert(fields.push(entry).drop_first() =~= fields.drop_first().push(entry));
            lemma_first_binding_push_other(fields.drop_first(), key, entry);
        }
    }
}

pub proof fn lemma_first_binding_skip(fields: Seq<(Seq<char>, JsonSpec)>, key: Seq<char>, i: int)
    requires
        0 <= i < fields.len(),
        fields[i].0 != key,
    ensures
        first_binding(fields.skip(i), key) == first_binding(fields.skip(i + 1), key),
{
    assert(fields.skip(i).drop_first() =~= fields.skip(i + 1));
}

/// A structural copy of a value.
fn clone_jv(v: &JsonValue) -> (r: JsonValue)
    ensures
        r@ == v@,
    decreases *v, 1int,
{
    match v {
        JsonValue::Null => JsonValue::Null,
        JsonValue::Bool(b) => JsonValue::Bool(*b),
        JsonValue::Int(i) => JsonValue::Int(*i),
        JsonValue::Str(s) => JsonValue::Str(s.clone()),
        JsonValue::Arr(items) => {
            let out = clone_jv_vec(items);
            proof {
                broadcast use lemma_jv_model_seq_len, lemma_jv_model_seq_index;
                assert(jv_model_seq(out@) =~= jv_model_seq(items@));
            }
            JsonValue::Arr(out)
        },
        JsonValue::Obj(fields) => {
            let out = clone_jv_fields(fields);
            proof {
                broadcast use lemma_jv_model_fields_len, lemma_jv_model_fields_index;
                assert(jv_model_fields(out@) =~= jv_model_fields(fields@));
            }
            JsonValue::Obj(out)
        },
    }
}

/// Structural copies of a vector of values.
fn clone_jv_vec(items: &Vec<JsonValue>) -> (r: Vec<JsonValue>)
    ensures
        r@.len() == items@.len(),
        forall|k: int| 0 <= k < items@.len() ==> #[trigger] jv_model(r@[k]) == jv_model(items@[k]),
    decreases items@, 0int,
{
    let n = items.len();
    let mut out: Vec<JsonValue> = Vec::new();
    let mut i: usize = 0;
    while i < n
        invariant
            0 <= i <= n,
            n == items@.len(),
            out@.len() == i,
            forall|k: int| 0 <= k < i ==> #[trigger] jv_model(out@[k]) == jv_model(items@[k]),
        decreases n - i,
    {
        out.push(clone_jv(&items[i]));
        i = i + 1;
    }
    out
}

/// Structural copies of an object's field list.
fn clone_jv_fields(fields: &Vec<(String, JsonValue)>) -> (r: Vec<(String, JsonValue)>)
    ensures
        r@.len() == fields@.len(),
        forall|k: int| 0 <= k < fields@.len() ==> #[trigger] r@[k].0@ == fields@[k].0@
            && jv_model(r@[k].1) == jv_model(fields@[k].1),
    decreases fields@, 0int,
{
    let n = fields.len();
    let mut out: Vec<(String, JsonValue)> = Vec::new();
    let mut i: usize = 0;
    while i < n
        invariant
            0 <= i <= n,
            n == fields@.len(),
            out@.len() == i,
            forall|k: int| 0 <= k < i ==> #[trigger] out@[k].0@ == fields@[k].0@
                && jv_model(out@[k].1) == jv_model(fields@[k].1),
        decreases n - i,
    {
        let key = fields[i].0.clone();
        let val = clone_jv(&fields[i].1);
        out.push((key, val));
        i = i + 1;
    }
    out
}

impl Clone for JsonValue {
    /// A structural copy: the clone has the same model as the source.
    fn clone(&self) -> (r: Self)
        ensures
            r@ == self@,
    {
        clone_jv(self)
    }
}

impl JsonValue {
    /// The characters of a string value.
    pub fn as_str(&self) -> (r: Option<&String>)
        ensures
            match r {
                Some(s) => self@ == JsonSpec::Str(s@),
                None => !(self@ is Str),
            },
    {
        match self {
            JsonValue::Str(s) => Some(s),
            _ => None,
        }
    }

    /// The integer of a numeric value.
    pub fn as_i64(&self) -> (r: Option<i64>)
        ensures
            match r {
                Some(i) => self@ == JsonSpec::Int(i as int),
                None => !(self@ is Int),
            },
    {
        match self {
            JsonValue::Int(i) => Some(*i),
            _ => None,
        }
    }

    /// The boolean of a boolean value.
    pub fn as_bool(&self) -> (r: Option<bool>)
        ensures
            match r {
                Some(b) => self@ == JsonSpec::Bool(b),
                None => !(self@ is Bool),
            },
    {
        match self {
            JsonValue::Bool(b) => Some(*b),
            _ => None,
        }
    }

    /// Looks up a field of an object value; `None` on a non-object or a
    /// missing key. Returns the first binding of the key.
    pub fn get_field<'a>(&'a self, key: &str) -> (r: Option<&'a JsonValue>)
        ensures
            match r {
                Some(v) => spec_get_field(self@, key@) == Some(v@),
                None => spec_get_field(self@, key@) is None,
            },
    {
        match self {
            JsonValue::Obj(fields) => {
                let ghost fs = obj_fields(self@);
                let n = fields.len();
                let mut i: usize = 0;
                proof {
                    assert(self@ == JsonSpec::Obj(jv_model_fields(fields@)));
                    assert(fs == jv_model_fields(fields@));
                    assert(forall|k: int| 0 <= k < fields@.len()
                        ==> #[trigger] jv_model_fields(fields@)[k] == (fields@[k].0@, jv_model(fields@[k].1)));
                    assert(fs =~= fs.skip(0));
                }
                while i < n
                    invariant
                        0 <= i <= n,
                        n == fields@.len(),
                        fs == obj_fields(self@),
                        fs.len() == n,
                        forall|k: int| 0 <= k < n ==> fs[k] == (fields@[k].0@, fields@[k].1@),
                        first_binding(fs, key@) == first_binding(fs.skip(i as int), key@),
                    decreases n - i,
                {
                    if str_eq(fields[i].0.as_str(), key) {
                        proof {
                            assert(fs.skip(i as int)[0] == fs[i as int]);
                        }
                        return Some(&fields[i].1);
                    }
                    proof {
                        assert(fs.skip(i as int)[0] == fs[i as int]);
                        lemma_first_binding_skip(fs, key@, i as int);
                    }
                    i = i + 1;
                }
                None
            },
            JsonValue::Null => None,
            JsonValue::Bool(_) => None,
            JsonValue::Int(_) => None,
            JsonValue::Str(_) => None,
            JsonValue::Arr(_) => None,
        }
    }
}

} // verus!
