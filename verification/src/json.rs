//! A tagged model of the JSON trees that the remote APIs exchange.
//! The I/O shell converts wire JSON into this type and back; every
//! function of the library that reads or builds a response body works
//! on it, so the parsing logic itself is verified. Numbers are carried
//! as 64-bit integers: the fields this system reads are identifiers,
//! quantities and flags, never fractions.

use vstd::prelude::*;

use crate::text::str_eq;

verus! {

broadcast use
    vstd::std_specs::vec::group_vec_axioms,
    vstd::seq::axiom_seq_index_decreases,
    vstd::seq::axiom_seq_subrange_decreases;

/// One JSON value.
#[derive(Debug)]
pub enum JsonValue {
    Null,
    Bool(bool),
    Int(i64),
    Str(String),
    Array(Vec<JsonValue>),
    Object(Vec<(String, JsonValue)>),
}

/// Mathematical image of a [`JsonValue`].
#[verifier::ext_equal]
pub ghost enum JsonSpec {
    Null,
    Bool(bool),
    Int(int),
    Str(Seq<char>),
    Array(Seq<JsonSpec>),
    Object(Seq<(Seq<char>, JsonSpec)>),
}

/// Mathematical image of one JSON value.
pub open spec fn spec_json_view(v: JsonValue) -> JsonSpec
    decreases v,
{
    match v {
        JsonValue::Null => JsonSpec::Null,
        JsonValue::Bool(b) => JsonSpec::Bool(b),
        JsonValue::Int(n) => JsonSpec::Int(n as int),
        JsonValue::Str(s) => JsonSpec::Str(s@),
        JsonValue::Array(xs) => JsonSpec::Array(spec_json_views(xs@)),
        JsonValue::Object(fs) => JsonSpec::Object(spec_json_field_views(fs@)),
    }
}

/// Images of the elements of an array, in order.
pub open spec fn spec_json_views(xs: Seq<JsonValue>) -> Seq<JsonSpec>
    decreases xs,
{
    if xs.len() == 0 {
        Seq::empty()
    } else {
        seq![spec_json_view(xs.first())] + spec_json_views(xs.drop_first())
    }
}

/// Images of the fields of an object, in order.
pub open spec fn spec_json_field_views(fs: Seq<(String, JsonValue)>) -> Seq<(Seq<char>, JsonSpec)>
    decreases fs,
{
    if fs.len() == 0 {
        Seq::empty()
    } else {
        seq![(fs.first().0@, spec_json_view(fs.first().1))] + spec_json_field_views(
            fs.drop_first(),
        )
    }
}

/// The element images are the image of each element.
pub proof fn lemma_json_views_map(xs: Seq<JsonValue>)
    ensures
        spec_json_views(xs) =~= xs.map_values(|x: JsonValue| spec_json_view(x)),
    decreases xs.len(),
{
    if xs.len() > 0 {
        lemma_json_views_map(xs.drop_first());
    }
}

/// The field images are the image of each field.
pub proof fn lemma_json_field_views_map(fs: Seq<(String, JsonValue)>)
    ensures
        spec_json_field_views(fs) =~= fs.map_values(
            |f: (String, JsonValue)| (f.0@, spec_json_view(f.1)),
        ),
    decreases fs.len(),
{
    if fs.len() > 0 {
        lemma_json_field_views_map(fs.drop_first());
    }
}

impl View for JsonValue {
    type V = JsonSpec;

    open spec fn view(&self) -> JsonSpec {
        spec_json_view(*self)
    }
}

/// First value under a key in an object's field list.
pub open spec fn spec_lookup(fs: Seq<(Seq<char>, JsonSpec)>, key: Seq<char>) -> Option<JsonSpec>
    decreases fs.len(),
{
    if fs.len() == 0 {
        None
    } else if fs.first().0 == key {
        Some(fs.first().1)
    } else {
        spec_lookup(fs.drop_first(), key)
    }
}

/// Field access: the value under a key, when the value is an object
/// that has the key.
pub open spec fn spec_get(v: JsonSpec, key: Seq<char>) -> Option<JsonSpec> {
    match v {
        JsonSpec::Object(fs) => spec_lookup(fs, key),
        _ => None,
    }
}

impl JsonValue {
    /// Looks a key up in an object value.
    pub fn get<'a>(&'a self, key: &str) -> (r: Option<&'a JsonValue>)
        ensures
            match r {
                Some(x) => spec_get(self@, key@) == Some(x@),
                None => spec_get(self@, key@) is None,
            },
    {
        match self {
            JsonValue::Object(fs) => {
                proof {
                    assert(self@ == JsonSpec::Object(spec_json_field_views(fs@)));
                }
                let ghost fviews = self@->Object_0;
                proof {
                    lemma_json_field_views_map(fs@);
                    assert(fviews.skip(0) =~= fviews);
                }
                let mut i: usize = 0;
                while i < fs.len()
                    invariant
                        i <= fs@.len(),
                        self@ == JsonSpec::Object(fviews),
                        spec_get(self@, key@) == spec_lookup(fviews, key@),
                        fviews == fs@.map_values(
                            |f: (String, JsonValue)| (f.0@, spec_json_view(f.1)),
                        ),
                        fviews.len() == fs@.len(),
                        spec_lookup(fviews, key@) == spec_lookup(fviews.skip(i as int), key@),
                    decreases fs@.len() - i,
                {
                    proof {
                        let tail = fviews.skip(i as int);
                        assert(tail.len() > 0);
                        assert(tail.first() == fviews[i as int]);
                        assert(tail.drop_first() =~= fviews.skip(i + 1 as int));
                        assert(fviews[i as int] == (fs@[i as int].0@, spec_json_view(
                            fs@[i as int].1,
                        )));
                    }
                    if str_eq(fs[i].0.as_str(), key) {
                        proof {
                            assert(spec_lookup(fviews.skip(i as int), key@) == Some(
                                fviews[i as int].1,
                            ));
                            assert(self@ is Object);
                            assert(spec_get(self@, key@) == spec_lookup(fviews, key@));
                        }
                        return Some(&fs[i].1);
                    }
                    i += 1;
                }
                proof {
                    assert(fviews.skip(fs@.len() as int) =~= Seq::<(Seq<char>, JsonSpec)>::empty());
                }
                None
            },
            _ => None,
        }
    }

    /// The string contents, when the value is a string.
    pub fn as_str(&self) -> (r: Option<&str>)
        ensures
            match r {
                Some(s) => self@ == JsonSpec::Str(s@),
                None => !(self@ is Str),
            },
    {
        match self {
            JsonValue::Str(s) => Some(s.as_str()),
            _ => None,
        }
    }

    /// The integer contents, when the value is a number.
    pub fn as_i64(&self) -> (r: Option<i64>)
        ensures
            match r {
                Some(n) => self@ == JsonSpec::Int(n as int),
                None => !(self@ is Int),
            },
    {
        match self {
            JsonValue::Int(n) => Some(*n),
            _ => None,
        }
    }

    /// The integer contents, when the value is a nonnegative number.
    pub fn as_u64(&self) -> (r: Option<u64>)
        ensures
            match r {
                Some(n) => self@ == JsonSpec::Int(n as int),
                None => !(self@ is Int) || (self@ matches JsonSpec::Int(m) && m < 0),
            },
    {
        match self {
            JsonValue::Int(n) => if *n >= 0 {
                Some(*n as u64)
            } else {
                None
            },
            _ => None,
        }
    }

    /// The boolean contents, when the value is a boolean.
    pub fn as_bool(&self) -> (r: Option<bool>)
        ensures
            match r {
                Some(b) => self@ == JsonSpec::Bool(b),
                None => !(self@ is Bool),
            },
    {
        match self {
            JsonValue::Bool(b) => Some(*b),
            _ => None,
        }
    }

    /// The elements, when the value is an array.
    pub fn as_array(&self) -> (r: Option<&Vec<JsonValue>>)
        ensures
            match r {
                Some(xs) => self@ == JsonSpec::Array(xs@.map_values(|x: JsonValue| x@)),
                None => !(self@ is Array),
            },
    {
        match self {
            JsonValue::Array(xs) => {
                proof {
                    lemma_json_views_map(xs@);
                    assert(xs@.map_values(|x: JsonValue| spec_json_view(x)) =~= xs@.map_values(
                        |x: JsonValue| x@,
                    ));
                }
                Some(xs)
            },
            _ => None,
        }
    }

    /// Whether the value is `null`.
    pub fn is_null(&self) -> (r: bool)
        ensures
            r == (self@ is Null),
    {
        matches!(self, JsonValue::Null)
    }

    /// Whether the value is a string.
    pub fn is_string(&self) -> (r: bool)
        ensures
            r == (self@ is Str),
    {
        matches!(self, JsonValue::Str(_))
    }

    /// Whether the value is an array.
    pub fn is_array(&self) -> (r: bool)
        ensures
            r == (self@ is Array),
    {
        matches!(self, JsonValue::Array(_))
    }

    /// Builds a string value.
    pub fn string(s: &str) -> (r: JsonValue)
        ensures
            r@ == JsonSpec::Str(s@),
    {
        JsonValue::Str(String::from_str(s))
    }
}

/// An object under construction: a field list in insertion order.
pub struct JsonObject {
    pub fields: Vec<(String, JsonValue)>,
}

impl JsonObject {
    pub open spec fn fviews(&self) -> Seq<(Seq<char>, JsonSpec)> {
        self.fields@.map_values(|f: (String, JsonValue)| (f.0@, f.1@))
    }

    /// Starts an empty object.
    pub fn new() -> (r: JsonObject)
        ensures
            r.fviews() =~= Seq::<(Seq<char>, JsonSpec)>::empty(),
    {
        JsonObject { fields: Vec::new() }
    }

    /// Appends one field.
    pub fn push(&mut self, key: &str, value: JsonValue)
        ensures
            final(self).fviews() == old(self).fviews().push((key@, value@)),
    {
        let ghost before = self.fviews();
        self.fields.push((String::from_str(key), value));
        proof {
            assert(self.fviews() =~= before.push((key@, self.fields@.last().1@)));
        }
    }

    /// Closes the object into a value.
    pub fn build(self) -> (r: JsonValue)
        ensures
            r@ == JsonSpec::Object(self.fviews()),
    {
        let fields = self.fields;
        let r = JsonValue::Object(fields);
        proof {
            match &r {
                JsonValue::Object(fs) => {
                    lemma_json_field_views_map(fs@);
                    assert(fs@.map_values(|f: (String, JsonValue)| (f.0@, spec_json_view(f.1)))
                        =~= fs@.map_values(|f: (String, JsonValue)| (f.0@, f.1@)));
                },
                _ => {},
            }
        }
        r
    }
}

} // verus!
