//! A JSON document as the proxy reads and writes it, with a mathematical view.
//!
//! Numbers keep the distinction the wire format needs: non-negative integers,
//! negative integers, and anything else, which is kept as its decimal text.
//! Objects keep their entries in order; when a key occurs more than once the
//! last entry is the one that counts, as it is for a parsed document.

use vstd::prelude::*;

verus! {

/// A JSON number.
#[derive(Debug)]
pub enum JsonNumber {
    PosInt(u64),
    NegInt(i64),
    /// Any other number, by its decimal text.
    Float(String),
}

/// A JSON value.
#[derive(Debug)]
pub enum Json {
    Null,
    Bool(bool),
    Number(JsonNumber),
    Str(String),
    Array(Vec<Json>),
    Object(Vec<(String, Json)>),
}

/// The mathematical value of a JSON document.
pub enum JsonV {
    Null,
    Bool(bool),
    Int(int),
    Float(Seq<char>),
    Str(Seq<char>),
    Array(Seq<JsonV>),
    Object(Seq<(Seq<char>, JsonV)>),
}

pub open spec fn number_view(n: JsonNumber) -> JsonV {
    match n {
        JsonNumber::PosInt(u) => JsonV::Int(u as int),
        JsonNumber::NegInt(i) => JsonV::Int(i as int),
        JsonNumber::Float(s) => JsonV::Float(s@),
    }
}

pub open spec fn json_view(j: Json) -> JsonV
    decreases j,
{
    match j {
        Json::Null => JsonV::Null,
        Json::Bool(b) => JsonV::Bool(b),
        Json::Number(n) => number_view(n),
        Json::Str(s) => JsonV::Str(s@),
        Json::Array(items) => JsonV::Array(items_view(items@)),
        Json::Object(fields) => JsonV::Object(fields_view(fields@)),
    }
}

pub open spec fn items_view(s: Seq<Json>) -> Seq<JsonV>
    decreases s,
{
    if s.len() == 0 {
        Seq::empty()
    } else {
        items_view(s.drop_last()).push(json_view(s.last()))
    }
}

pub open spec fn fields_view(s: Seq<(String, Json)>) -> Seq<(Seq<char>, JsonV)>
    decreases s,
{
    if s.len() == 0 {
        Seq::empty()
    } else {
        fields_view(s.drop_last()).push((s.last().0@, json_view(s.last().1)))
    }
}

impl View for Json {
    type V = JsonV;

    open spec fn view(&self) -> JsonV {
        json_view(*self)
    }
}

/// The value of `key` among `fields`: the last entry with that key.
pub open spec fn field_lookup(fields: Seq<(Seq<char>, JsonV)>, key: Seq<char>) -> Option<JsonV>
    decreases fields.len(),
{
    if fields.len() == 0 {
        None
    } else if fields.last().0 == key {
        Some(fields.last().1)
    } else {
        field_lookup(fields.drop_last(), key)
    }
}

impl JsonV {
    /// The member `key` of an object; nothing for any other value.
    pub open spec fn get(self, key: Seq<char>) -> Option<JsonV> {
        match self {
            JsonV::Object(fields) => field_lookup(fields, key),
            _ => None,
        }
    }

    /// The member `key`, or null where there is none (JSON indexing).
    pub open spec fn at(self, key: Seq<char>) -> JsonV {
        match self.get(key) {
            Some(v) => v,
            None => JsonV::Null,
        }
    }

    pub open spec fn as_str(self) -> Option<Seq<char>> {
        match self {
            JsonV::Str(s) => Some(s),
            _ => None,
        }
    }

    pub open spec fn as_u64(self) -> Option<u64> {
        match self {
            JsonV::Int(n) => if 0 <= n <= u64::MAX {
                Some(n as u64)
            } else {
                None
            },
            _ => None,
        }
    }

    pub open spec fn as_bool(self) -> Option<bool> {
        match self {
            JsonV::Bool(b) => Some(b),
            _ => None,
        }
    }

    pub open spec fn as_array(self) -> Option<Seq<JsonV>> {
        match self {
            JsonV::Array(items) => Some(items),
            _ => None,
        }
    }

    /// The string member `key`, where the member exists and is a string.
    pub open spec fn str_at(self, key: Seq<char>) -> Option<Seq<char>> {
        self.at(key).as_str()
    }

    pub open spec fn u64_at(self, key: Seq<char>) -> Option<u64> {
        self.at(key).as_u64()
    }

    pub open spec fn array_at(self, key: Seq<char>) -> Option<Seq<JsonV>> {
        self.at(key).as_array()
    }
}

/// A string value.
pub open spec fn jstr(s: Seq<char>) -> JsonV {
    JsonV::Str(s)
}

/// An object of the given entries.
pub open spec fn jobj(fields: Seq<(Seq<char>, JsonV)>) -> JsonV {
    JsonV::Object(fields)
}

pub open spec fn opt_str_view(o: Option<String>) -> Option<Seq<char>> {
    match o {
        Some(s) => Some(s@),
        None => None,
    }
}

pub open spec fn opt_json_view(o: Option<Json>) -> Option<JsonV> {
    match o {
        Some(j) => Some(j@),
        None => None,
    }
}

pub proof fn lemma_items_view_push(s: Seq<Json>, x: Json)
    ensures
        items_view(s.push(x)) == items_view(s).push(x@),
{
    assert(s.push(x).drop_last() =~= s);
}

pub proof fn lemma_fields_view_push(s: Seq<(String, Json)>, x: (String, Json))
    ensures
        fields_view(s.push(x)) == fields_view(s).push((x.0@, x.1@)),
{
    assert(s.push(x).drop_last() =~= s);
}

pub proof fn lemma_items_view_len(s: Seq<Json>)
    ensures
        items_view(s).len() == s.len(),
    decreases s.len(),
{
    if s.len() > 0 {
        lemma_items_view_len(s.drop_last());
    }
}

pub proof fn lemma_items_view_index(s: Seq<Json>, i: int)
    requires
        0 <= i < s.len(),
    ensures
        items_view(s).len() == s.len(),
        items_view(s)[i] == s[i]@,
    decreases s.len(),
{
    lemma_items_view_len(s);
    if i < s.len() - 1 {
        lemma_items_view_index(s.drop_last(), i);
    }
}

pub proof fn lemma_fields_view_index(s: Seq<(String, Json)>, i: int)
    requires
        0 <= i < s.len(),
    ensures
        fields_view(s).len() == s.len(),
        fields_view(s)[i] == (s[i].0@, s[i].1@),
    decreases s.len(),
{
    lemma_fields_view_len(s);
    if i < s.len() - 1 {
        lemma_fields_view_index(s.drop_last(), i);
    }
}

pub proof fn lemma_fields_view_len(s: Seq<(String, Json)>)
    ensures
        fields_view(s).len() == s.len(),
    decreases s.len(),
{
    if s.len() > 0 {
        lemma_fields_view_len(s.drop_last());
    }
}

proof fn lemma_lookup_is_entry(fields: Seq<(Seq<char>, JsonV)>, key: Seq<char>)
    ensures
        field_lookup(fields, key) matches Some(v) ==> exists|i: int|
            0 <= i < fields.len() && #[trigger] fields[i].1 == v,
    decreases fields.len(),
{
    if fields.len() > 0 && fields.last().0 != key {
        lemma_lookup_is_entry(fields.drop_last(), key);
        if field_lookup(fields.drop_last(), key) is Some {
            let v = field_lookup(fields.drop_last(), key)->0;
            let i = choose|i: int| 0 <= i < fields.drop_last().len() && #[trigger] fields.drop_last()[i].1 == v;
            assert(fields[i].1 == v);
        }
    } else if fields.len() > 0 {
        assert(fields[fields.len() - 1].1 == fields.last().1);
    }
}

/// A member of a document is smaller than the document.
pub proof fn lemma_get_decreases(j: JsonV, key: Seq<char>)
    ensures
        j.get(key) matches Some(v) ==> decreases_to!(j => v),
{
    if let JsonV::Object(fields) = j {
        lemma_lookup_is_entry(fields, key);
        if let Some(v) = field_lookup(fields, key) {
            let i = choose|i: int| 0 <= i < fields.len() && #[trigger] fields[i].1 == v;
            assert(decreases_to!(j => fields));
            assert(decreases_to!(fields => fields[i]));
            assert(decreases_to!(fields[i] => fields[i].1));
        }
    }
}

/// Whether two strings hold the same characters.
pub fn str_eq(a: &str, b: &str) -> (r: bool)
    ensures
        r == (a@ == b@),
{
    let x: String = a.to_owned();
    let y: String = b.to_owned();
    x == y
}

/// A string value made from `s`.
pub fn json_string(s: &str) -> (r: Json)
    ensures
        r@ == JsonV::Str(s@),
{
    Json::Str(s.to_owned())
}

/// A number value made from `n`.
pub fn json_u64(n: u64) -> (r: Json)
    ensures
        r@ == JsonV::Int(n as int),
{
    Json::Number(JsonNumber::PosInt(n))
}

/// Appends the entry `key: value` to the entries of an object under construction.
pub fn push_field(fields: &mut Vec<(String, Json)>, key: &str, value: Json)
    ensures
        fields_view(final(fields)@) == fields_view(old(fields)@).push((key@, value@)),
        final(fields)@.len() == old(fields)@.len() + 1,
{
    let k: String = key.to_owned();
    proof {
        lemma_fields_view_push(fields@, (k, value));
    }
    fields.push((k, value));
}

/// Appends an item to the items of an array under construction.
pub fn push_item(items: &mut Vec<Json>, value: Json)
    ensures
        items_view(final(items)@) == items_view(old(items)@).push(value@),
        final(items)@.len() == old(items)@.len() + 1,
{
    proof {
        lemma_items_view_push(items@, value);
    }
    items.push(value);
}

/// The value that a JSON text denotes, where the text is well-formed JSON.
pub uninterp spec fn json_text_value(text: Seq<char>) -> Option<JsonV>;

#[verifier::external_type_specification]
#[verifier::external_body]
pub struct ExSerdeValue(serde_json::Value);

#[verifier::external_type_specification]
#[verifier::external_body]
pub struct ExSerdeNumber(serde_json::Number);

/// Converts a number of `serde_json` into a number of this library.
#[verifier::external_body]
fn number_from_serde(n: serde_json::Number) -> JsonNumber {
    match (n.as_u64(), n.as_i64()) {
        (Some(u), _) => JsonNumber::PosInt(u),
        (None, Some(i)) => JsonNumber::NegInt(i),
        (None, None) => JsonNumber::Float(n.to_string()),
    }
}

/// Converts a document of `serde_json` into a document of this library, value
/// by value, each object's entries in the order `serde_json` keeps them
/// (sorted by key, where a repeated key keeps its last value).
#[verifier::external_body]
fn json_from_serde(v: serde_json::Value) -> Json {
    match v {
        serde_json::Value::Null => Json::Null,
        serde_json::Value::Bool(b) => Json::Bool(b),
        serde_json::Value::Number(n) => Json::Number(number_from_serde(n)),
        serde_json::Value::String(s) => Json::Str(s),
        serde_json::Value::Array(a) => Json::Array(a.into_iter().map(json_from_serde).collect()),
        serde_json::Value::Object(m) => Json::Object(
            m.into_iter().map(|(k, v)| (k, json_from_serde(v))).collect(),
        ),
    }
}

/// Parses a JSON text with `serde_json::from_str`. The value of a text is
/// left unstated beyond its name, `json_text_value`: `None` is returned exactly
/// where `serde_json` rejects the text.
#[verifier::external_body]
fn serde_parse(text: &str) -> (r: Option<Json>)
    ensures
        opt_json_view(r) == json_text_value(text@),
{
    match serde_json::from_str::<serde_json::Value>(text) {
        Ok(v) => Some(json_from_serde(v)),
        Err(_) => None,
    }
}

/// The text `serde_json::to_string` writes for a document.
pub uninterp spec fn json_text(v: JsonV) -> Seq<char>;

/// Converts a number of this library into a `serde_json` value; a decimal
/// text that `serde_json` does not read as a number becomes null.
#[verifier::external_body]
fn number_to_serde(n: &JsonNumber) -> serde_json::Value {
    match n {
        JsonNumber::PosInt(u) => serde_json::Value::from(*u),
        JsonNumber::NegInt(i) => serde_json::Value::from(*i),
        JsonNumber::Float(t) => match t.parse::<serde_json::Number>() {
            Ok(x) => serde_json::Value::Number(x),
            Err(_) => serde_json::Value::Null,
        },
    }
}

/// Converts a document of this library into a `serde_json` value, value by
/// value.
#[verifier::external_body]
fn json_to_serde(j: &Json) -> serde_json::Value {
    match j {
        Json::Null => serde_json::Value::Null,
        Json::Bool(b) => serde_json::Value::Bool(*b),
        Json::Number(n) => number_to_serde(n),
        Json::Str(t) => serde_json::Value::String(t.clone()),
        Json::Array(a) => serde_json::Value::Array(a.iter().map(json_to_serde).collect()),
        Json::Object(m) => serde_json::Value::Object(
            m.iter().map(|(k, v)| (k.clone(), json_to_serde(v))).collect(),
        ),
    }
}

/// Writes a document as JSON text with `serde_json::to_string`. The text is
/// left unstated beyond its name, `json_text`: a function of the document's
/// value (objects are written with their keys in `serde_json`'s map order,
/// the last of two equal keys counting).
#[verifier::external_body]
pub(crate) fn to_json_text(j: &Json) -> (r: String)
    ensures
        r@ == json_text(j@),
{
    serde_json::to_string(&json_to_serde(j)).unwrap_or_default()
}

/// Parses a JSON text; `None` where the text is not JSON.
pub fn parse_json(text: &str) -> (r: Option<Json>)
    ensures
        opt_json_view(r) == json_text_value(text@),
{
    serde_parse(text)
}

/// A number value made from `n`.
pub fn json_i64(n: i64) -> (r: Json)
    ensures
        r@ == JsonV::Int(n as int),
{
    if n >= 0 {
        Json::Number(JsonNumber::PosInt(n as u64))
    } else {
        Json::Number(JsonNumber::NegInt(n))
    }
}

/// An empty object.
pub fn empty_object() -> (r: Json)
    ensures
        r@ == JsonV::Object(Seq::empty()),
{
    let v: Vec<(String, Json)> = Vec::new();
    proof {
        assert(fields_view(v@) =~= Seq::<(Seq<char>, JsonV)>::empty());
    }
    Json::Object(v)
}

/// An object made of the given entries.
pub fn object_of(fields: Vec<(String, Json)>) -> (r: Json)
    ensures
        r@ == JsonV::Object(fields_view(fields@)),
{
    Json::Object(fields)
}

/// An array made of the given items.
pub fn array_of(items: Vec<Json>) -> (r: Json)
    ensures
        r@ == JsonV::Array(items_view(items@)),
{
    Json::Array(items)
}

impl JsonNumber {
    pub fn copy(&self) -> (r: JsonNumber)
        ensures
            number_view(r) == number_view(*self),
    {
        match self {
            JsonNumber::PosInt(u) => JsonNumber::PosInt(*u),
            JsonNumber::NegInt(i) => JsonNumber::NegInt(*i),
            JsonNumber::Float(s) => JsonNumber::Float(s.clone()),
        }
    }
}

impl Json {
    /// A copy of the document with the same value.
    pub fn copy(&self) -> (r: Json)
        ensures
            r@ == self@,
        decreases self,
    {
        match self {
            Json::Null => Json::Null,
            Json::Bool(b) => Json::Bool(*b),
            Json::Number(n) => Json::Number(n.copy()),
            Json::Str(s) => Json::Str(s.clone()),
            Json::Array(items) => {
                let mut out: Vec<Json> = Vec::new();
                let mut i: usize = 0;
                while i < items.len()
                    invariant
                        i <= items@.len(),
                        *self == Json::Array(*items),
                        items_view(out@) == items_view(items@.take(i as int)),
                    decreases items@.len() - i,
                {
                    proof {
                        assert(decreases_to!(*self => (*self)->Array_0));
                        assert(decreases_to!((*self)->Array_0 => (*self)->Array_0@));
                        assert(decreases_to!((*self)->Array_0@ => (*self)->Array_0@[i as int]));
                    }
                    let c = items[i].copy();
                    proof {
                        lemma_items_view_push(out@, c);
                        assert(items@.take(i as int + 1).drop_last() =~= items@.take(i as int));
                    }
                    out.push(c);
                    i = i + 1;
                }
                assert(items@.take(i as int) =~= items@);
                Json::Array(out)
            },
            Json::Object(fields) => {
                let mut out: Vec<(String, Json)> = Vec::new();
                let mut i: usize = 0;
                while i < fields.len()
                    invariant
                        i <= fields@.len(),
                        *self == Json::Object(*fields),
                        fields_view(out@) == fields_view(fields@.take(i as int)),
                    decreases fields@.len() - i,
                {
                    let k = fields[i].0.clone();
                    proof {
                        assert(decreases_to!(*self => (*self)->Object_0));
                        assert(decreases_to!((*self)->Object_0 => (*self)->Object_0@));
                        assert(decreases_to!((*self)->Object_0@ => (*self)->Object_0@[i as int]));
                        assert(decreases_to!((*self)->Object_0@[i as int] => (*self)->Object_0@[i as int].1));
                    }
                    let v = fields[i].1.copy();
                    proof {
                        lemma_fields_view_push(out@, (k, v));
                        assert(fields@.take(i as int + 1).drop_last() =~= fields@.take(i as int));
                    }
                    out.push((k, v));
                    i = i + 1;
                }
                assert(fields@.take(i as int) =~= fields@);
                Json::Object(out)
            },
        }
    }

    /// The member `key` of an object.
    pub fn get(&self, key: &str) -> (r: Option<&Json>)
        ensures
            match r {
                Some(v) => self@.get(key@) == Some(v@),
                None => self@.get(key@) is None,
            },
    {
        match self {
            Json::Object(fields) => {
                let mut found: Option<&Json> = None;
                let mut i: usize = 0;
                while i < fields.len()
                    invariant
                        i <= fields@.len(),
                        match found {
                            Some(v) => field_lookup(fields_view(fields@.take(i as int)), key@)
                                == Some(v@),
                            None => field_lookup(fields_view(fields@.take(i as int)), key@) is None,
                        },
                    decreases fields@.len() - i,
                {
                    proof {
                        assert(fields@.take(i as int + 1).drop_last() =~= fields@.take(i as int));
                        lemma_fields_view_push(fields@.take(i as int), fields@[i as int]);
                        assert(fields@.take(i as int + 1) =~= fields@.take(i as int).push(
                            fields@[i as int],
                        ));
                        let fv = fields_view(fields@.take(i as int));
                        let p = (fields@[i as int].0@, fields@[i as int].1@);
                        assert(fv.push(p).drop_last() =~= fv);
                    }
                    if str_eq(fields[i].0.as_str(), key) {
                        found = Some(&fields[i].1);
                    }
                    i = i + 1;
                }
                assert(fields@.take(i as int) =~= fields@);
                found
            },
            _ => None,
        }
    }

    pub fn as_str(&self) -> (r: Option<&str>)
        ensures
            match r {
                Some(s) => self@.as_str() == Some(s@),
                None => self@.as_str() is None,
            },
    {
        match self {
            Json::Str(s) => Some(s.as_str()),
            _ => None,
        }
    }

    pub fn as_u64(&self) -> (r: Option<u64>)
        ensures
            r == self@.as_u64(),
    {
        match self {
            Json::Number(JsonNumber::PosInt(u)) => Some(*u),
            Json::Number(JsonNumber::NegInt(i)) => if *i >= 0 {
                Some(*i as u64)
            } else {
                None
            },
            _ => None,
        }
    }

    pub fn as_bool(&self) -> (r: Option<bool>)
        ensures
            r == self@.as_bool(),
    {
        match self {
            Json::Bool(b) => Some(*b),
            _ => None,
        }
    }

    pub fn as_array(&self) -> (r: Option<&Vec<Json>>)
        ensures
            match r {
                Some(v) => self@.as_array() == Some(items_view(v@)),
                None => self@.as_array() is None,
            },
    {
        match self {
            Json::Array(items) => Some(items),
            _ => None,
        }
    }

    pub fn is_object(&self) -> (r: bool)
        ensures
            r == (self@ is Object),
    {
        match self {
            Json::Object(_) => true,
            _ => false,
        }
    }

    /// The string member `key`.
    pub fn str_at(&self, key: &str) -> (r: Option<&str>)
        ensures
            match r {
                Some(s) => self@.str_at(key@) == Some(s@),
                None => self@.str_at(key@) is None,
            },
    {
        match self.get(key) {
            Some(v) => v.as_str(),
            None => None,
        }
    }

    /// The non-negative integer member `key`.
    pub fn u64_at(&self, key: &str) -> (r: Option<u64>)
        ensures
            r == self@.u64_at(key@),
    {
        match self.get(key) {
            Some(v) => v.as_u64(),
            None => None,
        }
    }

    /// The boolean member `key`.
    pub fn bool_at(&self, key: &str) -> (r: Option<bool>)
        ensures
            r == self@.at(key@).as_bool(),
    {
        match self.get(key) {
            Some(v) => v.as_bool(),
            None => None,
        }
    }

    /// The array member `key`.
    pub fn array_at(&self, key: &str) -> (r: Option<&Vec<Json>>)
        ensures
            match r {
                Some(v) => self@.array_at(key@) == Some(items_view(v@)),
                None => self@.array_at(key@) is None,
            },
    {
        match self.get(key) {
            Some(v) => v.as_array(),
            None => None,
        }
    }
}

} // verus!
