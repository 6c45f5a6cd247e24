//! JSON values.

use vstd::prelude::*;

use crate::spec::json as sj;
use crate::spec::text as st;
use crate::text::owned;

verus! {

/// A JSON value. Of a number, its text and its value as a machine integer,
/// where it is one.
#[derive(Debug, PartialEq, Eq)]
pub enum Json {
    Null,
    Bool(bool),
    /// A whole number that is not negative.
    Unsigned(u64),
    /// A negative whole number.
    Negative(i64),
    /// Another number, in the shortest way to write it.
    Decimal(String),
    Text(String),
    Array(Vec<Json>),
    Object(Vec<(String, Json)>),
}

impl Json {
    /// The model of a value.
    pub open spec fn model(self) -> sj::Json
        decreases self,
    {
        match self {
            Json::Null => sj::Json::Null,
            Json::Bool(b) => sj::Json::Bool(b),
            Json::Unsigned(n) => sj::Json::Unsigned(n),
            Json::Negative(n) => sj::Json::Negative(n),
            Json::Decimal(t) => sj::Json::Decimal(t@),
            Json::Text(t) => sj::Json::Text(t@),
            Json::Array(items) => sj::Json::Array(
                Seq::new(
                    items@.len(),
                    |i: int|
                        if 0 <= i < items@.len() {
                            items@[i].model()
                        } else {
                            arbitrary()
                        },
                ),
            ),
            Json::Object(entries) => sj::Json::Object(
                Seq::new(
                    entries@.len(),
                    |i: int|
                        if 0 <= i < entries@.len() {
                            (entries@[i].0@, entries@[i].1.model())
                        } else {
                            arbitrary()
                        },
                ),
            ),
        }
    }

    /// A copy of a value.
    pub fn copy(&self) -> (r: Json)
        ensures
            r.model() == self.model(),
        decreases self,
    {
        match self {
            Json::Null => Json::Null,
            Json::Bool(b) => Json::Bool(*b),
            Json::Unsigned(n) => Json::Unsigned(*n),
            Json::Negative(n) => Json::Negative(*n),
            Json::Decimal(t) => Json::Decimal(t.clone()),
            Json::Text(t) => Json::Text(t.clone()),
            Json::Array(items) => {
                let ghost all = json_models(items@);
                let mut out = no_items();
                let mut i: usize = 0;
                while i < items.len()
                    invariant
                        i <= items@.len(),
                        *self == Json::Array(*items),
                        all == json_models(items@),
                        json_models(out@) == all.take(i as int),
                    decreases items@.len() - i,
                {
                    assert(decreases_to!(*self => self->Array_0));
                    assert(decreases_to!(*items => items@));
                    assert(decreases_to!(items@ => items@[i as int]));
                    put_item(&mut out, items[i].copy());
                    i = i + 1;
                    assert(json_models(out@) =~= all.take(i as int));
                }
                assert(json_models(out@) =~= all);
                let r = array(out);
                assert(self.model()->Array_0 =~= all);
                r
            },
            Json::Object(entries) => {
                let ghost all = entry_models(entries@);
                let mut out = no_entries();
                let mut i: usize = 0;
                while i < entries.len()
                    invariant
                        i <= entries@.len(),
                        *self == Json::Object(*entries),
                        all == entry_models(entries@),
                        entry_models(out@) == all.take(i as int),
                    decreases entries@.len() - i,
                {
                    assert(decreases_to!(*self => self->Object_0));
                    assert(decreases_to!(*entries => entries@));
                    assert(decreases_to!(entries@ => entries@[i as int]));
                    assert(decreases_to!(entries@[i as int] => entries@[i as int].1));
                    let value = entries[i].1.copy();
                    put_entry(&mut out, entries[i].0.as_str(), value);
                    i = i + 1;
                    assert(entry_models(out@) =~= all.take(i as int));
                }
                assert(entry_models(out@) =~= all);
                let r = object(out);
                assert(self.model()->Object_0 =~= all);
                r
            },
        }
    }

    /// The value of a key, where the value is an object that has it.
    pub fn get(&self, key: &str) -> (r: Option<&Json>)
        ensures
            model_of(r) == sj::get(self.model(), key@),
    {
        match self {
            Json::Object(entries) => {
                let wanted = owned(key);
                let ghost all = entry_models(entries@);
                assert(self.model() == sj::Json::Object(all)) by {
                    assert(self.model()->Object_0 =~= all);
                }
                let mut i: usize = 0;
                while i < entries.len()
                    invariant
                        i <= entries@.len(),
                        wanted@ == key@,
                        all == entry_models(entries@),
                        sj::get(self.model(), key@) == sj::entry_from(all, key@, i as int),
                    decreases entries@.len() - i,
                {
                    if entries[i].0 == wanted {
                        return Some(&entries[i].1);
                    }
                    i = i + 1;
                }
                None
            },
            _ => None,
        }
    }
}

/// The model of a value that there may be.
pub open spec fn model_of(j: Option<&Json>) -> Option<sj::Json> {
    match j {
        Some(j) => Some(j.model()),
        None => None,
    }
}

/// The models of a list of values.
pub open spec fn json_models(items: Seq<Json>) -> Seq<sj::Json> {
    Seq::new(items.len(), |i: int| items[i].model())
}

/// The models of the entries of an object.
pub open spec fn entry_models(entries: Seq<(String, Json)>) -> Seq<(st::Text, sj::Json)> {
    Seq::new(entries.len(), |i: int| (entries[i].0@, entries[i].1.model()))
}

/// The value of a key of a value that there may be.
pub fn get_in<'a>(j: Option<&'a Json>, key: &str) -> (r: Option<&'a Json>)
    ensures
        model_of(r) == sj::get_in(model_of(j), key@),
{
    match j {
        Some(j) => j.get(key),
        None => None,
    }
}

pub fn as_text<'a>(j: Option<&'a Json>) -> (r: Option<&'a String>)
    ensures
        r.deep_view() == sj::as_text(model_of(j)),
{
    match j {
        Some(Json::Text(t)) => Some(t),
        _ => None,
    }
}

pub fn as_signed(j: Option<&Json>) -> (r: Option<i64>)
    ensures
        r == sj::as_signed(model_of(j)),
{
    match j {
        Some(Json::Unsigned(n)) => if *n <= i64::MAX as u64 {
            Some(*n as i64)
        } else {
            None
        },
        Some(Json::Negative(n)) => Some(*n),
        _ => None,
    }
}

pub fn as_unsigned(j: Option<&Json>) -> (r: Option<u64>)
    ensures
        r == sj::as_unsigned(model_of(j)),
{
    match j {
        Some(Json::Unsigned(n)) => Some(*n),
        _ => None,
    }
}

pub fn as_array<'a>(j: Option<&'a Json>) -> (r: Option<&'a Vec<Json>>)
    ensures
        match r {
            Some(items) => sj::as_array(model_of(j)) == Some(json_models(items@)),
            None => sj::as_array(model_of(j)) is None,
        },
{
    match j {
        Some(Json::Array(items)) => {
            assert(model_of(j)->Some_0->Array_0 =~= json_models(items@));
            Some(items)
        },
        _ => None,
    }
}

pub fn as_object<'a>(j: &'a Json) -> (r: Option<&'a Vec<(String, Json)>>)
    ensures
        match r {
            Some(entries) => j.model() == sj::Json::Object(entry_models(entries@)),
            None => !(j.model() is Object),
        },
{
    match j {
        Json::Object(entries) => {
            assert(j.model()->Object_0 =~= entry_models(entries@));
            Some(entries)
        },
        _ => None,
    }
}

// ---------------------------------------------------------------------------
// Building
// ---------------------------------------------------------------------------

/// The value of a number that counts something.
pub fn number(n: usize) -> (r: Json)
    ensures
        r.model() == sj::number(n),
{
    Json::Unsigned(n as u64)
}

/// The value of a text.
pub fn string(t: &str) -> (r: Json)
    ensures
        r.model() == sj::Json::Text(t@),
{
    Json::Text(owned(t))
}

/// Puts a value at the end of a list of values.
pub fn put_item(items: &mut Vec<Json>, item: Json)
    ensures
        json_models(final(items)@) == json_models(old(items)@).push(item.model()),
{
    let ghost wanted = json_models(items@).push(item.model());
    items.push(item);
    assert(json_models(items@) =~= wanted);
}

/// Puts an entry at the end of a list of entries.
pub fn put_entry(entries: &mut Vec<(String, Json)>, key: &str, value: Json)
    ensures
        entry_models(final(entries)@) == entry_models(old(entries)@).push((key@, value.model())),
{
    let ghost wanted = entry_models(entries@).push((key@, value.model()));
    entries.push((owned(key), value));
    assert(entry_models(entries@) =~= wanted);
}

/// A list of values without any.
pub fn no_items() -> (r: Vec<Json>)
    ensures
        json_models(r@) == Seq::<sj::Json>::empty(),
{
    let r: Vec<Json> = Vec::new();
    assert(json_models(r@) =~= Seq::empty());
    r
}

/// A list of entries without any.
pub fn no_entries() -> (r: Vec<(String, Json)>)
    ensures
        entry_models(r@) == Seq::<(st::Text, sj::Json)>::empty(),
{
    let r: Vec<(String, Json)> = Vec::new();
    assert(entry_models(r@) =~= Seq::empty());
    r
}

/// The value of a list of values.
pub fn array(items: Vec<Json>) -> (r: Json)
    ensures
        r.model() == sj::Json::Array(json_models(items@)),
{
    let ghost wanted = json_models(items@);
    let r = Json::Array(items);
    assert(r.model()->Array_0 =~= wanted);
    r
}

/// The value of a list of entries.
pub fn object(entries: Vec<(String, Json)>) -> (r: Json)
    ensures
        r.model() == sj::Json::Object(entry_models(entries@)),
{
    let ghost wanted = entry_models(entries@);
    let r = Json::Object(entries);
    assert(r.model()->Object_0 =~= wanted);
    r
}

/// The value with one entry.
pub fn object_of(key: &str, value: Json) -> (r: Json)
    ensures
        r.model() == sj::Json::Object(seq![(key@, value.model())]),
{
    let mut entries = no_entries();
    put_entry(&mut entries, key, value);
    object(entries)
}

/// The value of a list of texts.
pub fn texts(list: &Vec<String>) -> (r: Json)
    ensures
        r.model() == sj::texts(list.deep_view()),
{
    let ghost all = list.deep_view();
    let mut items = no_items();
    let mut i: usize = 0;
    while i < list.len()
        invariant
            i <= list@.len(),
            all == list.deep_view(),
            json_models(items@) == Seq::new(i as nat, |k: int| sj::Json::Text(all[k])),
        decreases list@.len() - i,
    {
        assert(all[i as int] == list@[i as int]@);
        put_item(&mut items, string(list[i].as_str()));
        i = i + 1;
        assert(json_models(items@) =~= Seq::new(i as nat, |k: int| sj::Json::Text(all[k])));
    }
    assert(json_models(items@) =~= Seq::new(all.len(), |k: int| sj::Json::Text(all[k])));
    array(items)
}

// ---------------------------------------------------------------------------
// Reading and writing
// ---------------------------------------------------------------------------

/// `serde_json::Value`, a JSON value of that crate.
#[verifier::external_type_specification]
#[verifier::external_body]
pub struct ExValue(serde_json::Value);

/// The value that a `serde_json::Value` holds, part by part: each kind of
/// value becomes its counterpart, and arrays and objects keep the order of what
/// they hold. A number is one of three kinds, which `as_u64` and `as_i64` tell
/// apart; one that is not whole is kept as `serde_json::Number` displays it.
/// Nothing is claimed of the result here.
#[verifier::external_body]
fn convert(value: serde_json::Value) -> (r: Json) {
    match value {
        serde_json::Value::Null => Json::Null,
        serde_json::Value::Bool(b) => Json::Bool(b),
        serde_json::Value::Number(n) => match (n.as_u64(), n.as_i64()) {
            (Some(u), _) => Json::Unsigned(u),
            (None, Some(i)) => Json::Negative(i),
            (None, None) => Json::Decimal(n.to_string()),
        },
        serde_json::Value::String(s) => Json::Text(s),
        serde_json::Value::Array(items) => Json::Array(items.into_iter().map(convert).collect()),
        serde_json::Value::Object(map) => {
            Json::Object(map.into_iter().map(|(k, v)| (k, convert(v))).collect())
        },
    }
}

/// The value that a text of JSON stands for, as `serde_json::from_str` reads
/// it; nothing where that function returns an error. What it reads depends on
/// the text alone.
#[verifier::external_body]
pub(crate) fn read_json(text: &str) -> (r: Option<Json>)
    ensures
        (match r {
            Some(j) => Some(j.model()),
            None => None,
        }) == sj::json_of_text(text@),
{
    serde_json::from_str::<serde_json::Value>(text).ok().map(convert)
}

/// A `serde_json::Value` that holds a value, part by part: each kind of value
/// becomes its counterpart. The text of a number that is not whole is read by
/// std, which gives back the number that was displayed. Nothing is claimed of
/// the result here.
#[verifier::external_body]
fn revert(json: &Json) -> (r: serde_json::Value) {
    match json {
        Json::Null => serde_json::Value::Null,
        Json::Bool(b) => serde_json::Value::Bool(*b),
        Json::Unsigned(n) => (*n).into(),
        Json::Negative(n) => (*n).into(),
        Json::Decimal(t) => t.parse().ok().and_then(serde_json::Number::from_f64).into(),
        Json::Text(t) => serde_json::Value::String(t.clone()),
        Json::Array(items) => serde_json::Value::Array(items.iter().map(revert).collect()),
        Json::Object(entries) => {
            serde_json::Value::Object(entries.iter().map(|(k, v)| (k.clone(), revert(v))).collect())
        },
    }
}

/// The text of a value, as `serde_json::Value` displays itself: JSON without
/// blanks. What it writes depends on the value alone; null and the truth values
/// are written as their words.
#[verifier::external_body]
pub(crate) fn write_json(json: &Json) -> (r: String)
    ensures
        r@ == sj::text_of_json(json.model()),
        json.model() is Null ==> r@ == "null"@,
        json.model() == sj::Json::Bool(true) ==> r@ == "true"@,
        json.model() == sj::Json::Bool(false) ==> r@ == "false"@,
{
    revert(json).to_string()
}

} // verus!
