//! JSON values.

use vstd::prelude::*;

use crate::spec::text::Text;

verus! {

/// A JSON value. Of a number, its text and its value as a machine integer,
/// where it is one.
#[verifier::ext_equal]
pub enum Json {
    Null,
    Bool(bool),
    /// A whole number that is not negative.
    Unsigned(u64),
    /// A negative whole number.
    Negative(i64),
    /// Another number, in the shortest way to write it.
    Decimal(Text),
    Text(Text),
    Array(Seq<Json>),
    Object(Seq<(Text, Json)>),
}

/// The value of the first entry from `i` on with the key `key`.
pub open spec fn entry_from(entries: Seq<(Text, Json)>, key: Text, i: int) -> Option<Json>
    decreases entries.len() - i,
{
    if i >= entries.len() {
        None
    } else if entries[i].0 == key {
        Some(entries[i].1)
    } else {
        entry_from(entries, key, i + 1)
    }
}

/// The value of a key, where the value is an object that has it.
pub open spec fn get(j: Json, key: Text) -> Option<Json> {
    match j {
        Json::Object(entries) => entry_from(entries, key, 0),
        _ => None,
    }
}

pub open spec fn as_text(j: Option<Json>) -> Option<Text> {
    match j {
        Some(Json::Text(t)) => Some(t),
        _ => None,
    }
}

pub open spec fn as_signed(j: Option<Json>) -> Option<i64> {
    match j {
        Some(Json::Unsigned(n)) => if n <= i64::MAX {
            Some(n as i64)
        } else {
            None
        },
        Some(Json::Negative(n)) => Some(n),
        _ => None,
    }
}

pub open spec fn as_unsigned(j: Option<Json>) -> Option<u64> {
    match j {
        Some(Json::Unsigned(n)) => Some(n),
        _ => None,
    }
}

pub open spec fn as_array(j: Option<Json>) -> Option<Seq<Json>> {
    match j {
        Some(Json::Array(items)) => Some(items),
        _ => None,
    }
}

/// The value of a key of a value that there may be.
pub open spec fn get_in(j: Option<Json>, key: Text) -> Option<Json> {
    match j {
        Some(j) => get(j, key),
        None => None,
    }
}

/// The value of a number that counts something.
pub open spec fn number(n: usize) -> Json {
    Json::Unsigned(n as u64)
}

/// The value of a list of texts.
pub open spec fn texts(list: Seq<Text>) -> Json {
    Json::Array(Seq::new(list.len(), |i: int| Json::Text(list[i])))
}

/// What `serde_json::from_str` reads out of a text: the value that the text
/// stands for, or nothing where the text is no JSON.
pub uninterp spec fn json_of_text(text: Text) -> Option<Json>;

/// What `serde_json::Value` writes for a value: its JSON without blanks.
pub uninterp spec fn text_of_json(j: Json) -> Text;

} // verus!
