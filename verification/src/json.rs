//! The JSON values that travel between this library and the gateway.
//!
//! Numbers are held exactly: an integer as an integer, anything else as the
//! decimal text it is written with. The library never computes with a
//! number that has a fraction.

use vstd::prelude::*;
use crate::decimal::{decimal_text, i64_to_decimal, u64_to_decimal};
use crate::keys::same_key;

verus! {

/// A JSON number.
#[derive(Clone, Debug, PartialEq, Eq)]
pub enum JsonNumber {
    /// An integer that is not negative.
    Unsigned(u64),
    /// An integer with a sign.
    Signed(i64),
    /// A number with a fraction or an exponent, as the text it is written
    /// with.
    Decimal(String),
}

/// A JSON value.
#[derive(Debug, PartialEq, Eq)]
pub enum JsonValue {
    Null,
    Bool(bool),
    Number(JsonNumber),
    String(String),
    Array(Vec<JsonValue>),
    Object(JsonObject),
}

/// A JSON object: names with their values, in the order in which the names
/// were first inserted. No name occurs twice.
#[derive(Debug, PartialEq, Eq)]
pub struct JsonObject {
    entries: Vec<(String, JsonValue)>,
}

/// A JSON value as contracts see it.
pub enum JsonModel {
    Null,
    Bool(bool),
    /// A number that is an integer.
    Integer(int),
    /// A number that is no integer, by the text it is written with.
    Decimal(Seq<char>),
    String(Seq<char>),
    Array(Seq<JsonModel>),
    Object(Seq<(Seq<char>, JsonModel)>),
}

/// The entries of an object as contracts see them: each name by its
/// characters, with its value.
pub type Entries = Seq<(Seq<char>, JsonModel)>;

/// What a value is, whatever type holds it.
pub open spec fn json_model(value: JsonValue) -> JsonModel
    decreases value,
{
    match value {
        JsonValue::Null => JsonModel::Null,
        JsonValue::Bool(b) => JsonModel::Bool(b),
        JsonValue::Number(n) => n@,
        JsonValue::String(s) => JsonModel::String(s@),
        JsonValue::Array(items) => JsonModel::Array(
            Seq::new(
                items@.len(),
                |i: int|
                    if 0 <= i < items@.len() {
                        json_model(items@[i])
                    } else {
                        JsonModel::Null
                    },
            ),
        ),
        JsonValue::Object(object) => JsonModel::Object(object_entries(object)),
    }
}

/// The entries of an object.
pub closed spec fn object_entries(object: JsonObject) -> Entries
    decreases object,
{
    Seq::new(
        object.entries@.len(),
        |i: int|
            if 0 <= i < object.entries@.len() {
                (object.entries@[i].0@, json_model(object.entries@[i].1))
            } else {
                (Seq::empty(), JsonModel::Null)
            },
    )
}

impl View for JsonNumber {
    type V = JsonModel;

    open spec fn view(&self) -> JsonModel {
        match self {
            JsonNumber::Unsigned(n) => JsonModel::Integer(*n as int),
            JsonNumber::Signed(n) => JsonModel::Integer(*n as int),
            JsonNumber::Decimal(text) => JsonModel::Decimal(text@),
        }
    }
}

impl View for JsonValue {
    type V = JsonModel;

    open spec fn view(&self) -> JsonModel {
        json_model(*self)
    }
}

/// Whether some entry of `entries` has the name `key`.
pub open spec fn has_key(entries: Entries, key: Seq<char>) -> bool {
    exists|i: int| 0 <= i < entries.len() && #[trigger] entries[i].0 == key
}

/// The position of an entry named `key`, where there is one.
pub open spec fn index_of(entries: Entries, key: Seq<char>) -> int {
    choose|i: int| 0 <= i < entries.len() && #[trigger] entries[i].0 == key
}

/// The value stored under `key`, if any.
pub open spec fn field(entries: Entries, key: Seq<char>) -> Option<JsonModel> {
    if has_key(entries, key) {
        Some(entries[index_of(entries, key)].1)
    } else {
        None
    }
}

/// Whether no name occurs twice in `entries`.
pub open spec fn distinct_keys(entries: Entries) -> bool {
    forall|i: int, j: int|
        0 <= i < entries.len() && 0 <= j < entries.len() && i != j ==> #[trigger] entries[i].0
            != #[trigger] entries[j].0
}

/// `entries` after `value` is stored under `key`: in place of the old value
/// where the name is present, behind the last entry where it is new.
pub open spec fn with_field(entries: Entries, key: Seq<char>, value: JsonModel) -> Entries {
    if has_key(entries, key) {
        entries.update(index_of(entries, key), (key, value))
    } else {
        entries.push((key, value))
    }
}

/// A number as it is written in a signed parameter string: an integer in
/// base ten, any other number by its own text.
pub open spec fn number_text(number: JsonModel) -> Seq<char> {
    match number {
        JsonModel::Integer(n) => decimal_text(n),
        JsonModel::Decimal(text) => text,
        _ => Seq::empty(),
    }
}

impl JsonNumber {
    /// Writes the number as it stands in a signed parameter string.
    pub fn to_text(&self) -> (text: String)
        ensures
            text@ == number_text(self@),
    {
        match self {
            JsonNumber::Unsigned(n) => u64_to_decimal(*n),
            JsonNumber::Signed(n) => i64_to_decimal(*n),
            JsonNumber::Decimal(t) => t.clone(),
        }
    }
}

impl View for JsonObject {
    type V = Entries;

    open spec fn view(&self) -> Entries {
        object_entries(*self)
    }
}

impl JsonObject {
    #[verifier::type_invariant]
    spec fn well_formed(self) -> bool {
        distinct_keys(self@)
    }

    /// An object without entries.
    pub fn new() -> (object: JsonObject)
        ensures
            object@ == Seq::<(Seq<char>, JsonModel)>::empty(),
    {
        let object = JsonObject { entries: Vec::new() };
        assert(object@ =~= Seq::<(Seq<char>, JsonModel)>::empty());
        object
    }

    /// The number of entries. No two of them have the same name.
    pub fn len(&self) -> (n: usize)
        ensures
            n == self@.len(),
            distinct_keys(self@),
    {
        proof {
            use_type_invariant(self);
        }
        self.entries.len()
    }

    /// The name of the entry at `index`.
    pub fn key_at(&self, index: usize) -> (key: &str)
        requires
            index < self@.len(),
        ensures
            key@ == self@[index as int].0,
    {
        self.entries[index].0.as_str()
    }

    /// The value of the entry at `index`.
    pub fn value_at(&self, index: usize) -> (value: &JsonValue)
        requires
            index < self@.len(),
        ensures
            value@ == self@[index as int].1,
    {
        &self.entries[index].1
    }

    /// The position of the entry named `key`, if there is one.
    pub fn position(&self, key: &str) -> (found: Option<usize>)
        ensures
            found is Some == has_key(self@, key@),
            found matches Some(i) ==> i < self@.len() && self@[i as int].0 == key@ && i
                == index_of(self@, key@),
    {
        proof {
            use_type_invariant(self);
        }
        let mut i: usize = 0;
        while i < self.entries.len()
            invariant
                i <= self@.len(),
                self@.len() == self.entries@.len(),
                distinct_keys(self@),
                forall|j: int| 0 <= j < i ==> (#[trigger] self@[j]).0 != key@,
            decreases self@.len() - i,
        {
            if same_key(self.entries[i].0.as_str(), key) {
                assert(self@[i as int].0 == key@);
                return Some(i);
            }
            i = i + 1;
        }
        None
    }

    /// The value stored under `key`, if any.
    pub fn get(&self, key: &str) -> (value: Option<&JsonValue>)
        ensures
            value is Some == has_key(self@, key@),
            value matches Some(v) ==> field(self@, key@) == Some(v@),
    {
        match self.position(key) {
            Some(i) => Some(&self.entries[i].1),
            None => None,
        }
    }

    /// Stores `value` under `key`. A name that is present keeps its place and
    /// takes the new value; a new name goes behind the last entry.
    pub fn insert(&mut self, key: String, value: JsonValue)
        ensures
            final(self)@ == with_field(old(self)@, key@, value@),
    {
        let found = self.position(key.as_str());
        let mut taken = JsonObject::new();
        core::mem::swap(self, &mut taken);
        proof {
            use_type_invariant(&taken);
        }
        let JsonObject { entries } = taken;
        let mut entries = entries;
        let ghost before = taken@;
        match found {
            Some(i) => {
                entries.set(i, (key, value));
            },
            None => {
                entries.push((key, value));
            },
        }
        proof {
            let after = object_entries(JsonObject { entries });
            assert(after =~= with_field(before, key@, value@));
            assert forall|i: int, j: int|
                0 <= i < after.len() && 0 <= j < after.len() && i != j implies #[trigger] after[i].0
                != #[trigger] after[j].0 by {
                if found is Some {
                    let at = found->0 as int;
                    assert(before[at].0 == key@);
                    assert(after[i].0 == before[i].0);
                    assert(after[j].0 == before[j].0);
                } else {
                    if i == after.len() - 1 {
                        assert(before[j].0 != key@);
                    } else if j == after.len() - 1 {
                        assert(before[i].0 != key@);
                    } else {
                        assert(after[i].0 == before[i].0);
                        assert(after[j].0 == before[j].0);
                    }
                }
            }
        }
        *self = JsonObject { entries };
    }
}

/// The text stored under `key`, where a string is stored there.
pub open spec fn text_field(entries: Entries, key: Seq<char>) -> Option<Seq<char>> {
    match field(entries, key) {
        Some(JsonModel::String(text)) => Some(text),
        _ => None,
    }
}

/// The integer stored under `key`, where one is stored there that a 32-bit
/// signed integer can hold.
pub open spec fn i32_field(entries: Entries, key: Seq<char>) -> Option<int> {
    match field(entries, key) {
        Some(JsonModel::Integer(n)) => if i32::MIN <= n <= i32::MAX {
            Some(n)
        } else {
            None
        },
        _ => None,
    }
}

/// The entries stored under `key`, where an object is stored there.
pub open spec fn object_field(entries: Entries, key: Seq<char>) -> Option<Entries> {
    match field(entries, key) {
        Some(JsonModel::Object(inner)) => Some(inner),
        _ => None,
    }
}

impl JsonObject {
    /// A copy of the text stored under `key`, where a string is stored there.
    pub fn get_text(&self, key: &str) -> (text: Option<String>)
        ensures
            text is Some == text_field(self@, key@) is Some,
            text matches Some(t) ==> text_field(self@, key@) == Some(t@),
    {
        match self.get(key) {
            Some(JsonValue::String(text)) => Some(text.clone()),
            _ => None,
        }
    }

    /// The integer stored under `key`, where one is stored there that a
    /// 32-bit signed integer can hold.
    pub fn get_i32(&self, key: &str) -> (number: Option<i32>)
        ensures
            number is Some == i32_field(self@, key@) is Some,
            number matches Some(n) ==> i32_field(self@, key@) == Some(n as int),
    {
        match self.get(key) {
            Some(JsonValue::Number(JsonNumber::Unsigned(n))) => {
                if *n <= 0x7fff_ffff {
                    Some(*n as i32)
                } else {
                    None
                }
            },
            Some(JsonValue::Number(JsonNumber::Signed(n))) => {
                if -0x8000_0000 <= *n && *n <= 0x7fff_ffff {
                    Some(*n as i32)
                } else {
                    None
                }
            },
            _ => None,
        }
    }

    /// The object stored under `key`, where one is stored there.
    pub fn get_object(&self, key: &str) -> (inner: Option<&JsonObject>)
        ensures
            inner is Some == object_field(self@, key@) is Some,
            inner matches Some(object) ==> object_field(self@, key@) == Some(object@),
    {
        match self.get(key) {
            Some(JsonValue::Object(inner)) => Some(inner),
            _ => None,
        }
    }
}

} // verus!
