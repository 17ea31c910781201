//! JSON values as the data layer sees them.
//!
//! Row values cross the boundary as JSON. The data layer reads of a value its
//! kind and, per kind, a boolean, a number, a string or the JSON text of an
//! array or object: that is what these types hold.

use vstd::prelude::*;
use crate::text::{decimal, int_to_decimal, text_eq};

verus! {

/// A JSON number.
#[derive(Debug)]
pub enum JsonNumber {
    /// An integer that fits `i64`.
    Signed(i64),
    /// An integer that fits `u64`.
    Unsigned(u64),
    /// Any other number, as the text JSON writes for it.
    Literal(String),
}

/// A JSON value. An array or an object is held as its compact JSON text.
#[derive(Debug)]
pub enum JsonValue {
    Null,
    Bool(bool),
    Number(JsonNumber),
    Text(String),
    Array(String),
    Object(String),
}

/// One member of a JSON object.
#[derive(Debug)]
pub struct JsonEntry {
    pub key: String,
    pub value: JsonValue,
}

/// A JSON object: members in a fixed order. Built by `new` and `insert` it
/// holds no key twice.
#[derive(Debug)]
pub struct JsonObject {
    entries: Vec<JsonEntry>,
}

// ---------------------------------------------------------------------------
// The mathematical values
// ---------------------------------------------------------------------------

/// What a `JsonNumber` stands for.
pub enum NumberModel {
    Integer(int),
    Literal(Seq<char>),
}

/// What a `JsonValue` stands for.
pub enum JsonModel {
    Null,
    Bool(bool),
    Number(NumberModel),
    Text(Seq<char>),
    Array(Seq<char>),
    Object(Seq<char>),
}

/// What a `JsonEntry` stands for.
pub struct EntryModel {
    pub key: Seq<char>,
    pub value: JsonModel,
}

impl NumberModel {
    /// The text of the number.
    pub open spec fn text(self) -> Seq<char> {
        match self {
            NumberModel::Integer(n) => decimal(n),
            NumberModel::Literal(t) => t,
        }
    }
}

impl View for JsonNumber {
    type V = NumberModel;

    open spec fn view(&self) -> NumberModel {
        match *self {
            JsonNumber::Signed(n) => NumberModel::Integer(n as int),
            JsonNumber::Unsigned(n) => NumberModel::Integer(n as int),
            JsonNumber::Literal(t) => NumberModel::Literal(t@),
        }
    }
}

impl View for JsonValue {
    type V = JsonModel;

    open spec fn view(&self) -> JsonModel {
        match *self {
            JsonValue::Null => JsonModel::Null,
            JsonValue::Bool(b) => JsonModel::Bool(b),
            JsonValue::Number(n) => JsonModel::Number(n@),
            JsonValue::Text(s) => JsonModel::Text(s@),
            JsonValue::Array(t) => JsonModel::Array(t@),
            JsonValue::Object(t) => JsonModel::Object(t@),
        }
    }
}

impl View for JsonEntry {
    type V = EntryModel;

    open spec fn view(&self) -> EntryModel {
        EntryModel { key: self.key@, value: self.value@ }
    }
}

/// The models of a list of members.
pub open spec fn entry_models(entries: Seq<JsonEntry>) -> Seq<EntryModel> {
    Seq::new(entries.len(), |i: int| entries[i]@)
}

impl View for JsonObject {
    type V = Seq<EntryModel>;

    closed spec fn view(&self) -> Seq<EntryModel> {
        entry_models(self.entries@)
    }
}

/// The models of a list of objects.
pub open spec fn object_models(objects: Seq<JsonObject>) -> Seq<Seq<EntryModel>> {
    Seq::new(objects.len(), |i: int| objects[i]@)
}

// ---------------------------------------------------------------------------
// Lookup and insertion, mathematically
// ---------------------------------------------------------------------------

/// The position of the first member with key `key`, if there is one.
pub open spec fn position_of(entries: Seq<EntryModel>, key: Seq<char>) -> Option<int>
    decreases entries.len(),
{
    if entries.len() == 0 {
        None
    } else if entries[0].key == key {
        Some(0)
    } else {
        match position_of(entries.drop_first(), key) {
            Some(i) => Some(i + 1),
            None => None,
        }
    }
}

/// The value under `key`, if a member has that key.
pub open spec fn value_of(entries: Seq<EntryModel>, key: Seq<char>) -> Option<JsonModel> {
    match position_of(entries, key) {
        Some(i) => Some(entries[i].value),
        None => None,
    }
}

/// The members with `value` under `key`: in place of the old value where the
/// key is present, as a new last member otherwise.
pub open spec fn with_entry(entries: Seq<EntryModel>, key: Seq<char>, value: JsonModel) -> Seq<
    EntryModel,
> {
    match position_of(entries, key) {
        Some(i) => entries.update(i, EntryModel { key, value }),
        None => entries.push(EntryModel { key, value }),
    }
}

/// No key occurs twice.
pub open spec fn keys_distinct(entries: Seq<EntryModel>) -> bool {
    forall|i: int, j: int|
        0 <= i < j < entries.len() ==> (#[trigger] entries[i]).key != (#[trigger] entries[j]).key
}

/// `position_of` finds a member with the key, the first one, exactly when
/// there is any.
pub proof fn lemma_position_of(entries: Seq<EntryModel>, key: Seq<char>)
    ensures
        match position_of(entries, key) {
            Some(i) => 0 <= i < entries.len() && entries[i].key == key && forall|j: int|
                0 <= j < i ==> (#[trigger] entries[j]).key != key,
            None => forall|j: int| 0 <= j < entries.len() ==> (#[trigger] entries[j]).key != key,
        },
    decreases entries.len(),
{
    if entries.len() > 0 && entries[0].key != key {
        let rest = entries.drop_first();
        lemma_position_of(rest, key);
        match position_of(rest, key) {
            Some(i) => {
                assert(entries[i + 1] == rest[i]);
                assert forall|j: int| 0 <= j < i + 1 implies (#[trigger] entries[j]).key
                    != key by {
                    if j > 0 {
                        assert(entries[j] == rest[j - 1]);
                    }
                }
            },
            None => {
                assert forall|j: int| 0 <= j < entries.len() implies (#[trigger] entries[j]).key
                    != key by {
                    if j > 0 {
                        assert(entries[j] == rest[j - 1]);
                    }
                }
            },
        }
    }
}

/// The first member with a key is the one at a position where the key stands
/// and before which it does not.
pub proof fn lemma_position_is(entries: Seq<EntryModel>, key: Seq<char>, at: int)
    requires
        0 <= at < entries.len(),
        entries[at].key == key,
        forall|j: int| 0 <= j < at ==> (#[trigger] entries[j]).key != key,
    ensures
        position_of(entries, key) == Some(at),
{
    lemma_position_of(entries, key);
}

/// Insertion keeps keys distinct, and afterwards the key holds the value.
pub proof fn lemma_with_entry(entries: Seq<EntryModel>, key: Seq<char>, value: JsonModel)
    ensures
        keys_distinct(entries) ==> keys_distinct(with_entry(entries, key, value)),
        value_of(with_entry(entries, key, value), key) == Some(value),
{
    lemma_position_of(entries, key);
    let after = with_entry(entries, key, value);
    match position_of(entries, key) {
        Some(i) => {
            lemma_position_is(after, key, i);
        },
        None => {
            lemma_position_is(after, key, entries.len() as int);
        },
    }
}

// ---------------------------------------------------------------------------
// The values
// ---------------------------------------------------------------------------

impl JsonNumber {
    /// The text of the number.
    pub fn to_text(&self) -> (r: String)
        ensures
            r@ == self@.text(),
    {
        match self {
            JsonNumber::Signed(n) => int_to_decimal(*n as i128),
            JsonNumber::Unsigned(n) => int_to_decimal(*n as i128),
            JsonNumber::Literal(t) => t.clone(),
        }
    }

    /// A copy of the number.
    pub fn duplicate(&self) -> (r: JsonNumber)
        ensures
            r == *self,
    {
        match self {
            JsonNumber::Signed(n) => JsonNumber::Signed(*n),
            JsonNumber::Unsigned(n) => JsonNumber::Unsigned(*n),
            JsonNumber::Literal(t) => JsonNumber::Literal(t.clone()),
        }
    }
}

impl JsonValue {
    /// A copy of the value.
    pub fn duplicate(&self) -> (r: JsonValue)
        ensures
            r == *self,
    {
        match self {
            JsonValue::Null => JsonValue::Null,
            JsonValue::Bool(b) => JsonValue::Bool(*b),
            JsonValue::Number(n) => JsonValue::Number(n.duplicate()),
            JsonValue::Text(s) => JsonValue::Text(s.clone()),
            JsonValue::Array(t) => JsonValue::Array(t.clone()),
            JsonValue::Object(t) => JsonValue::Object(t.clone()),
        }
    }
}

impl JsonObject {
    /// The object without members.
    pub fn new() -> (r: JsonObject)
        ensures
            r@ == Seq::<EntryModel>::empty(),
    {
        let r = JsonObject { entries: Vec::new() };
        assert(r@ =~= Seq::<EntryModel>::empty());
        r
    }

    /// The number of members.
    pub fn len(&self) -> (r: usize)
        ensures
            r == self@.len(),
    {
        self.entries.len()
    }

    /// Whether the object has no member.
    pub fn is_empty(&self) -> (r: bool)
        ensures
            r == (self@.len() == 0),
    {
        self.entries.len() == 0
    }

    /// The member at position `i`.
    pub fn entry(&self, i: usize) -> (r: &JsonEntry)
        requires
            i < self@.len(),
        ensures
            r@ == self@[i as int],
    {
        &self.entries[i]
    }

    /// The members in order.
    pub fn entries(&self) -> (r: &Vec<JsonEntry>)
        ensures
            entry_models(r@) == self@,
    {
        &self.entries
    }

    fn find(&self, key: &str) -> (r: Option<usize>)
        ensures
            match r {
                Some(i) => position_of(self@, key@) == Some(i as int) && i < self@.len(),
                None => position_of(self@, key@) is None,
            },
    {
        let mut i: usize = 0;
        while i < self.entries.len()
            invariant
                i <= self.entries.len(),
                forall|j: int| 0 <= j < i ==> (#[trigger] self@[j]).key != key@,
            decreases self.entries.len() - i,
        {
            if text_eq(self.entries[i].key.as_str(), key) {
                proof {
                    lemma_position_is(self@, key@, i as int);
                }
                return Some(i);
            }
            i += 1;
        }
        proof {
            lemma_position_of(self@, key@);
        }
        None
    }

    /// The value under `key`, if the object has that key.
    pub fn get(&self, key: &str) -> (r: Option<&JsonValue>)
        ensures
            match r {
                Some(v) => value_of(self@, key@) == Some(v@),
                None => value_of(self@, key@) is None,
            },
    {
        match self.find(key) {
            Some(i) => Some(&self.entries[i].value),
            None => None,
        }
    }

    /// Puts `value` under `key`: in place of the old value where the key is
    /// present, as a new last member otherwise.
    pub fn insert(&mut self, key: String, value: JsonValue)
        ensures
            final(self)@ == with_entry(old(self)@, key@, value@),
    {
        let found = self.find(key.as_str());
        let ghost before = self@;
        let entry = JsonEntry { key, value };
        match found {
            Some(i) => {
                self.entries.set(i, entry);
            },
            None => {
                self.entries.push(entry);
            },
        }
        assert(self@ =~= with_entry(before, key@, value@));
    }
}

} // verus!
