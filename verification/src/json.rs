//! JSON values.
//!
//! [`Json`] is the tree that messages are made of and [`JsonView`] is what such a tree means:
//! the members of an object form a map, so that neither their order nor an entry that a later
//! one overrides plays a part.
use vstd::prelude::*;

verus! {

/// `serde_json`'s number. What it holds is said by [`number_model`].
#[verifier::external_type_specification]
#[verifier::external_body]
pub struct ExNumber(serde_json::Number);

/// `serde_json::Number` is a plain value: its `clone` hands back an equal number.
pub assume_specification[ <serde_json::Number as Clone>::clone ](n: &serde_json::Number) -> (r: serde_json::Number)
    ensures
        r == *n,
;

/// What a `serde_json::Number` holds: a `u64`, an `i64` below zero, or anything else, which
/// stays as it is.
pub uninterp spec fn number_model(n: serde_json::Number) -> JsonNumber;

/// A JSON number.
#[derive(Debug, PartialEq)]
pub enum JsonNumber {
    /// An integer from 0 up.
    PosInt(u64),
    /// An integer below 0.
    NegInt(i64),
    /// A number that is no integer of 64 bits, kept in the form in which it was read.
    Float(serde_json::Number),
}

impl View for JsonNumber {
    type V = JsonNumber;

    /// One form for each number, however it was written down.
    open spec fn view(&self) -> JsonNumber {
        match *self {
            JsonNumber::PosInt(n) => JsonNumber::PosInt(n),
            JsonNumber::NegInt(n) => if n < 0 {
                JsonNumber::NegInt(n)
            } else {
                JsonNumber::PosInt(n as u64)
            },
            JsonNumber::Float(n) => number_model(n),
        }
    }
}

/// A JSON value. Where an object holds a key more than once, the last entry counts.
///
/// `==` compares two trees entry by entry, in the order in which they are written.
#[derive(Debug, PartialEq)]
pub enum Json {
    Null,
    Bool(bool),
    Number(JsonNumber),
    String(String),
    Array(Vec<Json>),
    Object(Vec<(String, Json)>),
}

/// The meaning of a JSON value.
#[verifier::ext_equal]
pub enum JsonView {
    Null,
    Bool(bool),
    Number(JsonNumber),
    String(Seq<char>),
    Array(Seq<JsonView>),
    Object(Map<Seq<char>, JsonView>),
}

impl View for Json {
    type V = JsonView;

    open spec fn view(&self) -> JsonView {
        self.model()
    }
}

impl Json {
    /// The meaning of the tree, layer by layer.
    pub open spec fn model(self) -> JsonView
        decreases self,
    {
        match self {
            Json::Null => JsonView::Null,
            Json::Bool(b) => JsonView::Bool(b),
            Json::Number(n) => JsonView::Number(n@),
            Json::String(s) => JsonView::String(s@),
            Json::Array(items) => JsonView::Array(items_model(items@)),
            Json::Object(entries) => JsonView::Object(entries_model(entries@)),
        }
    }

    /// The member of an object under `key`; `None` if the value is no object or has no such
    /// member.
    pub fn get(&self, key: &str) -> (r: Option<&Json>)
        ensures
            match self@.member(key@) {
                Some(v) => r matches Some(json) && json@ == v,
                None => r is None,
            },
    {
        match self {
            Json::Object(entries) => {
                let wanted = key.to_owned();
                let mut i: usize = entries.len();
                assert(entries@.take(i as int) == entries@);
                while i > 0
                    invariant
                        i <= entries.len(),
                        wanted@ == key@,
                        entries_model(entries@).get(key@) == entries_model(entries@.take(i as int)).get(key@),
                        self@ == JsonView::Object(entries_model(entries@)),
                    decreases i,
                {
                    i = i - 1;
                    assert(entries@.take(i + 1).drop_last() == entries@.take(i as int));
                    if entries[i].0 == wanted {
                        return Some(&entries[i].1);
                    }
                }
                None
            },
            _ => None,
        }
    }

    /// Whether the value is an object that has a member under `key`.
    pub fn contains_key(&self, key: &str) -> (r: bool)
        ensures
            r == (self@.member(key@) is Some),
    {
        self.get(key).is_some()
    }

    /// The number as a `u64`, where it is one.
    pub fn as_u64(&self) -> (r: Option<u64>)
        ensures
            r == self@.as_u64(),
    {
        match self {
            Json::Number(JsonNumber::PosInt(n)) => Some(*n),
            Json::Number(JsonNumber::NegInt(n)) => if *n >= 0 {
                Some(*n as u64)
            } else {
                None
            },
            Json::Number(JsonNumber::Float(n)) => match crate::value::number_parts(n.clone()) {
                JsonNumber::PosInt(n) => Some(n),
                _ => None,
            },
            _ => None,
        }
    }
}

impl JsonView {
    /// The member under `key`, if the value is an object that has one.
    pub open spec fn member(self, key: Seq<char>) -> Option<JsonView> {
        match self {
            JsonView::Object(members) => members.get(key),
            _ => None,
        }
    }

    /// The number as a `u64`, where it is one.
    pub open spec fn as_u64(self) -> Option<u64> {
        match self {
            JsonView::Number(JsonNumber::PosInt(n)) => Some(n),
            _ => None,
        }
    }
}

/// The values of an array, one by one.
pub open spec fn items_model(items: Seq<Json>) -> Seq<JsonView>
    decreases items,
{
    if items.len() == 0 {
        Seq::empty()
    } else {
        items_model(items.drop_last()).push(items.last().model())
    }
}

/// The value of each item stands in its place.
pub(crate) proof fn lemma_items(items: Seq<Json>)
    ensures
        items_model(items).len() == items.len(),
        forall|i: int| 0 <= i < items.len() ==> #[trigger] items_model(items)[i] == items[i]@,
    decreases items.len(),
{
    if items.len() > 0 {
        lemma_items(items.drop_last());
        assert forall|i: int| 0 <= i < items.len() implies #[trigger] items_model(items)[i] == items[i]@ by {
            if i < items.len() - 1 {
                assert(items_model(items.drop_last())[i] == items.drop_last()[i]@);
            }
        }
    }
}

/// The members of an object: each entry overrides the ones before it.
pub open spec fn entries_model(entries: Seq<(String, Json)>) -> Map<Seq<char>, JsonView>
    decreases entries,
{
    if entries.len() == 0 {
        Map::empty()
    } else {
        entries_model(entries.drop_last()).insert(entries.last().0@, entries.last().1.model())
    }
}

impl Clone for JsonNumber {
    fn clone(&self) -> (r: JsonNumber)
        ensures
            r == *self,
    {
        match self {
            JsonNumber::PosInt(n) => JsonNumber::PosInt(*n),
            JsonNumber::NegInt(n) => JsonNumber::NegInt(*n),
            JsonNumber::Float(n) => JsonNumber::Float(n.clone()),
        }
    }
}

impl Clone for Json {
    fn clone(&self) -> (r: Json)
        ensures
            r@ == self@,
        decreases self,
    {
        match self {
            Json::Null => Json::Null,
            Json::Bool(b) => Json::Bool(*b),
            Json::Number(n) => Json::Number(n.clone()),
            Json::String(s) => Json::String(s.clone()),
            Json::Array(items) => {
                let mut copy: Vec<Json> = Vec::new();
                for i in 0..items.len()
                    invariant
                        self == Json::Array(*items),
                        copy.len() == i,
                        items_model(copy@) == items_model(items@.take(i as int)),
                {
                    assert(decreases_to!(self => self->Array_0));
                    assert(decreases_to!(items => items@));
                    assert(decreases_to!(items@ => items@[i as int]));
                    let item = items[i].clone();
                    assert(items@.take(i + 1).drop_last() == items@.take(i as int));
                    let ghost before = copy@;
                    copy.push(item);
                    assert(copy@.drop_last() == before);
                }
                assert(items@.take(items.len() as int) == items@);
                Json::Array(copy)
            },
            Json::Object(entries) => {
                let mut copy: Vec<(String, Json)> = Vec::new();
                for i in 0..entries.len()
                    invariant
                        self == Json::Object(*entries),
                        copy.len() == i,
                        entries_model(copy@) == entries_model(entries@.take(i as int)),
                {
                    assert(decreases_to!(self => self->Object_0));
                    assert(decreases_to!(entries => entries@));
                    assert(decreases_to!(entries@ => entries@[i as int]));
                    assert(decreases_to!(entries@[i as int] => entries@[i as int].1));
                    let value = entries[i].1.clone();
                    let entry = (entries[i].0.clone(), value);
                    assert(entries@.take(i + 1).drop_last() == entries@.take(i as int));
                    let ghost before = copy@;
                    copy.push(entry);
                    assert(copy@.drop_last() == before);
                }
                assert(entries@.take(entries.len() as int) == entries@);
                Json::Object(copy)
            },
        }
    }
}

} // verus!
