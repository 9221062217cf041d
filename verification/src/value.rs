//! `serde_json`'s values, and the way between them and [`Json`].
use vstd::prelude::*;

use crate::json::{entries_model, items_model, number_model, Json, JsonNumber, JsonView};

verus! {

/// `serde_json`'s value. What it holds is said by [`value_model`].
#[verifier::external_type_specification]
#[verifier::external_body]
pub struct ExValue(serde_json::Value);

/// `serde_json`'s map. What it holds is said by [`map_model`].
#[verifier::external_type_specification]
#[verifier::external_body]
#[verifier::reject_recursive_types(K)]
#[verifier::reject_recursive_types(V)]
pub struct ExMap<K, V>(serde_json::Map<K, V>);

/// The JSON value that a `serde_json::Value` holds.
pub uninterp spec fn value_model(value: serde_json::Value) -> JsonView;

/// The members that a `serde_json::Map` holds.
pub uninterp spec fn map_model(map: serde_json::Map<String, serde_json::Value>) -> Map<Seq<char>, JsonView>;

/// The outermost layer of a `serde_json::Value`.
pub(crate) enum Node {
    Null,
    Bool(bool),
    Number(serde_json::Number),
    String(String),
    Array(Vec<serde_json::Value>),
    Object(serde_json::Map<String, serde_json::Value>),
}

/// The JSON values that some values of `serde_json` hold.
pub(crate) open spec fn values_model(values: Seq<serde_json::Value>) -> Seq<JsonView> {
    Seq::new(values.len(), |i: int| value_model(values[i]))
}

/// The JSON value that a layer with all that is below it makes up.
pub(crate) open spec fn node_model(node: Node) -> JsonView {
    match node {
        Node::Null => JsonView::Null,
        Node::Bool(b) => JsonView::Bool(b),
        Node::Number(n) => JsonView::Number(number_model(n)),
        Node::String(s) => JsonView::String(s@),
        Node::Array(values) => JsonView::Array(values_model(values@)),
        Node::Object(map) => JsonView::Object(map_model(map)),
    }
}

/// Whether the entries are the members, each of them once.
pub(crate) open spec fn lists(
    entries: Seq<(String, serde_json::Value)>,
    members: Map<Seq<char>, JsonView>,
) -> bool {
    &&& forall|i: int|
        0 <= i < entries.len() ==> members.contains_pair(
            (#[trigger] entries[i]).0@,
            value_model(entries[i].1),
        )
    &&& forall|i: int, j: int|
        0 <= i < j < entries.len() ==> (#[trigger] entries[i]).0@ != (#[trigger] entries[j]).0@
    &&& forall|key: Seq<char>| #[trigger]
        members.contains_key(key) ==> exists|i: int|
            0 <= i < entries.len() && (#[trigger] entries[i]).0@ == key
}

/// Tells the variants of `serde_json::Value` apart. Each holds what its name says.
#[verifier::external_body]
pub(crate) fn open_value(value: serde_json::Value) -> (r: Node)
    ensures
        node_model(r) == value_model(value),
{
    match value {
        serde_json::Value::Null => Node::Null,
        serde_json::Value::Bool(b) => Node::Bool(b),
        serde_json::Value::Number(n) => Node::Number(n),
        serde_json::Value::String(s) => Node::String(s),
        serde_json::Value::Array(values) => Node::Array(values),
        serde_json::Value::Object(map) => Node::Object(map),
    }
}

/// Makes a `serde_json::Value` of the variant that the layer names.
#[verifier::external_body]
fn close_value(node: Node) -> (r: serde_json::Value)
    ensures
        value_model(r) == node_model(node),
{
    match node {
        Node::Null => serde_json::Value::Null,
        Node::Bool(b) => serde_json::Value::Bool(b),
        Node::Number(n) => serde_json::Value::Number(n),
        Node::String(s) => serde_json::Value::String(s),
        Node::Array(values) => serde_json::Value::Array(values),
        Node::Object(map) => serde_json::Value::Object(map),
    }
}

/// `serde_json::Map::into_iter` hands out every member of the map once.
#[verifier::external_body]
pub(crate) fn map_entries(map: serde_json::Map<String, serde_json::Value>) -> (r: Vec<
    (String, serde_json::Value),
>)
    ensures
        lists(r@, map_model(map)),
{
    map.into_iter().collect()
}

/// `serde_json::Map::get` finds the member under a key, if there is one.
#[verifier::external_body]
pub(crate) fn map_get<'a>(
    map: &'a serde_json::Map<String, serde_json::Value>,
    key: &str,
) -> (r: Option<&'a serde_json::Value>)
    ensures
        match map_model(*map).get(key@) {
            Some(v) => r is Some && value_model(*r->0) == v,
            None => r is None,
        },
{
    map.get(key)
}

/// `serde_json::Map::new` makes a map without members.
#[verifier::external_body]
fn map_new() -> (r: serde_json::Map<String, serde_json::Value>)
    ensures
        map_model(r).dom() == Set::<Seq<char>>::empty(),
{
    serde_json::Map::new()
}

/// `serde_json::Map::insert` adds a member, in place of one under the same key.
#[verifier::external_body]
fn map_insert(map: &mut serde_json::Map<String, serde_json::Value>, key: String, value: serde_json::Value)
    ensures
        map_model(*final(map)) == map_model(*old(map)).insert(key@, value_model(value)),
{
    map.insert(key, value);
}

/// `serde_json::Value::as_bool` gives the `bool` of a value that is one.
#[verifier::external_body]
pub(crate) fn value_as_bool(value: &serde_json::Value) -> (r: Option<bool>)
    ensures
        match value_model(*value) {
            JsonView::Bool(b) => r == Some(b),
            _ => r is None,
        },
{
    value.as_bool()
}

/// `serde_json::Number::as_u64` and `as_i64` tell what a number holds: a number that is a `u64`
/// is that, one that is not but is an `i64` is below zero, and any other stays as it is.
#[verifier::external_body]
pub(crate) fn number_parts(n: serde_json::Number) -> (r: JsonNumber)
    ensures
        r == number_model(n),
        r matches JsonNumber::Float(x) ==> x == n,
        r matches JsonNumber::NegInt(i) ==> i < 0,
{
    match (n.as_u64(), n.as_i64()) {
        (Some(u), _) => JsonNumber::PosInt(u),
        (None, Some(i)) => JsonNumber::NegInt(i),
        (None, None) => JsonNumber::Float(n),
    }
}

/// `serde_json::Number::from` makes a number of a `u64`.
#[verifier::external_body]
fn number_from_u64(n: u64) -> (r: serde_json::Number)
    ensures
        number_model(r) == JsonNumber::PosInt(n),
{
    serde_json::Number::from(n)
}

/// `serde_json::Number::from` makes a number of an `i64`; one from 0 up is the same as if made
/// of a `u64`.
#[verifier::external_body]
fn number_from_i64(n: i64) -> (r: serde_json::Number)
    ensures
        number_model(r) == (if n < 0 {
            JsonNumber::NegInt(n)
        } else {
            JsonNumber::PosInt(n as u64)
        }),
{
    serde_json::Number::from(n)
}

/// The value of `serde_json` as a [`Json`] tree.
pub fn import(value: serde_json::Value) -> (r: Json)
    ensures
        r.model() == value_model(value),
    decreases value_model(value),
{
    match open_value(value) {
        Node::Null => Json::Null,
        Node::Bool(b) => Json::Bool(b),
        Node::Number(n) => Json::Number(number_parts(n)),
        Node::String(s) => Json::String(s),
        Node::Array(values) => {
            let mut items: Vec<Json> = Vec::new();
            let ghost all = values@;
            for item in it: values
                invariant
                    it.seq() == all,
                    value_model(value) == JsonView::Array(values_model(all)),
                    items@.len() == it.index(),
                    items_model(items@) == values_model(all).take(it.index() as int),
            {
                let ghost k = it.index() as int;
                let ghost before = items@;
                proof {
                    assert(values_model(all)[k] == value_model(item));
                    assert(decreases_to!(value_model(value) => value_model(value)->Array_0));
                    assert(decreases_to!(values_model(all) => values_model(all)[k]));
                }
                items.push(import(item));
                proof {
                    assert(items@.drop_last() == before);
                    assert(values_model(all).take(k + 1) == values_model(all).take(k).push(values_model(all)[k]));
                }
            }
            assert(values_model(all).take(all.len() as int) == values_model(all));
            Json::Array(items)
        },
        Node::Object(map) => {
            let entries = map_entries(map);
            let mut members: Vec<(String, Json)> = Vec::new();
            let ghost all = entries@;
            proof {
                lemma_listed_is_finite(all, map_model(map));
            }
            for entry in it: entries
                invariant
                    it.seq() == all,
                    value_model(value) == JsonView::Object(map_model(map)),
                    map_model(map).dom().finite(),
                    lists(all, map_model(map)),
                    members@.len() == it.index(),
                    entries_model(members@) == pairs_model(all.take(it.index() as int)),
            {
                let ghost k = it.index() as int;
                let ghost before = members@;
                proof {
                    assert(all[k] == entry);
                    assert(decreases_to!(value_model(value) => value_model(value)->Object_0));
                    assert(decreases_to!(map_model(map) => map_model(map)[entry.0@]));
                }
                members.push((entry.0, import(entry.1)));
                proof {
                    assert(members@.drop_last() == before);
                    assert(all.take(k + 1).drop_last() == all.take(k));
                }
            }
            proof {
                assert(all.take(all.len() as int) == all);
                lemma_pairs_of_listed(all, map_model(map));
            }
            Json::Object(members)
        },
    }
}

/// The [`Json`] tree as a value of `serde_json`.
pub fn export(json: &Json) -> (r: serde_json::Value)
    ensures
        value_model(r) == json.model(),
    decreases json,
{
    match json {
        Json::Null => close_value(Node::Null),
        Json::Bool(b) => close_value(Node::Bool(*b)),
        Json::Number(JsonNumber::PosInt(n)) => close_value(Node::Number(number_from_u64(*n))),
        Json::Number(JsonNumber::NegInt(n)) => close_value(Node::Number(number_from_i64(*n))),
        Json::Number(JsonNumber::Float(n)) => close_value(Node::Number(n.clone())),
        Json::String(s) => close_value(Node::String(s.clone())),
        Json::Array(items) => {
            let mut values: Vec<serde_json::Value> = Vec::new();
            for i in 0..items.len()
                invariant
                    json == Json::Array(*items),
                    values@.len() == i,
                    values_model(values@) == items_model(items@.take(i as int)),
            {
                assert(decreases_to!(json => json->Array_0));
                assert(decreases_to!(items => items@));
                assert(decreases_to!(items@ => items@[i as int]));
                let ghost before = values@;
                values.push(export(&items[i]));
                assert(values_model(values@) == values_model(before).push(items@[i as int].model()));
                assert(items@.take(i + 1).drop_last() == items@.take(i as int));
            }
            assert(items@.take(items@.len() as int) == items@);
            close_value(Node::Array(values))
        },
        Json::Object(entries) => {
            let mut map = map_new();
            for i in 0..entries.len()
                invariant
                    json == Json::Object(*entries),
                    map_model(map) == entries_model(entries@.take(i as int)),
            {
                assert(decreases_to!(json => json->Object_0));
                assert(decreases_to!(entries => entries@));
                assert(decreases_to!(entries@ => entries@[i as int]));
                assert(decreases_to!(entries@[i as int] => entries@[i as int].1));
                let value = export(&entries[i].1);
                map_insert(&mut map, entries[i].0.clone(), value);
                assert(entries@.take(i + 1).drop_last() == entries@.take(i as int));
            }
            assert(entries@.take(entries@.len() as int) == entries@);
            close_value(Node::Object(map))
        },
    }
}

/// The members that a list of entries makes up.
spec fn pairs_model(entries: Seq<(String, serde_json::Value)>) -> Map<Seq<char>, JsonView>
    decreases entries.len(),
{
    if entries.len() == 0 {
        Map::empty()
    } else {
        pairs_model(entries.drop_last()).insert(entries.last().0@, value_model(entries.last().1))
    }
}

pub(crate) proof fn lemma_listed_is_finite(entries: Seq<(String, serde_json::Value)>, members: Map<Seq<char>, JsonView>)
    requires
        lists(entries, members),
    ensures
        members.dom().finite(),
{
    let keys = entries.map_values(|entry: (String, serde_json::Value)| entry.0@);
    vstd::seq_lib::seq_to_set_is_finite(keys);
    assert forall|key: Seq<char>| members.contains_key(key) implies keys.to_set().contains(key) by {
        let i = choose|i: int| 0 <= i < entries.len() && (#[trigger] entries[i]).0@ == key;
        assert(keys[i] == key);
    }
    assert(members.dom().subset_of(keys.to_set()));
}

proof fn lemma_pairs_of_listed(entries: Seq<(String, serde_json::Value)>, members: Map<Seq<char>, JsonView>)
    requires
        lists(entries, members),
    ensures
        pairs_model(entries) == members,
    decreases entries.len(),
{
    if entries.len() == 0 {
        assert(members =~= Map::empty());
    } else {
        let last = entries.last();
        let rest = members.remove(last.0@);
        assert(lists(entries.drop_last(), rest)) by {
            assert forall|key: Seq<char>| #[trigger] rest.contains_key(key) implies exists|i: int|
                0 <= i < entries.drop_last().len() && (#[trigger] entries.drop_last()[i]).0@ == key by {
                assert(members.contains_key(key));
                let i = choose|i: int| 0 <= i < entries.len() && (#[trigger] entries[i]).0@ == key;
                assert(entries.drop_last()[i].0@ == key);
            }
        }
        lemma_pairs_of_listed(entries.drop_last(), rest);
        assert(entries[entries.len() - 1] == last);
        assert(rest.insert(last.0@, value_model(last.1)) =~= members);
    }
}


} // verus!
