//! Placeholders: objects in the parameters of a message that stand for file descriptors.
use vstd::prelude::*;

use crate::json::{Json, JsonView};
use crate::message::{FD_INDEX_KEY, FD_PLACEHOLDER_KEY};
use crate::value;
use crate::value::{lists, map_model, value_model, values_model, Node};

verus! {

/// Whether an object with these members stands for a file descriptor.
pub open spec fn is_placeholder(members: Map<Seq<char>, JsonView>) -> bool {
    &&& members.get(FD_PLACEHOLDER_KEY@) == Some(JsonView::Bool(true))
    &&& members.contains_key(FD_INDEX_KEY@)
}

/// The number of placeholders in a value. What a placeholder holds is not looked at.
pub open spec fn placeholders(v: JsonView) -> nat
    decreases v, 0nat,
{
    match v {
        JsonView::Array(items) => placeholders_in_items(items, items.len()),
        JsonView::Object(members) => if is_placeholder(members) {
            1
        } else {
            placeholders_in_members(members, members.dom())
        },
        _ => 0,
    }
}

/// The number of placeholders in the first items of an array.
pub open spec fn placeholders_in_items(items: Seq<JsonView>, n: nat) -> nat
    decreases items, n,
{
    if 0 < n <= items.len() {
        placeholders_in_items(items, (n - 1) as nat) + placeholders(items[n - 1])
    } else {
        0
    }
}

/// The number of placeholders in the members of an object under some of its keys.
pub open spec fn placeholders_in_members(members: Map<Seq<char>, JsonView>, keys: Set<Seq<char>>) -> nat
    decreases members, keys.len(),
{
    if members.dom().finite() && keys.subset_of(members.dom()) && keys.len() > 0 {
        let key = keys.choose();
        if keys.finite() && keys.contains(key) && members.contains_key(key) {
            placeholders(members[key]) + placeholders_in_members(members, keys.remove(key))
        } else {
            0
        }
    } else {
        0
    }
}

/// The placeholders in the members of an object can be counted in any order: the count is that
/// of any one member and that of the others.
pub proof fn law_any_member_first(members: Map<Seq<char>, JsonView>, keys: Set<Seq<char>>, key: Seq<char>)
    requires
        members.dom().finite(),
        keys.subset_of(members.dom()),
        keys.contains(key),
    ensures
        placeholders_in_members(members, keys) == placeholders(members[key]) + placeholders_in_members(
            members,
            keys.remove(key),
        ),
    decreases keys.len(),
{
    let chosen = keys.choose();
    if chosen != key {
        law_any_member_first(members, keys.remove(chosen), key);
        law_any_member_first(members, keys.remove(key), chosen);
        assert(keys.remove(chosen).remove(key) =~= keys.remove(key).remove(chosen));
    }
}

proof fn lemma_more_keys(members: Map<Seq<char>, JsonView>, part: Set<Seq<char>>, keys: Set<Seq<char>>)
    requires
        members.dom().finite(),
        part.subset_of(keys),
        keys.subset_of(members.dom()),
    ensures
        placeholders_in_members(members, part) <= placeholders_in_members(members, keys),
    decreases keys.len(),
{
    if exists|key: Seq<char>| keys.contains(key) && !part.contains(key) {
        let key = choose|key: Seq<char>| keys.contains(key) && !part.contains(key);
        law_any_member_first(members, keys, key);
        lemma_more_keys(members, part, keys.remove(key));
    } else {
        assert(part =~= keys);
    }
}

proof fn lemma_more_items(items: Seq<JsonView>, part: nat, n: nat)
    requires
        part <= n <= items.len(),
    ensures
        placeholders_in_items(items, part) <= placeholders_in_items(items, n),
    decreases n,
{
    if part < n {
        lemma_more_items(items, part, (n - 1) as nat);
    }
}

/// The keys of the first entries of a list.
spec fn first_keys(entries: Seq<(String, serde_json::Value)>, n: int) -> Set<Seq<char>> {
    Set::new(|key: Seq<char>| exists|i: int| 0 <= i < n && (#[trigger] entries[i]).0@ == key)
}

/// The number of placeholders in a value; `None` if it is greater than a `usize` can say.
fn count_in_value(value: serde_json::Value) -> (r: Option<usize>)
    ensures
        match r {
            Some(n) => n == placeholders(value_model(value)),
            None => placeholders(value_model(value)) > usize::MAX,
        },
    decreases value_model(value),
{
    match value::open_value(value) {
        Node::Array(values) => {
            let ghost items = values_model(values@);
            let ghost all = values@;
            let mut total: usize = 0;
            for item in it: values
                invariant
                    it.seq() == all,
                    items == values_model(all),
                    value_model(value) == JsonView::Array(items),
                    total == placeholders_in_items(items, it.index() as nat),
            {
                let ghost k = it.index() as int;
                proof {
                    assert(items[k] == value_model(item));
                    assert(decreases_to!(value_model(value) => value_model(value)->Array_0));
                    assert(decreases_to!(items => items[k]));
                    lemma_more_items(items, (k + 1) as nat, items.len());
                }
                match count_in_value(item) {
                    Some(n) if n <= usize::MAX - total => total = total + n,
                    _ => return None,
                }
            }
            Some(total)
        },
        Node::Object(map) => {
            let ghost members = map_model(map);
            let marked = match value::map_get(&map, FD_PLACEHOLDER_KEY) {
                Some(mark) => match value::value_as_bool(mark) {
                    Some(b) => b,
                    None => false,
                },
                None => false,
            };
            if marked && value::map_get(&map, FD_INDEX_KEY).is_some() {
                return Some(1);
            }
            let entries = value::map_entries(map);
            let ghost all = entries@;
            let mut total: usize = 0;
            proof {
                value::lemma_listed_is_finite(all, members);
                assert(first_keys(all, 0) =~= Set::empty());
            }
            for entry in it: entries
                invariant
                    it.seq() == all,
                    lists(all, members),
                    members.dom().finite(),
                    value_model(value) == JsonView::Object(members),
                    !is_placeholder(members),
                    total == placeholders_in_members(members, first_keys(all, it.index() as int)),
            {
                let ghost k = it.index() as int;
                let ghost seen = first_keys(all, k);
                proof {
                    assert(all[k] == entry);
                    assert(decreases_to!(value_model(value) => value_model(value)->Object_0));
                    assert(decreases_to!(members => members[entry.0@]));
                    assert(first_keys(all, k + 1) =~= seen.insert(entry.0@));
                    assert(first_keys(all, k + 1).subset_of(members.dom()));
                    assert(!seen.contains(entry.0@));
                    law_any_member_first(members, seen.insert(entry.0@), entry.0@);
                    assert(seen.insert(entry.0@).remove(entry.0@) =~= seen);
                    lemma_more_keys(members, seen.insert(entry.0@), members.dom());
                }
                match count_in_value(entry.1) {
                    Some(n) if n <= usize::MAX - total => total = total + n,
                    _ => return None,
                }
            }
            assert(first_keys(all, all.len() as int) =~= members.dom());
            Some(total)
        },
        _ => Some(0),
    }
}

/// The number of placeholders in a value; `None` if it is greater than a `usize` can say.
pub(crate) fn count(value: &Json) -> (r: Option<usize>)
    ensures
        match r {
            Some(n) => n == placeholders(value@),
            None => placeholders(value@) > usize::MAX,
        },
{
    count_in_value(value::export(value))
}

} // verus!
