//! What the operations are for, said of what goes in and what comes out: which member of a JSON
//! object says what, which bytes and file descriptors go where, and what a receiver does with
//! them.
use vstd::prelude::*;
use vstd::utf8::encode_utf8;

use crate::client::{call, notice, Client};
use crate::codec::{
    carried, count_fault, count_of, error_of, json_parse, json_scan, json_text, json_text_pretty,
    plain, raw_text_key, string_fault, string_of, unwrapped_raw_text, written, ErrorView, Scanned,
    ScannedView,
};
use crate::error::{is_json_error, Error, Result};
use crate::json::{entries_model, lemma_items, number_model, Json, JsonNumber, JsonView};
use crate::message::{
    encoded, encoded_error, error_value, fd_count, fds_field, message_of, missing, optional,
    refused, wire_value, JsonRpcError, JsonRpcMessage, JsonRpcNotification, JsonRpcRequest,
    JsonRpcResponse, MessageView, MessageWithFds, NotificationView, RequestView, ResponseView,
};
use crate::placeholder::{
    law_any_member_first, placeholders, placeholders_in_items, placeholders_in_members,
};
use crate::roundtrip::{delivered, lemma_keys};
use crate::stream::{chunks_of, feed, handed_over, reports_end, run, Chunk, Progress};
use crate::transport::{
    begun, is_error_for, prepared, read_in, reports, step, take_message, take_scanned, taken,
    Action, Event, EventView, ReceiverView, TakenView, Transmission, TransmissionView,
};

verus! {

// JSON values.

/// A tree means what it says: a leaf stands for itself, an array for its items in their order,
/// and an object for its entries, where the last one under a key counts.
pub proof fn law_tree_means_what_it_says(json: Json)
    ensures
        match json {
            Json::Null => json@ == JsonView::Null,
            Json::Bool(b) => json@ == JsonView::Bool(b),
            Json::String(s) => json@ == JsonView::String(s@),
            Json::Number(JsonNumber::PosInt(n)) => json@ == JsonView::Number(JsonNumber::PosInt(n)),
            Json::Number(JsonNumber::NegInt(n)) => match json@ {
                JsonView::Number(JsonNumber::NegInt(k)) => n < 0 && k == n,
                JsonView::Number(JsonNumber::PosInt(k)) => n >= 0 && k == n,
                _ => false,
            },
            Json::Number(JsonNumber::Float(n)) => json@ == JsonView::Number(number_model(n)),
            Json::Array(items) => json@ matches JsonView::Array(values) && values.len()
                == items@.len() && forall|i: int|
                0 <= i < items@.len() ==> #[trigger] values[i] == items@[i]@,
            Json::Object(entries) => json@ matches JsonView::Object(members) && (forall|key: Seq<char>| #[trigger]
                members.contains_key(key) ==> exists|i: int|
                    0 <= i < entries@.len() && (#[trigger] entries@[i]).0@ == key) && (forall|i: int|
                0 <= i < entries@.len() ==> members.contains_key((#[trigger] entries@[i]).0@) && ((
                forall|j: int| i < j < entries@.len() ==> (#[trigger] entries@[j]).0@ != entries@[i].0@)
                    ==> members[entries@[i].0@] == entries@[i].1@)),
        },
{
    match json {
        Json::Array(items) => {
            lemma_items(items@);
        },
        Json::Object(entries) => {
            lemma_entries(entries@);
        },
        _ => {},
    }
}

proof fn lemma_entries(entries: Seq<(String, Json)>)
    ensures
        forall|key: Seq<char>| #[trigger]
            entries_model(entries).contains_key(key) ==> exists|i: int|
                0 <= i < entries.len() && (#[trigger] entries[i]).0@ == key,
        forall|i: int|
            0 <= i < entries.len() ==> entries_model(entries).contains_key((#[trigger] entries[i]).0@) && ((
            forall|j: int| i < j < entries.len() ==> (#[trigger] entries[j]).0@ != entries[i].0@)
                ==> entries_model(entries)[entries[i].0@] == entries[i].1@),
    decreases entries.len(),
{
    if entries.len() > 0 {
        let first = entries.drop_last();
        let last = entries.len() - 1;
        lemma_entries(first);
        assert forall|key: Seq<char>| #[trigger] entries_model(entries).contains_key(key) implies exists|i: int|
            0 <= i < entries.len() && (#[trigger] entries[i]).0@ == key by {
            if key != entries[last].0@ {
                assert(entries_model(first).contains_key(key));
                let i = choose|i: int| 0 <= i < first.len() && (#[trigger] first[i]).0@ == key;
                assert(entries[i].0@ == key);
            }
        }
        assert forall|i: int| 0 <= i < entries.len() implies entries_model(entries).contains_key(
            (#[trigger] entries[i]).0@,
        ) && ((forall|j: int| i < j < entries.len() ==> (#[trigger] entries[j]).0@ != entries[i].0@)
            ==> entries_model(entries)[entries[i].0@] == entries[i].1@) by {
            if i < last {
                assert(first[i] == entries[i]);
                if forall|j: int| i < j < entries.len() ==> (#[trigger] entries[j]).0@ != entries[i].0@ {
                    assert(entries[last].0@ != entries[i].0@);
                    assert forall|j: int| i < j < first.len() implies (#[trigger] first[j]).0@ != first[i].0@ by {
                        assert(entries[j].0@ != entries[i].0@);
                    }
                }
            }
        }
    }
}

/// The member of a value under a key is what the object has there, and an integer from 0 up is
/// the only thing that is read as one.
pub proof fn law_members_are_looked_up(v: JsonView, key: Seq<char>, n: u64)
    ensures
        match v {
            JsonView::Object(members) => {
                &&& members.contains_key(key) ==> v.member(key) == Some(members[key])
                &&& !members.contains_key(key) ==> v.member(key) is None
            },
            _ => v.member(key) is None,
        },
        v.as_u64() == Some(n) <==> v == JsonView::Number(JsonNumber::PosInt(n)),
{
}

/// A value is taken over as it stands: a plain value as it is, raw text as what it unwraps to, a
/// string and a count as what they are. Null is no count, and nothing else is taken for a string
/// or for a count.
pub proof fn law_values_are_taken_as_they_stand(v: JsonView)
    ensures
        plain(v) ==> carried(v) == Ok::<JsonView, Seq<char>>(v),
        !plain(v) ==> carried(v) == unwrapped_raw_text(v),
        match v {
            JsonView::String(s) => string_of(v) == Ok::<Seq<char>, Seq<char>>(s),
            _ => string_of(v) == Err::<Seq<char>, Seq<char>>(string_fault(v)),
        },
        match (v, count_of(v)) {
            (JsonView::Null, Ok(None)) => true,
            (JsonView::Number(JsonNumber::PosInt(n)), Ok(Some(count))) => count == n,
            (JsonView::Number(JsonNumber::PosInt(n)), Err(e)) => n > usize::MAX && e == count_fault(v),
            (JsonView::Null, _) | (JsonView::Number(JsonNumber::PosInt(_)), _) => false,
            (_, Err(e)) => e == count_fault(v),
            (_, Ok(_)) => false,
        },
{
}

/// A value without raw text in it is plain: every leaf, an array of plain values, and an object
/// of plain values that has no member under the key of raw text.
pub proof fn law_values_without_raw_text_are_plain(v: JsonView)
    ensures
        match v {
            JsonView::Array(items) => plain(v) == forall|i: int|
                0 <= i < items.len() ==> plain(#[trigger] items[i]),
            JsonView::Object(members) => !members.contains_key(raw_text_key()) ==> plain(v) == (
            forall|key: Seq<char>| #[trigger] members.contains_key(key) ==> plain(members[key])),
            _ => plain(v),
        },
{
}

/// Text is written in the style that is asked for.
pub proof fn law_style_is_as_asked(v: JsonView)
    ensures
        written(v, false) == json_text(v),
        written(v, true) == json_text_pretty(v),
{
}

/// The result of a scan says what it holds.
pub proof fn law_scan_says_what_it_holds(scanned: Scanned)
    ensures
        match scanned {
            Scanned::Blank => scanned@ is Blank,
            Scanned::Incomplete => scanned@ is Incomplete,
            Scanned::Invalid => scanned@ is Invalid,
            Scanned::Complete(json, n) => scanned@ matches ScannedView::Complete(v, k) && v == json@
                && k == n,
        },
{
}

// The fields of messages.

/// What a value that may be absent says.
pub open spec fn said(json: Option<Json>, v: Option<JsonView>) -> bool {
    match (json, v) {
        (Some(json), Some(v)) => json@ == v,
        (None, None) => true,
        _ => false,
    }
}

/// A message says what its fields say, each field for itself.
pub proof fn law_messages_say_their_fields(
    message: JsonRpcMessage,
    req: JsonRpcRequest,
    res: JsonRpcResponse,
    notif: JsonRpcNotification,
    error: JsonRpcError,
)
    ensures
        match (message, message@) {
            (JsonRpcMessage::Request(req), MessageView::Request(v)) => v == req@,
            (JsonRpcMessage::Response(res), MessageView::Response(v)) => v == res@,
            (JsonRpcMessage::Notification(notif), MessageView::Notification(v)) => v == notif@,
            _ => false,
        },
        said(req.params, optional(req.params)),
        req@.jsonrpc == req.jsonrpc@,
        req@.method == req.method@,
        said(req.params, req@.params),
        req@.id == req.id@,
        req@.fds == req.fds,
        res@.jsonrpc == res.jsonrpc@,
        said(res.result, res@.result),
        match (res.error, res@.error) {
            (Some(error), Some(v)) => v == error@,
            (None, None) => true,
            _ => false,
        },
        res@.id == res.id@,
        res@.fds == res.fds,
        notif@.jsonrpc == notif.jsonrpc@,
        notif@.method == notif.method@,
        said(notif.params, notif@.params),
        notif@.fds == notif.fds,
        error@.code == error.code,
        error@.message == error.message@,
        match (error.data, error@.data) {
            (Some(text), Some(v)) => v == text@,
            (None, None) => true,
            _ => false,
        },
{
}

/// Setting the count of file descriptors sets it to that number, or takes it out for 0, and
/// leaves every other field as it is.
pub proof fn law_count_is_set(message: MessageView, count: nat)
    requires
        count <= usize::MAX,
    ensures
        match (message, message.with_fds(fds_field(count))) {
            (MessageView::Request(old), MessageView::Request(new)) => {
                &&& new.jsonrpc == old.jsonrpc && new.method == old.method && new.params == old.params
                &&& new.id == old.id
            },
            (MessageView::Response(old), MessageView::Response(new)) => {
                &&& new.jsonrpc == old.jsonrpc && new.result == old.result && new.error == old.error
                &&& new.id == old.id
            },
            (MessageView::Notification(old), MessageView::Notification(new)) => {
                new.jsonrpc == old.jsonrpc && new.method == old.method && new.params == old.params
            },
            _ => false,
        },
        match message.with_fds(fds_field(count)).fds() {
            Some(n) => n == count && count > 0,
            None => count == 0,
        },
        match message {
            MessageView::Request(req) => message.fds() == req.fds,
            MessageView::Response(res) => message.fds() == res.fds,
            MessageView::Notification(notif) => message.fds() == notif.fds,
        },
{
}

// The count of file descriptors in JSON.

/// The count is the number that stands under `fds`, whatever number it is; without an integer
/// there it is 0.
pub proof fn law_fd_count_is_the_number(v: JsonView, n: nat)
    requires
        n <= usize::MAX,
    ensures
        v matches JsonView::Object(members) && members.contains_key("fds"@) && members["fds"@]
            == JsonView::Number(JsonNumber::PosInt(n as u64)) ==> fd_count(v) == n,
        match v {
            JsonView::Object(members) => if members.contains_key("fds"@) {
                match members["fds"@] {
                    JsonView::Number(JsonNumber::PosInt(k)) => fd_count(v) == k as usize,
                    _ => fd_count(v) == 0,
                }
            } else {
                fd_count(v) == 0
            },
            _ => fd_count(v) == 0,
        },
{
}

/// What is written for a message with file descriptors has their number under `fds`, and
/// nothing stands there if there are none.
pub proof fn law_fds_member_is_the_number(message: MessageView, n: nat)
    requires
        n <= usize::MAX,
    ensures
        wire_value(message, n) matches Ok(v) ==> (v matches JsonView::Object(members) && (if n > 0 {
            &&& members.contains_key("fds"@)
            &&& members["fds"@] == JsonView::Number(JsonNumber::PosInt(n as u64))
        } else {
            !members.contains_key("fds"@)
        })),
{
    lemma_keys();
}

// The members of messages.

/// Whether nothing or the given value stands under a key.
pub open spec fn stands(members: Map<Seq<char>, JsonView>, key: Seq<char>, v: Option<JsonView>) -> bool {
    match v {
        Some(v) => members.contains_key(key) && members[key] == v,
        None => !members.contains_key(key),
    }
}

/// Whether the number under `fds` is the given one, and nothing stands there for none and 0.
pub open spec fn count_stands(members: Map<Seq<char>, JsonView>, fds: Option<usize>) -> bool {
    match fds {
        Some(n) if n > 0 => members.contains_key("fds"@) && members["fds"@] == JsonView::Number(
            JsonNumber::PosInt(n as u64),
        ),
        _ => !members.contains_key("fds"@),
    }
}

/// A request is written with its version, method, parameters and id each under its own key, as
/// they are, and with nothing but its count beside them.
pub proof fn law_request_is_written(req: RequestView)
    ensures
        encoded(MessageView::Request(req)) matches Ok(JsonView::Object(members)) && {
            &&& members.contains_key("jsonrpc"@) && members["jsonrpc"@] == JsonView::String(req.jsonrpc)
            &&& members.contains_key("method"@) && members["method"@] == JsonView::String(req.method)
            &&& members.contains_key("id"@) && members["id"@] == req.id
            &&& stands(members, "params"@, req.params)
            &&& count_stands(members, req.fds)
            &&& forall|key: Seq<char>| #[trigger]
                members.contains_key(key) ==> key == "jsonrpc"@ || key == "method"@ || key == "id"@ || key
                    == "params"@ || key == "fds"@
        },
{
    lemma_keys();
}

/// A notification is written with its version, method and parameters each under its own key, as
/// they are, and with nothing but its count beside them.
pub proof fn law_notification_is_written(notif: NotificationView)
    ensures
        encoded(MessageView::Notification(notif)) matches Ok(JsonView::Object(members)) && {
            &&& members.contains_key("jsonrpc"@) && members["jsonrpc"@] == JsonView::String(notif.jsonrpc)
            &&& members.contains_key("method"@) && members["method"@] == JsonView::String(notif.method)
            &&& stands(members, "params"@, notif.params)
            &&& count_stands(members, notif.fds)
            &&& forall|key: Seq<char>| #[trigger]
                members.contains_key(key) ==> key == "jsonrpc"@ || key == "method"@ || key == "params"@ || key
                    == "fds"@
        },
{
    lemma_keys();
}

/// A response is written with its version, result and id each under its own key, as they are,
/// with the JSON value of its error object under `error`, and with nothing but its count beside
/// them. Only data of an error that is not JSON keeps it from being written.
pub proof fn law_response_is_written(res: ResponseView)
    ensures
        match encoded(MessageView::Response(res)) {
            Ok(JsonView::Object(members)) => {
                &&& members.contains_key("jsonrpc"@) && members["jsonrpc"@] == JsonView::String(res.jsonrpc)
                &&& members.contains_key("id"@) && members["id"@] == res.id
                &&& stands(members, "result"@, res.result)
                &&& match res.error {
                    None => !members.contains_key("error"@),
                    Some(error) => members.contains_key("error"@) && encoded_error(error) == Ok::<
                        JsonView,
                        Seq<char>,
                    >(members["error"@]),
                }
                &&& count_stands(members, res.fds)
                &&& forall|key: Seq<char>| #[trigger]
                    members.contains_key(key) ==> key == "jsonrpc"@ || key == "id"@ || key == "result"@ || key
                        == "error"@ || key == "fds"@
            },
            Ok(_) => false,
            Err(e) => res.error is Some && res.error->0.data is Some && json_parse(res.error->0.data->0)
                == Err::<JsonView, Seq<char>>(e),
        },
{
    lemma_keys();
}

/// With file descriptors, the same is written as for the message that carries their number.
pub proof fn law_wire_value_is_the_message_with_its_count(message: MessageView, n: nat)
    requires
        n <= usize::MAX,
    ensures
        wire_value(message, n) == encoded(
            match message {
                MessageView::Request(req) => MessageView::Request(
                    RequestView { fds: if n > 0 { Some(n as usize) } else { None }, ..req },
                ),
                MessageView::Response(res) => MessageView::Response(
                    ResponseView { fds: if n > 0 { Some(n as usize) } else { None }, ..res },
                ),
                MessageView::Notification(notif) => MessageView::Notification(
                    NotificationView { fds: if n > 0 { Some(n as usize) } else { None }, ..notif },
                ),
            },
        ),
{
}

/// Whether a value is this integer.
pub open spec fn is_integer(v: JsonView, n: int) -> bool {
    match v {
        JsonView::Number(JsonNumber::PosInt(k)) => k == n,
        JsonView::Number(JsonNumber::NegInt(k)) => k == n,
        _ => false,
    }
}

/// An error object is written with its code, whatever code it is, its message and its data each
/// under its own key, as they are, and with nothing beside them. Data is written as the value
/// that its text holds.
pub proof fn law_error_object_is_written(error: ErrorView, data: Option<JsonView>)
    ensures
        error_value(error, data) matches JsonView::Object(members) && {
            &&& members.contains_key("code"@) && is_integer(members["code"@], error.code as int)
            &&& members["code"@] matches JsonView::Number(JsonNumber::NegInt(_)) ==> error.code < 0
            &&& members.contains_key("message"@) && members["message"@] == JsonView::String(error.message)
            &&& stands(members, "data"@, data)
            &&& forall|key: Seq<char>| #[trigger]
                members.contains_key(key) ==> key == "code"@ || key == "message"@ || key == "data"@
        },
        match encoded_error(error) {
            Ok(JsonView::Object(members)) => {
                &&& members.contains_key("code"@) && is_integer(members["code"@], error.code as int)
                &&& members.contains_key("message"@) && members["message"@] == JsonView::String(error.message)
                &&& match error.data {
                    None => !members.contains_key("data"@),
                    Some(text) => members.contains_key("data"@) && json_parse(text) == Ok::<
                        JsonView,
                        Seq<char>,
                    >(members["data"@]),
                }
            },
            Ok(_) => false,
            Err(e) => error.data is Some && json_parse(error.data->0) == Err::<JsonView, Seq<char>>(e),
        },
{
    lemma_keys();
}

/// Whether an error object has this code and message, and the text of this value as its data,
/// where null is no data.
pub open spec fn says(error: ErrorView, code: JsonView, message: JsonView, data: Option<JsonView>) -> bool {
    &&& is_integer(code, error.code as int)
    &&& message == JsonView::String(error.message)
    &&& match data {
        None | Some(JsonView::Null) => error.data is None,
        Some(v) => error.data == Some(json_text(v)),
    }
}

/// An error object that is read has as its code the number under `code`, whatever number it is,
/// as its message the string under `message`, and as its data the text of what stands under
/// `data`. An array of the three is read in the same way, and nothing else is read at all.
pub proof fn law_error_object_is_read(v: JsonView, n: int)
    ensures
        error_of(v) matches Ok(error) ==> match v {
            JsonView::Object(members) => {
                &&& members.contains_key("code"@) && members.contains_key("message"@)
                &&& says(error, members["code"@], members["message"@], members.get("data"@))
                &&& forall|key: Seq<char>| #[trigger]
                    members.contains_key(key) ==> key == "code"@ || key == "message"@ || key == "data"@
            },
            JsonView::Array(items) => items.len() == 3 && says(error, items[0], items[1], Some(items[2])),
            _ => false,
        },
        i32::MIN <= n <= i32::MAX ==> match v {
            JsonView::Object(members) => members.contains_key("code"@) && is_integer(members["code"@], n)
                && members.contains_key("message"@) && members["message"@] is String && (forall|key: Seq<char>|
                #[trigger]
                members.contains_key(key) ==> key == "code"@ || key == "message"@ || key == "data"@)
                ==> error_of(v) is Ok,
            JsonView::Array(items) => items.len() == 3 && is_integer(items[0], n) && items[1] is String
                ==> error_of(v) is Ok,
            _ => true,
        },
{
}

/// Whether a field that may be absent holds what stands under a key: nothing if that is absent
/// or null, a plain value as it is, and any other as it is taken over.
pub open spec fn holds_member(field: Option<JsonView>, members: Map<Seq<char>, JsonView>, key: Seq<char>) -> bool {
    if !members.contains_key(key) || members[key] is Null {
        field is None
    } else {
        &&& plain(members[key]) ==> field == Some(members[key])
        &&& field is Some && carried(members[key]) == Ok::<JsonView, Seq<char>>(field->0)
    }
}

/// Whether a count is the number under `fds`, and none if that is absent or null.
pub open spec fn holds_count(fds: Option<usize>, members: Map<Seq<char>, JsonView>) -> bool {
    if !members.contains_key("fds"@) || members["fds"@] is Null {
        fds is None
    } else {
        fds is Some && members["fds"@] == JsonView::Number(JsonNumber::PosInt(fds->0 as u64))
    }
}

/// Whether a string stands under a key.
pub open spec fn has_string(members: Map<Seq<char>, JsonView>, key: Seq<char>) -> bool {
    members.contains_key(key) && members[key] is String
}

/// Whether nothing, null or a value that can be taken over stands under a key.
pub open spec fn is_value_there(members: Map<Seq<char>, JsonView>, key: Seq<char>) -> bool {
    members.contains_key(key) ==> members[key] is Null || plain(members[key]) || carried(members[key]) is Ok
}

/// Whether a count, null or nothing stands under `fds`.
pub open spec fn is_count_there(members: Map<Seq<char>, JsonView>) -> bool {
    members.contains_key("fds"@) ==> match members["fds"@] {
        JsonView::Null => true,
        JsonView::Number(JsonNumber::PosInt(n)) => n <= usize::MAX,
        _ => false,
    }
}

/// An object with a method and an id is read as a request, and each field is what stands under
/// its key. It is read if and only if the version and the method are strings, the count is a
/// count, and the id and the parameters can be taken over, as every plain value can.
pub proof fn law_request_is_read(members: Map<Seq<char>, JsonView>)
    requires
        members.contains_key("method"@),
        members.contains_key("id"@),
    ensures
        match message_of(JsonView::Object(members)) {
            Some(MessageView::Request(req)) => {
                &&& members.contains_key("jsonrpc"@) && members["jsonrpc"@] == JsonView::String(req.jsonrpc)
                &&& members["method"@] == JsonView::String(req.method)
                &&& plain(members["id"@]) ==> req.id == members["id"@]
                &&& carried(members["id"@]) == Ok::<JsonView, Seq<char>>(req.id)
                &&& holds_member(req.params, members, "params"@)
                &&& holds_count(req.fds, members)
            },
            Some(_) => false,
            None => true,
        },
        message_of(JsonView::Object(members)) is Some <==> {
            &&& has_string(members, "jsonrpc"@)
            &&& has_string(members, "method"@)
            &&& is_value_there(members, "id"@)
            &&& is_value_there(members, "params"@)
            &&& is_count_there(members)
        },
{
}

/// An object that has a result or an error, and is no request, is read as a response, and each
/// field is what stands under its key. It is read if and only if the version is a string, there
/// is an id, the error is an error object, the count is a count, and the id and the result can be
/// taken over, as every plain value can.
pub proof fn law_response_is_read(members: Map<Seq<char>, JsonView>)
    requires
        !(members.contains_key("method"@) && members.contains_key("id"@)),
        members.contains_key("result"@) || members.contains_key("error"@),
    ensures
        match message_of(JsonView::Object(members)) {
            Some(MessageView::Response(res)) => {
                &&& members.contains_key("jsonrpc"@) && members["jsonrpc"@] == JsonView::String(res.jsonrpc)
                &&& members.contains_key("id"@)
                &&& plain(members["id"@]) ==> res.id == members["id"@]
                &&& carried(members["id"@]) == Ok::<JsonView, Seq<char>>(res.id)
                &&& holds_member(res.result, members, "result"@)
                &&& if !members.contains_key("error"@) || members["error"@] is Null {
                    res.error is None
                } else {
                    res.error is Some && error_of(members["error"@]) == Ok::<ErrorView, Seq<char>>(
                        res.error->0,
                    )
                }
                &&& holds_count(res.fds, members)
            },
            Some(_) => false,
            None => true,
        },
        message_of(JsonView::Object(members)) is Some <==> {
            &&& has_string(members, "jsonrpc"@)
            &&& members.contains_key("id"@)
            &&& is_value_there(members, "id"@)
            &&& is_value_there(members, "result"@)
            &&& members.contains_key("error"@) ==> members["error"@] is Null || error_of(members["error"@]) is Ok
            &&& is_count_there(members)
        },
{
}

/// An object that has a method and neither an id, a result nor an error is read as a
/// notification, and each field is what stands under its key. It is read if and only if the
/// version and the method are strings, the count is a count, and the parameters can be taken
/// over, as every plain value can.
pub proof fn law_notification_is_read(members: Map<Seq<char>, JsonView>)
    requires
        members.contains_key("method"@),
        !members.contains_key("id"@),
        !members.contains_key("result"@),
        !members.contains_key("error"@),
    ensures
        match message_of(JsonView::Object(members)) {
            Some(MessageView::Notification(notif)) => {
                &&& members.contains_key("jsonrpc"@) && members["jsonrpc"@] == JsonView::String(notif.jsonrpc)
                &&& members["method"@] == JsonView::String(notif.method)
                &&& holds_member(notif.params, members, "params"@)
                &&& holds_count(notif.fds, members)
            },
            Some(_) => false,
            None => true,
        },
        message_of(JsonView::Object(members)) is Some <==> {
            &&& has_string(members, "jsonrpc"@)
            &&& has_string(members, "method"@)
            &&& is_value_there(members, "params"@)
            &&& is_count_there(members)
        },
{
}

/// A value that is no object, and an object without a method, a result and an error, are
/// refused, each in its own words.
pub proof fn law_other_values_are_refused(v: JsonView, e: Error)
    ensures
        !(v is Object) ==> message_of(v) is None && (refused(v, e) <==> (e matches Error::InvalidMessage(text)
            && text@ == "Expected JSON object"@)),
        v matches JsonView::Object(members) && !members.contains_key("method"@) && !members.contains_key(
            "result"@,
        ) && !members.contains_key("error"@) ==> message_of(v) is None && (refused(v, e) <==> (
        e matches Error::InvalidMessage(text) && text@ == "Invalid JSON-RPC message"@)),
        message_of(v) is Some ==> !refused(v, e),
        v matches JsonView::Object(members) && message_of(v) is None && (members.contains_key("method"@)
            || members.contains_key("result"@) || members.contains_key("error"@)) && refused(v, e)
            ==> e is Json,
{
}

/// Whether the error says that something is not the JSON that is wanted, in these words.
pub open spec fn in_words(e: Error, text: Seq<char>) -> bool {
    e matches Error::Json(said) && said@ == text
}

/// An error says that something is not the JSON that is wanted in its own words and no others.
pub proof fn law_words_are_the_errors_own(e: Error, text: Seq<char>)
    ensures
        is_json_error(e, text) <==> in_words(e, text),
{
}

/// What is wrong with a member of a call is said before what is missing, and of several faults
/// the one under the first key. What is missing is named.
pub proof fn law_faults_of_a_call_are_named(members: Map<Seq<char>, JsonView>, e: Error)
    requires
        members.contains_key("method"@),
        members.contains_key("id"@) || !(members.contains_key("result"@) || members.contains_key("error"@)),
        message_of(JsonView::Object(members)) is None,
    ensures
        refused(JsonView::Object(members), e) <==> in_words(
            e,
            if !is_count_there(members) {
                count_fault(members["fds"@])
            } else if !is_value_there(members, "id"@) {
                carried(members["id"@])->Err_0
            } else if members.contains_key("jsonrpc"@) && !(members["jsonrpc"@] is String) {
                string_fault(members["jsonrpc"@])
            } else if !(members["method"@] is String) {
                string_fault(members["method"@])
            } else if !is_value_there(members, "params"@) {
                carried(members["params"@])->Err_0
            } else {
                "missing field `jsonrpc`"@
            },
        ),
{
    lemma_missing();
}

/// What is wrong with a member of a response is said before what is missing, and of several
/// faults the one under the first key. What is missing is named, the version before the id.
pub proof fn law_faults_of_a_response_are_named(members: Map<Seq<char>, JsonView>, e: Error)
    requires
        !(members.contains_key("method"@) && members.contains_key("id"@)),
        members.contains_key("result"@) || members.contains_key("error"@),
        message_of(JsonView::Object(members)) is None,
    ensures
        refused(JsonView::Object(members), e) <==> in_words(
            e,
            if members.contains_key("error"@) && !(members["error"@] is Null) && error_of(
                members["error"@],
            ) is Err {
                error_of(members["error"@])->Err_0
            } else if !is_count_there(members) {
                count_fault(members["fds"@])
            } else if !is_value_there(members, "id"@) {
                carried(members["id"@])->Err_0
            } else if members.contains_key("jsonrpc"@) && !(members["jsonrpc"@] is String) {
                string_fault(members["jsonrpc"@])
            } else if !is_value_there(members, "result"@) {
                carried(members["result"@])->Err_0
            } else if !members.contains_key("jsonrpc"@) {
                "missing field `jsonrpc`"@
            } else {
                "missing field `id`"@
            },
        ),
{
    lemma_missing();
}

proof fn lemma_missing()
    ensures
        missing("jsonrpc"@) == "missing field `jsonrpc`"@,
        missing("id"@) == "missing field `id`"@,
{
    reveal_strlit("missing field `");
    reveal_strlit("`");
    reveal_strlit("jsonrpc");
    reveal_strlit("id");
    reveal_strlit("missing field `jsonrpc`");
    reveal_strlit("missing field `id`");
    assert(missing("jsonrpc"@) =~= "missing field `jsonrpc`"@);
    assert(missing("id"@) =~= "missing field `id`"@);
}

/// A message comes across with every field as it was, but that null is taken for absent, a count
/// of 0 for none, and the data of an error is written anew.
pub proof fn law_fields_come_across(message: MessageView)
    ensures
        match (message, delivered(message)) {
            (MessageView::Request(sent), MessageView::Request(came)) => {
                &&& came.jsonrpc == sent.jsonrpc && came.method == sent.method && came.id == sent.id
                &&& same_but_null(sent.params, came.params)
                &&& same_but_zero(sent.fds, came.fds)
            },
            (MessageView::Response(sent), MessageView::Response(came)) => {
                &&& came.jsonrpc == sent.jsonrpc && came.id == sent.id
                &&& same_but_null(sent.result, came.result)
                &&& match (sent.error, came.error) {
                    (Some(sent), Some(came)) => {
                        &&& came.code == sent.code && came.message == sent.message
                        &&& match sent.data {
                            None => came.data is None,
                            Some(text) => match json_parse(text) {
                                Ok(JsonView::Null) | Err(_) => came.data is None,
                                Ok(v) => came.data == Some(json_text(v)),
                            },
                        }
                    },
                    (None, None) => true,
                    _ => false,
                }
                &&& same_but_zero(sent.fds, came.fds)
            },
            (MessageView::Notification(sent), MessageView::Notification(came)) => {
                &&& came.jsonrpc == sent.jsonrpc && came.method == sent.method
                &&& same_but_null(sent.params, came.params)
                &&& same_but_zero(sent.fds, came.fds)
            },
            _ => false,
        },
{
}

pub open spec fn same_but_null(sent: Option<JsonView>, came: Option<JsonView>) -> bool {
    came == (if sent == Some(JsonView::Null) {
        None
    } else {
        sent
    })
}

pub open spec fn same_but_zero(sent: Option<usize>, came: Option<usize>) -> bool {
    came == (if sent == Some(0usize) {
        None
    } else {
        sent
    })
}

// Texts and file descriptors.

/// A message is serialized as the text of its JSON value, in the style that is asked for.
pub proof fn law_serialized_text_is_of_the_value<F>(message: MessageWithFds<F>, pretty: bool, r: Result<String>)
    requires
        message.serialized(pretty, r),
    ensures
        match (wire_value(message.message@, message.file_descriptors@.len()), r) {
            (Ok(v), Ok(text)) => text@ == (if pretty {
                json_text_pretty(v)
            } else {
                json_text(v)
            }),
            (Err(e), Err(Error::Json(text))) => text@ == e,
            _ => false,
        },
{
}

/// A JSON value and file descriptors make the message that the value holds, with exactly these
/// file descriptors, if the number under `fds` is theirs; otherwise the error names both numbers.
pub proof fn law_value_and_fds_are_combined<F>(
    members: Map<Seq<char>, JsonView>,
    stated: nat,
    fds: Seq<F>,
    r: Result<MessageWithFds<F>>,
)
    requires
        MessageWithFds::combined(JsonView::Object(members), fds, r),
        fds.len() <= usize::MAX,
        stated <= usize::MAX,
        if members.contains_key("fds"@) {
            members["fds"@] == JsonView::Number(JsonNumber::PosInt(stated as u64))
        } else {
            stated == 0
        },
    ensures
        stated != fds.len() ==> (r matches Err(Error::MismatchedCount { expected, found }) && expected
            == stated && found == fds.len()),
        stated == fds.len() ==> match (message_of(JsonView::Object(members)), r) {
            (Some(message), Ok(made)) => made.message@ == message && made.file_descriptors@ == fds,
            (None, Err(e)) => refused(JsonView::Object(members), e),
            _ => false,
        },
{
}

/// Whatever the value is, it is combined only with as many file descriptors as it states.
pub proof fn law_only_stated_fds_are_combined<F>(v: JsonView, fds: Seq<F>, r: Result<MessageWithFds<F>>)
    requires
        MessageWithFds::combined(v, fds, r),
        fds.len() <= usize::MAX,
    ensures
        match r {
            Ok(made) => {
                &&& fd_count(v) == fds.len()
                &&& message_of(v) == Some(made.message@)
                &&& made.file_descriptors@ == fds
            },
            Err(e) => if fd_count(v) == fds.len() {
                message_of(v) is None && refused(v, e)
            } else {
                e matches Error::MismatchedCount { expected, found } && expected == fd_count(v) && found
                    == fds.len()
            },
        },
{
}

// Receiving.

/// What was read is put behind what is there, bytes behind bytes and file descriptors behind
/// file descriptors, and is then looked at as if it had been there before.
pub proof fn law_reads_are_appended<F>(state: ReceiverView<F>, data: Seq<u8>, fds: Seq<F>)
    requires
        !state.failed,
        data.len() > 0,
    ensures
        step(state, EventView::Read(data, fds)) == take_message(
            ReceiverView {
                buffer: state.buffer + data,
                fd_queue: state.fd_queue + fds,
                failed: false,
            },
        ),
        step(state, EventView::Wanted) == take_message(state),
{
}

/// A receiver takes a whole value off the front of its bytes and, for the number under `fds`,
/// that many file descriptors off the front of its queue. What is delivered is the message that
/// the value holds with these file descriptors; a value that holds none is reported.
pub proof fn law_message_is_taken<F>(
    state: ReceiverView<F>,
    members: Map<Seq<char>, JsonView>,
    consumed: nat,
    count: nat,
)
    requires
        !state.failed,
        json_scan(state.buffer) == ScannedView::Complete(JsonView::Object(members), consumed),
        count <= usize::MAX,
        if members.contains_key("fds"@) {
            members["fds"@] == JsonView::Number(JsonNumber::PosInt(count as u64))
        } else {
            count == 0
        },
        count <= state.fd_queue.len(),
    ensures
        ({
            let (after, taken) = take_message(state);
            &&& after.buffer == state.buffer.skip(consumed as int)
            &&& after.fd_queue == state.fd_queue.skip(count as int)
            &&& !after.failed
            &&& match message_of(JsonView::Object(members)) {
                Some(message) => taken == TakenView::Message(message, state.fd_queue.take(count as int)),
                None => taken == TakenView::<F>::NoMessage(JsonView::Object(members)),
            }
        }),
{
}

/// Whatever the value is, the message that it holds is delivered with as many file descriptors
/// as it states, those at the front; the rest stays, in its order. With fewer in the queue the
/// connection ends.
pub proof fn law_stated_fds_are_taken_from_the_front<F>(state: ReceiverView<F>, v: JsonView, consumed: nat)
    requires
        !state.failed,
        json_scan(state.buffer) == ScannedView::Complete(v, consumed),
    ensures
        ({
            let (after, taken) = take_message(state);
            &&& after.buffer == state.buffer.skip(consumed as int)
            &&& if fd_count(v) <= state.fd_queue.len() {
                &&& !after.failed
                &&& after.fd_queue == state.fd_queue.skip(fd_count(v) as int)
                &&& match (message_of(v), taken) {
                    (Some(message), TakenView::Message(said, fds)) => {
                        &&& said == message
                        &&& fds.len() == fd_count(v)
                        &&& fds + after.fd_queue == state.fd_queue
                    },
                    (None, TakenView::NoMessage(said)) => said == v,
                    _ => false,
                }
            } else {
                &&& after.failed
                &&& after.fd_queue.len() == 0
                &&& taken is TooFewFds
            }
        }),
{
    if fd_count(v) <= state.fd_queue.len() {
        let n = fd_count(v) as int;
        assert(state.fd_queue.take(n) + state.fd_queue.skip(n) =~= state.fd_queue);
    }
}

/// A value whose number under `fds` is greater than the queue is long ends the connection, and
/// both numbers are reported.
pub proof fn law_missing_fds_are_reported<F>(
    state: ReceiverView<F>,
    members: Map<Seq<char>, JsonView>,
    consumed: nat,
    count: nat,
)
    requires
        !state.failed,
        json_scan(state.buffer) == ScannedView::Complete(JsonView::Object(members), consumed),
        count <= usize::MAX,
        members.contains_key("fds"@),
        members["fds"@] == JsonView::Number(JsonNumber::PosInt(count as u64)),
        count > state.fd_queue.len(),
    ensures
        ({
            let (after, taken) = take_message(state);
            &&& after.buffer == state.buffer.skip(consumed as int)
            &&& after.fd_queue.len() == 0
            &&& after.failed
            &&& taken matches TakenView::TooFewFds { expected, found } && expected == count && found
                == state.fd_queue.len()
        }),
{
}

/// A value that is no object takes no file descriptors and is no message. While no value is
/// whole, a receiver waits and keeps everything. What is no JSON ends the connection, and so do
/// lost file descriptors; an end of the stream is reported. After a fatal error there is nothing
/// but the report that the connection is closed.
pub proof fn law_receiver_does_what_it_finds<F>(state: ReceiverView<F>, event: EventView<F>)
    ensures
        !state.failed ==> match json_scan(state.buffer) {
            ScannedView::Blank | ScannedView::Incomplete => take_message(state) == (
                state,
                TakenView::<F>::Nothing,
            ),
            ScannedView::Invalid => {
                &&& take_message(state).1 is NoJson
                &&& take_message(state).0.buffer == state.buffer
                &&& take_message(state).0.fd_queue.len() == 0
                &&& take_message(state).0.failed
            },
            ScannedView::Complete(v, n) => !(v is Object) ==> {
                &&& take_message(state).1 == TakenView::<F>::NoMessage(v)
                &&& take_message(state).0.buffer == state.buffer.skip(n as int)
                &&& take_message(state).0.fd_queue == state.fd_queue
                &&& !take_message(state).0.failed
            },
        },
        !state.failed && event is Truncated ==> {
            &&& step(state, event).1 is LostFds
            &&& step(state, event).0.buffer == state.buffer
            &&& step(state, event).0.fd_queue.len() == 0
            &&& step(state, event).0.failed
        },
        event matches EventView::Read(data, _) && data.len() == 0 ==> step(state, event) == (
            state,
            TakenView::<F>::Closed,
        ),
        state.failed ==> step(state, event) == (state, TakenView::<F>::Closed),
        state.failed ==> take_message(state) == (state, TakenView::<F>::Closed),
{
    if let ScannedView::Complete(v, n) = json_scan(state.buffer) {
        if !(v is Object) {
            assert(state.fd_queue.skip(0) =~= state.fd_queue);
        }
    }
}

/// What is taken after a scan is what is taken from a buffer that begins so.
pub proof fn law_scan_decides<F>(state: ReceiverView<F>, scanned: ScannedView)
    requires
        json_scan(state.buffer) == scanned,
    ensures
        take_scanned(state, scanned) == take_message(state),
{
}

/// Everything that comes of an attempt is reported as itself: a message with its file
/// descriptors, nothing as nothing, and each error as its own.
pub proof fn law_reports_are_faithful<F>(taken: TakenView<F>, r: Result<Option<MessageWithFds<F>>>)
    requires
        reports(taken, r),
    ensures
        match (taken, r) {
            (TakenView::Nothing, Ok(None)) => true,
            (TakenView::Message(message, fds), Ok(Some(delivered))) => {
                delivered.message@ == message && delivered.file_descriptors@ == fds
            },
            (TakenView::NoMessage(v), Err(e)) => refused(v, e),
            (TakenView::NoJson, Err(Error::FramingError)) => true,
            (TakenView::TooFewFds { expected, found }, Err(e)) => e == Error::MismatchedCount {
                expected,
                found,
            },
            (TakenView::LostFds, Err(Error::SystemCall(text))) => text@ == "file descriptors were lost"@,
            (TakenView::Closed, Err(Error::ConnectionClosed)) => true,
            _ => false,
        },
{
}

/// What a receiver is told and what it answers are read as they stand.
pub proof fn law_events_and_actions_are_read_as_they_stand<F>(event: Event<F>, r: Result<Action<F>>)
    ensures
        match (event, event@) {
            (Event::Wanted, EventView::Wanted) => true,
            (Event::Read(data, fds), EventView::Read(bytes, queue)) => bytes == data@ && queue == fds@,
            (Event::Truncated, EventView::Truncated) => true,
            _ => false,
        },
        match (r, taken(r)) {
            (Ok(Action::Read), Ok(None)) => true,
            (Ok(Action::Deliver(message)), Ok(Some(said))) => said == message,
            (Err(e), Err(said)) => said == e,
            _ => false,
        },
{
}

/// The messages that were collected, the reads that were handed in and the end that was reported
/// are read as they stand, each in its place.
pub proof fn law_collections_are_read_as_they_stand<F>(
    messages: Seq<MessageWithFds<F>>,
    reads: Seq<(Vec<u8>, Vec<F>)>,
    last: TakenView<F>,
    r: Result<()>,
)
    ensures
        handed_over(messages).len() == messages.len(),
        forall|i: int|
            0 <= i < messages.len() ==> (#[trigger] handed_over(messages)[i]) == (
                messages[i].message@,
                messages[i].file_descriptors@,
            ),
        chunks_of(reads).len() == reads.len(),
        forall|i: int|
            0 <= i < reads.len() ==> (#[trigger] chunks_of(reads)[i]).bytes == reads[i].0@
                && chunks_of(reads)[i].fds == reads[i].1@,
        reports_end(last, r) ==> (r is Ok <==> last is Nothing),
        reports_end(last, r) && r is Err ==> is_error_for(last, r->Err_0),
{
}

/// After an event, messages are taken out one by one until an attempt gives none, and that
/// attempt is the last.
pub proof fn law_messages_are_taken_until_there_is_none<F>(state: ReceiverView<F>, event: EventView<F>)
    ensures
        match step(state, event) {
            (after, TakenView::Message(message, fds)) => after.buffer.len() < read_in(state, event).buffer.len()
                ==> {
                let rest = run(after, EventView::Wanted);
                &&& run(state, event).delivered == seq![(message, fds)] + rest.delivered
                &&& run(state, event).state == rest.state
                &&& run(state, event).last == rest.last
            },
            (after, taken) => {
                &&& run(state, event).delivered.len() == 0
                &&& run(state, event).state == after
                &&& run(state, event).last == taken
            },
        },
{
}

/// One read more brings what it brings to a receiver in the state that the reads before it have
/// left, and nothing is read after an error: reads can be handed in all at once or in parts.
pub proof fn law_reads_follow_each_other<F>(state: ReceiverView<F>, a: Seq<Chunk<F>>, b: Seq<Chunk<F>>)
    ensures
        feed(state, Seq::empty()) == (Progress {
            state,
            delivered: Seq::empty(),
            last: TakenView::<F>::Nothing,
        }),
        a.len() == 1 ==> feed(state, a) == run(state, EventView::Read(a[0].bytes, a[0].fds)),
        ({
            let first = feed(state, a);
            let both = feed(state, a + b);
            if first.last is Nothing {
                let rest = feed(first.state, b);
                &&& both.state == rest.state
                &&& both.last == rest.last
                &&& both.delivered == first.delivered + rest.delivered
            } else {
                both == first
            }
        }),
    decreases a.len(),
{
    if a.len() == 0 {
        assert(a + b =~= b);
        assert(feed(state, a).delivered + feed(state, b).delivered =~= feed(state, b).delivered);
    } else {
        let first = run(state, EventView::Read(a[0].bytes, a[0].fds));
        assert((a + b).drop_first() =~= a.drop_first() + b);
        if first.last is Nothing {
            law_reads_follow_each_other(first.state, a.drop_first(), b);
            let middle = feed(first.state, a.drop_first());
            if middle.last is Nothing {
                let rest = feed(middle.state, b);
                assert(first.delivered + (middle.delivered + rest.delivered) =~= first.delivered
                    + middle.delivered + rest.delivered);
            }
            if a.len() == 1 {
                assert(middle.delivered =~= Seq::empty());
                assert(first.delivered + middle.delivered =~= first.delivered);
            }
        }
    }
}

// Sending.

/// A transmission begins with nothing written. Its bytes are those of the text, behind a space
/// for each full batch of 8 file descriptors that has to go ahead so that at most 8 are left for
/// the text.
pub proof fn law_transmission_begins_with_the_text<F>(text: Seq<char>, fds: Seq<F>, ahead: nat)
    requires
        if fds.len() == 0 {
            ahead == 0
        } else {
            8 * ahead < fds.len() <= 8 * ahead + 8
        },
    ensures
        begun(text, fds).sent == 0,
        begun(text, fds).passed == 0,
        begun(text, fds).fds == fds,
        begun(text, fds).data.len() == ahead + encode_utf8(text).len(),
        begun(text, fds).data.skip(ahead as int) == encode_utf8(text),
        forall|i: int| 0 <= i < ahead ==> #[trigger] begun(text, fds).data[i] == 0x20u8,
{
    assert(begun(text, fds).data.skip(ahead as int) =~= encode_utf8(text));
}

/// A write offers the next byte and the next 8 file descriptors while more than 8 are left, and
/// then all that is left of both. Afterwards the bytes that it took are written, the file
/// descriptors that it offered are passed, and nothing else has changed. All is done when all
/// bytes are written.
pub proof fn law_writes_go_on_where_they_stopped<F>(t: TransmissionView<F>, n: nat)
    requires
        t.sent <= t.data.len(),
        t.passed <= t.fds.len(),
    ensures
        t.done() <==> t.sent == t.data.len(),
        t.fds.len() - t.passed > 8 && t.sent < t.data.len() ==> {
            &&& t.next_bytes() == seq![t.data[t.sent as int]]
            &&& t.next_fds() == t.fds.subrange(t.passed as int, t.passed as int + 8)
            &&& t.advanced(n).passed == t.passed + 8
        },
        t.fds.len() - t.passed <= 8 ==> {
            &&& t.next_bytes() == t.data.skip(t.sent as int)
            &&& t.next_fds() == t.fds.skip(t.passed as int)
            &&& t.advanced(n).passed == t.fds.len()
        },
        t.advanced(n).sent == t.sent + n,
        t.advanced(n).data == t.data,
        t.advanced(n).fds == t.fds,
{
    if t.fds.len() - t.passed > 8 && t.sent < t.data.len() {
        assert(t.next_bytes() =~= seq![t.data[t.sent as int]]);
    }
}

/// What is prepared for a message is the text of its JSON value, in the style that is asked for,
/// with all of its file descriptors; only a message that cannot be written as JSON is refused.
pub proof fn law_prepared_is_the_message<F>(
    message: MessageView,
    fds: Seq<F>,
    pretty: bool,
    r: Result<Transmission<F>>,
)
    requires
        prepared(message, fds, pretty, r),
    ensures
        match (wire_value(message, fds.len()), r) {
            (Ok(v), Ok(t)) => t@ == begun(
                if pretty {
                    json_text_pretty(v)
                } else {
                    json_text(v)
                },
                fds,
            ),
            (Err(e), Err(Error::Json(text))) => text@ == e,
            _ => false,
        },
{
}

// The client.

/// A call says what it was asked to say: its method and its parameters as they were given, and
/// its number as its id, whatever number it is.
pub proof fn law_call_says_what_was_asked(method: Seq<char>, params: Option<JsonView>, id: u64)
    ensures
        call(method, params, id) matches MessageView::Request(req) && {
            &&& req.jsonrpc == "2.0"@
            &&& req.method == method
            &&& req.params == params
            &&& req.id == JsonView::Number(JsonNumber::PosInt(id))
            &&& req.fds is None
        },
{
}

/// A notification says what it was asked to say: its method and its parameters as they were
/// given.
pub proof fn law_notice_says_what_was_asked(method: Seq<char>, params: Option<JsonView>)
    ensures
        notice(method, params) matches MessageView::Notification(notif) && {
            &&& notif.jsonrpc == "2.0"@
            &&& notif.method == method
            &&& notif.params == params
            &&& notif.fds is None
        },
{
}

/// The JSON value of a call has under `id` the number of the call, under `method` the method and
/// under `params` the parameters as they were given, and under `fds` the number of its file
/// descriptors; and its text is what is sent.
pub proof fn law_call_is_sent<F>(
    method: Seq<char>,
    params: Option<JsonView>,
    id: u64,
    fds: Seq<F>,
    pretty: bool,
    r: Result<Transmission<F>>,
)
    requires
        prepared(call(method, params, id), fds, pretty, r),
        fds.len() <= usize::MAX,
    ensures
        wire_value(call(method, params, id), fds.len()) matches Ok(JsonView::Object(members)) && {
            &&& members.contains_key("jsonrpc"@) && members["jsonrpc"@] == JsonView::String("2.0"@)
            &&& members.contains_key("method"@) && members["method"@] == JsonView::String(method)
            &&& members.contains_key("id"@) && members["id"@] == JsonView::Number(JsonNumber::PosInt(id))
            &&& stands(members, "params"@, params)
            &&& if fds.len() > 0 {
                members.contains_key("fds"@) && members["fds"@] == JsonView::Number(
                    JsonNumber::PosInt(fds.len() as u64),
                )
            } else {
                !members.contains_key("fds"@)
            }
            &&& r matches Ok(t) && t@ == begun(
                if pretty {
                    json_text_pretty(JsonView::Object(members))
                } else {
                    json_text(JsonView::Object(members))
                },
                fds,
            )
        },
{
    lemma_keys();
}

/// The JSON value of a notification has under `method` the method and under `params` the
/// parameters as they were given, no id, and under `fds` the number of its file descriptors; and
/// its text is what is sent.
pub proof fn law_notice_is_sent<F>(
    method: Seq<char>,
    params: Option<JsonView>,
    fds: Seq<F>,
    pretty: bool,
    r: Result<Transmission<F>>,
)
    requires
        prepared(notice(method, params), fds, pretty, r),
        fds.len() <= usize::MAX,
    ensures
        wire_value(notice(method, params), fds.len()) matches Ok(JsonView::Object(members)) && {
            &&& members.contains_key("jsonrpc"@) && members["jsonrpc"@] == JsonView::String("2.0"@)
            &&& members.contains_key("method"@) && members["method"@] == JsonView::String(method)
            &&& !members.contains_key("id"@)
            &&& stands(members, "params"@, params)
            &&& if fds.len() > 0 {
                members.contains_key("fds"@) && members["fds"@] == JsonView::Number(
                    JsonNumber::PosInt(fds.len() as u64),
                )
            } else {
                !members.contains_key("fds"@)
            }
            &&& r matches Ok(t) && t@ == begun(
                if pretty {
                    json_text_pretty(JsonView::Object(members))
                } else {
                    json_text(JsonView::Object(members))
                },
                fds,
            )
        },
{
    lemma_keys();
}

/// What comes across of a call and of a notification has the method and the parameters that were
/// given, null taken for absent, and a call has its number as its id.
pub proof fn law_calls_and_notices_come_across(
    method: Seq<char>,
    params: Option<JsonView>,
    id: u64,
    count: nat,
)
    requires
        count <= usize::MAX,
    ensures
        delivered(call(method, params, id).with_fds(fds_field(count))) matches MessageView::Request(req) && {
            &&& req.method == method
            &&& same_but_null(params, req.params)
            &&& req.id == JsonView::Number(JsonNumber::PosInt(id))
            &&& req.fds == (if count > 0 { Some(count as usize) } else { None })
        },
        delivered(notice(method, params).with_fds(fds_field(count))) matches MessageView::Notification(notif) && {
            &&& notif.method == method
            &&& same_but_null(params, notif.params)
            &&& notif.fds == (if count > 0 { Some(count as usize) } else { None })
        },
{
}

/// Two calls under different numbers have different ids, whatever they call.
pub proof fn law_ids_of_calls_differ(
    a: Seq<char>,
    p: Option<JsonView>,
    i: u64,
    b: Seq<char>,
    q: Option<JsonView>,
    j: u64,
)
    requires
        i != j,
    ensures
        call(a, p, i)->Request_0.id != call(b, q, j)->Request_0.id,
{
}

/// A client that is new before its first call and counts on by one at each call gives its k-th
/// call the id k, so that no two of its calls have the same.
pub proof fn law_kth_call_has_the_id_k(
    clients: Seq<Client>,
    k: int,
    method: Seq<char>,
    params: Option<JsonView>,
)
    requires
        1 <= k <= clients.len(),
        clients[0].next_id() == 1,
        forall|i: int|
            0 < i < clients.len() ==> (#[trigger] clients[i]).next_id() == clients[i - 1].next_id() + 1,
    ensures
        clients[k - 1].next_id() == k,
        call(method, params, clients[k - 1].next_id())->Request_0.id == JsonView::Number(
            JsonNumber::PosInt(k as u64),
        ),
    decreases k,
{
    if k > 1 {
        law_kth_call_has_the_id_k(clients, k - 1, method, params);
        assert(clients[k - 1].next_id() == clients[k - 2].next_id() + 1);
    }
}

// Placeholders.

/// A leaf holds no placeholder, an object that is marked and has an index is one, whatever it
/// holds, and an array has those of its items: one more item brings its own.
pub proof fn law_placeholders_are_found(v: JsonView, items: Seq<JsonView>, item: JsonView)
    ensures
        !(v is Array || v is Object) ==> placeholders(v) == 0,
        v matches JsonView::Object(members) && members.contains_key("__jsonrpc_fd__"@)
            && members["__jsonrpc_fd__"@] == JsonView::Bool(true) && members.contains_key("index"@)
            ==> placeholders(v) == 1,
        v == JsonView::Object(Map::empty()) ==> placeholders(v) == 0,
        placeholders(JsonView::Array(Seq::empty())) == 0,
        placeholders(JsonView::Array(items.push(item))) == placeholders(JsonView::Array(items)) + placeholders(
            item,
        ),
{
    lemma_first_items(items, items.push(item), items.len());
    if v == JsonView::Object(Map::empty()) {
        assert(Map::<Seq<char>, JsonView>::empty().dom() =~= Set::empty());
    }
}

proof fn lemma_first_items(a: Seq<JsonView>, b: Seq<JsonView>, n: nat)
    requires
        n <= a.len() <= b.len(),
        forall|i: int| 0 <= i < n ==> a[i] == b[i],
    ensures
        placeholders_in_items(a, n) == placeholders_in_items(b, n),
    decreases n,
{
    if n > 0 {
        lemma_first_items(a, b, (n - 1) as nat);
    }
}

/// An object that is no placeholder has those of its members: the placeholders under any one key
/// and those of the object without it.
pub proof fn law_placeholders_of_members_add_up(members: Map<Seq<char>, JsonView>, key: Seq<char>)
    requires
        members.dom().finite(),
        members.contains_key(key),
        !(members.contains_key("__jsonrpc_fd__"@) && members["__jsonrpc_fd__"@] == JsonView::Bool(true)
            && members.contains_key("index"@)),
    ensures
        placeholders(JsonView::Object(members)) == placeholders(members[key]) + placeholders(
            JsonView::Object(members.remove(key)),
        ),
{
    law_any_member_first(members, members.dom(), key);
    let rest = members.remove(key);
    assert(rest.dom() =~= members.dom().remove(key));
    lemma_same_members(members, rest, rest.dom());
}

proof fn lemma_same_members(a: Map<Seq<char>, JsonView>, b: Map<Seq<char>, JsonView>, keys: Set<Seq<char>>)
    requires
        a.dom().finite(),
        b.dom().finite(),
        keys.subset_of(a.dom()),
        keys.subset_of(b.dom()),
        forall|key: Seq<char>| #[trigger] keys.contains(key) ==> a[key] == b[key],
    ensures
        placeholders_in_members(a, keys) == placeholders_in_members(b, keys),
    decreases keys.len(),
{
    if keys.len() > 0 {
        let key = keys.choose();
        law_any_member_first(a, keys, key);
        law_any_member_first(b, keys, key);
        lemma_same_members(a, b, keys.remove(key));
    }
}

} // verus!
