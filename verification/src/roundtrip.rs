//! What becomes of a message that is written as JSON and read again.
use vstd::prelude::*;

use crate::codec::{
    code_of, error_of, holds, json_parse, json_text, plain, raw_text_key, readable,
    readable_within, ErrorView,
};
use crate::error::{Error, Result};
use crate::json::JsonView;
use crate::message::{
    encoded, encoded_error, encoded_notification, encoded_request, fd_count, fds_field, fds_of,
    id_member, message_of, optional_member, string_member, wire_value, MessageView,
    MessageWithFds, NotificationView, RequestView, ResponseView, FDS_KEY,
};

verus! {

/// A value that may be absent, as it comes across: null is taken for absent.
pub open spec fn delivered_value(v: Option<JsonView>) -> Option<JsonView> {
    match v {
        Some(JsonView::Null) => None,
        _ => v,
    }
}

/// An error object as it comes across: its data is written anew, and null is no data.
pub open spec fn delivered_error(error: ErrorView) -> ErrorView {
    ErrorView {
        data: match error.data {
            Some(text) => match json_parse(text) {
                Ok(JsonView::Null) => None,
                Ok(v) => Some(json_text(v)),
                Err(_) => None,
            },
            None => None,
        },
        ..error
    }
}

/// A count of file descriptors as it comes across: 0 is taken for absent.
pub open spec fn delivered_fds(fds: Option<usize>) -> Option<usize> {
    match fds {
        Some(0) => None,
        _ => fds,
    }
}

/// A message as it comes across.
pub open spec fn delivered(message: MessageView) -> MessageView {
    match message {
        MessageView::Request(req) => MessageView::Request(
            RequestView {
                params: delivered_value(req.params),
                fds: delivered_fds(req.fds),
                ..req
            },
        ),
        MessageView::Response(res) => MessageView::Response(
            ResponseView {
                result: delivered_value(res.result),
                error: match res.error {
                    Some(error) => Some(delivered_error(error)),
                    None => None,
                },
                fds: delivered_fds(res.fds),
                ..res
            },
        ),
        MessageView::Notification(notif) => MessageView::Notification(
            NotificationView {
                params: delivered_value(notif.params),
                fds: delivered_fds(notif.fds),
                ..notif
            },
        ),
    }
}

/// Whether a message can be told from others by its JSON value and its values can be taken
/// over as they are: a response has a result or an error, and no object in the id, the
/// parameters or the result opens with a piece of raw text.
pub open spec fn deliverable(message: MessageView) -> bool {
    match message {
        MessageView::Request(req) => plain(req.id) && (req.params is Some ==> plain(req.params->0)),
        MessageView::Response(res) => {
            &&& plain(res.id)
            &&& res.result is Some || res.error is Some
            &&& res.result is Some ==> plain(res.result->0)
        },
        MessageView::Notification(notif) => notif.params is Some ==> plain(notif.params->0),
    }
}

/// The keys of the members of a message and of an error object are all different.
pub(crate) proof fn lemma_keys()
    ensures
        "jsonrpc"@ != "method"@,
        "jsonrpc"@ != "params"@,
        "jsonrpc"@ != "id"@,
        "jsonrpc"@ != FDS_KEY@,
        "jsonrpc"@ != "result"@,
        "jsonrpc"@ != "error"@,
        "method"@ != "params"@,
        "method"@ != "id"@,
        "method"@ != FDS_KEY@,
        "method"@ != "result"@,
        "method"@ != "error"@,
        "params"@ != "id"@,
        "params"@ != FDS_KEY@,
        "params"@ != "result"@,
        "params"@ != "error"@,
        "id"@ != FDS_KEY@,
        "id"@ != "result"@,
        "id"@ != "error"@,
        FDS_KEY@ != "result"@,
        FDS_KEY@ != "error"@,
        "result"@ != "error"@,
        "code"@ != "message"@,
        "code"@ != "data"@,
        "message"@ != "data"@,
{
    reveal_strlit("jsonrpc");
    reveal_strlit("method");
    reveal_strlit("params");
    reveal_strlit("id");
    reveal_strlit("fds");
    reveal_strlit("result");
    reveal_strlit("error");
    reveal_strlit("code");
    reveal_strlit("message");
    reveal_strlit("data");
    assert("jsonrpc"@[0] == 'j' && "method"@[0] == 'm' && "params"@[0] == 'p' && "id"@[0] == 'i');
    assert(FDS_KEY@[0] == 'f' && "result"@[0] == 'r' && "error"@[0] == 'e');
    assert("code"@[0] == 'c' && "message"@[0] == 'm' && "data"@[0] == 'd');
}

/// An error object that was written as JSON is read as the same error object.
pub proof fn law_error_survives(error: ErrorView)
    ensures
        encoded_error(error) matches Ok(v) ==> error_of(v) == Ok::<ErrorView, Seq<char>>(delivered_error(error)),
        error.data is None ==> encoded_error(error) is Ok && delivered_error(error) == error,
{
    lemma_keys();
    if let Ok(v) = encoded_error(error) {
        let members = v->Object_0;
        assert(code_of(members["code"@]) == Some(error.code));
        assert(forall|key: Seq<char>| #[trigger]
            members.contains_key(key) ==> key == "code"@ || key == "message"@ || key == "data"@);
    }
}

/// A message that was made into JSON is taken for the same message. What is not written, or is
/// null, comes across as absent.
pub proof fn law_message_survives(message: MessageView)
    requires
        deliverable(message),
    ensures
        encoded(message) matches Ok(v) ==> message_of(v) == Some(delivered(message)),
{
    lemma_keys();
    match message {
        MessageView::Request(req) => {
            let members = encoded_request(req)->Object_0;
            assert(fds_of(members) == Ok::<Option<usize>, Seq<char>>(delivered_fds(req.fds)));
            assert(optional_member(members, "params"@) == Ok::<Option<JsonView>, Seq<char>>(delivered_value(req.params)));
            assert(id_member(members)->Ok_0 == Some(req.id));
            assert(string_member(members, "jsonrpc"@)->Ok_0 == Some(req.jsonrpc));
            assert(string_member(members, "method"@)->Ok_0 == Some(req.method));
        },
        MessageView::Response(res) => {
            if let Ok(v) = encoded(message) {
                let members = v->Object_0;
                assert(fds_of(members) == Ok::<Option<usize>, Seq<char>>(delivered_fds(res.fds)));
                assert(optional_member(members, "result"@) == Ok::<Option<JsonView>, Seq<char>>(delivered_value(res.result)));
                assert(id_member(members)->Ok_0 == Some(res.id));
                assert(string_member(members, "jsonrpc"@)->Ok_0 == Some(res.jsonrpc));
                if let Some(error) = res.error {
                    law_error_survives(error);
                    assert(members.get("error"@) == Some(encoded_error(error)->Ok_0));
                }
                assert(!members.contains_key("method"@));
            }
        },
        MessageView::Notification(notif) => {
            let members = encoded_notification(notif)->Object_0;
            assert(fds_of(members) == Ok::<Option<usize>, Seq<char>>(delivered_fds(notif.fds)));
            assert(optional_member(members, "params"@) == Ok::<Option<JsonView>, Seq<char>>(delivered_value(notif.params)));
            assert(string_member(members, "jsonrpc"@)->Ok_0 == Some(notif.jsonrpc));
            assert(string_member(members, "method"@)->Ok_0 == Some(notif.method));
            assert(!members.contains_key("id"@));
            assert(!members.contains_key("result"@));
            assert(!members.contains_key("error"@));
        },
    }
}

/// Whether a message can go over the wire unharmed: its values survive being written as text
/// and read again, also inside the message; the data of an error is such a value; and a
/// response has a result or an error.
pub open spec fn sendable(message: MessageView) -> bool {
    match message {
        MessageView::Request(req) => {
            &&& readable_within(req.id, 126)
            &&& req.params is Some ==> readable_within(req.params->0, 126)
        },
        MessageView::Response(res) => {
            &&& readable_within(res.id, 126)
            &&& res.result is Some || res.error is Some
            &&& res.result is Some ==> readable_within(res.result->0, 126)
            &&& res.error is Some && res.error->0.data is Some ==> {
                let data = json_parse(res.error->0.data->0);
                data is Ok && readable_within(data->Ok_0, 125)
            }
        },
        MessageView::Notification(notif) => notif.params is Some ==> readable_within(
            notif.params->0,
            126,
        ),
    }
}

proof fn lemma_readable_is_plain(v: JsonView, depth: nat)
    requires
        readable_within(v, depth),
    ensures
        plain(v),
    decreases depth,
{
    match v {
        JsonView::Array(items) => {
            assert forall|i: int| 0 <= i < items.len() implies plain(#[trigger] items[i]) by {
                lemma_readable_is_plain(items[i], (depth - 1) as nat);
            }
        },
        JsonView::Object(members) => {
            assert forall|key: Seq<char>| #[trigger] members.contains_key(key) implies plain(members[key]) by {
                lemma_readable_is_plain(members[key], (depth - 1) as nat);
            }
        },
        _ => {},
    }
}

proof fn lemma_no_raw_text_key()
    ensures
        "jsonrpc"@ != raw_text_key(),
        "method"@ != raw_text_key(),
        "params"@ != raw_text_key(),
        "id"@ != raw_text_key(),
        FDS_KEY@ != raw_text_key(),
        "result"@ != raw_text_key(),
        "error"@ != raw_text_key(),
        "code"@ != raw_text_key(),
        "message"@ != raw_text_key(),
        "data"@ != raw_text_key(),
{
    reveal_strlit("$serde_json::private::RawValue");
    reveal_strlit("jsonrpc");
    reveal_strlit("method");
    reveal_strlit("params");
    reveal_strlit("id");
    reveal_strlit("fds");
    reveal_strlit("result");
    reveal_strlit("error");
    reveal_strlit("code");
    reveal_strlit("message");
    reveal_strlit("data");
    assert("jsonrpc"@.len() < 30 && "method"@.len() < 30 && "params"@.len() < 30 && "id"@.len() < 30);
    assert(FDS_KEY@.len() < 30 && "result"@.len() < 30 && "error"@.len() < 30);
    assert("code"@.len() < 30 && "message"@.len() < 30 && "data"@.len() < 30);
}

/// A message that is fit to be sent can be written as JSON with any number of file
/// descriptors, and what is written can be read again.
pub proof fn law_sendable_is_readable(message: MessageView, count: nat)
    requires
        sendable(message),
    ensures
        deliverable(message),
        wire_value(message, count) is Ok,
        readable(wire_value(message, count)->Ok_0),
{
    lemma_keys();
    lemma_no_raw_text_key();
    reveal_with_fuel(readable_within, 2);
    match message {
        MessageView::Request(req) => {
            lemma_readable_is_plain(req.id, 126);
            if let Some(v) = req.params {
                lemma_readable_is_plain(v, 126);
            }
        },
        MessageView::Response(res) => {
            lemma_readable_is_plain(res.id, 126);
            if let Some(v) = res.result {
                lemma_readable_is_plain(v, 126);
            }
            if let Some(error) = res.error {
                let v = encoded_error(error)->Ok_0;
                assert(readable_within(v, 126));
            }
        },
        MessageView::Notification(notif) => {
            if let Some(v) = notif.params {
                lemma_readable_is_plain(v, 126);
            }
        },
    }
}

/// What is written for a message states the number of its file descriptors, and has an `fds`
/// member if and only if there are some.
pub proof fn law_fds_are_stated(message: MessageView, count: nat)
    requires
        count <= usize::MAX,
        wire_value(message, count) is Ok,
    ensures
        fd_count(wire_value(message, count)->Ok_0) == count,
        wire_value(message, count)->Ok_0.member(FDS_KEY@) is Some <==> count > 0,
{
    lemma_keys();
}

/// A message that was read says itself how many file descriptors its JSON value states.
pub proof fn law_counts_agree(v: JsonView)
    ensures
        message_of(v) matches Some(message) ==> fd_count(v) == (match message.fds() {
            Some(count) => count,
            None => 0,
        }),
{
}

/// Setting the count of file descriptors gives that count, and changes nothing else.
pub proof fn law_set_fds(message: MessageView, count: nat)
    requires
        count <= usize::MAX,
    ensures
        message.with_fds(fds_field(count)).fds() == fds_field(count),
        (match message.with_fds(fds_field(count)).fds() {
            Some(count) => count,
            None => 0,
        }) == count,
        message.with_fds(fds_field(count)).with_fds(message.fds()) == message,
{
}

/// The text of a message with its file descriptors is read back as the message: the count that
/// the text states is the number of file descriptors, and the rest is as it was.
pub proof fn law_text_is_read_back(message: MessageView, count: nat, text: Seq<char>)
    requires
        sendable(message),
        count <= usize::MAX,
        holds(text, wire_value(message, count)->Ok_0),
    ensures
        json_parse(text) == wire_value(message, count),
        fd_count(json_parse(text)->Ok_0) == count,
        message_of(json_parse(text)->Ok_0) == Some(delivered(message.with_fds(fds_field(count)))),
        delivered(message.with_fds(fds_field(count))).fds() == fds_field(count),
{
    law_sendable_is_readable(message, count);
    law_fds_are_stated(message, count);
    law_message_survives(message.with_fds(fds_field(count)));
}

/// The text of a message depends on what the message says and on how many file descriptors it
/// has: not on the count that it carried before, nor on which file descriptors they are. It
/// states their number, has an `fds` member if and only if there are some, and stands on one
/// line unless the other style was asked for.
pub proof fn law_text_depends_on_count<F>(
    a: MessageWithFds<F>,
    b: MessageWithFds<F>,
    pretty: bool,
    r: Result<String>,
    q: Result<String>,
)
    requires
        a.message@.with_fds(None) == b.message@.with_fds(None),
        a.file_descriptors@.len() == b.file_descriptors@.len(),
        a.serialized(pretty, r),
        b.serialized(pretty, q),
    ensures
        match (r, q) {
            (Ok(text), Ok(other)) => {
                let v = wire_value(a.message@, a.file_descriptors@.len())->Ok_0;
                &&& text@ == other@
                &&& fd_count(v) == a.file_descriptors@.len()
                &&& v.member(FDS_KEY@) is Some <==> a.file_descriptors@.len() > 0
                &&& text@.contains('\n') == pretty
                &&& sendable(a.message@) ==> json_parse(text@) == Ok::<JsonView, Seq<char>>(v)
            },
            (Err(Error::Json(text)), Err(Error::Json(other))) => text@ == other@,
            _ => false,
        },
{
    let count = a.file_descriptors@.len();
    assert(count == a.file_descriptors.len());
    assert(a.message@.with_fds(fds_field(count)) == b.message@.with_fds(fds_field(count)));
    if r is Ok {
        law_fds_are_stated(a.message@, count);
        if sendable(a.message@) {
            law_sendable_is_readable(a.message@, count);
        }
    }
}

/// The two styles of text hold the same value; the one has line breaks and the other has none.
pub proof fn law_styles_hold_the_same<F>(
    message: MessageWithFds<F>,
    compact: Result<String>,
    pretty: Result<String>,
)
    requires
        message.serialized(false, compact),
        message.serialized(true, pretty),
        compact is Ok,
    ensures
        pretty is Ok,
        !compact->Ok_0@.contains('\n'),
        pretty->Ok_0@.contains('\n'),
        sendable(message.message@) ==> {
            let v = wire_value(message.message@, message.file_descriptors@.len());
            json_parse(compact->Ok_0@) == v && json_parse(pretty->Ok_0@) == v
        },
{
    if sendable(message.message@) {
        law_sendable_is_readable(message.message@, message.file_descriptors@.len());
    }
}

} // verus!
