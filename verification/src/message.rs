//! Messages: requests, responses and notifications, and the file descriptors that go with them.
use vstd::prelude::*;

use crate::codec;
use crate::codec::{
    carried, count_of, error_of, holds, json_parse, readable, string_of, written, ErrorView,
};
use crate::error::{is_json_error, Error, OrText, Result};
use crate::json::{entries_model, Json, JsonNumber, JsonView};

verus! {

/// The JSON key for the file descriptor count field.
pub const FDS_KEY: &'static str = "fds";

/// The JSON-RPC protocol version.
pub const JSONRPC_VERSION: &'static str = "2.0";

/// The JSON key that marks an object as a placeholder for a file descriptor.
pub const FD_PLACEHOLDER_KEY: &'static str = "__jsonrpc_fd__";

/// The JSON key for the index of the file descriptor that a placeholder stands for.
pub const FD_INDEX_KEY: &'static str = "index";

/// The code of the error object that reports a fatal error of framing or of the association
/// of file descriptors.
pub const FILE_DESCRIPTOR_ERROR_CODE: i32 = -32050;

/// An error object.
#[derive(Debug, PartialEq, Eq)]
pub struct JsonRpcError {
    pub code: i32,
    pub message: String,
    /// Additional data, as JSON text.
    pub data: Option<String>,
}

/// A call that asks for a response.
#[derive(Debug, PartialEq)]
pub struct JsonRpcRequest {
    pub jsonrpc: String,
    pub method: String,
    pub params: Option<Json>,
    pub id: Json,
    /// Number of file descriptors attached to this message
    pub fds: Option<usize>,
}

/// The answer to a request.
#[derive(Debug, PartialEq)]
pub struct JsonRpcResponse {
    pub jsonrpc: String,
    pub result: Option<Json>,
    pub error: Option<JsonRpcError>,
    pub id: Json,
    /// Number of file descriptors attached to this message
    pub fds: Option<usize>,
}

/// A call that asks for no response.
#[derive(Debug, PartialEq)]
pub struct JsonRpcNotification {
    pub jsonrpc: String,
    pub method: String,
    pub params: Option<Json>,
    /// Number of file descriptors attached to this message
    pub fds: Option<usize>,
}

/// A message of one of the three kinds.
#[derive(Debug, PartialEq)]
pub enum JsonRpcMessage {
    Request(JsonRpcRequest),
    Response(JsonRpcResponse),
    Notification(JsonRpcNotification),
}

/// A message and the file descriptors that go with it, of whatever type the connection hands
/// out.
#[derive(Debug)]
pub struct MessageWithFds<F> {
    pub message: JsonRpcMessage,
    pub file_descriptors: Vec<F>,
}

/// What a request says.
#[verifier::ext_equal]
pub struct RequestView {
    pub jsonrpc: Seq<char>,
    pub method: Seq<char>,
    pub params: Option<JsonView>,
    pub id: JsonView,
    pub fds: Option<usize>,
}

/// What a response says.
#[verifier::ext_equal]
pub struct ResponseView {
    pub jsonrpc: Seq<char>,
    pub result: Option<JsonView>,
    pub error: Option<ErrorView>,
    pub id: JsonView,
    pub fds: Option<usize>,
}

/// What a notification says.
#[verifier::ext_equal]
pub struct NotificationView {
    pub jsonrpc: Seq<char>,
    pub method: Seq<char>,
    pub params: Option<JsonView>,
    pub fds: Option<usize>,
}

/// What a message says.
#[verifier::ext_equal]
pub enum MessageView {
    Request(RequestView),
    Response(ResponseView),
    Notification(NotificationView),
}

/// The meaning of a value that may be absent.
pub open spec fn optional(json: Option<Json>) -> Option<JsonView> {
    match json {
        Some(json) => Some(json@),
        None => None,
    }
}

impl View for JsonRpcError {
    type V = ErrorView;

    open spec fn view(&self) -> ErrorView {
        ErrorView {
            code: self.code,
            message: self.message@,
            data: match self.data {
                Some(text) => Some(text@),
                None => None,
            },
        }
    }
}

impl View for JsonRpcRequest {
    type V = RequestView;

    open spec fn view(&self) -> RequestView {
        RequestView {
            jsonrpc: self.jsonrpc@,
            method: self.method@,
            params: optional(self.params),
            id: self.id@,
            fds: self.fds,
        }
    }
}

impl View for JsonRpcResponse {
    type V = ResponseView;

    open spec fn view(&self) -> ResponseView {
        ResponseView {
            jsonrpc: self.jsonrpc@,
            result: optional(self.result),
            error: match self.error {
                Some(error) => Some(error@),
                None => None,
            },
            id: self.id@,
            fds: self.fds,
        }
    }
}

impl View for JsonRpcNotification {
    type V = NotificationView;

    open spec fn view(&self) -> NotificationView {
        NotificationView {
            jsonrpc: self.jsonrpc@,
            method: self.method@,
            params: optional(self.params),
            fds: self.fds,
        }
    }
}

impl View for JsonRpcMessage {
    type V = MessageView;

    open spec fn view(&self) -> MessageView {
        match *self {
            JsonRpcMessage::Request(req) => MessageView::Request(req@),
            JsonRpcMessage::Response(res) => MessageView::Response(res@),
            JsonRpcMessage::Notification(notif) => MessageView::Notification(notif@),
        }
    }
}

impl MessageView {
    /// The count of file descriptors that the message carries; none if there are none.
    pub open spec fn fds(self) -> Option<usize> {
        match self {
            MessageView::Request(req) => req.fds,
            MessageView::Response(res) => res.fds,
            MessageView::Notification(notif) => notif.fds,
        }
    }

    /// The message with its count of file descriptors replaced.
    pub open spec fn with_fds(self, fds: Option<usize>) -> MessageView {
        match self {
            MessageView::Request(req) => MessageView::Request(RequestView { fds, ..req }),
            MessageView::Response(res) => MessageView::Response(ResponseView { fds, ..res }),
            MessageView::Notification(notif) => MessageView::Notification(
                NotificationView { fds, ..notif },
            ),
        }
    }
}

/// How a count of file descriptors stands in a message: not at all if there are none.
pub open spec fn fds_field(count: nat) -> Option<usize> {
    if count > 0 {
        Some(count as usize)
    } else {
        None
    }
}

/// The file descriptor count that a JSON message states; 0 if it states none.
pub open spec fn fd_count(v: JsonView) -> usize {
    match v.member(FDS_KEY@) {
        Some(count) => match count.as_u64() {
            Some(n) => n as usize,
            None => 0,
        },
        None => 0,
    }
}

/// Read the file descriptor count from a JSON message.
/// Returns 0 if the `fds` field is absent.
pub fn get_fd_count(value: &Json) -> (r: usize)
    ensures
        r == fd_count(value@),
{
    match value.get(FDS_KEY) {
        Some(count) => match count.as_u64() {
            Some(n) => n as usize,
            None => 0,
        },
        None => 0,
    }
}

/// Whether the `fds` field is left out of a message because there are no file descriptors.
pub fn skip_if_zero_or_none(fds: &Option<usize>) -> (r: bool)
    ensures
        r == (*fds is None || *fds == Some(0usize)),
{
    match fds {
        Some(n) => *n == 0,
        None => true,
    }
}

/// The members with one more, where there is one to add.
pub open spec fn put(members: Map<Seq<char>, JsonView>, key: Seq<char>, v: Option<JsonView>) -> Map<
    Seq<char>,
    JsonView,
> {
    match v {
        Some(v) => members.insert(key, v),
        None => members,
    }
}

/// The `fds` member of a message: absent if there are no file descriptors.
pub open spec fn fds_member(fds: Option<usize>) -> Option<JsonView> {
    match fds {
        Some(n) if n > 0 => Some(JsonView::Number(JsonNumber::PosInt(n as u64))),
        _ => None,
    }
}

/// An error object as a JSON value, given the value of its data.
pub open spec fn error_value(error: ErrorView, data: Option<JsonView>) -> JsonView {
    let base = Map::empty().insert(
        "code"@,
        JsonView::Number(
            if error.code < 0 {
                JsonNumber::NegInt(error.code as i64)
            } else {
                JsonNumber::PosInt(error.code as u64)
            },
        ),
    ).insert("message"@, JsonView::String(error.message));
    JsonView::Object(put(base, "data"@, data))
}

/// An error object as a JSON value; its data has to be JSON.
pub open spec fn encoded_error(error: ErrorView) -> OrText<JsonView> {
    match error.data {
        None => Ok(error_value(error, None)),
        Some(text) => match json_parse(text) {
            Ok(v) => Ok(error_value(error, Some(v))),
            Err(e) => Err(e),
        },
    }
}

/// A request as a JSON value.
pub open spec fn encoded_request(req: RequestView) -> JsonView {
    let base = Map::empty().insert("jsonrpc"@, JsonView::String(req.jsonrpc)).insert(
        "method"@,
        JsonView::String(req.method),
    );
    let members = put(base, "params"@, req.params).insert("id"@, req.id);
    JsonView::Object(put(members, FDS_KEY@, fds_member(req.fds)))
}

/// A response as a JSON value, given the error object that goes into it.
pub open spec fn encoded_response(res: ResponseView, error: Option<JsonView>) -> JsonView {
    let base = Map::empty().insert("jsonrpc"@, JsonView::String(res.jsonrpc));
    let members = put(put(base, "result"@, res.result), "error"@, error).insert("id"@, res.id);
    JsonView::Object(put(members, FDS_KEY@, fds_member(res.fds)))
}

/// A notification as a JSON value.
pub open spec fn encoded_notification(notif: NotificationView) -> JsonView {
    let base = Map::empty().insert("jsonrpc"@, JsonView::String(notif.jsonrpc)).insert(
        "method"@,
        JsonView::String(notif.method),
    );
    let members = put(base, "params"@, notif.params);
    JsonView::Object(put(members, FDS_KEY@, fds_member(notif.fds)))
}

/// A message as a JSON value; the data of an error that it reports has to be JSON.
pub open spec fn encoded(message: MessageView) -> OrText<JsonView> {
    match message {
        MessageView::Request(req) => Ok(encoded_request(req)),
        MessageView::Response(res) => match res.error {
            None => Ok(encoded_response(res, None)),
            Some(error) => match encoded_error(error) {
                Ok(v) => Ok(encoded_response(res, Some(v))),
                Err(e) => Err(e),
            },
        },
        MessageView::Notification(notif) => Ok(encoded_notification(notif)),
    }
}

fn push_member(entries: &mut Vec<(String, Json)>, key: &str, value: Json)
    ensures
        entries_model(final(entries)@) == entries_model(old(entries)@).insert(key@, value@),
{
    let ghost before = entries@;
    entries.push((key.to_owned(), value));
    assert(entries@.drop_last() == before);
}

fn push_optional_member(entries: &mut Vec<(String, Json)>, key: &str, value: &Option<Json>)
    ensures
        entries_model(final(entries)@) == put(entries_model(old(entries)@), key@, optional(*value)),
{
    match value {
        Some(json) => push_member(entries, key, json.clone()),
        None => {},
    }
}

fn push_fds_member(entries: &mut Vec<(String, Json)>, fds: &Option<usize>)
    ensures
        entries_model(final(entries)@) == put(entries_model(old(entries)@), FDS_KEY@, fds_member(*fds)),
{
    if !skip_if_zero_or_none(fds) {
        match fds {
            Some(n) => push_member(entries, FDS_KEY, Json::Number(JsonNumber::PosInt(*n as u64))),
            None => {},
        }
    }
}

impl JsonRpcError {
    /// The error object as a JSON value. Its data has to be JSON.
    pub fn to_json_value(&self) -> (r: Result<Json>)
        ensures
            match encoded_error(self@) {
                Ok(v) => r is Ok && r->Ok_0@ == v,
                Err(e) => r is Err && is_json_error(r->Err_0, e),
            },
    {
        match &self.data {
            None => Ok(self.with_data(None)),
            Some(text) => match codec::parse(text.as_str()) {
                Ok(value) => Ok(self.with_data(Some(value))),
                Err(e) => Err(e),
            },
        }
    }

    /// The error object as a JSON value, with a given value for its data.
    pub fn with_data(&self, data: Option<Json>) -> (r: Json)
        ensures
            r@ == error_value(self@, optional(data)),
    {
        let mut entries: Vec<(String, Json)> = Vec::new();
        push_member(&mut entries, "code", Json::Number(JsonNumber::NegInt(self.code as i64)));
        push_member(&mut entries, "message", Json::String(self.message.clone()));
        if let Some(value) = data {
            push_member(&mut entries, "data", value);
        }
        Json::Object(entries)
    }
}

impl JsonRpcMessage {
    /// The message as a JSON value. Members that say nothing are left out.
    pub fn to_json_value(&self) -> (r: Result<Json>)
        ensures
            match encoded(self@) {
                Ok(v) => r is Ok && r->Ok_0@ == v,
                Err(e) => r is Err && is_json_error(r->Err_0, e),
            },
    {
        let mut entries: Vec<(String, Json)> = Vec::new();
        match self {
            JsonRpcMessage::Request(req) => {
                push_member(&mut entries, "jsonrpc", Json::String(req.jsonrpc.clone()));
                push_member(&mut entries, "method", Json::String(req.method.clone()));
                push_optional_member(&mut entries, "params", &req.params);
                push_member(&mut entries, "id", req.id.clone());
                push_fds_member(&mut entries, &req.fds);
            },
            JsonRpcMessage::Response(res) => {
                push_member(&mut entries, "jsonrpc", Json::String(res.jsonrpc.clone()));
                push_optional_member(&mut entries, "result", &res.result);
                if let Some(error) = &res.error {
                    match error.to_json_value() {
                        Ok(value) => push_member(&mut entries, "error", value),
                        Err(e) => return Err(e),
                    }
                }
                push_member(&mut entries, "id", res.id.clone());
                push_fds_member(&mut entries, &res.fds);
            },
            JsonRpcMessage::Notification(notif) => {
                push_member(&mut entries, "jsonrpc", Json::String(notif.jsonrpc.clone()));
                push_member(&mut entries, "method", Json::String(notif.method.clone()));
                push_optional_member(&mut entries, "params", &notif.params);
                push_fds_member(&mut entries, &notif.fds);
            },
        }
        Ok(Json::Object(entries))
    }
}

/// The text that says that a member is missing.
pub open spec fn missing(key: Seq<char>) -> Seq<char> {
    "missing field `"@ + key + "`"@
}

/// The string under a key, if there is a member.
pub open spec fn string_member(members: Map<Seq<char>, JsonView>, key: Seq<char>) -> OrText<Option<Seq<char>>> {
    match members.get(key) {
        None => Ok(None),
        Some(v) => match string_of(v) {
            Ok(s) => Ok(Some(s)),
            Err(e) => Err(e),
        },
    }
}

/// The value that may stand under a key, where an absent member and null say the same.
pub open spec fn optional_member(members: Map<Seq<char>, JsonView>, key: Seq<char>) -> OrText<Option<JsonView>> {
    match members.get(key) {
        None | Some(JsonView::Null) => Ok(None),
        Some(v) => match carried(v) {
            Ok(v) => Ok(Some(v)),
            Err(e) => Err(e),
        },
    }
}

/// The id of a message, if there is one.
pub open spec fn id_member(members: Map<Seq<char>, JsonView>) -> OrText<Option<JsonView>> {
    match members.get("id"@) {
        None => Ok(None),
        Some(v) => match carried(v) {
            Ok(v) => Ok(Some(v)),
            Err(e) => Err(e),
        },
    }
}

/// The count under `fds`, if there is one.
pub open spec fn fds_of(members: Map<Seq<char>, JsonView>) -> OrText<Option<usize>> {
    match members.get(FDS_KEY@) {
        Some(v) => count_of(v),
        None => Ok(None),
    }
}

/// The error object that may stand under `error`, where an absent member and null say the same.
pub open spec fn error_member(members: Map<Seq<char>, JsonView>) -> OrText<Option<ErrorView>> {
    match members.get("error"@) {
        None | Some(JsonView::Null) => Ok(None),
        Some(v) => match error_of(v) {
            Ok(error) => Ok(Some(error)),
            Err(e) => Err(e),
        },
    }
}

/// The request that the members of an object make up. What is wrong with a member is said
/// first, in the order of the keys; only then what is missing.
pub open spec fn request_of(members: Map<Seq<char>, JsonView>) -> OrText<RequestView> {
    match (
        fds_of(members),
        id_member(members),
        string_member(members, "jsonrpc"@),
        string_member(members, "method"@),
        optional_member(members, "params"@),
    ) {
        (Err(e), _, _, _, _) => Err(e),
        (_, Err(e), _, _, _) => Err(e),
        (_, _, Err(e), _, _) => Err(e),
        (_, _, _, Err(e), _) => Err(e),
        (_, _, _, _, Err(e)) => Err(e),
        (Ok(fds), Ok(id), Ok(jsonrpc), Ok(method), Ok(params)) => match (jsonrpc, method, id) {
            (None, _, _) => Err(missing("jsonrpc"@)),
            (_, None, _) => Err(missing("method"@)),
            (_, _, None) => Err(missing("id"@)),
            (Some(jsonrpc), Some(method), Some(id)) => Ok(
                RequestView { jsonrpc, method, params, id, fds },
            ),
        },
    }
}

/// The response that the members of an object make up. What is wrong with a member is said
/// first, in the order of the keys; only then what is missing.
pub open spec fn response_of(members: Map<Seq<char>, JsonView>) -> OrText<ResponseView> {
    match (
        error_member(members),
        fds_of(members),
        id_member(members),
        string_member(members, "jsonrpc"@),
        optional_member(members, "result"@),
    ) {
        (Err(e), _, _, _, _) => Err(e),
        (_, Err(e), _, _, _) => Err(e),
        (_, _, Err(e), _, _) => Err(e),
        (_, _, _, Err(e), _) => Err(e),
        (_, _, _, _, Err(e)) => Err(e),
        (Ok(error), Ok(fds), Ok(id), Ok(jsonrpc), Ok(result)) => match (jsonrpc, id) {
            (None, _) => Err(missing("jsonrpc"@)),
            (_, None) => Err(missing("id"@)),
            (Some(jsonrpc), Some(id)) => Ok(ResponseView { jsonrpc, result, error, id, fds }),
        },
    }
}

/// The notification that the members of an object make up. What is wrong with a member is said
/// first, in the order of the keys; only then what is missing.
pub open spec fn notification_of(members: Map<Seq<char>, JsonView>) -> OrText<NotificationView> {
    match (
        fds_of(members),
        string_member(members, "jsonrpc"@),
        string_member(members, "method"@),
        optional_member(members, "params"@),
    ) {
        (Err(e), _, _, _) => Err(e),
        (_, Err(e), _, _) => Err(e),
        (_, _, Err(e), _) => Err(e),
        (_, _, _, Err(e)) => Err(e),
        (Ok(fds), Ok(jsonrpc), Ok(method), Ok(params)) => match (jsonrpc, method) {
            (None, _) => Err(missing("jsonrpc"@)),
            (_, None) => Err(missing("method"@)),
            (Some(jsonrpc), Some(method)) => Ok(NotificationView { jsonrpc, method, params, fds }),
        },
    }
}

/// The three kinds of message.
pub enum Kind {
    Request,
    Response,
    Notification,
}

/// The kind of message that an object is meant to be: with a method and an id a request, else
/// with a result or an error a response, else with a method a notification.
pub open spec fn kind_of(members: Map<Seq<char>, JsonView>) -> Option<Kind> {
    if members.contains_key("method"@) && members.contains_key("id"@) {
        Some(Kind::Request)
    } else if members.contains_key("result"@) || members.contains_key("error"@) {
        Some(Kind::Response)
    } else if members.contains_key("method"@) {
        Some(Kind::Notification)
    } else {
        None
    }
}

/// Why a JSON value holds no message.
pub enum Refusal {
    /// It is no object.
    NoObject,
    /// It is an object of no kind.
    NoKind,
    /// A member is missing or is not what the kind asks for; the text says which and how.
    Fault(Seq<char>),
}

/// The message that a JSON value holds, or why it holds none.
pub open spec fn read_message(v: JsonView) -> std::result::Result<MessageView, Refusal> {
    match v {
        JsonView::Object(members) => match kind_of(members) {
            Some(Kind::Request) => match request_of(members) {
                Ok(req) => Ok(MessageView::Request(req)),
                Err(e) => Err(Refusal::Fault(e)),
            },
            Some(Kind::Response) => match response_of(members) {
                Ok(res) => Ok(MessageView::Response(res)),
                Err(e) => Err(Refusal::Fault(e)),
            },
            Some(Kind::Notification) => match notification_of(members) {
                Ok(notif) => Ok(MessageView::Notification(notif)),
                Err(e) => Err(Refusal::Fault(e)),
            },
            None => Err(Refusal::NoKind),
        },
        _ => Err(Refusal::NoObject),
    }
}

/// The message that a JSON value holds, if it holds one.
pub open spec fn message_of(v: JsonView) -> Option<MessageView> {
    match read_message(v) {
        Ok(message) => Some(message),
        Err(_) => None,
    }
}

/// Whether `e` is the error for a JSON value that holds no message.
pub open spec fn refused(v: JsonView, e: Error) -> bool {
    match read_message(v) {
        Ok(_) => false,
        Err(Refusal::NoObject) => {
            e matches Error::InvalidMessage(text) && text@ == "Expected JSON object"@
        },
        Err(Refusal::NoKind) => {
            e matches Error::InvalidMessage(text) && text@ == "Invalid JSON-RPC message"@
        },
        Err(Refusal::Fault(text)) => is_json_error(e, text),
    }
}

fn missing_field(key: &str) -> (r: Error)
    ensures
        is_json_error(r, missing(key@)),
{
    Error::Json("missing field `".to_owned().concat(key).concat("`"))
}

fn read_string_member(value: &Json, key: &str) -> (r: Result<Option<String>>)
    requires
        value@ is Object,
    ensures
        match string_member(value@->Object_0, key@) {
            Ok(Some(s)) => r is Ok && r->Ok_0 is Some && r->Ok_0->0@ == s,
            Ok(None) => r is Ok && r->Ok_0 is None,
            Err(e) => r is Err && is_json_error(r->Err_0, e),
        },
{
    match value.get(key) {
        Some(json) => Ok(Some(codec::read_string(json)?)),
        None => Ok(None),
    }
}

fn read_optional_member(value: &Json, key: &str) -> (r: Result<Option<Json>>)
    requires
        value@ is Object,
    ensures
        match optional_member(value@->Object_0, key@) {
            Ok(v) => r is Ok && optional(r->Ok_0) == v,
            Err(e) => r is Err && is_json_error(r->Err_0, e),
        },
{
    match value.get(key) {
        None => Ok(None),
        Some(Json::Null) => Ok(None),
        Some(json) => Ok(Some(codec::carry(json)?)),
    }
}

fn read_id_member(value: &Json) -> (r: Result<Option<Json>>)
    requires
        value@ is Object,
    ensures
        match id_member(value@->Object_0) {
            Ok(v) => r is Ok && optional(r->Ok_0) == v,
            Err(e) => r is Err && is_json_error(r->Err_0, e),
        },
{
    match value.get("id") {
        Some(json) => Ok(Some(codec::carry(json)?)),
        None => Ok(None),
    }
}

fn read_fds_member(value: &Json) -> (r: Result<Option<usize>>)
    requires
        value@ is Object,
    ensures
        match fds_of(value@->Object_0) {
            Ok(fds) => r == Ok::<Option<usize>, Error>(fds),
            Err(e) => r is Err && is_json_error(r->Err_0, e),
        },
{
    match value.get(FDS_KEY) {
        Some(json) => codec::read_count(json),
        None => Ok(None),
    }
}

fn read_error_member(value: &Json) -> (r: Result<Option<JsonRpcError>>)
    requires
        value@ is Object,
    ensures
        match error_member(value@->Object_0) {
            Ok(Some(error)) => r is Ok && r->Ok_0 is Some && r->Ok_0->0@ == error,
            Ok(None) => r is Ok && r->Ok_0 is None,
            Err(e) => r is Err && is_json_error(r->Err_0, e),
        },
{
    match value.get("error") {
        None => Ok(None),
        Some(Json::Null) => Ok(None),
        Some(json) => {
            let (code, message, data) = codec::read_error(json)?;
            Ok(Some(JsonRpcError { code, message, data }))
        },
    }
}

impl JsonRpcRequest {
    fn from_json_value(value: &Json) -> (r: Result<JsonRpcRequest>)
        requires
            value@ is Object,
        ensures
            match request_of(value@->Object_0) {
                Ok(req) => r is Ok && r->Ok_0@ == req,
                Err(e) => r is Err && is_json_error(r->Err_0, e),
            },
    {
        let fds = read_fds_member(value)?;
        let id = read_id_member(value)?;
        let jsonrpc = read_string_member(value, "jsonrpc")?;
        let method = read_string_member(value, "method")?;
        let params = read_optional_member(value, "params")?;
        match (jsonrpc, method, id) {
            (None, _, _) => Err(missing_field("jsonrpc")),
            (_, None, _) => Err(missing_field("method")),
            (_, _, None) => Err(missing_field("id")),
            (Some(jsonrpc), Some(method), Some(id)) => Ok(
                JsonRpcRequest { jsonrpc, method, params, id, fds },
            ),
        }
    }
}

impl JsonRpcResponse {
    fn from_json_value(value: &Json) -> (r: Result<JsonRpcResponse>)
        requires
            value@ is Object,
        ensures
            match response_of(value@->Object_0) {
                Ok(res) => r is Ok && r->Ok_0@ == res,
                Err(e) => r is Err && is_json_error(r->Err_0, e),
            },
    {
        let error = read_error_member(value)?;
        let fds = read_fds_member(value)?;
        let id = read_id_member(value)?;
        let jsonrpc = read_string_member(value, "jsonrpc")?;
        let result = read_optional_member(value, "result")?;
        match (jsonrpc, id) {
            (None, _) => Err(missing_field("jsonrpc")),
            (_, None) => Err(missing_field("id")),
            (Some(jsonrpc), Some(id)) => Ok(JsonRpcResponse { jsonrpc, result, error, id, fds }),
        }
    }
}

impl JsonRpcNotification {
    fn from_json_value(value: &Json) -> (r: Result<JsonRpcNotification>)
        requires
            value@ is Object,
        ensures
            match notification_of(value@->Object_0) {
                Ok(notif) => r is Ok && r->Ok_0@ == notif,
                Err(e) => r is Err && is_json_error(r->Err_0, e),
            },
    {
        let fds = read_fds_member(value)?;
        let jsonrpc = read_string_member(value, "jsonrpc")?;
        let method = read_string_member(value, "method")?;
        let params = read_optional_member(value, "params")?;
        match (jsonrpc, method) {
            (None, _) => Err(missing_field("jsonrpc")),
            (_, None) => Err(missing_field("method")),
            (Some(jsonrpc), Some(method)) => Ok(
                JsonRpcNotification { jsonrpc, method, params, fds },
            ),
        }
    }
}

impl JsonRpcMessage {
    /// The message that a JSON value holds.
    pub fn from_json_value(value: Json) -> (r: Result<JsonRpcMessage>)
        ensures
            match message_of(value@) {
                Some(message) => r is Ok && r->Ok_0@ == message,
                None => r is Err && refused(value@, r->Err_0),
            },
    {
        match &value {
            Json::Object(_) => {},
            _ => return Err(Error::InvalidMessage("Expected JSON object".to_owned())),
        }
        if value.contains_key("method") && value.contains_key("id") {
            Ok(JsonRpcMessage::Request(JsonRpcRequest::from_json_value(&value)?))
        } else if value.contains_key("result") || value.contains_key("error") {
            Ok(JsonRpcMessage::Response(JsonRpcResponse::from_json_value(&value)?))
        } else if value.contains_key("method") {
            Ok(JsonRpcMessage::Notification(JsonRpcNotification::from_json_value(&value)?))
        } else {
            Err(Error::InvalidMessage("Invalid JSON-RPC message".to_owned()))
        }
    }
}

impl Clone for JsonRpcError {
    fn clone(&self) -> (r: JsonRpcError)
        ensures
            r@ == self@,
    {
        JsonRpcError {
            code: self.code,
            message: self.message.clone(),
            data: match &self.data {
                Some(text) => Some(text.clone()),
                None => None,
            },
        }
    }
}

fn clone_optional(json: &Option<Json>) -> (r: Option<Json>)
    ensures
        optional(r) == optional(*json),
{
    match json {
        Some(json) => Some(json.clone()),
        None => None,
    }
}

impl Clone for JsonRpcRequest {
    fn clone(&self) -> (r: JsonRpcRequest)
        ensures
            r@ == self@,
    {
        JsonRpcRequest {
            jsonrpc: self.jsonrpc.clone(),
            method: self.method.clone(),
            params: clone_optional(&self.params),
            id: self.id.clone(),
            fds: self.fds,
        }
    }
}

impl Clone for JsonRpcResponse {
    fn clone(&self) -> (r: JsonRpcResponse)
        ensures
            r@ == self@,
    {
        JsonRpcResponse {
            jsonrpc: self.jsonrpc.clone(),
            result: clone_optional(&self.result),
            error: match &self.error {
                Some(error) => Some(error.clone()),
                None => None,
            },
            id: self.id.clone(),
            fds: self.fds,
        }
    }
}

impl Clone for JsonRpcNotification {
    fn clone(&self) -> (r: JsonRpcNotification)
        ensures
            r@ == self@,
    {
        JsonRpcNotification {
            jsonrpc: self.jsonrpc.clone(),
            method: self.method.clone(),
            params: clone_optional(&self.params),
            fds: self.fds,
        }
    }
}

impl Clone for JsonRpcMessage {
    fn clone(&self) -> (r: JsonRpcMessage)
        ensures
            r@ == self@,
    {
        match self {
            JsonRpcMessage::Request(req) => JsonRpcMessage::Request(req.clone()),
            JsonRpcMessage::Response(res) => JsonRpcMessage::Response(res.clone()),
            JsonRpcMessage::Notification(notif) => JsonRpcMessage::Notification(notif.clone()),
        }
    }
}

impl JsonRpcRequest {
    /// A request without file descriptors.
    pub fn new(method: String, params: Option<Json>, id: Json) -> (r: JsonRpcRequest)
        ensures
            r@ == (RequestView {
                jsonrpc: JSONRPC_VERSION@,
                method: method@,
                params: optional(params),
                id: id@,
                fds: None,
            }),
            r.method == method && r.params == params && r.id == id,
    {
        JsonRpcRequest { jsonrpc: JSONRPC_VERSION.to_owned(), method, params, id, fds: None }
    }
}

impl JsonRpcResponse {
    /// A response with a result.
    pub fn success(result: Json, id: Json) -> (r: JsonRpcResponse)
        ensures
            r@ == (ResponseView {
                jsonrpc: JSONRPC_VERSION@,
                result: Some(result@),
                error: None,
                id: id@,
                fds: None,
            }),
            r.result == Some(result) && r.error is None && r.id == id,
    {
        JsonRpcResponse {
            jsonrpc: JSONRPC_VERSION.to_owned(),
            result: Some(result),
            error: None,
            id,
            fds: None,
        }
    }

    /// A response that reports an error.
    pub fn error(error: JsonRpcError, id: Json) -> (r: JsonRpcResponse)
        ensures
            r@ == (ResponseView {
                jsonrpc: JSONRPC_VERSION@,
                result: None,
                error: Some(error@),
                id: id@,
                fds: None,
            }),
            r.result is None && r.error == Some(error) && r.id == id,
    {
        JsonRpcResponse {
            jsonrpc: JSONRPC_VERSION.to_owned(),
            result: None,
            error: Some(error),
            id,
            fds: None,
        }
    }
}

impl JsonRpcNotification {
    /// A notification without file descriptors.
    pub fn new(method: String, params: Option<Json>) -> (r: JsonRpcNotification)
        ensures
            r@ == (NotificationView {
                jsonrpc: JSONRPC_VERSION@,
                method: method@,
                params: optional(params),
                fds: None,
            }),
            r.method == method && r.params == params,
    {
        JsonRpcNotification { jsonrpc: JSONRPC_VERSION.to_owned(), method, params, fds: None }
    }
}

impl JsonRpcMessage {
    /// Set the fds count on the message
    pub fn set_fds(&mut self, count: usize)
        ensures
            final(self)@ == old(self)@.with_fds(fds_field(count as nat)),
    {
        let fds = if count > 0 {
            Some(count)
        } else {
            None
        };
        match self {
            JsonRpcMessage::Request(req) => req.fds = fds,
            JsonRpcMessage::Response(res) => res.fds = fds,
            JsonRpcMessage::Notification(notif) => notif.fds = fds,
        }
    }

    /// Get the fds count from the message
    pub fn get_fds(&self) -> (r: usize)
        ensures
            r == (match self@.fds() {
                Some(count) => count,
                None => 0,
            }),
    {
        match self {
            JsonRpcMessage::Request(req) => req.fds.unwrap_or(0),
            JsonRpcMessage::Response(res) => res.fds.unwrap_or(0),
            JsonRpcMessage::Notification(notif) => notif.fds.unwrap_or(0),
        }
    }
}

/// The JSON value that is written for a message with so many file descriptors; the data of an
/// error that it reports has to be JSON.
pub open spec fn wire_value(message: MessageView, count: nat) -> OrText<JsonView> {
    encoded(message.with_fds(fds_field(count)))
}

impl<F> MessageWithFds<F> {
    /// A message with the file descriptors that go with it.
    pub fn new(message: JsonRpcMessage, file_descriptors: Vec<F>) -> (r: MessageWithFds<F>)
        ensures
            r.message == message,
            r.file_descriptors == file_descriptors,
    {
        MessageWithFds { message, file_descriptors }
    }

    /// Whether `r` is what serializing the message in one of the two styles gives: the text of
    /// the message, its `fds` field set to the number of attached file descriptors, on one line
    /// or with a line for each member.
    pub open spec fn serialized(self, pretty: bool, r: Result<String>) -> bool {
        match wire_value(self.message@, self.file_descriptors@.len()) {
            Ok(v) => {
                &&& r is Ok
                &&& r->Ok_0@ == written(v, pretty)
                &&& r->Ok_0@.len() > 0
                &&& r->Ok_0@.contains('\n') == pretty
                &&& readable(v) ==> holds(r->Ok_0@, v)
            },
            Err(e) => r is Err && is_json_error(r->Err_0, e),
        }
    }

    /// Serialize the message, setting the `fds` field to match the number of attached FDs.
    pub fn serialize(&self) -> (r: Result<String>)
        ensures
            self.serialized(false, r),
    {
        self.serialize_impl(false)
    }

    /// Serialize the message with pretty-printing.
    pub fn serialize_pretty(&self) -> (r: Result<String>)
        ensures
            self.serialized(true, r),
    {
        self.serialize_impl(true)
    }

    /// Serialize the message; placeholders in its parameters are written as they stand.
    pub fn serialize_with_placeholders(&self) -> (r: Result<String>)
        ensures
            self.serialized(false, r),
    {
        self.serialize()
    }

    pub(crate) fn serialize_impl(&self, pretty: bool) -> (r: Result<String>)
        ensures
            self.serialized(pretty, r),
    {
        let message_json = self.to_json_value()?;
        assert(message_json@->Object_0.contains_key("jsonrpc"@));
        codec::print(&message_json, pretty)
    }

    /// The message as a JSON value, its `fds` field set to match the number of attached FDs.
    pub fn to_json_value(&self) -> (r: Result<Json>)
        ensures
            match wire_value(self.message@, self.file_descriptors@.len()) {
                Ok(v) => r is Ok && r->Ok_0@ == v,
                Err(e) => r is Err && is_json_error(r->Err_0, e),
            },
    {
        let mut message = self.message.clone();
        message.set_fds(self.file_descriptors.len());
        message.to_json_value()
    }

    /// Whether `r` is what comes of a JSON value and file descriptors: a message with its file
    /// descriptors if the value holds a message and states as many as there are.
    pub open spec fn combined(v: JsonView, fds: Seq<F>, r: Result<MessageWithFds<F>>) -> bool {
        if fd_count(v) != fds.len() {
            &&& r is Err
            &&& r->Err_0 == Error::MismatchedCount { expected: fd_count(v), found: fds.len() as usize }
        } else {
            match message_of(v) {
                Some(message) => {
                    &&& r is Ok
                    &&& r->Ok_0.message@ == message
                    &&& r->Ok_0.file_descriptors@ == fds
                },
                None => r is Err && refused(v, r->Err_0),
            }
        }
    }

    /// Create a MessageWithFds from parsed JSON and file descriptors.
    /// The `fds` field in the JSON must match the number of provided FDs.
    pub fn from_json_with_fds(json_str: &str, fds: Vec<F>) -> (r: Result<MessageWithFds<F>>)
        ensures
            match json_parse(json_str@) {
                Ok(v) => MessageWithFds::combined(v, fds@, r),
                Err(e) => r is Err && is_json_error(r->Err_0, e),
            },
    {
        let message_json = codec::parse(json_str)?;
        MessageWithFds::from_json_value(message_json, fds)
    }

    /// Create a MessageWithFds from a JSON value and file descriptors.
    /// The `fds` field in the JSON must match the number of provided FDs.
    pub fn from_json_value(message_json: Json, fds: Vec<F>) -> (r: Result<MessageWithFds<F>>)
        ensures
            MessageWithFds::combined(message_json@, fds@, r),
    {
        let expected_count: usize = get_fd_count(&message_json);
        if expected_count != fds.len() {
            return Err(Error::MismatchedCount { expected: expected_count, found: fds.len() });
        }
        let message = JsonRpcMessage::from_json_value(message_json)?;
        Ok(MessageWithFds::new(message, fds))
    }
}

/// The error object that reports a fatal error of framing or of the association of file
/// descriptors.
pub fn file_descriptor_error() -> (r: JsonRpcError)
    ensures
        r@ == (ErrorView {
            code: FILE_DESCRIPTOR_ERROR_CODE,
            message: "File Descriptor Error"@,
            data: None,
        }),
{
    JsonRpcError {
        code: FILE_DESCRIPTOR_ERROR_CODE,
        message: "File Descriptor Error".to_owned(),
        data: None,
    }
}

} // verus!
