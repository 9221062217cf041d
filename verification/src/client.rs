//! The client's side of a conversation.
use vstd::prelude::*;

use crate::error::Result;
use crate::json::{Json, JsonNumber, JsonView};
use crate::message::{
    optional, JsonRpcMessage, JsonRpcNotification, JsonRpcRequest, MessageView, MessageWithFds,
    NotificationView, RequestView, JSONRPC_VERSION,
};
use crate::transport::{prepared, Sender, Transmission};

verus! {

/// A client: it numbers its requests from 1 up.
pub struct Client {
    sender: Sender,
    next_id: u64,
}

/// What the call of a method says.
pub open spec fn call(method: Seq<char>, params: Option<JsonView>, id: u64) -> MessageView {
    MessageView::Request(
        RequestView {
            jsonrpc: JSONRPC_VERSION@,
            method,
            params,
            id: JsonView::Number(JsonNumber::PosInt(id)),
            fds: None,
        },
    )
}

/// What a notification says.
pub open spec fn notice(method: Seq<char>, params: Option<JsonView>) -> MessageView {
    MessageView::Notification(
        NotificationView { jsonrpc: JSONRPC_VERSION@, method, params, fds: None },
    )
}

impl Client {
    /// The id of the next request.
    pub closed spec fn next_id(self) -> u64 {
        self.next_id
    }

    /// Whether messages are sent with a line for each member.
    pub closed spec fn pretty(self) -> bool {
        self.sender.pretty()
    }

    /// A client that has sent nothing yet.
    pub fn new(sender: Sender) -> (r: Client)
        ensures
            r.next_id() == 1,
            r.pretty() == sender.pretty(),
    {
        Client { sender, next_id: 1 }
    }

    /// Whether there is an id for another request.
    pub fn can_call(&self) -> (r: bool)
        ensures
            r == (self.next_id() < u64::MAX),
    {
        self.next_id < u64::MAX
    }

    /// Prepares the call of a method, under the next id.
    pub fn call_method<F>(
        &mut self,
        method: &str,
        params: Option<Json>,
        file_descriptors: Vec<F>,
    ) -> (r: Result<Transmission<F>>)
        requires
            old(self).next_id() < u64::MAX,
        ensures
            final(self).next_id() == old(self).next_id() + 1,
            final(self).pretty() == old(self).pretty(),
            prepared(
                call(method@, optional(params), old(self).next_id()),
                file_descriptors@,
                old(self).pretty(),
                r,
            ),
            prepared(
                MessageView::Request(
                    RequestView {
                        jsonrpc: "2.0"@,
                        method: method@,
                        params: optional(params),
                        id: JsonView::Number(JsonNumber::PosInt(old(self).next_id())),
                        fds: None,
                    },
                ),
                file_descriptors@,
                old(self).pretty(),
                r,
            ),
    {
        let id = Json::Number(JsonNumber::PosInt(self.next_id));
        self.next_id = self.next_id + 1;
        let request = JsonRpcRequest::new(method.to_owned(), params, id);
        let message = JsonRpcMessage::Request(request);
        self.sender.send(MessageWithFds::new(message, file_descriptors))
    }

    /// Prepares a notification, which has no id.
    pub fn send_notification<F>(
        &mut self,
        method: &str,
        params: Option<Json>,
        file_descriptors: Vec<F>,
    ) -> (r: Result<Transmission<F>>)
        ensures
            final(self).next_id() == old(self).next_id(),
            final(self).pretty() == old(self).pretty(),
            prepared(
                notice(method@, optional(params)),
                file_descriptors@,
                old(self).pretty(),
                r,
            ),
            prepared(
                MessageView::Notification(
                    NotificationView {
                        jsonrpc: "2.0"@,
                        method: method@,
                        params: optional(params),
                        fds: None,
                    },
                ),
                file_descriptors@,
                old(self).pretty(),
                r,
            ),
    {
        let notification = JsonRpcNotification::new(method.to_owned(), params);
        let message = JsonRpcMessage::Notification(notification);
        self.sender.send(MessageWithFds::new(message, file_descriptors))
    }
}

} // verus!
