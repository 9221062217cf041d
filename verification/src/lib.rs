//! # JSON-RPC 2.0 with file descriptor passing
//!
//! Requests, responses and notifications go over a Unix stream socket as JSON objects, one
//! after the other, with or without whitespace between them. File descriptors go with them as
//! ancillary data; a message that is accompanied by file descriptors says in its `fds` member
//! how many there are.
//!
//! The library makes the decisions and proves them right; it performs no I/O. A
//! [`Sender`](transport::Sender) turns a message into a
//! [`Transmission`](transport::Transmission), which says what to write next, and a
//! [`Receiver`](transport::Receiver) is told what was read and says when a message is there.
//! The file descriptors are of any type that the owner of the socket chooses.
//!
//! What is proved of a whole conversation stands in [`stream`], what is proved of a single
//! message in [`roundtrip`], and what each operation is for in [`meaning`].
pub mod client;
pub mod codec;
pub mod error;
pub mod json;
pub mod meaning;
pub mod message;
pub mod placeholder;
pub mod roundtrip;
pub mod stream;
pub mod transport;
pub mod value;

pub use client::Client;
pub use error::{Error, Result};
pub use json::{Json, JsonNumber};
pub use message::{
    file_descriptor_error, JsonRpcError, JsonRpcMessage, JsonRpcNotification, JsonRpcRequest,
    JsonRpcResponse, MessageWithFds, FILE_DESCRIPTOR_ERROR_CODE,
};
pub use transport::{Receiver, Sender, Transmission};
