//! What can go wrong.
use vstd::prelude::*;

verus! {

/// An error of the protocol or of the connection under it.
#[derive(Debug, PartialEq, Eq)]
pub enum Error {
    /// A text or a value is not the JSON that is wanted; the text says why.
    Json(String),
    /// The stream holds something that is no JSON.
    FramingError,
    /// A message is accompanied by another number of file descriptors than it says.
    MismatchedCount { expected: usize, found: usize },
    /// The indices of placeholders are not unique or do not form the range from 0.
    InvalidPlaceholders,
    /// File descriptors came with a message that has no place for them.
    DanglingFileDescriptors,
    /// A call into the operating system failed; the text says how.
    SystemCall(String),
    /// The other side has closed the connection.
    ConnectionClosed,
    /// A JSON value is no message; the text says why.
    InvalidMessage(String),
}

/// The result of what can go wrong in these ways.
pub type Result<T> = std::result::Result<T, Error>;

/// What is read out of JSON, or the text that says why it cannot be.
pub type OrText<T> = std::result::Result<T, Seq<char>>;

/// Whether the error says that something is not the JSON that is wanted, in these words.
pub open spec fn is_json_error(e: Error, text: Seq<char>) -> bool {
    e matches Error::Json(said) && said@ == text
}

} // verus!
