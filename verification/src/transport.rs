//! The two directions of a connection.
//!
//! [`Sender`] and [`Receiver`] decide what goes over a stream socket and what comes out of it.
//! They touch no socket: whoever holds one performs the writes that a [`Transmission`] asks
//! for, and hands what was read to [`Receiver::receive`].
use std::collections::VecDeque;
use vstd::prelude::*;
use vstd::utf8::encode_utf8;

use crate::codec;
use crate::codec::{holds, json_parse, json_scan, readable, written, Scanned, ScannedView};
use crate::error::{is_json_error, Error, Result};
use crate::json::{Json, JsonView};
use crate::message::{
    fd_count, get_fd_count, message_of, refused, wire_value, JsonRpcMessage, MessageView,
    MessageWithFds,
};
use crate::placeholder;
use crate::placeholder::placeholders;

verus! {

/// The state of a receiver: the bytes and the file descriptors that came and belong to no
/// message yet, each in the order in which they came, and whether the connection has come to
/// an end by a fatal error.
#[verifier::ext_equal]
pub struct ReceiverView<F> {
    pub buffer: Seq<u8>,
    pub fd_queue: Seq<F>,
    pub failed: bool,
}

impl<F> ReceiverView<F> {
    /// After a fatal error no file descriptors are kept.
    pub open spec fn wf(self) -> bool {
        self.failed ==> self.fd_queue.len() == 0
    }

    /// The state after a fatal error.
    pub open spec fn ended(self) -> ReceiverView<F> {
        ReceiverView { fd_queue: Seq::empty(), failed: true, ..self }
    }

    /// The state with what a read has returned.
    pub open spec fn appended(self, data: Seq<u8>, fds: Seq<F>) -> ReceiverView<F> {
        ReceiverView { buffer: self.buffer + data, fd_queue: self.fd_queue + fds, ..self }
    }
}

/// What comes of an attempt to take a message out of a receiver.
#[verifier::ext_equal]
pub enum TakenView<F> {
    /// There is no whole message yet.
    Nothing,
    /// A message with its file descriptors.
    Message(MessageView, Seq<F>),
    /// The value holds no message.
    NoMessage(JsonView),
    /// The stream holds something that is no JSON. This is fatal.
    NoJson,
    /// The message asks for more file descriptors than there are. This is fatal.
    TooFewFds { expected: usize, found: usize },
    /// File descriptors were lost on the way. This is fatal.
    LostFds,
    /// The connection has come to an end.
    Closed,
}

/// The attempt to take a message out of a receiver whose buffer begins with `scanned`: the
/// value is removed from the buffer and its file descriptors from the front of the queue. A
/// fatal error ends the connection.
pub open spec fn take_scanned<F>(state: ReceiverView<F>, scanned: ScannedView) -> (
    ReceiverView<F>,
    TakenView<F>,
) {
    if state.failed {
        (state, TakenView::Closed)
    } else {
        match scanned {
            ScannedView::Blank | ScannedView::Incomplete => (state, TakenView::Nothing),
            ScannedView::Invalid => (state.ended(), TakenView::NoJson),
            ScannedView::Complete(v, n) => {
                let count = fd_count(v);
                let rest = ReceiverView { buffer: state.buffer.skip(n as int), ..state };
                if count > state.fd_queue.len() {
                    (
                        rest.ended(),
                        TakenView::TooFewFds {
                            expected: count,
                            found: state.fd_queue.len() as usize,
                        },
                    )
                } else {
                    (
                        ReceiverView { fd_queue: state.fd_queue.skip(count as int), ..rest },
                        match message_of(v) {
                            Some(message) => TakenView::Message(
                                message,
                                state.fd_queue.take(count as int),
                            ),
                            None => TakenView::NoMessage(v),
                        },
                    )
                }
            },
        }
    }
}

/// The attempt to take a message out of a receiver.
pub open spec fn take_message<F>(state: ReceiverView<F>) -> (ReceiverView<F>, TakenView<F>) {
    take_scanned(state, json_scan(state.buffer))
}

/// Whether `r` reports what an attempt to take a message has come to.
pub open spec fn reports<F>(taken: TakenView<F>, r: Result<Option<MessageWithFds<F>>>) -> bool {
    match taken {
        TakenView::Nothing => r is Ok && r->Ok_0 is None,
        TakenView::Message(message, fds) => {
            &&& r is Ok
            &&& r->Ok_0 is Some
            &&& r->Ok_0->0.message@ == message
            &&& r->Ok_0->0.file_descriptors@ == fds
        },
        _ => r is Err && is_error_for(taken, r->Err_0),
    }
}

/// Whether `e` is the error for an attempt to take a message that has come to nothing.
pub open spec fn is_error_for<F>(taken: TakenView<F>, e: Error) -> bool {
    match taken {
        TakenView::Nothing | TakenView::Message(_, _) => false,
        TakenView::NoMessage(v) => refused(v, e),
        TakenView::NoJson => e is FramingError,
        TakenView::TooFewFds { expected, found } => e == Error::MismatchedCount { expected, found },
        TakenView::LostFds => {
            e matches Error::SystemCall(text) && text@ == "file descriptors were lost"@
        },
        TakenView::Closed => e is ConnectionClosed,
    }
}

/// What a receiver is told.
pub enum Event<F> {
    /// The next message is wanted.
    Wanted,
    /// A read from the socket has returned these bytes and file descriptors.
    Read(Vec<u8>, Vec<F>),
    /// A read from the socket had no room for all file descriptors that came.
    Truncated,
}

/// What an event says.
pub enum EventView<F> {
    Wanted,
    Read(Seq<u8>, Seq<F>),
    Truncated,
}

impl<F> View for Event<F> {
    type V = EventView<F>;

    open spec fn view(&self) -> EventView<F> {
        match *self {
            Event::Wanted => EventView::Wanted,
            Event::Read(data, fds) => EventView::Read(data@, fds@),
            Event::Truncated => EventView::Truncated,
        }
    }
}

/// The state of a receiver that was told of an event, before it looks for a message.
pub open spec fn read_in<F>(state: ReceiverView<F>, event: EventView<F>) -> ReceiverView<F> {
    match event {
        EventView::Read(data, fds) => state.appended(data, fds),
        _ => state,
    }
}

/// One step of a receiver. A read of no bytes is the end of the connection, and after a fatal
/// error nothing comes any more.
pub open spec fn step<F>(state: ReceiverView<F>, event: EventView<F>) -> (
    ReceiverView<F>,
    TakenView<F>,
) {
    if state.failed {
        (state, TakenView::Closed)
    } else {
        match event {
            EventView::Read(data, _) if data.len() == 0 => (state, TakenView::Closed),
            EventView::Truncated => (state.ended(), TakenView::LostFds),
            _ => take_message(read_in(state, event)),
        }
    }
}

/// What is to be done for the next message.
pub enum Action<F> {
    /// Read from the socket.
    Read,
    /// Hand over the message.
    Deliver(MessageWithFds<F>),
}

/// The result of a step as that of an attempt to take a message.
pub open spec fn taken<F>(r: Result<Action<F>>) -> Result<Option<MessageWithFds<F>>> {
    match r {
        Ok(Action::Read) => Ok(None),
        Ok(Action::Deliver(message)) => Ok(Some(message)),
        Err(e) => Err(e),
    }
}

/// The receiving side of a connection: a buffer for the bytes that were read, and a queue for
/// the file descriptors. A stream that is no JSON, a message that asks for more file
/// descriptors than there are, and file descriptors that were lost end the connection: from
/// then on every call reports that it is closed, and no file descriptor is kept.
pub struct Receiver<F> {
    buffer: Vec<u8>,
    fd_queue: VecDeque<F>,
    failed: bool,
}

impl<F> View for Receiver<F> {
    type V = ReceiverView<F>;

    closed spec fn view(&self) -> ReceiverView<F> {
        ReceiverView { buffer: self.buffer@, fd_queue: self.fd_queue@, failed: self.failed }
    }
}

impl<F> Receiver<F> {
    #[verifier::type_invariant]
    spec fn inv(self) -> bool {
        self@.wf()
    }

    /// A receiver that has read nothing yet.
    pub fn new() -> (r: Receiver<F>)
        ensures
            r@ == (ReceiverView {
                buffer: Seq::empty(),
                fd_queue: Seq::<F>::empty(),
                failed: false,
            }),
    {
        Receiver { buffer: Vec::new(), fd_queue: VecDeque::new(), failed: false }
    }

    /// Whether a fatal error has ended the connection.
    pub fn has_failed(&self) -> (r: bool)
        ensures
            r == self@.failed,
            self@.wf(),
    {
        proof {
            use_type_invariant(self);
        }
        self.failed
    }

    /// One step on the way to the next message: takes in what was read, and says whether there
    /// is a message or more has to be read.
    pub fn receive(&mut self, event: Event<F>) -> (r: Result<Action<F>>)
        ensures
            final(self)@ == step(old(self)@, event@).0,
            reports(step(old(self)@, event@).1, taken(r)),
            final(self)@.wf(),
            old(self)@.failed ==> r is Err && r->Err_0 is ConnectionClosed && final(self)@ == old(self)@,
            r matches Ok(Action::Deliver(_)) ==> final(self)@.buffer.len() < read_in(
                old(self)@,
                event@,
            ).buffer.len(),
    {
        proof {
            use_type_invariant(&*self);
        }
        match event {
            Event::Wanted => {},
            Event::Read(data, fds) => self.read_more_data(data, fds)?,
            Event::Truncated => {
                if self.failed {
                    return Err(Error::ConnectionClosed);
                }
                self.end();
                return Err(Error::SystemCall("file descriptors were lost".to_owned()));
            },
        }
        match self.try_parse_message()? {
            Some(message) => Ok(Action::Deliver(message)),
            None => Ok(Action::Read),
        }
    }

    /// Takes a message out of the buffer, and its file descriptors out of the queue, if the
    /// buffer holds a whole one. What is left of either stands where it stood, and a delivered
    /// message shortens the buffer.
    pub fn try_parse_message(&mut self) -> (r: Result<Option<MessageWithFds<F>>>)
        ensures
            final(self)@ == take_message(old(self)@).0,
            reports(take_message(old(self)@).1, r),
            final(self)@.wf(),
            old(self)@.failed ==> r is Err && r->Err_0 is ConnectionClosed && final(self)@ == old(self)@,
            final(self)@.buffer.is_suffix_of(old(self)@.buffer),
            final(self)@.fd_queue.is_suffix_of(old(self)@.fd_queue),
            match r {
                Ok(Some(message)) => {
                    &&& final(self)@.buffer.len() < old(self)@.buffer.len()
                    &&& message.file_descriptors@ + final(self)@.fd_queue == old(self)@.fd_queue
                },
                Ok(None) => final(self)@ == old(self)@,
                Err(_) => true,
            },
    {
        let scanned = codec::scan(self.buffer.as_slice());
        self.take_scanned(scanned)
    }

    /// Takes the message that stands at the front of the buffer, as a scan has found it, out
    /// of the buffer, and its file descriptors out of the queue.
    pub fn take_scanned(&mut self, scanned: Scanned) -> (r: Result<Option<MessageWithFds<F>>>)
        requires
            scanned matches Scanned::Complete(_, n) ==> n <= old(self)@.buffer.len(),
        ensures
            final(self)@ == take_scanned(old(self)@, scanned@).0,
            reports(take_scanned(old(self)@, scanned@).1, r),
            final(self)@.wf(),
            old(self)@.failed ==> r is Err && r->Err_0 is ConnectionClosed && final(self)@ == old(self)@,
    {
        proof {
            use_type_invariant(&*self);
        }
        if self.failed {
            return Err(Error::ConnectionClosed);
        }
        match scanned {
            Scanned::Blank | Scanned::Incomplete => Ok(None),
            Scanned::Invalid => {
                self.end();
                Err(Error::FramingError)
            },
            Scanned::Complete(value, consumed) => {
                self.consume(consumed);
                let expected: usize = get_fd_count(&value);
                let found: usize = self.fd_queue.len();
                if expected > found {
                    self.end();
                    return Err(Error::MismatchedCount { expected, found });
                }
                let fds = self.dequeue(expected);
                let message = JsonRpcMessage::from_json_value(value)?;
                Ok(Some(MessageWithFds::new(message, fds)))
            },
        }
    }

    fn end(&mut self)
        ensures
            final(self)@ == old(self)@.ended(),
    {
        self.fd_queue = VecDeque::new();
        self.failed = true;
    }

    fn consume(&mut self, n: usize)
        requires
            n <= old(self)@.buffer.len(),
        ensures
            final(self)@ == (ReceiverView {
                buffer: old(self)@.buffer.skip(n as int),
                ..old(self)@
            }),
    {
        proof {
            use_type_invariant(&*self);
        }
        let mut buffer: Vec<u8> = Vec::new();
        std::mem::swap(&mut buffer, &mut self.buffer);
        self.buffer = buffer.split_off(n);
    }

    fn dequeue(&mut self, count: usize) -> (r: Vec<F>)
        requires
            count <= old(self)@.fd_queue.len(),
        ensures
            r@ == old(self)@.fd_queue.take(count as int),
            final(self)@ == (ReceiverView {
                fd_queue: old(self)@.fd_queue.skip(count as int),
                ..old(self)@
            }),
    {
        proof {
            use_type_invariant(&*self);
        }
        let mut fds: Vec<F> = Vec::new();
        let mut queue: VecDeque<F> = VecDeque::new();
        std::mem::swap(&mut queue, &mut self.fd_queue);
        let ghost all = queue@;
        for i in 0..count
            invariant
                count <= all.len(),
                fds@ == all.take(i as int),
                queue@ == all.skip(i as int),
        {
            if let Some(fd) = queue.pop_front() {
                fds.push(fd);
            }
        }
        self.fd_queue = queue;
        fds
    }

    /// Takes in what a read from the socket has returned. A read of no bytes is the end of the
    /// connection.
    pub fn read_more_data(&mut self, data: Vec<u8>, fds: Vec<F>) -> (r: Result<()>)
        ensures
            if old(self)@.failed || data@.len() == 0 {
                &&& r is Err
                &&& r->Err_0 is ConnectionClosed
                &&& final(self)@ == old(self)@
            } else {
                &&& r is Ok
                &&& final(self)@ == old(self)@.appended(data@, fds@)
            },
            final(self)@.wf(),
    {
        proof {
            use_type_invariant(&*self);
        }
        if self.failed || data.len() == 0 {
            return Err(Error::ConnectionClosed);
        }
        let mut buffer: Vec<u8> = Vec::new();
        std::mem::swap(&mut buffer, &mut self.buffer);
        buffer.extend_from_slice(data.as_slice());
        self.buffer = buffer;

        let mut queue: VecDeque<F> = VecDeque::new();
        std::mem::swap(&mut queue, &mut self.fd_queue);
        let ghost all = fds@;
        let ghost before = queue@;
        for fd in it: fds
            invariant
                it.seq() == all,
                queue@ == before + all.take(it.index() as int),
        {
            queue.push_back(fd);
        }
        assert(all.take(all.len() as int) == all);
        self.fd_queue = queue;
        Ok(())
    }
}

impl<F> Receiver<F> {
    /// The message that a text holds.
    pub fn parse_json_message(&self, json_str: &str) -> (r: Result<JsonRpcMessage>)
        ensures
            match json_parse(json_str@) {
                Err(e) => r is Err && is_json_error(r->Err_0, e),
                Ok(v) => match message_of(v) {
                    Some(message) => r is Ok && r->Ok_0@ == message,
                    None => r is Err && refused(v, r->Err_0),
                },
            },
    {
        let value = codec::parse(json_str)?;
        JsonRpcMessage::from_json_value(value)
    }

    /// Adds the number of placeholders in a text to `count`. Returns `false`, and leaves
    /// `count` as it is, if the sum is greater than a `usize` can say.
    pub fn count_placeholders_in_str(json_str: &str, count: &mut usize) -> (r: Result<bool>)
        ensures
            match json_parse(json_str@) {
                Err(e) => {
                    &&& r is Err
                    &&& is_json_error(r->Err_0, e)
                    &&& *final(count) == *old(count)
                },
                Ok(v) => if *old(count) + placeholders(v) <= usize::MAX {
                    &&& r == Ok::<bool, Error>(true)
                    &&& *final(count) == *old(count) + placeholders(v)
                } else {
                    &&& r == Ok::<bool, Error>(false)
                    &&& *final(count) == *old(count)
                },
            },
    {
        let value = codec::parse(json_str)?;
        let fits = match placeholder::count(&value) {
            Some(n) => n <= usize::MAX - *count,
            None => false,
        };
        if fits {
            Receiver::<F>::count_placeholders(&value, count);
        }
        Ok(fits)
    }

    /// Adds the number of placeholders in a value to `count`.
    pub fn count_placeholders(value: &Json, count: &mut usize)
        requires
            *old(count) + placeholders(value@) <= usize::MAX,
        ensures
            *final(count) == *old(count) + placeholders(value@),
    {
        if let Some(n) = placeholder::count(value) {
            *count = *count + n;
        }
    }
}

/// The largest number of file descriptors that go with one write.
pub const MAX_FDS_PER_WRITE: usize = 8;

/// How far the transmission of a message has come.
#[verifier::ext_equal]
pub struct TransmissionView<F> {
    /// All bytes that go over the socket.
    pub data: Seq<u8>,
    /// How many of them are written.
    pub sent: nat,
    /// All file descriptors that go with them.
    pub fds: Seq<F>,
    /// How many of them are passed.
    pub passed: nat,
}

/// How many writes carry file descriptors ahead of the message, a full batch each.
pub open spec fn batches_ahead(count: nat) -> nat {
    if count == 0 {
        0
    } else {
        ((count - 1) / MAX_FDS_PER_WRITE as int) as nat
    }
}

/// The bytes that go over the socket for a message: a space for each batch of file descriptors
/// that goes ahead of it, and its text.
pub open spec fn wire_bytes(text: Seq<char>, count: nat) -> Seq<u8> {
    Seq::new(batches_ahead(count), |i: int| 0x20u8) + encode_utf8(text)
}

/// The transmission of a text with file descriptors, of which nothing is written yet.
pub open spec fn begun<F>(text: Seq<char>, fds: Seq<F>) -> TransmissionView<F> {
    TransmissionView { data: wire_bytes(text, fds.len()), sent: 0, fds, passed: 0 }
}

impl<F> TransmissionView<F> {
    /// A transmission never claims more than there is. While file descriptors are left, every
    /// write so far took one byte and a full batch, and there is a byte for all that are left.
    pub open spec fn wf(self) -> bool {
        &&& self.sent <= self.data.len()
        &&& self.passed <= self.fds.len()
        &&& self.passed < self.fds.len() ==> {
            &&& self.passed == self.sent * MAX_FDS_PER_WRITE
            &&& batches_ahead(self.fds.len()) < self.data.len()
        }
    }

    /// Whether all bytes are written.
    pub open spec fn done(self) -> bool {
        self.sent == self.data.len()
    }

    /// Whether more file descriptors are left than go with one write.
    pub open spec fn ahead(self) -> bool {
        self.fds.len() - self.passed > MAX_FDS_PER_WRITE
    }

    /// The bytes of the next write: a single one as long as more batches follow.
    pub open spec fn next_bytes(self) -> Seq<u8> {
        if self.ahead() {
            self.data.subrange(self.sent as int, self.sent as int + 1)
        } else {
            self.data.skip(self.sent as int)
        }
    }

    /// The file descriptors of the next write.
    pub open spec fn next_fds(self) -> Seq<F> {
        if self.ahead() {
            self.fds.subrange(self.passed as int, self.passed + MAX_FDS_PER_WRITE)
        } else {
            self.fds.skip(self.passed as int)
        }
    }

    /// The transmission after a write that took `n` bytes: the file descriptors go with the
    /// first of them.
    pub open spec fn advanced(self, n: nat) -> TransmissionView<F> {
        TransmissionView {
            sent: self.sent + n,
            passed: self.passed + self.next_fds().len(),
            ..self
        }
    }
}

/// The next write of a transmission.
pub enum Write<'a, F> {
    /// Nothing is left to be written.
    Done,
    /// These bytes are to be written, with these file descriptors as ancillary data.
    Send { bytes: &'a [u8], fds: &'a [F] },
}

/// How many bytes are written and how many file descriptors are passed.
struct Position {
    sent: usize,
    passed: usize,
}

/// A message on its way over a socket.
pub struct Transmission<F> {
    data: Vec<u8>,
    fds: Vec<F>,
    at: Position,
}

impl<F> View for Transmission<F> {
    type V = TransmissionView<F>;

    closed spec fn view(&self) -> TransmissionView<F> {
        TransmissionView {
            data: self.data@,
            sent: self.at.sent as nat,
            fds: self.fds@,
            passed: self.at.passed as nat,
        }
    }
}

impl<F> Transmission<F> {
    #[verifier::type_invariant]
    spec fn inv(self) -> bool {
        self@.wf()
    }

    /// The transmission of a text with file descriptors, of which nothing is written yet.
    pub fn new(text: &str, fds: Vec<F>) -> (r: Transmission<F>)
        requires
            text@.len() > 0,
        ensures
            r@ == begun(text@, fds@),
            r@.wf(),
    {
        let ahead: usize = if fds.len() == 0 {
            0
        } else {
            (fds.len() - 1) / MAX_FDS_PER_WRITE
        };
        let mut data: Vec<u8> = Vec::new();
        for i in 0..ahead
            invariant
                data@ == Seq::new(i as nat, |i: int| 0x20u8),
        {
            data.push(0x20u8);
        }
        data.extend_from_slice(text.as_bytes());
        assert(encode_utf8(text@).len() > 0);
        Transmission { data, fds, at: Position { sent: 0, passed: 0 } }
    }

    /// What is to be written next.
    pub fn next(&self) -> (r: Write<'_, F>)
        ensures
            self@.wf(),
            match r {
                Write::Done => self@.done(),
                Write::Send { bytes, fds } => {
                    &&& !self@.done()
                    &&& bytes@ == self@.next_bytes()
                    &&& fds@ == self@.next_fds()
                },
            },
    {
        proof {
            use_type_invariant(self);
        }
        let sent: usize = self.at.sent;
        let passed: usize = self.at.passed;
        if sent == self.data.len() {
            return Write::Done;
        }
        if self.fds.len() - passed > MAX_FDS_PER_WRITE {
            Write::Send {
                bytes: vstd::slice::slice_subrange(self.data.as_slice(), sent, sent + 1),
                fds: vstd::slice::slice_subrange(
                    self.fds.as_slice(),
                    passed,
                    passed + MAX_FDS_PER_WRITE,
                ),
            }
        } else {
            Write::Send {
                bytes: vstd::slice::slice_subrange(self.data.as_slice(), sent, self.data.len()),
                fds: vstd::slice::slice_subrange(self.fds.as_slice(), passed, self.fds.len()),
            }
        }
    }

    /// Notes that the next write has taken `n` bytes. A write that takes none will never get
    /// the message across.
    pub fn wrote(&mut self, n: usize) -> (r: Result<()>)
        requires
            n <= old(self)@.next_bytes().len(),
        ensures
            final(self)@.wf(),
            if n == 0 {
                &&& r matches Err(Error::SystemCall(text)) && text@ == "write took no bytes"@
                &&& final(self)@ == old(self)@
            } else {
                &&& r is Ok
                &&& final(self)@ == old(self)@.advanced(n as nat)
            },
    {
        proof {
            use_type_invariant(&*self);
        }
        if n == 0 {
            return Err(Error::SystemCall("write took no bytes".to_owned()));
        }
        let sent: usize = self.at.sent;
        let passed: usize = self.at.passed;
        assert(sent + n <= self.data.len());
        self.at = Position {
            sent: sent + n,
            passed: if self.fds.len() - passed > MAX_FDS_PER_WRITE {
                passed + MAX_FDS_PER_WRITE
            } else {
                self.fds.len()
            },
        };
        Ok(())
    }
}

/// Whether `r` is what preparing a message with its file descriptors gives: a transmission of
/// its text that has just begun, or an error if the message cannot be written as JSON.
pub open spec fn prepared<F>(
    message: MessageView,
    fds: Seq<F>,
    pretty: bool,
    r: Result<Transmission<F>>,
) -> bool {
    match wire_value(message, fds.len()) {
        Ok(v) => {
            &&& r is Ok
            &&& r->Ok_0@ == begun(written(v, pretty), fds)
            &&& r->Ok_0@.wf()
            &&& readable(v) ==> holds(written(v, pretty), v)
        },
        Err(e) => r is Err && is_json_error(r->Err_0, e),
    }
}

/// The sending side of a connection.
pub struct Sender {
    pretty: bool,
}

impl Sender {
    /// Whether messages are sent with a line for each member.
    pub closed spec fn pretty(self) -> bool {
        self.pretty
    }

    /// A sender of messages that stand on one line each.
    pub fn new() -> (r: Sender)
        ensures
            !r.pretty(),
    {
        Sender { pretty: false }
    }

    /// Chooses between messages on one line and messages with a line for each member.
    pub fn set_pretty(&mut self, pretty: bool)
        ensures
            final(self).pretty() == pretty,
    {
        self.pretty = pretty;
    }

    /// Prepares a message for its way over the socket.
    pub fn send<F>(&mut self, message_with_fds: MessageWithFds<F>) -> (r: Result<Transmission<F>>)
        ensures
            *final(self) == *old(self),
            prepared(
                message_with_fds.message@,
                message_with_fds.file_descriptors@,
                old(self).pretty(),
                r,
            ),
    {
        let serialized = message_with_fds.serialize_impl(self.pretty)?;
        Ok(Transmission::new(serialized.as_str(), message_with_fds.file_descriptors))
    }
}

} // verus!
