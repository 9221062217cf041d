//! What holds of a conversation: messages come out of a stream in order and with their own
//! file descriptors, however the stream was cut into pieces on its way.
use vstd::prelude::*;
use vstd::utf8::encode_utf8;

use crate::codec::{blank, framed, holds, is_space, json_scan, written, ScannedView};
use crate::error::Result;
use crate::json::JsonView;
use crate::message::{fd_count, fds_field, message_of, wire_value, MessageView, MessageWithFds};
use crate::roundtrip::{
    delivered, law_counts_agree, law_sendable_is_readable, law_text_is_read_back, sendable,
};
use crate::transport::{
    batches_ahead, begun, is_error_for, read_in, step, take_message, Action, Event, EventView,
    Receiver, ReceiverView, TakenView, TransmissionView, MAX_FDS_PER_WRITE,
};

verus! {

/// A message on a stream: whitespace, the text of a JSON value, and the file descriptors that
/// go with it.
pub struct Frame<F> {
    pub space: Seq<u8>,
    pub bytes: Seq<u8>,
    pub value: JsonView,
    pub message: MessageView,
    pub fds: Seq<F>,
}

impl<F> Frame<F> {
    /// Whether the frame holds its message and states its file descriptors.
    pub open spec fn valid(self) -> bool {
        &&& blank(self.space)
        &&& framed(self.bytes, self.value)
        &&& message_of(self.value) == Some(self.message)
        &&& fd_count(self.value) == self.fds.len()
    }

    /// The number of bytes that the frame takes on the stream.
    pub open spec fn len(self) -> nat {
        self.space.len() + self.bytes.len()
    }
}

/// A piece of a stream as it is written or read at once: bytes, and the file descriptors that
/// come with them.
pub struct Chunk<F> {
    pub bytes: Seq<u8>,
    pub fds: Seq<F>,
}

/// All bytes of some frames.
pub open spec fn stream_bytes<F>(frames: Seq<Frame<F>>) -> Seq<u8>
    decreases frames.len(),
{
    if frames.len() == 0 {
        Seq::empty()
    } else {
        frames[0].space + frames[0].bytes + stream_bytes(frames.drop_first())
    }
}

/// All file descriptors of some frames.
pub open spec fn stream_fds<F>(frames: Seq<Frame<F>>) -> Seq<F>
    decreases frames.len(),
{
    if frames.len() == 0 {
        Seq::empty()
    } else {
        frames[0].fds + stream_fds(frames.drop_first())
    }
}

/// The messages of some frames, each with its file descriptors.
pub open spec fn contents<F>(frames: Seq<Frame<F>>) -> Seq<(MessageView, Seq<F>)> {
    Seq::new(frames.len(), |i: int| (frames[i].message, frames[i].fds))
}

/// All bytes of some chunks.
pub open spec fn chunk_bytes<F>(chunks: Seq<Chunk<F>>) -> Seq<u8>
    decreases chunks.len(),
{
    if chunks.len() == 0 {
        Seq::empty()
    } else {
        chunks[0].bytes + chunk_bytes(chunks.drop_first())
    }
}

/// All file descriptors of some chunks.
pub open spec fn chunk_fds<F>(chunks: Seq<Chunk<F>>) -> Seq<F>
    decreases chunks.len(),
{
    if chunks.len() == 0 {
        Seq::empty()
    } else {
        chunks[0].fds + chunk_fds(chunks.drop_first())
    }
}

/// What a receiver has done: the state it is in, the messages it has delivered, and the last
/// attempt to take one, which gave none.
#[verifier::ext_equal]
pub struct Progress<F> {
    pub state: ReceiverView<F>,
    pub delivered: Seq<(MessageView, Seq<F>)>,
    pub last: TakenView<F>,
}

/// Tells a receiver of an event and takes messages out of it until there is none.
pub open spec fn run<F>(state: ReceiverView<F>, event: EventView<F>) -> Progress<F>
    decreases read_in(state, event).buffer.len(),
{
    let (after, taken) = step(state, event);
    match taken {
        TakenView::Message(message, fds) if after.buffer.len() < read_in(state, event).buffer.len() => {
            let rest = run(after, EventView::Wanted);
            Progress { delivered: seq![(message, fds)] + rest.delivered, ..rest }
        },
        _ => Progress { state: after, delivered: Seq::empty(), last: taken },
    }
}

/// Reads chunk after chunk, and takes out all messages after each of them, up to an error.
pub open spec fn feed<F>(state: ReceiverView<F>, chunks: Seq<Chunk<F>>) -> Progress<F>
    decreases chunks.len(),
{
    if chunks.len() == 0 {
        Progress { state, delivered: Seq::empty(), last: TakenView::Nothing }
    } else {
        let first = run(state, EventView::Read(chunks[0].bytes, chunks[0].fds));
        if first.last is Nothing {
            let rest = feed(first.state, chunks.drop_first());
            Progress { delivered: first.delivered + rest.delivered, ..rest }
        } else {
            first
        }
    }
}

/// The messages that a receiver has handed over, each with its file descriptors.
pub open spec fn handed_over<F>(messages: Seq<MessageWithFds<F>>) -> Seq<(MessageView, Seq<F>)> {
    Seq::new(messages.len(), |i: int| (messages[i].message@, messages[i].file_descriptors@))
}

/// The chunks that some reads have returned.
pub open spec fn chunks_of<F>(reads: Seq<(Vec<u8>, Vec<F>)>) -> Seq<Chunk<F>> {
    Seq::new(reads.len(), |i: int| Chunk { bytes: reads[i].0@, fds: reads[i].1@ })
}

/// Whether `r` reports the last attempt to take a message, which gave none.
pub open spec fn reports_end<F>(last: TakenView<F>, r: Result<()>) -> bool {
    match last {
        TakenView::Nothing => r is Ok,
        _ => r is Err && is_error_for(last, r->Err_0),
    }
}

impl<F> Receiver<F> {
    /// Tells the receiver of an event, and calls [`Receiver::receive`] until it has no more
    /// messages or reports an error.
    fn receive_after(&mut self, event: Event<F>) -> (r: (Vec<MessageWithFds<F>>, Result<()>))
        ensures
            final(self)@ == run(old(self)@, event@).state,
            handed_over(r.0@) == run(old(self)@, event@).delivered,
            reports_end(run(old(self)@, event@).last, r.1),
    {
        let mut next = event;
        let mut messages: Vec<MessageWithFds<F>> = Vec::new();
        let ghost all = run(self@, event@);
        assert(handed_over(messages@) + all.delivered =~= all.delivered);
        loop
            invariant
                all == run(old(self)@, event@),
                all.state == run(self@, next@).state,
                all.last == run(self@, next@).last,
                all.delivered == handed_over(messages@) + run(self@, next@).delivered,
            decreases read_in(self@, next@).buffer.len(),
        {
            let ghost before = messages@;
            let ghost now = run(self@, next@);
            match self.receive(next) {
                Ok(Action::Deliver(message)) => {
                    let ghost taken = (message.message@, message.file_descriptors@);
                    messages.push(message);
                    next = Event::Wanted;
                    proof {
                        let rest = run(self@, EventView::Wanted);
                        assert(now.delivered == seq![taken] + rest.delivered);
                        assert(handed_over(messages@) =~= handed_over(before).push(taken));
                        assert(handed_over(before) + (seq![taken] + rest.delivered) =~= handed_over(
                            messages@,
                        ) + rest.delivered);
                    }
                },
                Ok(Action::Read) => {
                    assert(handed_over(messages@) + Seq::empty() =~= handed_over(messages@));
                    return (messages, Ok(()));
                },
                Err(e) => {
                    assert(handed_over(messages@) + Seq::empty() =~= handed_over(messages@));
                    return (messages, Err(e));
                },
            }
        }
    }

    /// Hands the receiver read after read, and collects the messages that it delivers, up to
    /// an error.
    pub fn receive_all(&mut self, reads: Vec<(Vec<u8>, Vec<F>)>) -> (r: (
        Vec<MessageWithFds<F>>,
        Result<()>,
    ))
        ensures
            final(self)@ == feed(old(self)@, chunks_of(reads@)).state,
            handed_over(r.0@) == feed(old(self)@, chunks_of(reads@)).delivered,
            reports_end(feed(old(self)@, chunks_of(reads@)).last, r.1),
    {
        let mut messages: Vec<MessageWithFds<F>> = Vec::new();
        let ghost all = reads@;
        let ghost whole = feed(self@, chunks_of(all));
        assert(chunks_of(all).skip(0) =~= chunks_of(all));
        assert(handed_over(messages@) + whole.delivered =~= whole.delivered);
        for read in it: reads
            invariant
                it.seq() == all,
                whole == feed(old(self)@, chunks_of(all)),
                whole.state == feed(self@, chunks_of(all).skip(it.index() as int)).state,
                whole.last == feed(self@, chunks_of(all).skip(it.index() as int)).last,
                whole.delivered == handed_over(messages@) + feed(
                    self@,
                    chunks_of(all).skip(it.index() as int),
                ).delivered,
        {
            let ghost left = chunks_of(all).skip(it.index() as int);
            let ghost before = messages@;
            let ghost first = run(self@, EventView::Read(left[0].bytes, left[0].fds));
            proof {
                assert(left[0] == Chunk { bytes: read.0@, fds: read.1@ });
                assert(left.drop_first() =~= chunks_of(all).skip(it.index() as int + 1));
            }
            let (mut more, end) = self.receive_after(Event::Read(read.0, read.1));
            let ghost added = more@;
            messages.append(&mut more);
            proof {
                assert(messages@ =~= before + added);
                assert(handed_over(messages@) =~= handed_over(before) + handed_over(added));
            }
            if let Err(e) = end {
                return (messages, Err(e));
            }
            proof {
                let rest = feed(self@, left.drop_first());
                assert(handed_over(before) + (handed_over(added) + rest.delivered) =~= handed_over(
                    messages@,
                ) + rest.delivered);
            }
        }
        assert(chunks_of(all).skip(all.len() as int).len() == 0);
        assert(handed_over(messages@) + Seq::empty() =~= handed_over(messages@));
        (messages, Ok(()))
    }
}

/// The state of a receiver that holds these bytes and file descriptors.
pub open spec fn holding<F>(buffer: Seq<u8>, fd_queue: Seq<F>) -> ReceiverView<F> {
    ReceiverView { buffer, fd_queue, failed: false }
}

/// The state of a receiver that holds nothing.
pub open spec fn idle<F>() -> ReceiverView<F> {
    holding(Seq::empty(), Seq::empty())
}

/// Whether whitespace alone is taken for no message.
spec fn quiet() -> bool {
    forall|space: Seq<u8>| blank(space) ==> #[trigger] json_scan(space) == ScannedView::Blank
}

proof fn lemma_quiet(bytes: Seq<u8>, v: JsonView)
    requires
        framed(bytes, v),
    ensures
        quiet(),
{
    assert forall|space: Seq<u8>| blank(space) implies #[trigger] json_scan(space) == ScannedView::Blank by {
        assert(space + bytes.take(0) =~= space);
    }
}

/// A whole frame at the front of the buffer, with its file descriptors at the front of the
/// queue, is delivered, and what stands behind it stays.
pub proof fn law_whole_frame_is_delivered<F>(frame: Frame<F>, bytes: Seq<u8>, fds: Seq<F>)
    requires
        frame.valid(),
    ensures
        take_message(holding(frame.space + frame.bytes + bytes, frame.fds + fds)) == (
            holding(bytes, fds),
            TakenView::Message(frame.message, frame.fds),
        ),
{
    let buffer = frame.space + frame.bytes + bytes;
    let queue = frame.fds + fds;
    assert(json_scan(buffer) == ScannedView::Complete(frame.value, frame.space.len() + frame.bytes.len()));
    assert(buffer.skip((frame.space.len() + frame.bytes.len()) as int) =~= bytes);
    assert(queue.take(frame.fds.len() as int) =~= frame.fds);
    assert(queue.skip(frame.fds.len() as int) =~= fds);
}

/// A frame of which some bytes are missing is waited for: nothing is delivered, dropped or
/// reported.
pub proof fn law_partial_frame_is_waited_for<F>(frame: Frame<F>, n: nat, fds: Seq<F>)
    requires
        frame.valid(),
        n < frame.len(),
    ensures
        take_message(holding((frame.space + frame.bytes).take(n as int), fds)) == (
            holding((frame.space + frame.bytes).take(n as int), fds),
            TakenView::<F>::Nothing,
        ),
{
    let buffer = (frame.space + frame.bytes).take(n as int);
    if n < frame.space.len() {
        assert(buffer =~= frame.space.take(n as int) + frame.bytes.take(0));
        assert(blank(frame.space.take(n as int)));
    } else {
        assert(buffer =~= frame.space + frame.bytes.take(n - frame.space.len()));
    }
}

/// A frame for which file descriptors are missing is a fatal error, which says how many there
/// should have been and how many there were: its bytes are consumed, the file descriptors that
/// were left are dropped, and the connection is at its end.
pub proof fn law_missing_fds_are_an_error<F>(frame: Frame<F>, bytes: Seq<u8>, fds: Seq<F>)
    requires
        frame.valid(),
        fds.len() < frame.fds.len(),
    ensures
        take_message(holding(frame.space + frame.bytes + bytes, fds)) == (
            holding(bytes, fds).ended(),
            TakenView::<F>::TooFewFds {
                expected: frame.fds.len() as usize,
                found: fds.len() as usize,
            },
        ),
{
    let buffer = frame.space + frame.bytes + bytes;
    assert(json_scan(buffer) == ScannedView::Complete(frame.value, frame.space.len() + frame.bytes.len()));
    assert(buffer.skip((frame.space.len() + frame.bytes.len()) as int) =~= bytes);
}

/// A delivered message says itself how many file descriptors it is delivered with.
pub proof fn law_delivered_fds_are_counted<F>(state: ReceiverView<F>)
    ensures
        take_message(state).1 matches TakenView::Message(message, fds) ==> fds.len() == (
        match message.fds() {
            Some(count) => count,
            None => 0,
        }),
{
    if let ScannedView::Complete(v, n) = json_scan(state.buffer) {
        law_counts_agree(v);
    }
}

/// Something that is no JSON is a fatal error: the file descriptors that were left are dropped,
/// and the connection is at its end.
pub proof fn law_framing_error_ends_the_connection<F>(buffer: Seq<u8>, fds: Seq<F>)
    requires
        json_scan(buffer) is Invalid,
    ensures
        take_message(holding(buffer, fds)) == (holding(buffer, fds).ended(), TakenView::<F>::NoJson),
{
}

/// A connection comes to its end by a fatal error and by nothing else: by something that is no
/// JSON, by a message that asks for more file descriptors than there are, or by file
/// descriptors that were lost. No file descriptor is kept then.
pub proof fn law_fatal_errors_end_the_connection<F>(state: ReceiverView<F>, event: EventView<F>)
    requires
        state.wf(),
        !state.failed,
    ensures
        step(state, event).0.wf(),
        step(state, event).0.failed <==> {
            let taken = step(state, event).1;
            taken is NoJson || taken is TooFewFds || taken is LostFds
        },
        step(state, event).0.failed ==> step(state, event).0.fd_queue.len() == 0,
{
}

/// A fatal error is final: whatever a receiver is told after it, it delivers nothing, reports
/// that the connection is closed, and keeps no file descriptor.
pub proof fn law_fatal_error_is_final<F>(state: ReceiverView<F>, event: EventView<F>, chunks: Seq<Chunk<F>>)
    requires
        state.wf(),
        state.failed,
    ensures
        state.fd_queue.len() == 0,
        step(state, event) == (state, TakenView::<F>::Closed),
        feed(state, chunks).delivered.len() == 0,
        feed(state, chunks).state == state,
{
}

/// Whether all frames hold their messages and state their file descriptors.
pub open spec fn all_valid<F>(frames: Seq<Frame<F>>) -> bool {
    forall|i: int| 0 <= i < frames.len() ==> (#[trigger] frames[i]).valid()
}

/// Whether, with so many bytes and file descriptors of the stream received, every frame that
/// is there to its last byte has its file descriptors.
pub open spec fn in_order<F>(frames: Seq<Frame<F>>, bytes: nat, fds: nat) -> bool {
    forall|k: int|
        0 <= k <= frames.len() && stream_bytes(#[trigger] frames.take(k)).len() <= bytes ==> stream_fds(
            frames.take(k),
        ).len() <= fds
}

proof fn lemma_take_next<F>(frames: Seq<Frame<F>>, k: int)
    requires
        0 <= k < frames.len(),
    ensures
        stream_bytes(frames.take(k + 1)) == frames[0].space + frames[0].bytes + stream_bytes(
            frames.drop_first().take(k),
        ),
        stream_fds(frames.take(k + 1)) == frames[0].fds + stream_fds(frames.drop_first().take(k)),
{
    assert(frames.take(k + 1).drop_first() =~= frames.drop_first().take(k));
}

/// Takes out the frames that are whole, and returns how many there were.
proof fn lemma_drain<F>(
    frames: Seq<Frame<F>>,
    end: Seq<u8>,
    state: ReceiverView<F>,
    bytes: Seq<u8>,
    fds: Seq<F>,
) -> (k: int)
    requires
        all_valid(frames),
        blank(end),
        quiet(),
        !state.failed,
        state.buffer + bytes == stream_bytes(frames) + end,
        state.fd_queue + fds == stream_fds(frames),
        in_order(frames, state.buffer.len(), state.fd_queue.len()),
    ensures
        0 <= k <= frames.len(),
        ({
            let done = run(state, EventView::Wanted);
            &&& done.last is Nothing
            &&& !done.state.failed
            &&& done.delivered == contents(frames.take(k))
            &&& done.state.buffer + bytes == stream_bytes(frames.skip(k)) + end
            &&& done.state.fd_queue + fds == stream_fds(frames.skip(k))
            &&& k < frames.len() ==> done.state.buffer.len() < frames[k].len()
            &&& stream_bytes(frames.take(k)).len() + done.state.buffer.len() == state.buffer.len()
            &&& stream_fds(frames.take(k)).len() + done.state.fd_queue.len() == state.fd_queue.len()
        }),
    decreases frames.len(),
{
    if frames.len() == 0 {
        assert(stream_bytes(frames) + end =~= end);
        assert forall|i: int| 0 <= i < state.buffer.len() implies is_space(#[trigger] state.buffer[i]) by {
            assert((state.buffer + bytes)[i] == end[i]);
        }
        assert(blank(state.buffer));
        assert(frames.take(0) =~= frames);
        assert(frames.skip(0) =~= frames);
        assert(contents(frames.take(0)) =~= Seq::empty());
        0
    } else {
        let frame = frames[0];
        let tail = frames.drop_first();
        if frame.len() <= state.buffer.len() {
            let rest = holding(
                state.buffer.skip(frame.len() as int),
                state.fd_queue.skip(frame.fds.len() as int),
            );
            lemma_take_next(frames, 0);
            assert(tail.take(0) =~= Seq::empty());
            assert(frames.take(1).len() == 1);
            assert(frame.fds.len() <= state.fd_queue.len());
            let whole = frame.space + frame.bytes;
            assert(state.buffer.take(frame.len() as int) =~= (state.buffer + bytes).take(frame.len() as int));
            assert((whole + stream_bytes(tail) + end).take(frame.len() as int) =~= whole);
            assert(state.buffer =~= whole + rest.buffer);
            assert(state.fd_queue.take(frame.fds.len() as int) =~= (state.fd_queue + fds).take(
                frame.fds.len() as int,
            ));
            assert((frame.fds + stream_fds(tail)).take(frame.fds.len() as int) =~= frame.fds);
            assert(state.fd_queue =~= frame.fds + rest.fd_queue);
            assert(state =~= holding(whole + rest.buffer, frame.fds + rest.fd_queue));
            law_whole_frame_is_delivered(frame, rest.buffer, rest.fd_queue);
            assert(rest.buffer + bytes =~= (state.buffer + bytes).skip(frame.len() as int));
            assert((whole + stream_bytes(tail) + end).skip(frame.len() as int) =~= stream_bytes(tail) + end);
            assert(rest.fd_queue + fds =~= (state.fd_queue + fds).skip(frame.fds.len() as int));
            assert((frame.fds + stream_fds(tail)).skip(frame.fds.len() as int) =~= stream_fds(tail));
            assert(in_order(tail, rest.buffer.len(), rest.fd_queue.len())) by {
                assert forall|k: int|
                    0 <= k <= tail.len() && stream_bytes(#[trigger] tail.take(k)).len()
                        <= rest.buffer.len() implies stream_fds(tail.take(k)).len() <= rest.fd_queue.len() by {
                    lemma_take_next(frames, k);
                    assert(frames.take(k + 1).len() == k + 1);
                }
            }
            let k = lemma_drain(tail, end, rest, bytes, fds);
            lemma_take_next(frames, k);
            assert(frames.skip(k + 1) =~= tail.skip(k));
            assert(contents(frames.take(k + 1)) =~= seq![(frame.message, frame.fds)] + contents(tail.take(k)));
            k + 1
        } else {
            let whole = frame.space + frame.bytes;
            let n = state.buffer.len();
            assert(state.buffer =~= (state.buffer + bytes).take(n as int));
            assert((whole + stream_bytes(tail) + end).take(n as int) =~= whole.take(n as int));
            assert(state =~= holding(whole.take(n as int), state.fd_queue));
            law_partial_frame_is_waited_for(frame, n, state.fd_queue);
            assert(frames.skip(0) =~= frames);
            assert(frames.take(0) =~= Seq::empty());
            assert(contents(frames.take(0)) =~= Seq::empty());
            0
        }
    }
}

/// The messages that stand before the one that gives an error, or that is not whole, are
/// delivered first: an error takes nothing back.
pub proof fn law_messages_before_an_error_are_delivered<F>(
    frames: Seq<Frame<F>>,
    bytes: Seq<u8>,
    fds: Seq<F>,
)
    requires
        all_valid(frames),
        !(take_message(holding(bytes, fds)).1 is Message),
    ensures
        run(
            holding(stream_bytes(frames) + bytes, stream_fds(frames) + fds),
            EventView::Wanted,
        ) == (Progress {
            state: take_message(holding(bytes, fds)).0,
            delivered: contents(frames),
            last: take_message(holding(bytes, fds)).1,
        }),
    decreases frames.len(),
{
    if frames.len() == 0 {
        assert(stream_bytes(frames) + bytes =~= bytes);
        assert(stream_fds(frames) + fds =~= fds);
        assert(contents(frames) =~= Seq::empty());
    } else {
        let frame = frames[0];
        let tail = frames.drop_first();
        let after = holding(stream_bytes(tail) + bytes, stream_fds(tail) + fds);
        assert(stream_bytes(frames) + bytes =~= frame.space + frame.bytes + after.buffer);
        assert(stream_fds(frames) + fds =~= frame.fds + after.fd_queue);
        law_whole_frame_is_delivered(frame, after.buffer, after.fd_queue);
        law_messages_before_an_error_are_delivered(tail, bytes, fds);
        assert(contents(frames) =~= seq![(frame.message, frame.fds)] + contents(tail));
    }
}

/// Whether the chunks bring every frame's file descriptors before or with its final bytes,
/// where so many bytes and file descriptors came before them.
pub open spec fn brought_in_order<F>(
    frames: Seq<Frame<F>>,
    bytes: nat,
    fds: nat,
    chunks: Seq<Chunk<F>>,
) -> bool {
    forall|j: int|
        0 <= j <= chunks.len() ==> in_order(
            frames,
            bytes + chunk_bytes(#[trigger] chunks.take(j)).len(),
            fds + chunk_fds(chunks.take(j)).len(),
        )
}

proof fn lemma_split<F>(frames: Seq<Frame<F>>, k: int)
    requires
        0 <= k <= frames.len(),
    ensures
        stream_bytes(frames) == stream_bytes(frames.take(k)) + stream_bytes(frames.skip(k)),
        stream_fds(frames) == stream_fds(frames.take(k)) + stream_fds(frames.skip(k)),
    decreases k,
{
    if k == 0 {
        assert(frames.take(0) =~= Seq::empty());
        assert(frames.skip(0) =~= frames);
    } else {
        lemma_take_next(frames, k - 1);
        lemma_split(frames.drop_first(), k - 1);
        assert(frames.drop_first().skip(k - 1) =~= frames.skip(k));
    }
}

/// Whether every chunk has a byte. A read of no bytes is the end of the connection.
pub open spec fn no_end<F>(chunks: Seq<Chunk<F>>) -> bool {
    forall|i: int| 0 <= i < chunks.len() ==> (#[trigger] chunks[i]).bytes.len() > 0
}

proof fn lemma_feed<F>(frames: Seq<Frame<F>>, end: Seq<u8>, state: ReceiverView<F>, chunks: Seq<Chunk<F>>)
    requires
        all_valid(frames),
        blank(end),
        quiet(),
        no_end(chunks),
        !state.failed,
        state.buffer + chunk_bytes(chunks) == stream_bytes(frames) + end,
        state.fd_queue + chunk_fds(chunks) == stream_fds(frames),
        brought_in_order(frames, state.buffer.len(), state.fd_queue.len(), chunks),
        frames.len() > 0 ==> state.buffer.len() < frames[0].len(),
    ensures
        feed(state, chunks) == (Progress {
            state: holding(end, Seq::empty()),
            delivered: contents(frames),
            last: TakenView::<F>::Nothing,
        }),
    decreases chunks.len(),
{
    if chunks.len() == 0 {
        assert(state.buffer + chunk_bytes(chunks) =~= state.buffer);
        assert(state.fd_queue + chunk_fds(chunks) =~= state.fd_queue);
        if frames.len() > 0 {
            assert((stream_bytes(frames) + end).len() >= frames[0].len());
        }
        assert(stream_bytes(frames) + end =~= end);
        assert(contents(frames) =~= Seq::empty());
        assert(state =~= holding(end, Seq::empty()));
    } else {
        let chunk = chunks[0];
        let event = EventView::Read(chunk.bytes, chunk.fds);
        let next = state.appended(chunk.bytes, chunk.fds);
        let later = chunks.drop_first();
        assert(chunk.bytes.len() > 0);
        assert(step(state, event) == step(next, EventView::Wanted));
        assert(run(state, event) == run(next, EventView::Wanted));
        assert(next.buffer + chunk_bytes(later) =~= state.buffer + chunk_bytes(chunks));
        assert(next.fd_queue + chunk_fds(later) =~= state.fd_queue + chunk_fds(chunks));
        let none = chunks.take(1).drop_first();
        assert(none.len() == 0);
        assert(chunk_bytes(none) =~= Seq::empty());
        assert(chunk_fds(none) =~= Seq::empty());
        assert(chunk_bytes(chunks.take(1)) =~= chunks[0].bytes);
        assert(chunk_fds(chunks.take(1)) =~= chunks[0].fds);
        let k = lemma_drain(frames, end, next, chunk_bytes(later), chunk_fds(later));
        let done = run(next, EventView::Wanted);
        let left = frames.skip(k);
        assert(all_valid(left));
        assert(no_end(later)) by {
            assert forall|i: int| 0 <= i < later.len() implies (#[trigger] later[i]).bytes.len() > 0 by {
                assert(chunks[i + 1].bytes.len() > 0);
            }
        }
        assert(brought_in_order(left, done.state.buffer.len(), done.state.fd_queue.len(), later)) by {
            assert forall|j: int| 0 <= j <= later.len() implies in_order(
                left,
                done.state.buffer.len() + chunk_bytes(#[trigger] later.take(j)).len(),
                done.state.fd_queue.len() + chunk_fds(later.take(j)).len(),
            ) by {
                assert(chunks.take(j + 1).drop_first() =~= later.take(j));
                assert(chunks.take(j + 1)[0] == chunks[0]);
                assert forall|i: int|
                    0 <= i <= left.len() && stream_bytes(#[trigger] left.take(i)).len()
                        <= done.state.buffer.len() + chunk_bytes(later.take(j)).len() implies stream_fds(
                    left.take(i),
                ).len() <= done.state.fd_queue.len() + chunk_fds(later.take(j)).len() by {
                    lemma_split(frames.take(k + i), k);
                    assert(frames.take(k + i).take(k) =~= frames.take(k));
                    assert(frames.take(k + i).skip(k) =~= left.take(i));
                }
            }
        }
        lemma_feed(left, end, done.state, later);
        assert(contents(frames) =~= contents(frames.take(k)) + contents(left));
    }
}

/// Whether the chunks bring the frames, with or without whitespace at the end, and the file
/// descriptors of every message before or with its final bytes.
pub open spec fn brings<F>(chunks: Seq<Chunk<F>>, frames: Seq<Frame<F>>, end: Seq<u8>) -> bool {
    &&& all_valid(frames)
    &&& frames.len() > 0
    &&& blank(end)
    &&& no_end(chunks)
    &&& chunk_bytes(chunks) == stream_bytes(frames) + end
    &&& chunk_fds(chunks) == stream_fds(frames)
    &&& brought_in_order(frames, 0, 0, chunks)
}

/// Messages are delivered in the order in which they stand on the stream, all of them and
/// nothing else, each with its own file descriptors in their order, however the stream is cut
/// into chunks, as long as the file descriptors of every message come before or with its final
/// bytes. Nothing is left over but whitespace behind the last message.
pub proof fn law_stream_is_delivered<F>(frames: Seq<Frame<F>>, end: Seq<u8>, chunks: Seq<Chunk<F>>)
    requires
        brings(chunks, frames, end),
    ensures
        feed(idle(), chunks) == (Progress {
            state: holding(end, Seq::empty()),
            delivered: contents(frames),
            last: TakenView::<F>::Nothing,
        }),
{
    lemma_quiet(frames[0].bytes, frames[0].value);
    assert(idle::<F>().buffer + chunk_bytes(chunks) =~= stream_bytes(frames) + end);
    assert(idle::<F>().fd_queue + chunk_fds(chunks) =~= stream_fds(frames));
    lemma_feed(frames, end, idle(), chunks);
}

/// What a fresh receiver delivers depends on the stream of bytes and on the stream of file
/// descriptors alone, not on how reads have cut them.
pub proof fn law_cuts_do_not_matter<F>(
    frames: Seq<Frame<F>>,
    end: Seq<u8>,
    some: Seq<Chunk<F>>,
    other: Seq<Chunk<F>>,
)
    requires
        brings(some, frames, end),
        brings(other, frames, end),
    ensures
        feed(idle(), some) == feed(idle(), other),
{
    law_stream_is_delivered(frames, end, some);
    law_stream_is_delivered(frames, end, other);
}

/// Whether a transmission is carried out to its end by writes that take so many bytes each.
pub open spec fn carried_out<F>(t: TransmissionView<F>, taken: Seq<nat>) -> bool
    decreases taken.len(),
{
    if taken.len() == 0 {
        t.done()
    } else {
        &&& !t.done()
        &&& 0 < taken[0] <= t.next_bytes().len()
        &&& carried_out(t.advanced(taken[0]), taken.drop_first())
    }
}

/// What goes over the socket when the writes of a transmission take so many bytes each.
pub open spec fn writes<F>(t: TransmissionView<F>, taken: Seq<nat>) -> Seq<Chunk<F>>
    decreases taken.len(),
{
    if taken.len() == 0 {
        Seq::empty()
    } else {
        seq![Chunk { bytes: t.next_bytes().take(taken[0] as int), fds: t.next_fds() }] + writes(
            t.advanced(taken[0]),
            taken.drop_first(),
        )
    }
}

/// Every write that takes at least a byte brings a transmission nearer to its end, whatever
/// the write takes of what it was offered, and keeps it in order.
pub proof fn law_transmission_goes_on<F>(t: TransmissionView<F>, n: nat)
    requires
        t.wf(),
        !t.done(),
        0 < n <= t.next_bytes().len(),
    ensures
        t.advanced(n).wf(),
        t.sent < t.advanced(n).sent <= t.data.len(),
        t.passed <= t.advanced(n).passed <= t.fds.len(),
        t.next_bytes().len() > 0,
        t.next_fds().len() <= MAX_FDS_PER_WRITE,
{
}

/// A transmission that has ended has passed all file descriptors.
pub proof fn law_all_fds_are_passed<F>(t: TransmissionView<F>)
    requires
        t.wf(),
        t.done(),
    ensures
        t.passed == t.fds.len(),
{
}

/// The writes of a transmission, whatever they take of what they are offered, bring across
/// exactly its bytes and its file descriptors, in order; no write carries more file
/// descriptors than go with one write, none carries file descriptors without a byte, and there
/// are no more writes than bytes.
pub proof fn law_transmission_is_complete<F>(t: TransmissionView<F>, taken: Seq<nat>)
    requires
        t.wf(),
        carried_out(t, taken),
    ensures
        chunk_bytes(writes(t, taken)) == t.data.skip(t.sent as int),
        chunk_fds(writes(t, taken)) == t.fds.skip(t.passed as int),
        writes(t, taken).len() == taken.len(),
        forall|i: int|
            0 <= i < taken.len() ==> {
                let write = #[trigger] writes(t, taken)[i];
                write.bytes.len() > 0 && write.fds.len() <= MAX_FDS_PER_WRITE
            },
        taken.len() <= t.data.len() - t.sent,
    decreases taken.len(),
{
    if taken.len() == 0 {
        law_all_fds_are_passed(t);
    } else {
        law_transmission_goes_on(t, taken[0]);
        let next = t.advanced(taken[0]);
        let rest = writes(next, taken.drop_first());
        law_transmission_is_complete(next, taken.drop_first());
        let first = Chunk { bytes: t.next_bytes().take(taken[0] as int), fds: t.next_fds() };
        assert(writes(t, taken).drop_first() =~= rest);
        assert(first.bytes + t.data.skip(next.sent as int) =~= t.data.skip(t.sent as int));
        assert(first.fds + t.fds.skip(next.passed as int) =~= t.fds.skip(t.passed as int));
        assert forall|i: int| 0 <= i < taken.len() implies ({
            let write = #[trigger] writes(t, taken)[i];
            write.bytes.len() > 0 && write.fds.len() <= MAX_FDS_PER_WRITE
        }) by {
            if i > 0 {
                assert(writes(t, taken)[i] == rest[i - 1]);
            }
        }
    }
}

/// Whether the chunks are the writes of a frame: they bring its bytes and its file descriptors,
/// and the last of them brings at least a byte.
pub open spec fn written_as<F>(frame: Frame<F>, chunks: Seq<Chunk<F>>) -> bool {
    &&& chunks.len() > 0
    &&& chunks.last().bytes.len() > 0
    &&& chunk_bytes(chunks) == frame.space + frame.bytes
    &&& chunk_fds(chunks) == frame.fds
}

/// All writes, one frame after the other.
pub open spec fn joined<F>(writes: Seq<Seq<Chunk<F>>>) -> Seq<Chunk<F>>
    decreases writes.len(),
{
    if writes.len() == 0 {
        Seq::empty()
    } else {
        writes[0] + joined(writes.drop_first())
    }
}

/// Whether a stream socket may hand out `read` after `written`: the same bytes and file
/// descriptors in the same order, cut in any way, where the file descriptors of a write are
/// handed out no later than the first byte of that write.
pub open spec fn follows<F>(written: Seq<Chunk<F>>, read: Seq<Chunk<F>>) -> bool {
    &&& no_end(read)
    &&& chunk_bytes(read) == chunk_bytes(written)
    &&& chunk_fds(read) == chunk_fds(written)
    &&& forall|i: int, j: int|
        #![trigger written.take(i), read.take(j)]
        0 <= i < written.len() && 0 <= j <= read.len() && chunk_bytes(read.take(j)).len() > chunk_bytes(
            written.take(i),
        ).len() ==> chunk_fds(read.take(j)).len() >= chunk_fds(written.take(i + 1)).len()
}

proof fn lemma_chunks_add<F>(a: Seq<Chunk<F>>, b: Seq<Chunk<F>>)
    ensures
        chunk_bytes(a + b) == chunk_bytes(a) + chunk_bytes(b),
        chunk_fds(a + b) == chunk_fds(a) + chunk_fds(b),
    decreases a.len(),
{
    if a.len() == 0 {
        assert(a + b =~= b);
    } else {
        lemma_chunks_add(a.drop_first(), b);
        assert((a + b).drop_first() =~= a.drop_first() + b);
    }
}

proof fn lemma_joined_split<F>(writes: Seq<Seq<Chunk<F>>>, k: int)
    requires
        0 <= k <= writes.len(),
    ensures
        joined(writes) == joined(writes.take(k)) + joined(writes.skip(k)),
    decreases k,
{
    if k == 0 {
        assert(writes.take(0) =~= Seq::empty());
        assert(writes.skip(0) =~= writes);
    } else {
        lemma_joined_split(writes.drop_first(), k - 1);
        assert(writes.take(k).drop_first() =~= writes.drop_first().take(k - 1));
        assert(writes.drop_first().skip(k - 1) =~= writes.skip(k));
    }
}

/// Whether each frame is written by its own writes.
pub open spec fn all_written<F>(frames: Seq<Frame<F>>, writes: Seq<Seq<Chunk<F>>>) -> bool {
    &&& frames.len() == writes.len()
    &&& forall|i: int| 0 <= i < frames.len() ==> written_as(#[trigger] frames[i], writes[i])
}

proof fn lemma_joined_brings_stream<F>(frames: Seq<Frame<F>>, writes: Seq<Seq<Chunk<F>>>)
    requires
        all_written(frames, writes),
    ensures
        chunk_bytes(joined(writes)) == stream_bytes(frames),
        chunk_fds(joined(writes)) == stream_fds(frames),
    decreases frames.len(),
{
    if frames.len() > 0 {
        assert(written_as(frames[0], writes[0]));
        assert(all_written(frames.drop_first(), writes.drop_first())) by {
            assert forall|i: int| 0 <= i < frames.drop_first().len() implies written_as(
                #[trigger] frames.drop_first()[i],
                writes.drop_first()[i],
            ) by {
                assert(written_as(frames[i + 1], writes[i + 1]));
            }
        }
        lemma_joined_brings_stream(frames.drop_first(), writes.drop_first());
        lemma_chunks_add(writes[0], joined(writes.drop_first()));
    }
}

/// The last write of the first frames brings a byte, and with it all of their file descriptors
/// are there.
proof fn lemma_last_write<F>(frames: Seq<Frame<F>>, writes: Seq<Seq<Chunk<F>>>, k: int) -> (i: int)
    requires
        all_written(frames, writes),
        0 < k <= frames.len(),
    ensures
        0 <= i < joined(writes).len(),
        chunk_bytes(joined(writes).take(i)).len() < stream_bytes(frames.take(k)).len(),
        chunk_fds(joined(writes).take(i + 1)).len() == stream_fds(frames.take(k)).len(),
{
    let head = joined(writes.take(k));
    let last = writes[k - 1];
    assert(written_as(frames[k - 1], last));
    lemma_joined_split(writes, k);
    lemma_joined_split(writes.take(k), k - 1);
    let one = writes.take(k).skip(k - 1);
    assert(one[0] == last && one.drop_first() =~= Seq::empty());
    assert(joined(one.drop_first()) =~= Seq::empty());
    assert(joined(one) =~= last);
    assert(head.last() == last.last());
    assert(all_written(frames.take(k), writes.take(k))) by {
        assert forall|i: int| 0 <= i < k implies written_as(#[trigger] frames.take(k)[i], writes.take(k)[i]) by {
            assert(written_as(frames[i], writes[i]));
        }
    }
    lemma_joined_brings_stream(frames.take(k), writes.take(k));
    let i = head.len() - 1;
    assert(joined(writes).take(i + 1) =~= head);
    assert(joined(writes).take(i) =~= head.drop_last());
    assert(head =~= head.drop_last() + seq![head.last()]);
    lemma_chunks_add(head.drop_last(), seq![head.last()]);
    assert(seq![head.last()].drop_first() =~= Seq::empty());
    assert(chunk_bytes(seq![head.last()].drop_first()) =~= Seq::empty());
    assert(chunk_bytes(seq![head.last()]) =~= head.last().bytes);
    i
}

/// What is written frame by frame is received message by message, in order and with the right
/// file descriptors, however the socket cuts or joins the writes.
pub proof fn law_written_is_received<F>(
    frames: Seq<Frame<F>>,
    writes: Seq<Seq<Chunk<F>>>,
    read: Seq<Chunk<F>>,
)
    requires
        all_valid(frames),
        frames.len() > 0,
        all_written(frames, writes),
        follows(joined(writes), read),
    ensures
        feed(idle(), read) == (Progress {
            state: idle(),
            delivered: contents(frames),
            last: TakenView::<F>::Nothing,
        }),
{
    lemma_joined_brings_stream(frames, writes);
    let written = joined(writes);
    assert(brought_in_order(frames, 0, 0, read)) by {
        assert forall|j: int| 0 <= j <= read.len() implies in_order(
            frames,
            0 + chunk_bytes(#[trigger] read.take(j)).len(),
            0 + chunk_fds(read.take(j)).len(),
        ) by {
            assert forall|k: int|
                0 <= k <= frames.len() && stream_bytes(#[trigger] frames.take(k)).len() <= 0 + chunk_bytes(
                    read.take(j),
                ).len() implies stream_fds(frames.take(k)).len() <= 0 + chunk_fds(read.take(j)).len() by {
                if k > 0 {
                    let i = lemma_last_write(frames, writes, k);
                    assert(written.take(i).len() == i);
                }
            }
        }
    }
    assert(stream_bytes(frames) + Seq::<u8>::empty() =~= stream_bytes(frames));
    law_stream_is_delivered(frames, Seq::empty(), read);
}

/// A message to be sent: its file descriptors, the style of its text, and how many bytes each
/// of its writes takes.
pub struct Sending<F> {
    pub message: MessageView,
    pub fds: Seq<F>,
    pub pretty: bool,
    pub taken: Seq<nat>,
}

impl<F> Sending<F> {
    /// The JSON value that is written.
    pub open spec fn value(self) -> JsonView {
        wire_value(self.message, self.fds.len())->Ok_0
    }

    /// The text that is written.
    pub open spec fn text(self) -> Seq<char> {
        written(self.value(), self.pretty)
    }

    /// The transmission that a sender prepares.
    pub open spec fn transmission(self) -> TransmissionView<F> {
        begun(self.text(), self.fds)
    }

    /// Whether the message is fit to be sent and its transmission is carried out to the end.
    /// That the text holds the value, and that the transmission is in order, is what a sender
    /// ensures of it.
    pub open spec fn carried_out(self) -> bool {
        &&& sendable(self.message)
        &&& self.fds.len() <= usize::MAX
        &&& holds(self.text(), self.value())
        &&& self.transmission().wf()
        &&& carried_out(self.transmission(), self.taken)
    }

    /// The message as it comes across, with its file descriptors.
    pub open spec fn arrival(self) -> (MessageView, Seq<F>) {
        (delivered(self.message.with_fds(fds_field(self.fds.len()))), self.fds)
    }

    spec fn frame(self) -> Frame<F> {
        Frame {
            space: Seq::new(batches_ahead(self.fds.len()), |i: int| 0x20u8),
            bytes: encode_utf8(self.text()),
            value: self.value(),
            message: self.arrival().0,
            fds: self.fds,
        }
    }

    proof fn lemma_frame(self)
        requires
            self.carried_out(),
        ensures
            self.frame().valid(),
            written_as(self.frame(), writes(self.transmission(), self.taken)),
    {
        law_sendable_is_readable(self.message, self.fds.len());
        law_text_is_read_back(self.message, self.fds.len(), self.text());
        let t = self.transmission();
        let chunks = writes(t, self.taken);
        law_transmission_is_complete(t, self.taken);
        assert(t.data.skip(0) =~= t.data);
        assert(t.fds.skip(0) =~= t.fds);
        assert(t.data.len() > 0);
        assert(self.taken.len() > 0);
        assert(chunks[chunks.len() - 1].bytes.len() > 0);
    }
}

/// Messages that are sent one after the other arrive one after the other: each is delivered
/// once, in order, as it was sent and with exactly its own file descriptors, and nothing else
/// is delivered or left over. This holds however many bytes each write takes, however the
/// socket cuts or joins what was written, and in either style of text.
pub proof fn law_conversation_arrives<F>(sendings: Seq<Sending<F>>, read: Seq<Chunk<F>>)
    requires
        sendings.len() > 0,
        forall|i: int| 0 <= i < sendings.len() ==> (#[trigger] sendings[i]).carried_out(),
        follows(
            joined(
                Seq::new(
                    sendings.len(),
                    |i: int| writes(sendings[i].transmission(), sendings[i].taken),
                ),
            ),
            read,
        ),
    ensures
        feed(idle(), read) == (Progress {
            state: idle(),
            delivered: Seq::new(sendings.len(), |i: int| sendings[i].arrival()),
            last: TakenView::<F>::Nothing,
        }),
{
    let frames = Seq::new(sendings.len(), |i: int| sendings[i].frame());
    let all = Seq::new(
        sendings.len(),
        |i: int| writes(sendings[i].transmission(), sendings[i].taken),
    );
    assert forall|i: int| 0 <= i < frames.len() implies (#[trigger] frames[i]).valid() && written_as(
        frames[i],
        all[i],
    ) by {
        assert(sendings[i].carried_out());
        sendings[i].lemma_frame();
    }
    law_written_is_received(frames, all, read);
    assert(contents(frames) =~= Seq::new(sendings.len(), |i: int| sendings[i].arrival()));
}

} // verus!
