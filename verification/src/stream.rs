//! The framed stream: frames, one after another, out of one readiness port.
//!
//! The stream owns the accumulation buffer and the port. It does no I/O. A
//! driver asks it for the next step with [`Framed::poll`], performs the read
//! where a read is asked for, and reports the device's answer with
//! [`Framed::on_read`]. Every step is a function of the stream's state and of
//! that answer, written down as [`poll_spec`] and [`on_read_spec`].

use crate::frame::{
    decode_spec, frame_len, has_terminator, is_frame, lemma_frame_len_bounds,
    lemma_leading_frame_decodes, Decoded, DecodedView, LineCodec,
};
use crate::port::{
    after_attempt, may_attempt, Async, DeviceReply, Fault, Readiness, Serial, SerialView, Transfer,
};
use vstd::prelude::*;
use vstd::slice::slice_subrange;
use vstd::utf8::{decode_utf8, valid_utf8};

verus! {

/// Where the stream stands.
#[derive(Debug, Clone, Copy, PartialEq, Eq, Structural)]
pub enum Phase {
    /// The buffer holds no complete frame: bytes have to come first.
    AwaitingData,
    /// Bytes have come in, or a frame has gone out, since the buffer was last
    /// found to hold no frame.
    HasBytesPendingDecode,
    /// The device stream has ended. Nothing more is produced.
    Closed,
    /// The stream has failed. Nothing more is produced.
    Failed,
}

/// Why a stream failed.
#[derive(Debug, Clone, Copy, PartialEq, Eq, Structural)]
pub enum StreamError {
    /// The bytes up to a terminator were not valid UTF-8.
    InvalidEncoding,
    /// A read failed.
    Io(Fault),
}

/// What the driver of a stream has to do next.
#[derive(Debug, Clone, PartialEq, Eq)]
pub enum Action {
    /// Hand this frame to the consumer.
    Emit(String),
    /// Make one non-blocking read on the device and report it with
    /// [`Framed::on_read`].
    Read,
    /// Yield to the scheduler, and poll again after its wake.
    Suspend,
    /// Tell the consumer that the stream has ended.
    End,
    /// Tell the consumer that the stream has failed.
    Fail(StreamError),
}

/// The mathematical value of an [`Action`].
pub enum ActionView {
    Emit(Seq<char>),
    Read,
    Suspend,
    End,
    Fail(StreamError),
}

impl View for Action {
    type V = ActionView;

    open spec fn view(&self) -> ActionView {
        match *self {
            Action::Emit(text) => ActionView::Emit(text@),
            Action::Read => ActionView::Read,
            Action::Suspend => ActionView::Suspend,
            Action::End => ActionView::End,
            Action::Fail(e) => ActionView::Fail(e),
        }
    }
}

/// A framed stream over one port.
#[derive(Debug)]
pub struct Framed {
    port: Serial,
    codec: LineCodec,
    buf: Vec<u8>,
    phase: Phase,
}

/// The mathematical value of a [`Framed`].
pub struct FramedView {
    /// The port that the stream reads from.
    pub port: SerialView,
    /// The bytes read and not yet handed out, oldest first.
    pub buf: Seq<u8>,
    /// Where the stream stands.
    pub phase: Phase,
}

impl View for Framed {
    type V = FramedView;

    closed spec fn view(&self) -> FramedView {
        FramedView { port: self.port@, buf: self.buf@, phase: self.phase }
    }
}

/// The stream produces nothing more.
pub open spec fn is_over(phase: Phase) -> bool {
    phase is Closed || phase is Failed
}

/// One request for the next item, on a stream in state `s`: the state after
/// it, and what the driver is told.
///
/// A stream that is over stays as it is and says so. Otherwise the front of
/// the buffer is decoded. A frame leaves the buffer and is emitted. Bytes
/// that are no text fail the stream. Without a frame the stream needs bytes:
/// it asks for a read where the port allows one, and suspends where not.
pub open spec fn poll_spec(s: FramedView) -> (FramedView, ActionView) {
    if is_over(s.phase) {
        (s, ActionView::End)
    } else {
        match decode_spec(s.buf) {
            DecodedView::Frame { consumed, text } => (
                FramedView { buf: s.buf.skip(consumed), phase: Phase::HasBytesPendingDecode, ..s },
                ActionView::Emit(text),
            ),
            DecodedView::InvalidEncoding => (
                FramedView { phase: Phase::Failed, ..s },
                ActionView::Fail(StreamError::InvalidEncoding),
            ),
            DecodedView::NoFrame => (
                FramedView { phase: Phase::AwaitingData, ..s },
                if may_attempt(s.port.read) {
                    ActionView::Read
                } else {
                    ActionView::Suspend
                },
            ),
        }
    }
}

/// The answer `reply` of the device to a read into `data`, on a stream in
/// state `s`: the state after it, and what the driver is told.
///
/// A stream that is over ignores it. Otherwise the port settles the attempt.
/// Bytes are appended to the buffer and the stream goes on as for a request.
/// No bytes at all end the stream, and what the buffer held is dropped. A
/// would-block suspends and keeps the buffer. A failure fails the stream.
pub open spec fn on_read_spec(s: FramedView, data: Seq<u8>, reply: DeviceReply) -> (
    FramedView,
    ActionView,
) {
    if is_over(s.phase) {
        (s, ActionView::End)
    } else {
        let port = SerialView { read: after_attempt(s.port.read, reply), ..s.port };
        match reply {
            DeviceReply::Done(n) => if n == 0 {
                (FramedView { port, buf: Seq::empty(), phase: Phase::Closed }, ActionView::End)
            } else {
                poll_spec(
                    FramedView {
                        port,
                        buf: s.buf + data.take(n as int),
                        phase: Phase::HasBytesPendingDecode,
                    },
                )
            },
            DeviceReply::WouldBlock => (FramedView { port, ..s }, ActionView::Suspend),
            DeviceReply::Failed(e) => (
                FramedView { port, phase: Phase::Failed, ..s },
                ActionView::Fail(StreamError::Io(e)),
            ),
        }
    }
}

/// The scheduler's wake on a stream in state `s`: the read direction of the
/// port is ready, and nothing else changes.
pub open spec fn wake_spec(s: FramedView) -> FramedView {
    FramedView { port: SerialView { read: Readiness::Ready, ..s.port }, ..s }
}

/// The state of a stream after `k` requests in a row.
pub open spec fn after_polls(s: FramedView, k: nat) -> FramedView
    decreases k,
{
    if k == 0 {
        s
    } else {
        after_polls(poll_spec(s).0, (k - 1) as nat)
    }
}

/// What the request that follows `k` earlier ones is answered with.
pub open spec fn nth_poll(s: FramedView, k: nat) -> ActionView {
    poll_spec(after_polls(s, k)).1
}

/// The answer asks for more bytes: no frame was there to emit.
pub open spec fn needs_bytes(action: ActionView) -> bool {
    action is Read || action is Suspend
}

/// A state that the stream can be in: while it waits for data the buffer
/// holds no terminator, and once it is closed the buffer is empty.
pub open spec fn well_formed(s: FramedView) -> bool {
    &&& s.phase is AwaitingData ==> !has_terminator(s.buf)
    &&& s.phase is Closed ==> s.buf.len() == 0
}

impl Framed {
    /// A stream over `port`, with an empty buffer, waiting for data.
    pub fn new(port: Serial, codec: LineCodec) -> (stream: Framed)
        ensures
            stream@ == (FramedView {
                port: port@,
                buf: Seq::empty(),
                phase: Phase::AwaitingData,
            }),
            well_formed(stream@),
    {
        assert(!has_terminator(Seq::<u8>::empty()));
        Framed { port, codec, buf: Vec::new(), phase: Phase::AwaitingData }
    }

    /// The port that the stream reads from.
    pub fn port(&self) -> (port: &Serial)
        ensures
            port@ == self@.port,
    {
        &self.port
    }

    /// Where the stream stands.
    pub fn phase(&self) -> (phase: Phase)
        ensures
            phase == self@.phase,
    {
        self.phase
    }

    /// The bytes read and not yet handed out.
    pub fn buffered(&self) -> (bytes: &[u8])
        ensures
            bytes@ == self@.buf,
    {
        self.buf.as_slice()
    }

    /// The scheduler's wake: the device is readable again.
    pub fn on_readable(&mut self)
        ensures
            final(self)@ == wake_spec(old(self)@),
            well_formed(old(self)@) ==> well_formed(final(self)@),
    {
        self.port.set_readable();
    }

    /// The consumer asks for the next item: see [`poll_spec`].
    pub fn poll(&mut self) -> (action: Action)
        ensures
            (final(self)@, action@) == poll_spec(old(self)@),
            well_formed(old(self)@) ==> well_formed(final(self)@),
    {
        if self.phase == Phase::Closed || self.phase == Phase::Failed {
            return Action::End;
        }
        match self.codec.decode(self.buf.as_slice()) {
            Decoded::Frame { consumed, text } => {
                proof {
                    lemma_frame_len_bounds(self.buf@);
                }
                let rest = self.buf.split_off(consumed);
                self.buf = rest;
                self.phase = Phase::HasBytesPendingDecode;
                Action::Emit(text)
            },
            Decoded::InvalidEncoding => {
                self.phase = Phase::Failed;
                Action::Fail(StreamError::InvalidEncoding)
            },
            Decoded::NoFrame => {
                self.phase = Phase::AwaitingData;
                match self.port.poll_read() {
                    Async::Ready => Action::Read,
                    Async::NotReady => Action::Suspend,
                }
            },
        }
    }

    /// The device has answered the read that the stream asked for with
    /// `reply`, and `data` is the region that it read into: see
    /// [`on_read_spec`].
    pub fn on_read(&mut self, data: &[u8], reply: DeviceReply) -> (action: Action)
        requires
            reply matches DeviceReply::Done(n) ==> n <= data@.len(),
        ensures
            (final(self)@, action@) == on_read_spec(old(self)@, data@, reply),
            well_formed(old(self)@) ==> well_formed(final(self)@),
    {
        if self.phase == Phase::Closed || self.phase == Phase::Failed {
            return Action::End;
        }
        match self.port.read(reply) {
            Transfer::Ready(n) => {
                if n == 0 {
                    self.buf.clear();
                    self.phase = Phase::Closed;
                    Action::End
                } else {
                    self.buf.extend_from_slice(slice_subrange(data, 0, n));
                    self.phase = Phase::HasBytesPendingDecode;
                    assert(self.buf@ == old(self).buf@ + data@.take(n as int));
                    self.poll()
                }
            },
            Transfer::WouldSuspend => Action::Suspend,
            Transfer::Failed(e) => {
                self.phase = Phase::Failed;
                Action::Fail(StreamError::Io(e))
            },
        }
    }
}

/// Every step keeps a well-formed stream well-formed.
pub proof fn lemma_steps_keep_well_formed(s: FramedView, data: Seq<u8>, reply: DeviceReply)
    requires
        well_formed(s),
    ensures
        well_formed(poll_spec(s).0),
        well_formed(on_read_spec(s, data, reply).0),
        well_formed(wake_spec(s)),
{
}

/// A stream that is over stays as it is: every request is answered with the
/// end, and every report of a read is ignored.
pub proof fn lemma_over_is_final(s: FramedView, k: nat, data: Seq<u8>, reply: DeviceReply)
    requires
        is_over(s.phase),
    ensures
        after_polls(s, k) == s,
        nth_poll(s, k) == ActionView::End,
        on_read_spec(s, data, reply) == (s, ActionView::End),
        is_over(wake_spec(s).phase),
    decreases k,
{
    if k > 0 {
        lemma_over_is_final(s, (k - 1) as nat, data, reply);
    }
}

/// Whole frames at the front of the buffer come out one by one and in their
/// order, none lost and none twice. Once they are out the buffer is empty
/// and the next request asks for bytes.
pub proof fn lemma_frames_come_out_in_order(s: FramedView, frames: Seq<Seq<u8>>)
    requires
        !is_over(s.phase),
        s.buf == frames.flatten(),
        forall|i: int| 0 <= i < frames.len() ==> is_frame(#[trigger] frames[i]),
    ensures
        forall|i: nat|
            i < frames.len() ==> #[trigger] nth_poll(s, i) == ActionView::Emit(
                decode_utf8(frames[i as int]),
            ),
        after_polls(s, frames.len()).buf == Seq::<u8>::empty(),
        after_polls(s, frames.len()).port == s.port,
        !is_over(after_polls(s, frames.len()).phase),
        needs_bytes(nth_poll(s, frames.len())),
    decreases frames.len(),
{
    if frames.len() == 0 {
        assert(!has_terminator(Seq::<u8>::empty()));
    } else {
        let rest = frames.drop_first();
        let next = poll_spec(s).0;
        lemma_leading_frame_decodes(frames[0], rest.flatten());
        assert(next.buf == rest.flatten());
        assert forall|i: int| 0 <= i < rest.len() implies is_frame(#[trigger] rest[i]) by {
            assert(rest[i] == frames[i + 1]);
        }
        lemma_frames_come_out_in_order(next, rest);
        assert forall|i: nat| i < frames.len() implies #[trigger] nth_poll(s, i)
            == ActionView::Emit(decode_utf8(frames[i as int])) by {
            if i > 0 {
                assert(after_polls(s, i) == after_polls(next, (i - 1) as nat));
                assert(nth_poll(s, i) == nth_poll(next, (i - 1) as nat));
                assert(rest[i - 1] == frames[i as int]);
            }
        }
        assert(after_polls(s, frames.len()) == after_polls(next, rest.len()));
    }
}

/// Whole frames that one read delivers into an empty buffer are all emitted,
/// in their order: the first as the answer to the report of the read, each
/// further one at the next request. After the last the buffer is empty and
/// the stream asks for bytes.
pub proof fn lemma_one_read_of_whole_frames(s: FramedView, data: Seq<u8>, frames: Seq<Seq<u8>>)
    requires
        !is_over(s.phase),
        s.buf.len() == 0,
        frames.len() > 0,
        data == frames.flatten(),
        data.len() <= usize::MAX,
        forall|i: int| 0 <= i < frames.len() ==> is_frame(#[trigger] frames[i]),
    ensures
        ({
            let (first, action) = on_read_spec(s, data, DeviceReply::Done(data.len() as usize));
            let last = after_polls(first, (frames.len() - 1) as nat);
            &&& action == ActionView::Emit(decode_utf8(frames[0]))
            &&& forall|j: nat|
                j + 1 < frames.len() ==> #[trigger] nth_poll(first, j) == ActionView::Emit(
                    decode_utf8(frames[j + 1 as int]),
                )
            &&& last.buf == Seq::<u8>::empty()
            &&& needs_bytes(poll_spec(last).1)
        }),
{
    assert(data.len() > 0) by {
        assert(is_frame(frames[0]));
        assert(data == frames[0] + frames.drop_first().flatten());
    }
    let start = FramedView {
        port: s.port,
        buf: s.buf + data.take(data.len() as int),
        phase: Phase::HasBytesPendingDecode,
    };
    assert(start.buf =~= data);
    assert(on_read_spec(s, data, DeviceReply::Done(data.len() as usize)) == poll_spec(start));
    lemma_frames_come_out_in_order(start, frames);
    let first = poll_spec(start).0;
    assert(nth_poll(start, 0) == poll_spec(start).1);
    assert forall|j: nat| j + 1 < frames.len() implies #[trigger] nth_poll(first, j)
        == ActionView::Emit(decode_utf8(frames[j + 1 as int])) by {
        assert(after_polls(start, j + 1) == after_polls(first, j));
        assert(nth_poll(start, j + 1) == nth_poll(first, j));
    }
    assert(after_polls(start, frames.len()) == after_polls(first, (frames.len() - 1) as nat));
}

/// The start of a frame, as long as its terminator has not come, is never
/// emitted: the stream keeps it and asks for bytes. Once the rest has been
/// read the whole frame is emitted as one, and nothing is left.
pub proof fn lemma_split_frame_completes(s: FramedView, head: Seq<u8>, tail: Seq<u8>)
    requires
        !is_over(s.phase),
        s.buf == head,
        !has_terminator(head),
        is_frame(head + tail),
        tail.len() <= usize::MAX,
    ensures
        ({
            let (waiting, asked) = poll_spec(s);
            let (done, action) = on_read_spec(
                waiting,
                tail,
                DeviceReply::Done(tail.len() as usize),
            );
            &&& decode_spec(head) == DecodedView::NoFrame
            &&& needs_bytes(asked)
            &&& waiting == (FramedView { phase: Phase::AwaitingData, ..s })
            &&& action == ActionView::Emit(decode_utf8(head + tail))
            &&& done.buf == Seq::<u8>::empty()
            &&& needs_bytes(poll_spec(done).1)
        }),
{
    let whole = head + tail;
    if tail.len() == 0 {
        assert(whole =~= head);
    }
    assert(tail.take(tail.len() as int) =~= tail);
    lemma_leading_frame_decodes(whole, Seq::<u8>::empty());
    assert(whole + Seq::<u8>::empty() =~= whole);
    assert(!has_terminator(Seq::<u8>::empty()));
}

/// Bytes before a terminator that are no text fail the stream at once, and
/// for good: whatever else the buffer holds and whatever is read later, every
/// further request is answered with the end.
pub proof fn lemma_invalid_bytes_end_the_stream(
    s: FramedView,
    k: nat,
    data: Seq<u8>,
    reply: DeviceReply,
)
    requires
        !is_over(s.phase),
        has_terminator(s.buf),
        !valid_utf8(s.buf.take(frame_len(s.buf))),
    ensures
        poll_spec(s) == (
            FramedView { phase: Phase::Failed, ..s },
            ActionView::Fail(StreamError::InvalidEncoding),
        ),
        nth_poll(poll_spec(s).0, k) == ActionView::End,
        on_read_spec(poll_spec(s).0, data, reply) == (poll_spec(s).0, ActionView::End),
{
    lemma_over_is_final(poll_spec(s).0, k, data, reply);
}

/// When the device stream ends the stream ends with it. What the buffer
/// held is dropped, not emitted, and every further request is answered with
/// the end.
pub proof fn lemma_end_of_device_stream(s: FramedView, data: Seq<u8>, k: nat)
    requires
        !is_over(s.phase),
    ensures
        on_read_spec(s, data, DeviceReply::Done(0)) == (
            FramedView { port: s.port, buf: Seq::empty(), phase: Phase::Closed },
            ActionView::End,
        ),
        nth_poll(on_read_spec(s, data, DeviceReply::Done(0)).0, k) == ActionView::End,
{
    lemma_over_is_final(on_read_spec(s, data, DeviceReply::Done(0)).0, k, data, DeviceReply::Done(0));
}

/// A failed read fails the stream for good: the failure is handed on once,
/// and every further request is answered with the end.
pub proof fn lemma_read_failure_ends_the_stream(s: FramedView, data: Seq<u8>, e: Fault, k: nat)
    requires
        !is_over(s.phase),
    ensures
        on_read_spec(s, data, DeviceReply::Failed(e)) == (
            FramedView { phase: Phase::Failed, ..s },
            ActionView::Fail(StreamError::Io(e)),
        ),
        nth_poll(on_read_spec(s, data, DeviceReply::Failed(e)).0, k) == ActionView::End,
{
    lemma_over_is_final(
        on_read_spec(s, data, DeviceReply::Failed(e)).0,
        k,
        data,
        DeviceReply::Failed(e),
    );
}

/// While the read direction waits for the scheduler, no step asks for a
/// read and no step lets the port forget that it waits.
pub proof fn lemma_waiting_port_is_not_read(s: FramedView, data: Seq<u8>, reply: DeviceReply)
    requires
        s.port.read is Pending,
    ensures
        !(poll_spec(s).1 is Read),
        poll_spec(s).0.port == s.port,
        !(on_read_spec(s, data, reply).1 is Read),
        on_read_spec(s, data, reply).0.port == s.port,
{
}

/// A read that would block suspends the stream and loses nothing: the
/// buffer stays as it was. From then on the stream asks for no read, however
/// often it is polled, until the scheduler's wake has come.
pub proof fn lemma_no_read_before_wake(s: FramedView, data: Seq<u8>, k: nat)
    requires
        !is_over(s.phase),
    ensures
        ({
            let (blocked, action) = on_read_spec(s, data, DeviceReply::WouldBlock);
            &&& action == ActionView::Suspend
            &&& blocked == (FramedView {
                port: SerialView { read: Readiness::Pending, ..s.port },
                ..s
            })
            &&& !(nth_poll(blocked, k) is Read)
            &&& after_polls(blocked, k).port == blocked.port
        }),
{
    lemma_polls_keep_waiting(on_read_spec(s, data, DeviceReply::WouldBlock).0, k);
}

/// Requests in a row on a stream whose read direction waits for the
/// scheduler: none asks for a read, and the port stays as it is.
pub proof fn lemma_polls_keep_waiting(s: FramedView, k: nat)
    requires
        s.port.read is Pending,
    ensures
        !(nth_poll(s, k) is Read),
        after_polls(s, k).port == s.port,
    decreases k,
{
    if k > 0 {
        lemma_polls_keep_waiting(poll_spec(s).0, (k - 1) as nat);
    }
}

/// After the scheduler's wake a stream that has no frame to emit asks for a
/// read again.
pub proof fn lemma_wake_allows_read(s: FramedView)
    requires
        !is_over(s.phase),
        !has_terminator(s.buf),
    ensures
        poll_spec(wake_spec(s)).1 == ActionView::Read,
{
}

} // verus!
