//! The receiving side of a connection: bytes and descriptors as they arrive,
//! and the frames that can be taken from them.

use crate::client::CompositorClientState;
use crate::dispatch::{dispatch, skip_reason, Skipped};
use crate::error::ProtocolError;
use crate::globals::{CompositorGlobalState, Global};
use crate::wire::{frame_of, message_of, u16_at, Message, MessageView, HEADER_LEN, MAX_ARGS_LEN};
use crate::wire::lemma_decode_encode;
use std::collections::VecDeque;
use vstd::prelude::*;

verus! {

/// The length that the header at the front of `data` declares.
pub open spec fn declared_len(data: Seq<u8>) -> int
    recommends
        data.len() >= HEADER_LEN,
{
    u16_at(data, 6) as int
}

/// Whether a whole frame stands at the front of `data`.
pub open spec fn frame_ready(data: Seq<u8>) -> bool {
    data.len() >= HEADER_LEN && HEADER_LEN <= declared_len(data) <= data.len()
}

/// Whether the header at the front of `data` declares less than a header.
pub open spec fn frame_malformed(data: Seq<u8>) -> bool {
    data.len() >= HEADER_LEN && declared_len(data) < HEADER_LEN
}

/// The message of the frame at the front of `data`.
pub open spec fn first_frame(data: Seq<u8>) -> MessageView
    recommends
        frame_ready(data),
{
    message_of(data.subrange(0, declared_len(data)))
}

/// What follows the frame at the front of `data`.
pub open spec fn after_first(data: Seq<u8>) -> Seq<u8>
    recommends
        frame_ready(data),
{
    data.subrange(declared_len(data), data.len() as int)
}

/// The messages of the whole frames at the front of `data`, in order, up to
/// the first frame that is not whole or not well formed.
pub open spec fn frames_of(data: Seq<u8>) -> Seq<MessageView>
    decreases data.len(),
{
    if frame_ready(data) {
        seq![first_frame(data)] + frames_of(after_first(data))
    } else {
        Seq::empty()
    }
}

/// What is left of `data` once the whole frames at its front are taken.
pub open spec fn residue_of(data: Seq<u8>) -> Seq<u8>
    decreases data.len(),
{
    if frame_ready(data) {
        residue_of(after_first(data))
    } else {
        data
    }
}

/// The frames of `messages`, one after the other.
pub open spec fn stream_of(messages: Seq<MessageView>) -> Seq<u8>
    decreases messages.len(),
{
    if messages.len() == 0 {
        Seq::empty()
    } else {
        frame_of(messages[0]) + stream_of(messages.subrange(1, messages.len() as int))
    }
}

/// The messages taken when `chunks` arrive one after the other and the whole
/// frames are taken after each arrival, starting with `data` left over.
pub open spec fn frames_by_chunk(data: Seq<u8>, chunks: Seq<Seq<u8>>) -> Seq<MessageView>
    decreases chunks.len(),
{
    if chunks.len() == 0 {
        Seq::empty()
    } else {
        frames_of(data + chunks[0]) + frames_by_chunk(
            residue_of(data + chunks[0]),
            chunks.subrange(1, chunks.len() as int),
        )
    }
}

/// The bytes of `chunks`, one chunk after the other.
pub open spec fn joined(chunks: Seq<Seq<u8>>) -> Seq<u8>
    decreases chunks.len(),
{
    if chunks.len() == 0 {
        Seq::empty()
    } else {
        chunks[0] + joined(chunks.subrange(1, chunks.len() as int))
    }
}

/// Taking frames from `a`, then from what is left with `b` behind it, gives
/// the frames of `a` and `b` received as one, and leaves the same bytes.
pub proof fn lemma_frames_split(a: Seq<u8>, b: Seq<u8>)
    ensures
        frames_of(a + b) == frames_of(a) + frames_of(residue_of(a) + b),
        residue_of(a + b) == residue_of(residue_of(a) + b),
    decreases a.len(),
{
    if frame_ready(a) {
        let whole = a + b;
        assert(whole[6] == a[6] && whole[7] == a[7]);
        assert(declared_len(whole) == declared_len(a));
        assert(whole.subrange(0, declared_len(a)) =~= a.subrange(0, declared_len(a)));
        assert(after_first(whole) =~= after_first(a) + b);
        lemma_frames_split(after_first(a), b);
        assert(frames_of(whole) =~= frames_of(a) + frames_of(residue_of(a) + b));
    } else {
        assert(frames_of(a) + frames_of(a + b) =~= frames_of(a + b));
    }
}

/// However a stream of bytes is cut into chunks, the frames taken chunk by
/// chunk are the frames of the stream received as one. `data` is what an
/// earlier arrival left over, so it holds no whole frame.
pub proof fn lemma_frames_by_chunk(data: Seq<u8>, chunks: Seq<Seq<u8>>)
    requires
        !frame_ready(data),
    ensures
        frames_by_chunk(data, chunks) == frames_of(data + joined(chunks)),
    decreases chunks.len(),
{
    if chunks.len() == 0 {
        assert(data + joined(chunks) =~= data);
    } else {
        let rest = chunks.subrange(1, chunks.len() as int);
        lemma_residue_holds_no_frame(data + chunks[0]);
        lemma_frames_by_chunk(residue_of(data + chunks[0]), rest);
        lemma_frames_split(data + chunks[0], joined(rest));
        assert((data + chunks[0]) + joined(rest) =~= data + joined(chunks));
    }
}

/// Nothing more can be taken from what is left after all whole frames were
/// taken.
pub proof fn lemma_residue_holds_no_frame(data: Seq<u8>)
    ensures
        !frame_ready(residue_of(data)),
        frames_of(residue_of(data)) == Seq::<MessageView>::empty(),
    decreases data.len(),
{
    if frame_ready(data) {
        lemma_residue_holds_no_frame(after_first(data));
    }
}

/// The frames of encoded messages are the messages, with nothing left
/// over, whatever is received behind them counted apart.
pub proof fn lemma_frames_of_stream(messages: Seq<MessageView>, rest: Seq<u8>)
    requires
        forall|i: int| 0 <= i < messages.len() ==> (#[trigger] messages[i]).args.len() <= MAX_ARGS_LEN,
    ensures
        frames_of(stream_of(messages) + rest) == messages + frames_of(rest),
        residue_of(stream_of(messages) + rest) == residue_of(rest),
    decreases messages.len(),
{
    if messages.len() == 0 {
        assert(stream_of(messages) + rest =~= rest);
        assert(messages + frames_of(rest) =~= frames_of(rest));
    } else {
        let first = messages[0];
        let tail = messages.subrange(1, messages.len() as int);
        let frame = frame_of(first);
        let behind = stream_of(tail) + rest;
        let data = stream_of(messages) + rest;
        assert(data =~= frame + behind);
        lemma_first_of_stream(first, behind);
        assert forall|i: int| 0 <= i < tail.len() implies (#[trigger] tail[i]).args.len()
            <= MAX_ARGS_LEN by {
            assert(tail[i] == messages[i + 1]);
        }
        lemma_frames_of_stream(tail, rest);
        assert(seq![first] + (tail + frames_of(rest)) =~= messages + frames_of(rest));
    }
}

/// An encoded message at the front of a stream is a whole frame there: it
/// is taken as the message, and what stood behind it is left.
pub proof fn lemma_first_of_stream(message: MessageView, behind: Seq<u8>)
    requires
        message.args.len() <= MAX_ARGS_LEN,
    ensures
        frame_ready(frame_of(message) + behind),
        first_frame(frame_of(message) + behind) == message,
        after_first(frame_of(message) + behind) == behind,
{
    let frame = frame_of(message);
    let data = frame + behind;
    lemma_decode_encode(message);
    assert(data[6] == frame[6] && data[7] == frame[7]);
    assert(declared_len(data) == frame.len());
    assert(data.subrange(0, declared_len(data)) =~= frame);
    assert(after_first(data) =~= behind);
}

/// Framing is self-delimiting: however the frames of `messages` are cut into
/// chunks on their way, taking whole frames after each chunk yields exactly
/// `messages`, in order.
pub proof fn lemma_framing_self_delimiting(messages: Seq<MessageView>, chunks: Seq<Seq<u8>>)
    requires
        forall|i: int| 0 <= i < messages.len() ==> (#[trigger] messages[i]).args.len() <= MAX_ARGS_LEN,
        joined(chunks) == stream_of(messages),
    ensures
        frames_by_chunk(Seq::empty(), chunks) == messages,
{
    lemma_frames_by_chunk(Seq::empty(), chunks);
    lemma_frames_of_stream(messages, Seq::empty());
    assert(Seq::<u8>::empty() + joined(chunks) =~= stream_of(messages) + Seq::<u8>::empty());
    assert(messages + frames_of(Seq::<u8>::empty()) =~= messages);
}

/// The messages of a list as values of the model.
pub open spec fn messages_view(messages: Seq<Message>) -> Seq<MessageView> {
    Seq::new(messages.len(), |i: int| messages[i]@)
}

/// The receiving side of a connection as a value of the model.
pub struct ReceiverView {
    /// The bytes received and not yet taken as frames.
    pub data: Seq<u8>,
    /// The descriptors received and not yet taken by a request, oldest first.
    pub fds: Seq<i32>,
    /// How many descriptors may wait at most.
    pub fd_limit: nat,
}

/// The receiving side of a connection.
pub struct Receiver {
    data: VecDeque<u8>,
    pending_fds: VecDeque<i32>,
    fd_limit: usize,
}

impl View for Receiver {
    type V = ReceiverView;

    closed spec fn view(&self) -> ReceiverView {
        ReceiverView {
            data: self.data@,
            fds: self.pending_fds@,
            fd_limit: self.fd_limit as nat,
        }
    }
}

/// What one read from the socket means: nothing at all is the end of the
/// stream (`PeerClosed`); more descriptors than may wait is a
/// `ProtocolViolation`; otherwise bytes and descriptors join their queues.
pub open spec fn received(pre: ReceiverView, bytes: Seq<u8>, fds: Seq<i32>) -> (
    ReceiverView,
    Result<(), ProtocolError>,
) {
    if bytes.len() == 0 && fds.len() == 0 {
        (pre, Err(ProtocolError::PeerClosed))
    } else if pre.fds.len() + fds.len() > pre.fd_limit {
        (pre, Err(ProtocolError::ProtocolViolation))
    } else {
        (ReceiverView { data: pre.data + bytes, fds: pre.fds + fds, ..pre }, Ok(()))
    }
}

impl Receiver {
    /// A receiver with empty queues that lets at most `fd_limit` descriptors
    /// wait.
    pub fn new(fd_limit: usize) -> (receiver: Receiver)
        ensures
            receiver@ == (ReceiverView {
                data: Seq::empty(),
                fds: Seq::empty(),
                fd_limit: fd_limit as nat,
            }),
    {
        Receiver { data: VecDeque::new(), pending_fds: VecDeque::new(), fd_limit }
    }

    /// How many bytes wait to be taken as frames.
    pub fn pending_bytes(&self) -> (count: usize)
        ensures
            count == self@.data.len(),
    {
        self.data.len()
    }

    /// How many descriptors wait for a request.
    pub fn pending_fd_count(&self) -> (count: usize)
        ensures
            count == self@.fds.len(),
    {
        self.pending_fds.len()
    }

    /// Takes in what one read from the socket returned.
    pub fn receive(&mut self, bytes: &[u8], fds: &[i32]) -> (result: Result<(), ProtocolError>)
        ensures
            final(self)@ == received(old(self)@, bytes@, fds@).0,
            result == received(old(self)@, bytes@, fds@).1,
    {
        if bytes.len() == 0 && fds.len() == 0 {
            return Err(ProtocolError::PeerClosed);
        }
        let waiting: usize = self.pending_fds.len();
        if waiting > self.fd_limit || fds.len() > self.fd_limit - waiting {
            return Err(ProtocolError::ProtocolViolation);
        }
        let mut i: usize = 0;
        while i < bytes.len()
            invariant
                i <= bytes@.len(),
                self.data@ == old(self).data@ + bytes@.subrange(0, i as int),
                self.pending_fds@ == old(self).pending_fds@,
                self.fd_limit == old(self).fd_limit,
            decreases bytes@.len() - i,
        {
            self.data.push_back(bytes[i]);
            i += 1;
            assert(self.data@ =~= old(self).data@ + bytes@.subrange(0, i as int));
        }
        assert(bytes@.subrange(0, i as int) =~= bytes@);
        let mut j: usize = 0;
        while j < fds.len()
            invariant
                j <= fds@.len(),
                self.data@ == old(self).data@ + bytes@,
                self.pending_fds@ == old(self).pending_fds@ + fds@.subrange(0, j as int),
                self.fd_limit == old(self).fd_limit,
            decreases fds@.len() - j,
        {
            self.pending_fds.push_back(fds[j]);
            j += 1;
            assert(self.pending_fds@ =~= old(self).pending_fds@ + fds@.subrange(0, j as int));
        }
        assert(fds@.subrange(0, j as int) =~= fds@);
        Ok(())
    }

    /// Takes the frame at the front of the byte queue, if a whole one is
    /// there. A header that declares less than a header is a
    /// `MalformedFrame`, and the queue stays as it is.
    pub fn next_frame(&mut self) -> (frame: Result<Option<Message>, ProtocolError>)
        ensures
            match frame {
                Ok(Some(message)) => frame_ready(old(self)@.data) && message@ == first_frame(
                    old(self)@.data,
                ) && final(self)@ == (ReceiverView {
                    data: after_first(old(self)@.data),
                    ..old(self)@
                }),
                Ok(None) => !frame_ready(old(self)@.data) && !frame_malformed(old(self)@.data)
                    && final(self)@ == old(self)@,
                Err(e) => frame_malformed(old(self)@.data) && e == ProtocolError::MalformedFrame
                    && final(self)@ == old(self)@,
            },
    {
        if self.data.len() < HEADER_LEN {
            return Ok(None);
        }
        let length: usize = self.data[6] as usize + self.data[7] as usize * 256;
        if length < HEADER_LEN {
            return Err(ProtocolError::MalformedFrame);
        }
        if self.data.len() < length {
            return Ok(None);
        }
        let ghost whole = self.data@;
        let mut frame: Vec<u8> = Vec::new();
        let mut i: usize = 0;
        while i < length
            invariant
                i <= length <= whole.len(),
                whole == old(self).data@,
                frame@ == whole.subrange(0, i as int),
                self.data@ == whole.subrange(i as int, whole.len() as int),
                self.pending_fds@ == old(self).pending_fds@,
                self.fd_limit == old(self).fd_limit,
            decreases length - i,
        {
            let byte = self.data.pop_front().unwrap();
            frame.push(byte);
            i += 1;
            assert(frame@ =~= whole.subrange(0, i as int));
            assert(self.data@ =~= whole.subrange(i as int, whole.len() as int));
        }
        assert(frame@[6] == whole[6] && frame@[7] == whole[7]);
        let decoded = Message::decode(frame.as_slice());
        match decoded {
            Ok(message) => Ok(Some(message)),
            Err(e) => {
                assert(false);
                Err(e)
            },
        }
    }

    /// Takes every whole frame from the byte queue and hands them out in
    /// order. Where the frames end at a header that declares less than a
    /// header, the frames before it are handed out all the same, and the
    /// fault is `MalformedFrame`.
    pub fn drain_frames(&mut self) -> (drained: (Vec<Message>, Result<(), ProtocolError>))
        ensures
            final(self)@ == (ReceiverView { data: residue_of(old(self)@.data), ..old(self)@ }),
            messages_view(drained.0@) == frames_of(old(self)@.data),
            drained.1 == (if frame_malformed(residue_of(old(self)@.data)) {
                Err::<(), ProtocolError>(ProtocolError::MalformedFrame)
            } else {
                Ok::<(), ProtocolError>(())
            }),
    {
        let mut messages: Vec<Message> = Vec::new();
        assert(messages_view(messages@) + frames_of(self.data@) =~= frames_of(self.data@));
        loop
            invariant
                self.pending_fds@ == old(self).pending_fds@,
                self.fd_limit == old(self).fd_limit,
                frames_of(old(self).data@) == messages_view(messages@) + frames_of(self.data@),
                residue_of(old(self).data@) == residue_of(self.data@),
            decreases self.data@.len(),
        {
            let ghost before = self.data@;
            let ghost taken = messages@;
            match self.next_frame() {
                Err(e) => {
                    assert(messages_view(messages@) + frames_of(before) =~= messages_view(
                        messages@,
                    ));
                    return (messages, Err(e));
                },
                Ok(None) => {
                    assert(messages_view(messages@) + frames_of(before) =~= messages_view(
                        messages@,
                    ));
                    return (messages, Ok(()));
                },
                Ok(Some(message)) => {
                    messages.push(message);
                    assert(messages_view(messages@) =~= messages_view(taken).push(message@));
                    assert(messages_view(messages@) + frames_of(self.data@) =~= messages_view(
                        taken,
                    ) + frames_of(before));
                },
            }
        }
    }

    /// Takes the frame at the front of the byte queue and handles its
    /// request for `client`. Tells whether there was a whole frame to take
    /// and whether its request was passed over, or which fault ends the
    /// connection, and on which object.
    pub fn dispatch_next(
        &mut self,
        client: &mut CompositorClientState,
        global_state: &CompositorGlobalState,
    ) -> (handled: Result<Progress, Fault>)
        requires
            old(client).wf(),
        ensures
            final(client).wf(),
            (DispatchStep { receiver: final(self)@, client: final(client)@, handled })
                == dispatched(old(self)@, old(client)@, global_state.globals@),
    {
        let message = match self.next_frame() {
            Err(error) => {
                return Err(Fault { object_id: 1, error });
            },
            Ok(None) => {
                return Ok(Progress::Idle);
            },
            Ok(Some(message)) => message,
        };
        let skipped = client.skipped(
            message.object_id,
            message.op_code,
            message.args.as_slice(),
            global_state,
        );
        match client.handle_message(
            message.object_id,
            message.op_code,
            message.args.as_slice(),
            &mut self.pending_fds,
            global_state,
        ) {
            Err(error) => Err(Fault { object_id: message.object_id, error }),
            Ok(()) => Ok(Progress::Handled(skipped)),
        }
    }
}

/// What became of the front of the byte queue.
#[derive(Clone, Copy, Debug, PartialEq, Eq, Structural)]
pub enum Progress {
    /// No whole frame has arrived yet.
    Idle,
    /// One request was handled; where it was passed over, the reason.
    Handled(Option<Skipped>),
}

/// The fault that ends a connection, and the object on which it arose. A
/// frame that cannot be taken apart is laid to the display.
#[derive(Clone, Copy, Debug, PartialEq, Eq, Structural)]
pub struct Fault {
    pub object_id: u32,
    pub error: ProtocolError,
}

/// What `dispatch_next` leaves behind.
pub struct DispatchStep {
    pub receiver: ReceiverView,
    pub client: crate::client::ClientView,
    pub handled: Result<Progress, Fault>,
}

/// Taking one frame and handling its request: without a whole frame nothing
/// happens; a malformed header is a `MalformedFrame` laid to the display;
/// otherwise the frame leaves the queue and its request is dispatched, and
/// a fault of the request is laid to its target.
pub open spec fn dispatched(
    receiver: ReceiverView,
    client: crate::client::ClientView,
    globals: Seq<Global>,
) -> DispatchStep {
    if frame_malformed(receiver.data) {
        DispatchStep {
            receiver,
            client,
            handled: Err(Fault { object_id: 1, error: ProtocolError::MalformedFrame }),
        }
    } else if !frame_ready(receiver.data) {
        DispatchStep { receiver, client, handled: Ok(Progress::Idle) }
    } else {
        let message = first_frame(receiver.data);
        let step = dispatch(
            client,
            receiver.fds,
            globals,
            message.object_id,
            message.op_code,
            message.args,
        );
        DispatchStep {
            receiver: ReceiverView {
                data: after_first(receiver.data),
                fds: step.fds,
                fd_limit: receiver.fd_limit,
            },
            client: step.state,
            handled: match step.result {
                Ok(()) => Ok(
                    Progress::Handled(
                        skip_reason(
                            client,
                            globals,
                            message.object_id,
                            message.op_code,
                            message.args,
                        ),
                    ),
                ),
                Err(error) => Err(Fault { object_id: message.object_id, error }),
            },
        }
    }
}

} // verus!
