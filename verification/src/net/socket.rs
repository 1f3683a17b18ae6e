//! Message framing over a stream, with an outbound queue ordered by
//! priority.
//!
//! On the wire a message is its length, as four bytes with the most
//! significant first, followed by that many payload bytes. A payload holds
//! at most `MAX_PAYLOAD_SIZE` bytes.

use vstd::prelude::*;
use crate::common::EventSet;

verus! {

/// The class of an outbound message. Lower values are sent first.
pub type Priority = u8;

/// The priority of system messages, the highest there is. Messages of this
/// priority are queued whatever the queue already holds.
pub const SYSTEM_PRIORITY: Priority = 0;

/// The largest payload a frame can carry: 2 MiB.
pub const MAX_PAYLOAD_SIZE: usize = 2 * 1024 * 1024;

/// The number of bytes of a frame that come before its payload.
pub const HEADER_SIZE: usize = 4;

/// Why a socket refused to do something.
#[derive(Clone, Copy, Debug, PartialEq, Eq, Structural)]
pub enum SocketError {
    /// The payload is longer than `MAX_PAYLOAD_SIZE`.
    PayloadTooLarge,
    /// The outbound queue is over its high-water mark.
    WouldBlock,
}

/// The four bytes that stand for `n`, most significant first.
#[verifier::opaque]
pub open spec fn u32_to_be(n: u32) -> Seq<u8> {
    seq![
        (n / 0x100_0000) as u8,
        ((n / 0x1_0000) % 0x100) as u8,
        ((n / 0x100) % 0x100) as u8,
        (n % 0x100) as u8,
    ]
}

/// The number that the first four bytes of `bytes` stand for, most
/// significant first.
#[verifier::opaque]
pub open spec fn u32_from_be(bytes: Seq<u8>) -> nat
    recommends
        bytes.len() >= 4,
{
    (bytes[0] * 0x100_0000 + bytes[1] * 0x1_0000 + bytes[2] * 0x100 + bytes[3]) as nat
}

/// The frame that carries `payload`.
pub open spec fn spec_encode(payload: Seq<u8>) -> Seq<u8>
    recommends
        payload.len() <= MAX_PAYLOAD_SIZE,
{
    u32_to_be(payload.len() as u32) + payload
}

/// What the start of a byte stream holds.
pub enum Decoded {
    /// Not yet a whole frame: more bytes are needed.
    Incomplete,
    /// A frame with this payload, which takes up the first `consumed` bytes.
    Frame { payload: Seq<u8>, consumed: nat },
    /// A header that announces more than `MAX_PAYLOAD_SIZE` bytes.
    TooLarge,
}

/// What the start of `stream` holds.
pub open spec fn spec_decode(stream: Seq<u8>) -> Decoded {
    if stream.len() < HEADER_SIZE {
        Decoded::Incomplete
    } else if u32_from_be(stream) > MAX_PAYLOAD_SIZE {
        Decoded::TooLarge
    } else if stream.len() < HEADER_SIZE + u32_from_be(stream) {
        Decoded::Incomplete
    } else {
        Decoded::Frame {
            payload: stream.subrange(HEADER_SIZE as int, HEADER_SIZE + u32_from_be(stream)),
            consumed: HEADER_SIZE as nat + u32_from_be(stream),
        }
    }
}

/// Reading back the four bytes of a number gives the number.
pub proof fn lemma_u32_be_round_trip(n: u32)
    ensures
        u32_to_be(n).len() == 4,
        u32_from_be(u32_to_be(n)) == n,
{
    reveal(u32_to_be);
    reveal(u32_from_be);
    let b0 = n / 0x100_0000;
    let b1 = (n / 0x1_0000) % 0x100;
    let b2 = (n / 0x100) % 0x100;
    let b3 = n % 0x100;
    assert(b0 < 0x100 && b1 < 0x100 && b2 < 0x100 && b3 < 0x100) by (bit_vector)
        requires
            b0 == n / 0x100_0000,
            b1 == (n / 0x1_0000) % 0x100,
            b2 == (n / 0x100) % 0x100,
            b3 == n % 0x100,
    ;
    assert(b0 * 0x100_0000 + b1 * 0x1_0000 + b2 * 0x100 + b3 == n) by (bit_vector)
        requires
            b0 == n / 0x100_0000,
            b1 == (n / 0x1_0000) % 0x100,
            b2 == (n / 0x100) % 0x100,
            b3 == n % 0x100,
    ;
}

/// The number a stream starts with is read off its first four bytes alone.
pub proof fn lemma_u32_from_be_reads_header(header: Seq<u8>, rest: Seq<u8>)
    requires
        header.len() >= 4,
    ensures
        u32_from_be(header + rest) == u32_from_be(header),
{
    reveal(u32_from_be);
    let stream = header + rest;
    assert(stream[0] == header[0]);
    assert(stream[1] == header[1]);
    assert(stream[2] == header[2]);
    assert(stream[3] == header[3]);
}

/// A frame decodes to the payload it was made from, whatever follows it in
/// the stream, and takes up the header and the payload.
pub proof fn lemma_frame_round_trip(payload: Seq<u8>, rest: Seq<u8>)
    requires
        payload.len() <= MAX_PAYLOAD_SIZE,
    ensures
        spec_decode(spec_encode(payload) + rest) == (Decoded::Frame {
            payload,
            consumed: (HEADER_SIZE + payload.len()) as nat,
        }),
{
    let header = u32_to_be(payload.len() as u32);
    let stream = spec_encode(payload) + rest;
    lemma_u32_be_round_trip(payload.len() as u32);
    lemma_u32_from_be_reads_header(header, payload + rest);
    assert(stream =~= header + (payload + rest));
    assert(stream.subrange(HEADER_SIZE as int, HEADER_SIZE + payload.len()) =~= payload);
}

/// A header that announces one byte more than the largest payload is never
/// decoded as a frame, however many bytes follow it.
pub proof fn lemma_oversize_header_is_refused(rest: Seq<u8>)
    ensures
        spec_decode(u32_to_be((MAX_PAYLOAD_SIZE + 1) as u32) + rest) == Decoded::TooLarge,
{
    let header = u32_to_be((MAX_PAYLOAD_SIZE + 1) as u32);
    lemma_u32_be_round_trip((MAX_PAYLOAD_SIZE + 1) as u32);
    lemma_u32_from_be_reads_header(header, rest);
}

/// Puts `payload` into a frame. A payload of more than `MAX_PAYLOAD_SIZE`
/// bytes is refused.
pub fn encode(payload: &[u8]) -> (result: Result<Vec<u8>, SocketError>)
    ensures
        match result {
            Ok(frame) => payload@.len() <= MAX_PAYLOAD_SIZE && frame@ == spec_encode(payload@),
            Err(e) => payload@.len() > MAX_PAYLOAD_SIZE && e == SocketError::PayloadTooLarge,
        },
{
    if payload.len() > MAX_PAYLOAD_SIZE {
        return Err(SocketError::PayloadTooLarge);
    }
    let n: u32 = payload.len() as u32;
    let mut frame: Vec<u8> = Vec::with_capacity(payload.len() + HEADER_SIZE);
    frame.push((n / 0x100_0000) as u8);
    frame.push(((n / 0x1_0000) % 0x100) as u8);
    frame.push(((n / 0x100) % 0x100) as u8);
    frame.push((n % 0x100) as u8);
    proof {
        reveal(u32_to_be);
        assert(frame@ =~= u32_to_be(n));
    }
    frame.extend_from_slice(payload);
    Ok(frame)
}

/// What `decode` found at the start of a stream.
#[derive(Debug, PartialEq, Eq)]
pub enum Frame {
    /// Not yet a whole frame: more bytes are needed.
    Incomplete,
    /// A frame with this payload, which takes up the first `consumed` bytes.
    Complete { payload: Vec<u8>, consumed: usize },
    /// A header that announces more than `MAX_PAYLOAD_SIZE` bytes.
    TooLarge,
}

impl View for Frame {
    type V = Decoded;

    open spec fn view(&self) -> Decoded {
        match self {
            Frame::Incomplete => Decoded::Incomplete,
            Frame::Complete { payload, consumed } => Decoded::Frame {
                payload: payload@,
                consumed: *consumed as nat,
            },
            Frame::TooLarge => Decoded::TooLarge,
        }
    }
}

/// Reads the frame at the start of `stream`, if a whole one is there.
pub fn decode(stream: &[u8]) -> (frame: Frame)
    ensures
        frame@ == spec_decode(stream@),
{
    if stream.len() < HEADER_SIZE {
        return Frame::Incomplete;
    }
    let n: u32 = (stream[0] as u32) * 0x100_0000 + (stream[1] as u32) * 0x1_0000
        + (stream[2] as u32) * 0x100 + (stream[3] as u32);
    proof {
        reveal(u32_from_be);
        assert(n == u32_from_be(stream@));
    }
    if n as u64 > MAX_PAYLOAD_SIZE as u64 {
        return Frame::TooLarge;
    }
    let len = n as usize;
    if stream.len() - HEADER_SIZE < len {
        return Frame::Incomplete;
    }
    let mut payload: Vec<u8> = Vec::with_capacity(len);
    let mut i: usize = 0;
    while i < len
        invariant
            i <= len,
            HEADER_SIZE + len <= stream.len(),
            payload@ == stream@.subrange(HEADER_SIZE as int, HEADER_SIZE + i),
        decreases len - i,
    {
        payload.push(stream[HEADER_SIZE + i]);
        i = i + 1;
    }
    Frame::Complete { payload, consumed: HEADER_SIZE + len }
}

/// A message that waits to be sent: its priority and its payload.
pub type Waiting = (Priority, Seq<u8>);

/// The bytes that the messages `waiting` will put on the wire: for each its
/// header and its payload.
pub open spec fn waiting_bytes(waiting: Seq<Waiting>) -> nat
    decreases waiting.len(),
{
    if waiting.len() == 0 {
        0
    } else {
        waiting_bytes(waiting.drop_last()) + HEADER_SIZE as nat + waiting.last().1.len()
    }
}

/// Whether `waiting[i]` is the message to send next: none that waits has a
/// lower priority value, and none of the same priority has waited longer.
pub open spec fn is_next(waiting: Seq<Waiting>, i: int) -> bool {
    &&& 0 <= i < waiting.len()
    &&& forall|j: int| 0 <= j < waiting.len() ==> waiting[i].0 <= (#[trigger] waiting[j]).0
    &&& forall|j: int| 0 <= j < i ==> (#[trigger] waiting[j]).0 != waiting[i].0
}

/// The place in `waiting` of the message to send next.
pub open spec fn next_index(waiting: Seq<Waiting>) -> int {
    choose|i: int| is_next(waiting, i)
}

/// At most one message is the one to send next.
pub proof fn lemma_next_is_unique(waiting: Seq<Waiting>, i: int, k: int)
    requires
        is_next(waiting, i),
        is_next(waiting, k),
    ensures
        i == k,
{
    if i < k {
        assert(waiting[i].0 != waiting[k].0);
    } else if k < i {
        assert(waiting[k].0 != waiting[i].0);
    }
}

/// Of two waiting messages of one priority, the one written later is not
/// sent before the one written earlier.
pub proof fn lemma_same_priority_in_order(waiting: Seq<Waiting>, earlier: int, later: int)
    requires
        0 <= earlier < later < waiting.len(),
        waiting[earlier].0 == waiting[later].0,
    ensures
        next_index(waiting) != later,
        !is_next(waiting, later),
{
    if next_index(waiting) == later {
        lemma_next_exists(waiting);
    }
}

/// While a message waits, one of the waiting messages is the next.
pub proof fn lemma_next_exists(waiting: Seq<Waiting>)
    requires
        waiting.len() > 0,
    ensures
        is_next(waiting, next_index(waiting)),
    decreases waiting.len(),
{
    if waiting.len() == 1 {
        assert(is_next(waiting, 0));
    } else {
        let rest = waiting.drop_last();
        lemma_next_exists(rest);
        let r = next_index(rest);
        let last = waiting.len() - 1;
        if waiting[last].0 < rest[r].0 {
            assert forall|j: int| 0 <= j < waiting.len() implies waiting[last].0 <= (
            #[trigger] waiting[j]).0 by {
                if j < last {
                    assert(rest[j] == waiting[j]);
                }
            }
            assert forall|j: int| 0 <= j < last implies (#[trigger] waiting[j]).0
                != waiting[last].0 by {
                assert(rest[j] == waiting[j]);
            }
            assert(is_next(waiting, last));
        } else {
            assert forall|j: int| 0 <= j < waiting.len() implies waiting[r].0 <= (
            #[trigger] waiting[j]).0 by {
                if j < last {
                    assert(rest[j] == waiting[j]);
                }
            }
            assert forall|j: int| 0 <= j < r implies (#[trigger] waiting[j]).0
                != waiting[r].0 by {
                assert(rest[j] == waiting[j]);
            }
            assert(is_next(waiting, r));
        }
    }
}

/// Taking a message out of the queue takes its header and payload off the
/// bytes that wait.
pub proof fn lemma_waiting_bytes_remove(waiting: Seq<Waiting>, i: int)
    requires
        0 <= i < waiting.len(),
    ensures
        waiting_bytes(waiting) == waiting_bytes(waiting.remove(i)) + HEADER_SIZE as nat
            + waiting[i].1.len(),
    decreases waiting.len(),
{
    if i < waiting.len() - 1 {
        lemma_waiting_bytes_remove(waiting.drop_last(), i);
        assert(waiting.remove(i).drop_last() == waiting.drop_last().remove(i));
    }
}

/// No waiting payload is larger than a frame can carry.
pub open spec fn payloads_fit(waiting: Seq<Waiting>) -> bool {
    forall|i: int| 0 <= i < waiting.len() ==> (#[trigger] waiting[i]).1.len() <= MAX_PAYLOAD_SIZE
}

/// Messages that fit into frames put no more on the wire than the largest
/// frame, of 2097156 bytes, for each.
pub proof fn lemma_waiting_bytes_bound(waiting: Seq<Waiting>)
    requires
        payloads_fit(waiting),
    ensures
        waiting_bytes(waiting) <= waiting.len() * 2097156,
    decreases waiting.len(),
{
    if waiting.len() > 0 {
        assert(payloads_fit(waiting.drop_last()));
        lemma_waiting_bytes_bound(waiting.drop_last());
        assert(waiting[waiting.len() - 1].1.len() <= MAX_PAYLOAD_SIZE);
    }
}

/// What reading frame after frame off the start of a stream gives.
pub struct Drained {
    /// The payloads of the whole frames, in their order.
    pub messages: Seq<Seq<u8>>,
    /// The bytes behind the last whole frame.
    pub rest: Seq<u8>,
    /// Whether those bytes start with a header that announces more than
    /// `MAX_PAYLOAD_SIZE` bytes.
    pub too_large: bool,
}

/// What reading frame after frame off the start of `stream` gives.
pub open spec fn spec_drain(stream: Seq<u8>) -> Drained
    decreases stream.len(),
{
    match spec_decode(stream) {
        Decoded::Incomplete => Drained { messages: Seq::empty(), rest: stream, too_large: false },
        Decoded::TooLarge => Drained { messages: Seq::empty(), rest: stream, too_large: true },
        Decoded::Frame { payload, consumed } => {
            if 0 < consumed <= stream.len() {
                let after = spec_drain(stream.skip(consumed as int));
                Drained { messages: seq![payload] + after.messages, ..after }
            } else {
                Drained { messages: Seq::empty(), rest: stream, too_large: false }
            }
        },
    }
}

/// The payloads of `messages`.
pub open spec fn payloads(messages: Seq<Vec<u8>>) -> Seq<Seq<u8>> {
    messages.map_values(|m: Vec<u8>| m@)
}

/// A stream that starts with the frame of `payload` gives `payload` first
/// and then what the bytes behind that frame give.
pub proof fn lemma_drain_frame(payload: Seq<u8>, rest: Seq<u8>)
    requires
        payload.len() <= MAX_PAYLOAD_SIZE,
    ensures
        spec_drain(spec_encode(payload) + rest) == (Drained {
            messages: seq![payload] + spec_drain(rest).messages,
            ..spec_drain(rest)
        }),
{
    lemma_frame_round_trip(payload, rest);
    lemma_u32_be_round_trip(payload.len() as u32);
    let stream = spec_encode(payload) + rest;
    assert(spec_encode(payload).len() == HEADER_SIZE + payload.len());
    assert(stream.skip(HEADER_SIZE + payload.len()) =~= rest);
}

/// The abstract state of a framed socket.
pub struct SocketView {
    /// The messages that wait to be sent, in the order they were written.
    pub waiting: Seq<Waiting>,
    /// The part of the frame being sent that the stream has not taken yet;
    /// empty when no frame is being sent.
    pub in_flight: Seq<u8>,
    /// The bytes that came in and are not yet read as frames.
    pub incoming: Seq<u8>,
    /// The number of outbound bytes above which only system messages are
    /// queued.
    pub high_water: nat,
}

impl SocketView {
    /// The state of a socket that nothing was written to or read from.
    pub open spec fn fresh(high_water: nat) -> SocketView {
        SocketView {
            waiting: Seq::empty(),
            in_flight: Seq::empty(),
            incoming: Seq::empty(),
            high_water,
        }
    }

    /// The outbound bytes the socket holds.
    pub open spec fn queued_bytes(self) -> nat {
        self.in_flight.len() + waiting_bytes(self.waiting)
    }

    /// Whether nothing waits to go out.
    pub open spec fn idle(self) -> bool {
        self.waiting.len() == 0 && self.in_flight.len() == 0
    }

    /// The readiness set the socket is to be registered for: readable
    /// always, writable while something waits to go out.
    pub open spec fn interest(self) -> EventSet {
        EventSet::spec_interest(!self.idle())
    }

    /// The state after `msg` was written with `priority`, where it is
    /// queued.
    pub open spec fn enqueue(self, msg: Seq<u8>, priority: Priority) -> SocketView {
        SocketView { waiting: self.waiting.push((priority, msg)), ..self }
    }

    /// Whether a message of `priority` is held back for now.
    pub open spec fn blocks(self, priority: Priority) -> bool {
        priority != SYSTEM_PRIORITY && self.queued_bytes() > self.high_water
    }

    /// The state after the next frame was made ready to send. Nothing
    /// changes while a frame is being sent or when nothing waits.
    pub open spec fn load(self) -> SocketView {
        if self.in_flight.len() == 0 && self.waiting.len() > 0 {
            SocketView {
                waiting: self.waiting.remove(next_index(self.waiting)),
                in_flight: spec_encode(self.waiting[next_index(self.waiting)].1),
                ..self
            }
        } else {
            self
        }
    }

    /// The state after the stream took `n` bytes of the frame being sent.
    pub open spec fn wrote(self, n: nat) -> SocketView {
        SocketView {
            in_flight: if n < self.in_flight.len() {
                self.in_flight.skip(n as int)
            } else {
                Seq::empty()
            },
            ..self
        }
    }
}

struct Queued {
    priority: Priority,
    payload: Vec<u8>,
}

/// A stream with message framing: what waits to go out and what came in.
pub struct Socket {
    waiting: Vec<Queued>,
    in_flight: Vec<u8>,
    incoming: Vec<u8>,
    queued: u128,
    high_water: usize,
}

impl View for Socket {
    type V = SocketView;

    closed spec fn view(&self) -> SocketView {
        SocketView {
            waiting: self.waiting@.map_values(|q: Queued| (q.priority, q.payload@)),
            in_flight: self.in_flight@,
            incoming: self.incoming@,
            high_water: self.high_water as nat,
        }
    }
}

impl Socket {
    /// Every waiting payload fits into a frame, and so does what is being
    /// sent.
    pub closed spec fn wf(&self) -> bool {
        &&& payloads_fit(self@.waiting)
        &&& self@.in_flight.len() <= HEADER_SIZE + MAX_PAYLOAD_SIZE
        &&& self.queued == self@.queued_bytes()
    }

    /// A socket with nothing queued and nothing received, which holds back
    /// ordinary messages while more than `high_water` outbound bytes wait.
    pub fn new(high_water: usize) -> (socket: Socket)
        ensures
            socket.wf(),
            socket@ == SocketView::fresh(high_water as nat),
    {
        let socket = Socket {
            waiting: Vec::new(),
            in_flight: Vec::new(),
            incoming: Vec::new(),
            queued: 0,
            high_water,
        };
        assert(socket@.waiting =~= Seq::empty());
        socket
    }

    /// Whether nothing waits to go out.
    pub fn is_idle(&self) -> (idle: bool)
        ensures
            idle == self@.idle(),
    {
        self.waiting.len() == 0 && self.in_flight.len() == 0
    }

    /// The readiness set the socket is to be registered for.
    pub fn interest(&self) -> (set: EventSet)
        ensures
            set == self@.interest(),
    {
        EventSet::interest(!self.is_idle())
    }

    /// Queues `msg` for sending with `priority`.
    ///
    /// A message of more than `MAX_PAYLOAD_SIZE` bytes is refused as too
    /// large. A message below system priority is refused with `WouldBlock`
    /// while the socket holds more outbound bytes than its high-water mark.
    /// A refusal changes nothing.
    ///
    /// On success the result tells whether the socket had nothing to send
    /// before, which is when it has to be registered anew.
    pub fn write(&mut self, msg: Vec<u8>, priority: Priority) -> (result: Result<bool, SocketError>)
        requires
            old(self).wf(),
        ensures
            final(self).wf(),
            result == (if msg@.len() > MAX_PAYLOAD_SIZE {
                Err(SocketError::PayloadTooLarge)
            } else if old(self)@.blocks(priority) {
                Err(SocketError::WouldBlock)
            } else {
                Ok(old(self)@.idle())
            }),
            final(self)@ == (if result is Ok {
                old(self)@.enqueue(msg@, priority)
            } else {
                old(self)@
            }),
    {
        if msg.len() > MAX_PAYLOAD_SIZE {
            return Err(SocketError::PayloadTooLarge);
        }
        if priority != SYSTEM_PRIORITY && self.queued > self.high_water as u128 {
            return Err(SocketError::WouldBlock);
        }
        let was_idle = self.is_idle();
        proof {
            lemma_waiting_bytes_bound(self@.waiting);
            assert(self.waiting.len() <= usize::MAX);
            assert(self@.waiting.push((priority, msg@)).drop_last() == self@.waiting);
        }
        self.queued = self.queued + (HEADER_SIZE + msg.len()) as u128;
        self.waiting.push(Queued { priority, payload: msg });
        proof {
            assert(self@.waiting =~= old(self)@.waiting.push((priority, msg@)));
        }
        Ok(was_idle)
    }

    /// Makes the next frame ready to send, unless one is being sent or
    /// nothing waits: the message with the lowest priority value, and of
    /// those with that priority the one written first, leaves the queue and
    /// its frame becomes what `pending` gives.
    pub fn load(&mut self)
        requires
            old(self).wf(),
        ensures
            final(self).wf(),
            final(self)@ == old(self)@.load(),
    {
        if self.in_flight.len() > 0 || self.waiting.len() == 0 {
            return ;
        }
        let mut best: usize = 0;
        let mut i: usize = 1;
        while i < self.waiting.len()
            invariant
                *self == *old(self),
                0 <= best < i <= self.waiting.len(),
                forall|j: int|
                    0 <= j < i ==> self@.waiting[best as int].0 <= (#[trigger] self@.waiting[j]).0,
                forall|j: int|
                    0 <= j < best ==> (#[trigger] self@.waiting[j]).0
                        != self@.waiting[best as int].0,
            decreases self.waiting.len() - i,
        {
            if self.waiting[i].priority < self.waiting[best].priority {
                best = i;
            }
            i = i + 1;
        }
        proof {
            lemma_next_exists(self@.waiting);
            lemma_next_is_unique(self@.waiting, best as int, next_index(self@.waiting));
            lemma_waiting_bytes_remove(self@.waiting, best as int);
        }
        let next = self.waiting.remove(best);
        proof {
            assert(self@.waiting =~= old(self)@.waiting.remove(best as int));
        }
        match encode(next.payload.as_slice()) {
            Ok(frame) => {
                proof {
                    // A frame is four bytes longer than its payload.
                    lemma_u32_be_round_trip(next.payload@.len() as u32);
                }
                self.in_flight = frame;
            },
            Err(_) => {},
        }
    }

    /// The bytes to hand to the stream now: what is left of the frame being
    /// sent.
    pub fn pending(&self) -> (bytes: &Vec<u8>)
        ensures
            bytes@ == self@.in_flight,
    {
        &self.in_flight
    }

    /// Accounts for `n` bytes of `pending` that the stream took. Returns
    /// whether the socket had something to send and has nothing left now,
    /// which is when it has to be registered anew.
    pub fn wrote(&mut self, n: usize) -> (drained: bool)
        requires
            old(self).wf(),
        ensures
            final(self).wf(),
            final(self)@ == old(self)@.wrote(n as nat),
            drained == (!old(self)@.idle() && final(self)@.idle()),
    {
        let was_idle = self.is_idle();
        if n < self.in_flight.len() {
            let rest = self.in_flight.split_off(n);
            self.in_flight = rest;
            self.queued = self.queued - n as u128;
        } else {
            self.queued = self.queued - self.in_flight.len() as u128;
            self.in_flight.clear();
        }
        !was_idle && self.is_idle()
    }

    /// Takes in `bytes` that the stream gave.
    pub fn received(&mut self, bytes: &[u8])
        ensures
            final(self).wf() == old(self).wf(),
            final(self)@ == (SocketView { incoming: old(self)@.incoming + bytes@, ..old(self)@ }),
    {
        self.incoming.extend_from_slice(bytes);
        assert(self.incoming@ =~= old(self)@.incoming + bytes@);
    }

    /// Reads the next message out of the bytes that came in.
    ///
    /// Gives the payload of the frame at their start and drops that frame,
    /// or `None`, with nothing changed, while the frame is not whole. A
    /// header that announces more than `MAX_PAYLOAD_SIZE` bytes is an error
    /// and changes nothing: the stream cannot be read any further.
    pub fn read(&mut self) -> (result: Result<Option<Vec<u8>>, SocketError>)
        ensures
            final(self).wf() == old(self).wf(),
            match spec_decode(old(self)@.incoming) {
                Decoded::Incomplete => result == Ok::<Option<Vec<u8>>, SocketError>(None)
                    && final(self)@ == old(self)@,
                Decoded::TooLarge => result == Err::<Option<Vec<u8>>, SocketError>(
                    SocketError::PayloadTooLarge,
                ) && final(self)@ == old(self)@,
                Decoded::Frame { payload, consumed } => {
                    &&& result matches Ok(Some(msg))
                    &&& msg@ == payload
                    &&& final(self)@ == (SocketView {
                        incoming: old(self)@.incoming.skip(consumed as int),
                        ..old(self)@
                    })
                },
            },
    {
        match decode(self.incoming.as_slice()) {
            Frame::Incomplete => Ok(None),
            Frame::TooLarge => Err(SocketError::PayloadTooLarge),
            Frame::Complete { payload, consumed } => {
                let rest = self.incoming.split_off(consumed);
                self.incoming = rest;
                Ok(Some(payload))
            },
        }
    }

    /// Reads every whole message out of the bytes that came in, in their
    /// order, and keeps the bytes behind them. The flag tells whether those
    /// bytes start with a header that announces more than
    /// `MAX_PAYLOAD_SIZE` bytes, after which the stream cannot be read any
    /// further.
    pub fn drain(&mut self) -> (result: (Vec<Vec<u8>>, bool))
        ensures
            final(self).wf() == old(self).wf(),
            payloads(result.0@) == spec_drain(old(self)@.incoming).messages,
            result.1 == spec_drain(old(self)@.incoming).too_large,
            final(self)@ == (SocketView {
                incoming: spec_drain(old(self)@.incoming).rest,
                ..old(self)@
            }),
    {
        let mut messages: Vec<Vec<u8>> = Vec::new();
        let mut too_large = false;
        let mut done = false;
        while !done
            invariant
                self.wf() == old(self).wf(),
                self@ == (SocketView { incoming: self@.incoming, ..old(self)@ }),
                !done ==> !too_large,
                spec_drain(old(self)@.incoming).messages == payloads(messages@) + (if done {
                    Seq::<Seq<u8>>::empty()
                } else {
                    spec_drain(self@.incoming).messages
                }),
                spec_drain(old(self)@.incoming).rest == (if done {
                    self@.incoming
                } else {
                    spec_drain(self@.incoming).rest
                }),
                spec_drain(old(self)@.incoming).too_large == (if done {
                    too_large
                } else {
                    spec_drain(self@.incoming).too_large
                }),
            decreases
                    if done {
                        0
                    } else {
                        self@.incoming.len() + 1
                    },
        {
            match self.read() {
                Ok(Some(payload)) => {
                    messages.push(payload);
                },
                Ok(None) => {
                    done = true;
                },
                Err(_) => {
                    too_large = true;
                    done = true;
                },
            }
        }
        (messages, too_large)
    }
}

} // verus!
