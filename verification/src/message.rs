use vstd::prelude::*;

use crate::addr::SocketAddress;
use crate::capability::{CapabilityAdvert, CapabilitySet};
use crate::clock::{elapsed, Timestamp};
use crate::device::{DeviceId, Heartbeat, NodeRole};
use crate::ids::{fresh_v7, uuid_string, uuid_text, uuid_variant, uuid_version};
use crate::protocol::{current_version, ErrorCode, ProtocolVersion, Versioned};
use crate::task::{CancelReason, TaskId, TaskRequest, TaskResponse};

verus! {

/// Unique identifier for an envelope, used for correlation and de-duplication.
#[derive(Debug, Clone, Copy, PartialEq, Eq, Structural, PartialOrd, Ord, Hash)]
pub struct MessageId(pub u128);

impl MessageId {
    /// Mints a new time-ordered (v7) identifier.
    pub fn new() -> (id: Self)
        ensures
            uuid_version(id.0) == 7,
            uuid_variant(id.0) == 2,
    {
        MessageId(fresh_v7())
    }

    /// The identifier as `uuid::Uuid` displays it: hyphenated lower-case hex.
    pub fn to_string(&self) -> (s: String)
        ensures
            s@ == uuid_text(self.0),
    {
        uuid_string(self.0)
    }
}

impl Default for MessageId {
    /// A freshly minted identifier.
    fn default() -> (id: Self)
        ensures
            uuid_version(id.0) == 7,
            uuid_variant(id.0) == 2,
    {
        MessageId::new()
    }
}

/// First message a node sends when joining the network.
#[derive(Debug, Clone, PartialEq, Eq)]
pub struct Register {
    pub device: DeviceId,
    pub role: NodeRole,
    pub capabilities: CapabilitySet,
    pub listen_addr: SocketAddress,
    pub protocol: ProtocolVersion,
}

/// Leader's answer to [`Register`].
#[derive(Debug, Clone, PartialEq, Eq)]
pub struct RegisterAck {
    pub accepted: bool,
    pub leader: DeviceId,
    pub protocol: ProtocolVersion,
    pub reason: Option<String>,
}

/// Reply to a heartbeat.
#[derive(Debug, Clone, Copy, PartialEq, Eq, Structural)]
pub struct HeartbeatAck {
    pub seq: u64,
    pub at: Timestamp,
}

/// Ask a worker to stop a running task.
#[derive(Debug, Clone, Copy, PartialEq, Eq, Structural)]
pub struct TaskCancel {
    pub task_id: TaskId,
    pub reason: CancelReason,
}

/// Worker's acknowledgement that a task is (or will be) cancelled.
#[derive(Debug, Clone, Copy, PartialEq, Eq, Structural)]
pub struct TaskCancelled {
    pub task_id: TaskId,
    pub reason: CancelReason,
}

/// Graceful shutdown notice.
#[derive(Debug, Clone, PartialEq, Eq)]
pub struct Shutdown {
    pub reason: String,
}

/// Structured protocol-level error reply.
#[derive(Debug, Clone, PartialEq, Eq)]
pub struct ErrorMessage {
    pub code: ErrorCode,
    pub message: String,
}

/// Everything that can travel over the wire, independent of the transport.
#[derive(Debug, Clone, PartialEq, Eq)]
pub enum Message {
    Register(Register),
    RegisterAck(RegisterAck),
    Heartbeat(Heartbeat),
    HeartbeatAck(HeartbeatAck),
    TaskRequest(TaskRequest),
    TaskResponse(TaskResponse),
    TaskCancel(TaskCancel),
    TaskCancelled(TaskCancelled),
    CapabilityUpdate(CapabilityAdvert),
    Shutdown(Shutdown),
    Error(ErrorMessage),
}

/// Messages that must be answered: registrations, heartbeats, task requests
/// and cancellations.
pub open spec fn needs_reply(m: Message) -> bool {
    ||| m is Register
    ||| m is Heartbeat
    ||| m is TaskRequest
    ||| m is TaskCancel
}

/// Messages that are safe to drop when the network is saturated: heartbeats
/// and their acknowledgements.
pub open spec fn droppable(m: Message) -> bool {
    m is Heartbeat || m is HeartbeatAck
}

impl Message {
    /// `true` for messages that must be answered.
    pub fn expects_reply(&self) -> (b: bool)
        ensures
            b == needs_reply(*self),
    {
        match self {
            Message::Register(_) => true,
            Message::Heartbeat(_) => true,
            Message::TaskRequest(_) => true,
            Message::TaskCancel(_) => true,
            _ => false,
        }
    }

    /// `true` for messages that are safe to drop when the network is saturated.
    pub fn is_lossy(&self) -> (b: bool)
        ensures
            b == droppable(*self),
    {
        match self {
            Message::Heartbeat(_) => true,
            Message::HeartbeatAck(_) => true,
            _ => false,
        }
    }
}

/// Routing wrapper carrying addressing, ordering and protocol metadata.
#[derive(Debug, Clone, PartialEq, Eq)]
pub struct Envelope {
    pub id: MessageId,
    pub from: DeviceId,
    /// `None` means broadcast to every known peer.
    pub to: Option<DeviceId>,
    pub correlation: Option<MessageId>,
    pub sent_at: Timestamp,
    /// Time-to-live in milliseconds; `None` means "no expiry".
    pub ttl_ms: Option<u64>,
    pub protocol: ProtocolVersion,
    pub payload: Message,
}

/// Whether an envelope sent at `sent_at` with time-to-live `ttl_ms` has
/// expired at `now`: only a finite time-to-live can run out, and it has when
/// more than `ttl_ms` milliseconds have passed.
pub open spec fn expired_at(sent_at: Timestamp, ttl_ms: Option<u64>, now: Timestamp) -> bool {
    match ttl_ms {
        Some(ttl) => elapsed(now, sent_at) > ttl,
        None => false,
    }
}

impl Envelope {
    /// A fresh envelope from `from` to `to` under the current protocol, with
    /// no correlation and no expiry.
    pub fn new(from: DeviceId, to: DeviceId, payload: Message, sent_at: Timestamp) -> (e: Self)
        ensures
            uuid_version(e.id.0) == 7,
            uuid_variant(e.id.0) == 2,
            e.from == from,
            e.to == Some(to),
            e.correlation is None,
            e.sent_at == sent_at,
            e.ttl_ms is None,
            e.protocol == current_version(),
            e.payload == payload,
    {
        Envelope {
            id: MessageId::new(),
            from,
            to: Some(to),
            correlation: None,
            sent_at,
            ttl_ms: None,
            protocol: ProtocolVersion::current(),
            payload,
        }
    }

    /// A fresh envelope from `from` to every known peer.
    pub fn broadcast(from: DeviceId, payload: Message, sent_at: Timestamp) -> (e: Self)
        ensures
            uuid_version(e.id.0) == 7,
            uuid_variant(e.id.0) == 2,
            e.from == from,
            e.to is None,
            e.correlation is None,
            e.sent_at == sent_at,
            e.ttl_ms is None,
            e.protocol == current_version(),
            e.payload == payload,
    {
        let e = Envelope::new(from, from, payload, sent_at);
        Envelope { to: None, ..e }
    }

    /// The same envelope, marked as the answer to `correlation`.
    pub fn in_reply_to(self, correlation: MessageId) -> (e: Self)
        ensures
            e == (Envelope { correlation: Some(correlation), ..self }),
    {
        let mut e = self;
        e.correlation = Some(correlation);
        e
    }

    /// The same envelope, expiring `ttl_ms` milliseconds after it was sent.
    pub fn with_ttl_ms(self, ttl_ms: u64) -> (e: Self)
        ensures
            e == (Envelope { ttl_ms: Some(ttl_ms), ..self }),
    {
        let mut e = self;
        e.ttl_ms = Some(ttl_ms);
        e
    }

    pub fn is_expired(&self, now: Timestamp) -> (b: bool)
        ensures
            b == expired_at(self.sent_at, self.ttl_ms, now),
    {
        match self.ttl_ms {
            Some(ttl) => now.elapsed_since(self.sent_at) > ttl,
            None => false,
        }
    }
}

impl Versioned for Envelope {
    fn version(&self) -> (v: ProtocolVersion)
        ensures
            v == self.protocol,
    {
        self.protocol
    }
}

/// Compact binary codec for envelopes.
#[derive(Debug, Clone, Copy)]
pub struct BincodeCodec;

impl BincodeCodec {
    pub fn new() -> (c: Self) {
        BincodeCodec
    }
}

/// The four big-endian bytes of a 32-bit length.
pub open spec fn be32(n: nat) -> Seq<u8> {
    seq![
        ((n / 0x100_0000) % 0x100) as u8,
        ((n / 0x1_0000) % 0x100) as u8,
        ((n / 0x100) % 0x100) as u8,
        (n % 0x100) as u8,
    ]
}

/// The length a frame header carries for a body of `len` bytes: the length
/// taken modulo 2^32, as the 32-bit header field holds it.
pub open spec fn header_len(len: nat) -> nat {
    len % 0x1_0000_0000
}

/// Prepends a 4-byte big-endian length so the stream can be framed.
pub fn encode_frame(body: &[u8]) -> (framed: Vec<u8>)
    ensures
        framed@ == be32(header_len(body@.len())) + body@,
{
    let n = body.len();
    let wide: u64 = n as u64;
    let len: u32 = (wide & 0xffff_ffff) as u32;
    assert(len == wide % 0x1_0000_0000) by (bit_vector)
        requires
            len == (wide & 0xffff_ffff) as u32,
    ;
    let b0: u8 = (len >> 24u32) as u8;
    let b1: u8 = ((len >> 16u32) & 0xff) as u8;
    let b2: u8 = ((len >> 8u32) & 0xff) as u8;
    let b3: u8 = (len & 0xff) as u8;
    assert(b0 == (len / 0x100_0000) % 0x100 && b1 == (len / 0x1_0000) % 0x100 && b2 == (len / 0x100)
        % 0x100 && b3 == len % 0x100) by (bit_vector)
        requires
            b0 == (len >> 24u32) as u8,
            b1 == ((len >> 16u32) & 0xff) as u8,
            b2 == ((len >> 8u32) & 0xff) as u8,
            b3 == (len & 0xff) as u8,
    ;
    let mut framed: Vec<u8> = Vec::new();
    framed.push(b0);
    framed.push(b1);
    framed.push(b2);
    framed.push(b3);
    let mut i: usize = 0;
    while i < n
        invariant
            n == body@.len(),
            i <= n,
            framed@ == be32(len as nat) + body@.take(i as int),
        decreases n - i,
    {
        framed.push(body[i]);
        i = i + 1;
        assert(body@.take(i as int) =~= body@.take(i - 1).push(body@[i - 1]));
        assert(framed@ =~= be32(len as nat) + body@.take(i as int));
    }
    assert(body@.take(n as int) =~= body@);
    framed
}

/// The length a 4-byte big-endian header stands for.
pub open spec fn be32_value(h: Seq<u8>) -> nat {
    (h[0] as nat) * 0x100_0000 + (h[1] as nat) * 0x1_0000 + (h[2] as nat) * 0x100 + (h[3] as nat)
}

/// A frame splits back into its header and its body, and the header reads
/// back as the body's length (modulo 2^32).
pub proof fn law_frame_round_trip(body: Seq<u8>)
    ensures
        (be32(header_len(body.len())) + body).take(4) == be32(header_len(body.len())),
        (be32(header_len(body.len())) + body).skip(4) == body,
        be32_value(be32(header_len(body.len()))) == header_len(body.len()),
{
    let f = be32(header_len(body.len())) + body;
    assert(f.take(4) =~= be32(header_len(body.len())));
    assert(f.skip(4) =~= body);
    let n: u32 = header_len(body.len()) as u32;
    assert(((n / 0x100_0000) % 0x100) * 0x100_0000 + ((n / 0x1_0000) % 0x100) * 0x1_0000 + ((n / 0x100) % 0x100)
        * 0x100 + n % 0x100 == n) by (bit_vector);
}

/// An envelope without a time-to-live never expires, and once an envelope
/// has expired it stays expired.
pub proof fn law_expiry(sent_at: Timestamp, ttl_ms: Option<u64>, earlier: Timestamp, later: Timestamp)
    requires
        earlier.0 <= later.0,
    ensures
        !expired_at(sent_at, None, later),
        expired_at(sent_at, ttl_ms, earlier) ==> expired_at(sent_at, ttl_ms, later),
{
}


/// The reply and loss classes of every kind of message: registrations,
/// heartbeats, task requests and task cancellations are answered (by
/// `RegisterAck`, `HeartbeatAck`, `TaskResponse` and `TaskCancelled`), and
/// no other kind is; answers never ask for an answer; only heartbeats and
/// their acknowledgements may be dropped.
pub proof fn law_message_classes(m: Message)
    ensures
        m is Register ==> needs_reply(m),
        m is Heartbeat ==> needs_reply(m),
        m is TaskRequest ==> needs_reply(m),
        m is TaskCancel ==> needs_reply(m),
        m is RegisterAck || m is HeartbeatAck || m is TaskResponse || m is TaskCancelled || m is Error
            ==> !needs_reply(m),
        m is CapabilityUpdate || m is Shutdown ==> !needs_reply(m),
        droppable(m) <==> (m is Heartbeat || m is HeartbeatAck),
        needs_reply(m) && droppable(m) ==> m is Heartbeat,
{
}


/// An envelope with a time-to-live expires exactly when the clock reads more
/// than `ttl_ms` milliseconds past its sending time.
pub proof fn law_expiry_threshold(sent_at: Timestamp, ttl_ms: u64, now: Timestamp)
    ensures
        expired_at(sent_at, Some(ttl_ms), now) <==> now.0 > sent_at.0 + ttl_ms,
{
}

/// A frame's length field is the body's length whenever that fits in 32
/// bits, and otherwise the length reduced modulo 2^32.
pub proof fn law_frame_length(len: nat)
    ensures
        header_len(len) < 0x1_0000_0000,
        len < 0x1_0000_0000 ==> header_len(len) == len,
        (len - header_len(len)) % 0x1_0000_0000 == 0,
{
    vstd::arithmetic::div_mod::lemma_fundamental_div_mod(len as int, 0x1_0000_0000);
    vstd::arithmetic::div_mod::lemma_mod_multiples_basic(len as int / 0x1_0000_0000, 0x1_0000_0000);
}

} // verus!
