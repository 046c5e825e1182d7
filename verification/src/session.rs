//! Session negotiation.
//!
//! Before streaming starts, the client sends the room name, optional
//! password, username, requested UDP port and its local audio format
//! over a control channel, and the server answers with the authoritative
//! session id and format. Connectivity failures are retried a bounded
//! number of times with linear backoff; a rejection (wrong password,
//! full or unknown room) is terminal and never retried.

use crate::wire::{le32_val, le_bytes_u32, push_u32_le, read_u32_le};
use vstd::prelude::*;
use vstd::utf8::encode_utf8;

verus! {

/// A chat room, addressed by name, optionally password-protected.
pub struct Room {
    pub name: String,
    pub password: Option<String>,
}

impl Default for Room {
    /// The empty, unprotected room.
    fn default() -> (r: Room)
        ensures
            r.name@.len() == 0,
            r.password is None,
    {
        Room { name: String::new(), password: None }
    }
}

/// The client-side parameters offered during negotiation.
pub struct ClientData {
    pub udp_port: u16,
    pub sample_rate: u32,
    pub buffer_size: u32,
    pub room: Room,
    pub username: String,
}

impl Default for ClientData {
    /// All-zero client data in the default room.
    fn default() -> (c: ClientData)
        ensures
            c.udp_port == 0,
            c.sample_rate == 0,
            c.buffer_size == 0,
            c.room.name@.len() == 0,
            c.room.password is None,
            c.username@.len() == 0,
    {
        ClientData {
            udp_port: 0,
            sample_rate: 0,
            buffer_size: 0,
            room: Room::default(),
            username: String::new(),
        }
    }
}

/// The handshake the client offers the server.
pub struct HandshakeRequest {
    pub room: Room,
    pub username: String,
    pub requested_udp_port: u16,
    pub sample_rate: u32,
    pub frame_size: u32,
}

/// Why a server refused a handshake; none of these is retriable.
#[derive(Clone, Copy, PartialEq, Eq, Structural, Debug)]
pub enum RejectReason {
    WrongPassword,
    RoomFull,
    RoomNotFound,
}

/// The server's answer to a handshake.
pub enum HandshakeResponse {
    /// The authoritative session id and format (the server may override
    /// the client's offered rate and frame size).
    Accept { session_id: u32, sample_rate: u32, frame_size: u32 },
    /// A terminal rejection.
    Reject(RejectReason),
}

/// Why negotiation failed for good.
#[derive(Clone, Copy, PartialEq, Eq, Structural, Debug)]
pub enum NegotiationError {
    /// The server rejected the handshake; retrying cannot help.
    Rejected(RejectReason),
    /// The server stayed unreachable through every allowed attempt.
    Unreachable,
}

/// The negotiated, immutable context of one connected run.
pub struct SessionDescriptor {
    pub session_id: u32,
    pub sample_rate: u32,
    pub frame_size: u32,
    pub room: Room,
    pub username: String,
    pub local_udp_port: u16,
}

/// What the negotiation driver must do next.
pub enum NegotiationStep {
    /// Try to connect again after this many milliseconds.
    Retry { delay_ms: u64 },
    /// Negotiation succeeded.
    Done(SessionDescriptor),
    /// Negotiation failed for good.
    Fail(NegotiationError),
}

/// A length-prefixed string field: the byte count as a little-endian
/// u32, then the string's UTF-8 bytes.
pub open spec fn string_field_bytes(s: Seq<char>) -> Seq<u8> {
    le_bytes_u32(encode_utf8(s).len() as u32) + encode_utf8(s)
}

/// The wire image of a handshake request: UDP port (little-endian u16),
/// sample rate and frame size (little-endian u32s), a password-present
/// flag byte, then room name, password (if present) and username as
/// length-prefixed UTF-8 fields.
pub open spec fn request_bytes(r: HandshakeRequest) -> Seq<u8> {
    seq![
        (r.requested_udp_port & 0xff) as u8,
        ((r.requested_udp_port >> 8) & 0xff) as u8,
    ] + le_bytes_u32(r.sample_rate) + le_bytes_u32(r.frame_size) + (if r.room.password is Some {
        seq![1u8]
    } else {
        seq![0u8]
    }) + string_field_bytes(r.room.name@) + (match r.room.password {
        Some(p) => string_field_bytes(p@),
        None => Seq::<u8>::empty(),
    }) + string_field_bytes(r.username@)
}

/// Appends one length-prefixed UTF-8 string field.
fn push_string_field(out: &mut Vec<u8>, s: &String)
    requires
        encode_utf8(s@).len() < 0x1_0000_0000,
    ensures
        final(out)@ == old(out)@ + string_field_bytes(s@),
{
    let bytes = s.as_str().as_bytes();
    push_u32_le(out, bytes.len() as u32);
    out.extend_from_slice(bytes);
    proof {
        assert(out@ =~= old(out)@ + string_field_bytes(s@));
    }
}

/// Serializes a handshake request to its exact wire image. Each string
/// must fit a u32 byte count (the format's only limit).
pub fn encode_request(r: &HandshakeRequest) -> (out: Vec<u8>)
    requires
        encode_utf8(r.room.name@).len() < 0x1_0000_0000,
        encode_utf8(r.username@).len() < 0x1_0000_0000,
        r.room.password matches Some(p) ==> encode_utf8(p@).len() < 0x1_0000_0000,
    ensures
        out@ == request_bytes(*r),
{
    let mut out: Vec<u8> = Vec::new();
    out.push((r.requested_udp_port & 0xff) as u8);
    out.push(((r.requested_udp_port >> 8) & 0xff) as u8);
    push_u32_le(&mut out, r.sample_rate);
    push_u32_le(&mut out, r.frame_size);
    match &r.room.password {
        Some(_) => out.push(1u8),
        None => out.push(0u8),
    }
    push_string_field(&mut out, &r.room.name);
    match &r.room.password {
        Some(p) => push_string_field(&mut out, p),
        None => (),
    }
    push_string_field(&mut out, &r.username);
    proof {
        assert(out@ =~= request_bytes(*r));
    }
    out
}

/// The wire image of a handshake response: a status byte (0 accept,
/// 1 wrong password, 2 room full, 3 room not found) followed by session
/// id, sample rate and frame size as little-endian u32s (zero on
/// rejection).
pub open spec fn response_bytes(r: HandshakeResponse) -> Seq<u8> {
    match r {
        HandshakeResponse::Accept { session_id, sample_rate, frame_size } => seq![0u8]
            + le_bytes_u32(session_id) + le_bytes_u32(sample_rate) + le_bytes_u32(frame_size),
        HandshakeResponse::Reject(reason) => seq![
            match reason {
                RejectReason::WrongPassword => 1u8,
                RejectReason::RoomFull => 2u8,
                RejectReason::RoomNotFound => 3u8,
            },
        ] + le_bytes_u32(0) + le_bytes_u32(0) + le_bytes_u32(0),
    }
}

/// Serializes a handshake response to its exact wire image.
pub fn encode_response(r: &HandshakeResponse) -> (out: Vec<u8>)
    ensures
        out@ == response_bytes(*r),
{
    let mut out: Vec<u8> = Vec::new();
    match r {
        HandshakeResponse::Accept { session_id, sample_rate, frame_size } => {
            out.push(0u8);
            push_u32_le(&mut out, *session_id);
            push_u32_le(&mut out, *sample_rate);
            push_u32_le(&mut out, *frame_size);
        },
        HandshakeResponse::Reject(reason) => {
            out.push(
                match reason {
                    RejectReason::WrongPassword => 1u8,
                    RejectReason::RoomFull => 2u8,
                    RejectReason::RoomNotFound => 3u8,
                },
            );
            push_u32_le(&mut out, 0);
            push_u32_le(&mut out, 0);
            push_u32_le(&mut out, 0);
        },
    }
    proof {
        assert(out@ =~= response_bytes(*r));
    }
    out
}

/// Parses a handshake response. Succeeds exactly on a 13-byte message
/// with a known status byte; an acceptance carries the server's session
/// id and authoritative format in its three little-endian fields.
pub fn decode_response(bytes: &Vec<u8>) -> (r: Option<HandshakeResponse>)
    ensures
        r is Some <==> bytes@.len() == 13 && bytes@[0] <= 3,
        r matches Some(resp) ==> (match resp {
            HandshakeResponse::Accept { session_id, sample_rate, frame_size } => {
                &&& bytes@[0] == 0
                &&& session_id == le32_val(bytes@[1], bytes@[2], bytes@[3], bytes@[4])
                &&& sample_rate == le32_val(bytes@[5], bytes@[6], bytes@[7], bytes@[8])
                &&& frame_size == le32_val(bytes@[9], bytes@[10], bytes@[11], bytes@[12])
            },
            HandshakeResponse::Reject(reason) => {
                &&& (reason is WrongPassword <==> bytes@[0] == 1)
                &&& (reason is RoomFull <==> bytes@[0] == 2)
                &&& (reason is RoomNotFound <==> bytes@[0] == 3)
            },
        }),
{
    if bytes.len() != 13 {
        return None;
    }
    let status = bytes[0];
    if status == 0 {
        let session_id = read_u32_le(bytes, 1);
        let sample_rate = read_u32_le(bytes, 5);
        let frame_size = read_u32_le(bytes, 9);
        Some(HandshakeResponse::Accept { session_id, sample_rate, frame_size })
    } else if status == 1 {
        Some(HandshakeResponse::Reject(RejectReason::WrongPassword))
    } else if status == 2 {
        Some(HandshakeResponse::Reject(RejectReason::RoomFull))
    } else if status == 3 {
        Some(HandshakeResponse::Reject(RejectReason::RoomNotFound))
    } else {
        None
    }
}

/// Builds the handshake a client with these parameters offers.
pub fn build_request(client: ClientData) -> (r: HandshakeRequest)
    ensures
        r.room == client.room,
        r.username == client.username,
        r.requested_udp_port == client.udp_port,
        r.sample_rate == client.sample_rate,
        r.frame_size == client.buffer_size,
{
    HandshakeRequest {
        room: client.room,
        username: client.username,
        requested_udp_port: client.udp_port,
        sample_rate: client.sample_rate,
        frame_size: client.buffer_size,
    }
}

/// Decides each step of the bounded-retry negotiation.
pub struct Negotiator {
    pub attempts: u32,
    pub max_retries: u32,
    pub backoff_base_ms: u64,
}

impl Negotiator {
    /// Negotiator integrity: attempts stay within the bounded budget and
    /// the backoff base keeps every delay representable.
    pub open spec fn wf(self) -> bool {
        &&& 0 < self.max_retries
        &&& self.attempts <= self.max_retries
        &&& self.backoff_base_ms <= 0xFFFF_FFFF
    }

    /// A fresh negotiator allowing `max_retries` connection attempts
    /// with linear backoff steps of `backoff_base_ms`.
    pub fn new(max_retries: u32, backoff_base_ms: u64) -> (n: Negotiator)
        requires
            0 < max_retries,
            backoff_base_ms <= 0xFFFF_FFFF,
        ensures
            n.wf(),
            n.attempts == 0,
            n.max_retries == max_retries,
            n.backoff_base_ms == backoff_base_ms,
    {
        Negotiator { attempts: 0, max_retries, backoff_base_ms }
    }

    /// Records one failed connection attempt. While attempts remain the
    /// step is a retry with linearly growing delay; exhausting the
    /// budget is a terminal connectivity failure.
    pub fn on_connect_failure(&mut self) -> (step: NegotiationStep)
        requires
            old(self).wf(),
        ensures
            final(self).wf(),
            final(self).max_retries == old(self).max_retries,
            final(self).backoff_base_ms == old(self).backoff_base_ms,
            final(self).attempts == (if old(self).attempts < old(self).max_retries {
                old(self).attempts + 1
            } else {
                old(self).attempts as int
            }),
            old(self).attempts + 1 < old(self).max_retries ==> (step matches
                NegotiationStep::Retry { delay_ms } && delay_ms == old(self).backoff_base_ms * (
            old(self).attempts + 1)),
            old(self).attempts + 1 >= old(self).max_retries ==> step == (
            NegotiationStep::Fail(NegotiationError::Unreachable)),
    {
        if self.attempts < self.max_retries {
            self.attempts = self.attempts + 1;
        }
        if self.attempts < self.max_retries {
            proof {
                assert(self.backoff_base_ms * (self.attempts as u64) <= 0xFFFF_FFFFu64
                    * 0xFFFF_FFFFu64) by (nonlinear_arith)
                    requires
                        self.backoff_base_ms <= 0xFFFF_FFFFu64,
                        (self.attempts as u64) <= 0xFFFF_FFFFu64,
                ;
            }
            NegotiationStep::Retry { delay_ms: self.backoff_base_ms * (self.attempts as u64) }
        } else {
            NegotiationStep::Fail(NegotiationError::Unreachable)
        }
    }

    /// Interprets the server's answer. An acceptance yields the session
    /// descriptor — the server-issued session id, the server's
    /// authoritative format, and the client's own room, name and port. A
    /// rejection is terminal: the negotiator is left untouched and the
    /// step is a failure, never a retry.
    pub fn on_response(
        &mut self,
        request: HandshakeRequest,
        response: &HandshakeResponse,
    ) -> (step: NegotiationStep)
        requires
            old(self).wf(),
        ensures
            final(self).wf(),
            *final(self) == *old(self),
            response matches HandshakeResponse::Accept { session_id, sample_rate, frame_size }
                ==> (step matches NegotiationStep::Done(d) && d.session_id == session_id
                && d.sample_rate == sample_rate && d.frame_size == frame_size && d.room
                == request.room && d.username == request.username && d.local_udp_port
                == request.requested_udp_port),
            response matches HandshakeResponse::Reject(reason) ==> step == (
            NegotiationStep::Fail(NegotiationError::Rejected(*reason))),
    {
        match response {
            HandshakeResponse::Accept { session_id, sample_rate, frame_size } => {
                NegotiationStep::Done(
                    SessionDescriptor {
                        session_id: *session_id,
                        sample_rate: *sample_rate,
                        frame_size: *frame_size,
                        room: request.room,
                        username: request.username,
                        local_udp_port: request.requested_udp_port,
                    },
                )
            },
            HandshakeResponse::Reject(reason) => {
                NegotiationStep::Fail(NegotiationError::Rejected(*reason))
            },
        }
    }
}

} // verus!
