//! Wire format of an audio datagram.
//!
//! A packet is a fixed little-endian header followed by the payload:
//! session id (u32), sequence (u32), capture timestamp (u64), sample
//! count (u32), then `sample_count` 32-bit sample words, each
//! little-endian. Serialization is byte-explicit — no reinterpretation of
//! sample memory — so the layout is identical on every platform. A
//! receiver validates the session id, the declared sample count against
//! the negotiated frame size, and the datagram length; anything malformed
//! is classified and discarded, never propagated as a failure.

use vstd::prelude::*;

verus! {

/// Why an incoming datagram was discarded.
#[derive(Clone, Copy, PartialEq, Eq, Structural, Debug)]
pub enum ProtocolError {
    /// Shorter than the fixed header.
    TooShort,
    /// Session id does not match the negotiated session.
    WrongSession,
    /// Declared sample count differs from the negotiated frame size.
    WrongSampleCount,
    /// Datagram length disagrees with the declared sample count.
    LengthMismatch,
}

/// A parsed audio datagram. Payload samples are opaque 32-bit words here:
/// the wire layer orders bytes, it does not interpret amplitudes.
#[derive(Debug, PartialEq)]
pub struct WirePacket {
    pub session_id: u32,
    pub sequence: u32,
    pub capture_timestamp: u64,
    pub payload: Vec<u32>,
}

/// The u32 whose little-endian bytes are `b0..b3`.
pub open spec fn le32_val(b0: u8, b1: u8, b2: u8, b3: u8) -> u32 {
    (b0 as u32) | ((b1 as u32) << 8) | ((b2 as u32) << 16) | ((b3 as u32) << 24)
}

/// The little-endian bytes of `x`.
pub open spec fn le_bytes_u32(x: u32) -> Seq<u8> {
    seq![
        (x & 0xff) as u8,
        ((x >> 8) & 0xff) as u8,
        ((x >> 16) & 0xff) as u8,
        ((x >> 24) & 0xff) as u8,
    ]
}

/// The u64 whose little-endian bytes are `b0..b7`.
pub open spec fn le64_val(
    b0: u8,
    b1: u8,
    b2: u8,
    b3: u8,
    b4: u8,
    b5: u8,
    b6: u8,
    b7: u8,
) -> u64 {
    (b0 as u64) | ((b1 as u64) << 8) | ((b2 as u64) << 16) | ((b3 as u64) << 24) | ((b4
        as u64) << 32) | ((b5 as u64) << 40) | ((b6 as u64) << 48) | ((b7 as u64) << 56)
}

/// The little-endian bytes of `x`.
pub open spec fn le_bytes_u64(x: u64) -> Seq<u8> {
    seq![
        (x & 0xff) as u8,
        ((x >> 8) & 0xff) as u8,
        ((x >> 16) & 0xff) as u8,
        ((x >> 24) & 0xff) as u8,
        ((x >> 32) & 0xff) as u8,
        ((x >> 40) & 0xff) as u8,
        ((x >> 48) & 0xff) as u8,
        ((x >> 56) & 0xff) as u8,
    ]
}

/// The little-endian bytes of each sample word, concatenated.
pub open spec fn payload_bytes(words: Seq<u32>) -> Seq<u8>
    decreases words.len(),
{
    if words.len() == 0 {
        Seq::empty()
    } else {
        payload_bytes(words.drop_last()) + le_bytes_u32(words.last())
    }
}

/// The full wire image of a packet.
pub open spec fn packet_bytes(
    session_id: u32,
    sequence: u32,
    capture_timestamp: u64,
    payload: Seq<u32>,
) -> Seq<u8> {
    le_bytes_u32(session_id) + le_bytes_u32(sequence) + le_bytes_u64(capture_timestamp)
        + le_bytes_u32(payload.len() as u32) + payload_bytes(payload)
}

/// `bytes` is a well-formed datagram of this session and frame size.
pub open spec fn valid_packet_bytes(bytes: Seq<u8>, session_id: u32, frame_size: nat) -> bool {
    &&& bytes.len() >= 20
    &&& le32_val(bytes[0], bytes[1], bytes[2], bytes[3]) == session_id
    &&& le32_val(bytes[16], bytes[17], bytes[18], bytes[19]) == frame_size
    &&& bytes.len() == 20 + 4 * frame_size
}

/// Decomposing a u32 into its little-endian bytes and reassembling them
/// gives the value back.
pub proof fn lemma_le32_roundtrip(x: u32)
    ensures
        le32_val(
            (x & 0xff) as u8,
            ((x >> 8) & 0xff) as u8,
            ((x >> 16) & 0xff) as u8,
            ((x >> 24) & 0xff) as u8,
        ) == x,
{
    assert(((x & 0xff) as u8 as u32) | ((((x >> 8) & 0xff) as u8 as u32) << 8) | ((((x >> 16)
        & 0xff) as u8 as u32) << 16) | ((((x >> 24) & 0xff) as u8 as u32) << 24) == x)
        by (bit_vector);
}

/// Reassembling four bytes into a u32 and decomposing it gives the bytes
/// back.
pub proof fn lemma_le32_bytes_roundtrip(b0: u8, b1: u8, b2: u8, b3: u8)
    ensures
        le_bytes_u32(le32_val(b0, b1, b2, b3)) == seq![b0, b1, b2, b3],
{
    assert((((b0 as u32) | ((b1 as u32) << 8) | ((b2 as u32) << 16) | ((b3 as u32) << 24))
        & 0xff) as u8 == b0) by (bit_vector);
    assert(((((b0 as u32) | ((b1 as u32) << 8) | ((b2 as u32) << 16) | ((b3 as u32) << 24))
        >> 8) & 0xff) as u8 == b1) by (bit_vector);
    assert(((((b0 as u32) | ((b1 as u32) << 8) | ((b2 as u32) << 16) | ((b3 as u32) << 24))
        >> 16) & 0xff) as u8 == b2) by (bit_vector);
    assert(((((b0 as u32) | ((b1 as u32) << 8) | ((b2 as u32) << 16) | ((b3 as u32) << 24))
        >> 24) & 0xff) as u8 == b3) by (bit_vector);
    assert(le_bytes_u32(le32_val(b0, b1, b2, b3)) =~= seq![b0, b1, b2, b3]);
}

/// Decomposing a u64 into its little-endian bytes and reassembling them
/// gives the value back.
pub proof fn lemma_le64_roundtrip(x: u64)
    ensures
        le64_val(
            (x & 0xff) as u8,
            ((x >> 8) & 0xff) as u8,
            ((x >> 16) & 0xff) as u8,
            ((x >> 24) & 0xff) as u8,
            ((x >> 32) & 0xff) as u8,
            ((x >> 40) & 0xff) as u8,
            ((x >> 48) & 0xff) as u8,
            ((x >> 56) & 0xff) as u8,
        ) == x,
{
    assert(((x & 0xff) as u8 as u64) | ((((x >> 8) & 0xff) as u8 as u64) << 8) | ((((x >> 16)
        & 0xff) as u8 as u64) << 16) | ((((x >> 24) & 0xff) as u8 as u64) << 24) | ((((x >> 32)
        & 0xff) as u8 as u64) << 32) | ((((x >> 40) & 0xff) as u8 as u64) << 40) | ((((x >> 48)
        & 0xff) as u8 as u64) << 48) | ((((x >> 56) & 0xff) as u8 as u64) << 56) == x)
        by (bit_vector);
}

/// Reassembling eight bytes into a u64 and decomposing it gives the bytes
/// back.
pub proof fn lemma_le64_bytes_roundtrip(
    b0: u8,
    b1: u8,
    b2: u8,
    b3: u8,
    b4: u8,
    b5: u8,
    b6: u8,
    b7: u8,
)
    ensures
        le_bytes_u64(le64_val(b0, b1, b2, b3, b4, b5, b6, b7)) == seq![
            b0,
            b1,
            b2,
            b3,
            b4,
            b5,
            b6,
            b7,
        ],
{
    let x = le64_val(b0, b1, b2, b3, b4, b5, b6, b7);
    assert((((b0 as u64) | ((b1 as u64) << 8) | ((b2 as u64) << 16) | ((b3 as u64) << 24) | ((
    b4 as u64) << 32) | ((b5 as u64) << 40) | ((b6 as u64) << 48) | ((b7 as u64) << 56))
        & 0xff) as u8 == b0) by (bit_vector);
    assert(((((b0 as u64) | ((b1 as u64) << 8) | ((b2 as u64) << 16) | ((b3 as u64) << 24) | ((
    b4 as u64) << 32) | ((b5 as u64) << 40) | ((b6 as u64) << 48) | ((b7 as u64) << 56)) >> 8)
        & 0xff) as u8 == b1) by (bit_vector);
    assert(((((b0 as u64) | ((b1 as u64) << 8) | ((b2 as u64) << 16) | ((b3 as u64) << 24) | ((
    b4 as u64) << 32) | ((b5 as u64) << 40) | ((b6 as u64) << 48) | ((b7 as u64) << 56)) >> 16)
        & 0xff) as u8 == b2) by (bit_vector);
    assert(((((b0 as u64) | ((b1 as u64) << 8) | ((b2 as u64) << 16) | ((b3 as u64) << 24) | ((
    b4 as u64) << 32) | ((b5 as u64) << 40) | ((b6 as u64) << 48) | ((b7 as u64) << 56)) >> 24)
        & 0xff) as u8 == b3) by (bit_vector);
    assert(((((b0 as u64) | ((b1 as u64) << 8) | ((b2 as u64) << 16) | ((b3 as u64) << 24) | ((
    b4 as u64) << 32) | ((b5 as u64) << 40) | ((b6 as u64) << 48) | ((b7 as u64) << 56)) >> 32)
        & 0xff) as u8 == b4) by (bit_vector);
    assert(((((b0 as u64) | ((b1 as u64) << 8) | ((b2 as u64) << 16) | ((b3 as u64) << 24) | ((
    b4 as u64) << 32) | ((b5 as u64) << 40) | ((b6 as u64) << 48) | ((b7 as u64) << 56)) >> 40)
        & 0xff) as u8 == b5) by (bit_vector);
    assert(((((b0 as u64) | ((b1 as u64) << 8) | ((b2 as u64) << 16) | ((b3 as u64) << 24) | ((
    b4 as u64) << 32) | ((b5 as u64) << 40) | ((b6 as u64) << 48) | ((b7 as u64) << 56)) >> 48)
        & 0xff) as u8 == b6) by (bit_vector);
    assert(((((b0 as u64) | ((b1 as u64) << 8) | ((b2 as u64) << 16) | ((b3 as u64) << 24) | ((
    b4 as u64) << 32) | ((b5 as u64) << 40) | ((b6 as u64) << 48) | ((b7 as u64) << 56)) >> 56)
        & 0xff) as u8 == b7) by (bit_vector);
    assert(le_bytes_u64(x) =~= seq![b0, b1, b2, b3, b4, b5, b6, b7]);
}

/// The payload image holds four bytes per sample word.
pub proof fn lemma_payload_bytes_len(words: Seq<u32>)
    ensures
        payload_bytes(words).len() == 4 * words.len(),
    decreases words.len(),
{
    if words.len() > 0 {
        lemma_payload_bytes_len(words.drop_last());
    }
}

/// Word `w` of the payload sits at byte offset `4 * w` of its image.
pub proof fn lemma_payload_bytes_index(words: Seq<u32>, w: int)
    requires
        0 <= w < words.len(),
    ensures
        payload_bytes(words).subrange(4 * w, 4 * w + 4) == le_bytes_u32(words[w]),
    decreases words.len(),
{
    lemma_payload_bytes_len(words);
    lemma_payload_bytes_len(words.drop_last());
    if w == words.len() - 1 {
        assert(payload_bytes(words).subrange(4 * w, 4 * w + 4) =~= le_bytes_u32(words.last()));
    } else {
        lemma_payload_bytes_index(words.drop_last(), w);
        assert(payload_bytes(words).subrange(4 * w, 4 * w + 4) =~= payload_bytes(
            words.drop_last(),
        ).subrange(4 * w, 4 * w + 4));
    }
}

/// Law: encoding round-trips. A packet's wire image is a valid datagram
/// of its own session and sample count, and every header field and
/// payload word read back little-endian from those bytes is exactly the
/// field that was written.
pub proof fn lemma_packet_roundtrip(
    session_id: u32,
    sequence: u32,
    capture_timestamp: u64,
    payload: Seq<u32>,
)
    requires
        payload.len() < 0x1_0000_0000,
    ensures
        ({
            let bytes = packet_bytes(session_id, sequence, capture_timestamp, payload);
            &&& bytes.len() == 20 + 4 * payload.len()
            &&& valid_packet_bytes(bytes, session_id, payload.len())
            &&& le32_val(bytes[4], bytes[5], bytes[6], bytes[7]) == sequence
            &&& le64_val(
                bytes[8],
                bytes[9],
                bytes[10],
                bytes[11],
                bytes[12],
                bytes[13],
                bytes[14],
                bytes[15],
            ) == capture_timestamp
            &&& forall|w: int|
                0 <= w < payload.len() ==> le32_val(
                    bytes[20 + 4 * w],
                    bytes[20 + 4 * w + 1],
                    bytes[20 + 4 * w + 2],
                    bytes[20 + 4 * w + 3],
                ) == payload[w]
        }),
{
    lemma_payload_bytes_len(payload);
    lemma_le32_roundtrip(session_id);
    lemma_le32_roundtrip(sequence);
    lemma_le64_roundtrip(capture_timestamp);
    lemma_le32_roundtrip(payload.len() as u32);
    let bytes = packet_bytes(session_id, sequence, capture_timestamp, payload);
    assert forall|w: int| 0 <= w < payload.len() implies le32_val(
        bytes[20 + 4 * w],
        bytes[20 + 4 * w + 1],
        bytes[20 + 4 * w + 2],
        bytes[20 + 4 * w + 3],
    ) == payload[w] by {
        lemma_payload_bytes_index(payload, w);
        lemma_le32_roundtrip(payload[w]);
        assert(bytes[20 + 4 * w] == payload_bytes(payload).subrange(4 * w, 4 * w + 4)[0]);
        assert(bytes[20 + 4 * w + 1] == payload_bytes(payload).subrange(4 * w, 4 * w + 4)[1]);
        assert(bytes[20 + 4 * w + 2] == payload_bytes(payload).subrange(4 * w, 4 * w + 4)[2]);
        assert(bytes[20 + 4 * w + 3] == payload_bytes(payload).subrange(4 * w, 4 * w + 4)[3]);
    }
}

/// Appends the little-endian bytes of `x`.
pub(crate) fn push_u32_le(out: &mut Vec<u8>, x: u32)
    ensures
        final(out)@ == old(out)@ + le_bytes_u32(x),
{
    out.push((x & 0xff) as u8);
    out.push(((x >> 8) & 0xff) as u8);
    out.push(((x >> 16) & 0xff) as u8);
    out.push(((x >> 24) & 0xff) as u8);
    proof {
        assert(out@ =~= old(out)@ + le_bytes_u32(x));
    }
}

/// Appends the little-endian bytes of `x`.
fn push_u64_le(out: &mut Vec<u8>, x: u64)
    ensures
        final(out)@ == old(out)@ + le_bytes_u64(x),
{
    out.push((x & 0xff) as u8);
    out.push(((x >> 8) & 0xff) as u8);
    out.push(((x >> 16) & 0xff) as u8);
    out.push(((x >> 24) & 0xff) as u8);
    out.push(((x >> 32) & 0xff) as u8);
    out.push(((x >> 40) & 0xff) as u8);
    out.push(((x >> 48) & 0xff) as u8);
    out.push(((x >> 56) & 0xff) as u8);
    proof {
        assert(out@ =~= old(out)@ + le_bytes_u64(x));
    }
}

/// Reads the u32 stored little-endian at `off`.
pub(crate) fn read_u32_le(bytes: &Vec<u8>, off: usize) -> (x: u32)
    requires
        off + 4 <= bytes@.len(),
    ensures
        x == le32_val(bytes@[off as int], bytes@[off + 1], bytes@[off + 2], bytes@[off + 3]),
        le_bytes_u32(x) == bytes@.subrange(off as int, off + 4),
{
    let n = bytes.len();
    let x = (bytes[off] as u32) | ((bytes[off + 1] as u32) << 8) | ((bytes[off + 2] as u32)
        << 16) | ((bytes[off + 3] as u32) << 24);
    proof {
        lemma_le32_bytes_roundtrip(
            bytes@[off as int],
            bytes@[off + 1],
            bytes@[off + 2],
            bytes@[off + 3],
        );
        assert(le_bytes_u32(x) =~= bytes@.subrange(off as int, off + 4));
    }
    x
}

/// Reads the u64 stored little-endian at `off`.
fn read_u64_le(bytes: &Vec<u8>, off: usize) -> (x: u64)
    requires
        off + 8 <= bytes@.len(),
    ensures
        x == le64_val(
            bytes@[off as int],
            bytes@[off + 1],
            bytes@[off + 2],
            bytes@[off + 3],
            bytes@[off + 4],
            bytes@[off + 5],
            bytes@[off + 6],
            bytes@[off + 7],
        ),
        le_bytes_u64(x) == bytes@.subrange(off as int, off + 8),
{
    let n = bytes.len();
    let x = (bytes[off] as u64) | ((bytes[off + 1] as u64) << 8) | ((bytes[off + 2] as u64)
        << 16) | ((bytes[off + 3] as u64) << 24) | ((bytes[off + 4] as u64) << 32) | ((bytes[off
        + 5] as u64) << 40) | ((bytes[off + 6] as u64) << 48) | ((bytes[off + 7] as u64) << 56);
    proof {
        lemma_le64_bytes_roundtrip(
            bytes@[off as int],
            bytes@[off + 1],
            bytes@[off + 2],
            bytes@[off + 3],
            bytes@[off + 4],
            bytes@[off + 5],
            bytes@[off + 6],
            bytes@[off + 7],
        );
        assert(le_bytes_u64(x) =~= bytes@.subrange(off as int, off + 8));
    }
    x
}

/// Serializes a packet to its exact wire image.
pub fn encode_packet(p: &WirePacket) -> (out: Vec<u8>)
    requires
        p.payload@.len() < 0x1_0000_0000,
    ensures
        out@ == packet_bytes(p.session_id, p.sequence, p.capture_timestamp, p.payload@),
        out@.len() == 20 + 4 * p.payload@.len(),
{
    let mut out: Vec<u8> = Vec::new();
    push_u32_le(&mut out, p.session_id);
    push_u32_le(&mut out, p.sequence);
    push_u64_le(&mut out, p.capture_timestamp);
    push_u32_le(&mut out, p.payload.len() as u32);
    let ghost header = out@;
    let mut i: usize = 0;
    while i < p.payload.len()
        invariant
            p.payload@.len() < 0x1_0000_0000,
            i <= p.payload@.len(),
            out@ == header + payload_bytes(p.payload@.subrange(0, i as int)),
            out@.len() == 20 + 4 * i,
            header == le_bytes_u32(p.session_id) + le_bytes_u32(p.sequence) + le_bytes_u64(
                p.capture_timestamp,
            ) + le_bytes_u32(p.payload@.len() as u32),
        decreases p.payload@.len() - i,
    {
        push_u32_le(&mut out, p.payload[i]);
        proof {
            assert(p.payload@.subrange(0, i + 1).drop_last() =~= p.payload@.subrange(
                0,
                i as int,
            ));
            assert(p.payload@.subrange(0, i + 1).last() == p.payload@[i as int]);
        }
        i = i + 1;
    }
    proof {
        assert(p.payload@.subrange(0, p.payload@.len() as int) =~= p.payload@);
    }
    out
}

/// Parses and validates a datagram against the negotiated session id and
/// frame size. Succeeds exactly on well-formed datagrams of this session;
/// everything else is classified for silent discard. On success the
/// parsed packet re-serializes to the very same bytes.
pub fn decode_packet(bytes: &Vec<u8>, session_id: u32, frame_size: usize) -> (r: Result<
    WirePacket,
    ProtocolError,
>)
    requires
        frame_size < 0x1_0000_0000,
    ensures
        r is Ok <==> valid_packet_bytes(bytes@, session_id, frame_size as nat),
        r matches Ok(p) ==> p.session_id == session_id && p.payload@.len() == frame_size
            && bytes@ == packet_bytes(p.session_id, p.sequence, p.capture_timestamp, p.payload@)
            && p.sequence == le32_val(bytes@[4], bytes@[5], bytes@[6], bytes@[7])
            && p.capture_timestamp == le64_val(
            bytes@[8],
            bytes@[9],
            bytes@[10],
            bytes@[11],
            bytes@[12],
            bytes@[13],
            bytes@[14],
            bytes@[15],
        ) && (forall|w: int|
            0 <= w < frame_size ==> p.payload@[w] == le32_val(
                bytes@[20 + 4 * w],
                bytes@[20 + 4 * w + 1],
                bytes@[20 + 4 * w + 2],
                bytes@[20 + 4 * w + 3],
            )),
        bytes@.len() < 20 ==> r == Err::<WirePacket, ProtocolError>(ProtocolError::TooShort),
        bytes@.len() >= 20 && le32_val(bytes@[0], bytes@[1], bytes@[2], bytes@[3]) != session_id
            ==> r == Err::<WirePacket, ProtocolError>(ProtocolError::WrongSession),
        bytes@.len() >= 20 && le32_val(bytes@[0], bytes@[1], bytes@[2], bytes@[3]) == session_id
            && le32_val(bytes@[16], bytes@[17], bytes@[18], bytes@[19]) != frame_size ==> r
            == Err::<WirePacket, ProtocolError>(ProtocolError::WrongSampleCount),
        bytes@.len() >= 20 && le32_val(bytes@[0], bytes@[1], bytes@[2], bytes@[3]) == session_id
            && le32_val(bytes@[16], bytes@[17], bytes@[18], bytes@[19]) == frame_size
            && bytes@.len() != 20 + 4 * (frame_size as int) ==> r == Err::<
            WirePacket,
            ProtocolError,
        >(ProtocolError::LengthMismatch),
{
    if bytes.len() < 20 {
        return Err(ProtocolError::TooShort);
    }
    let sid = read_u32_le(bytes, 0);
    if sid != session_id {
        return Err(ProtocolError::WrongSession);
    }
    let seqn = read_u32_le(bytes, 4);
    let ts = read_u64_le(bytes, 8);
    let count = read_u32_le(bytes, 16);
    if count as usize != frame_size {
        return Err(ProtocolError::WrongSampleCount);
    }
    if frame_size > (usize::MAX - 20) / 4 {
        return Err(ProtocolError::LengthMismatch);
    }
    if bytes.len() != 20 + 4 * frame_size {
        return Err(ProtocolError::LengthMismatch);
    }
    let mut payload: Vec<u32> = Vec::new();
    let mut i: usize = 0;
    while i < frame_size
        invariant
            frame_size < 0x1_0000_0000,
            frame_size <= (usize::MAX - 20) / 4,
            bytes@.len() == 20 + 4 * frame_size,
            i <= frame_size,
            payload@.len() == i,
            payload_bytes(payload@) =~= bytes@.subrange(20, 20 + 4 * (i as int)),
            forall|w: int|
                0 <= w < i ==> payload@[w] == le32_val(
                    bytes@[20 + 4 * w],
                    bytes@[20 + 4 * w + 1],
                    bytes@[20 + 4 * w + 2],
                    bytes@[20 + 4 * w + 3],
                ),
        decreases frame_size - i,
    {
        let w = read_u32_le(bytes, 20 + 4 * i);
        let ghost pre = payload@;
        payload.push(w);
        proof {
            assert(payload@.drop_last() =~= pre);
            assert(payload@.last() == w);
            assert(le_bytes_u32(w) == bytes@.subrange(20 + 4 * (i as int), 20 + 4 * (i as int)
                + 4));
            assert(payload_bytes(payload@) =~= bytes@.subrange(20, 20 + 4 * (i + 1)));
        }
        i = i + 1;
    }
    proof {
        lemma_le32_roundtrip(session_id);
        assert(payload@.len() as u32 == count);
        assert(packet_bytes(sid, seqn, ts, payload@) =~= bytes@);
    }
    Ok(WirePacket { session_id: sid, sequence: seqn, capture_timestamp: ts, payload })
}

} // verus!
