use voicechat::wire::{decode_packet, encode_packet, ProtocolError, WirePacket};

#[test]
fn encode_exact_little_endian_layout() {
    let p = WirePacket {
        session_id: 0x0102_0304,
        sequence: 0x1122_3344,
        capture_timestamp: 0x0506_0708_090A_0B0C,
        payload: vec![0xAABB_CCDD, 0x0000_0001],
    };
    let bytes = encode_packet(&p);
    let expected: Vec<u8> = vec![
        0x04, 0x03, 0x02, 0x01, // session id, little-endian
        0x44, 0x33, 0x22, 0x11, // sequence
        0x0C, 0x0B, 0x0A, 0x09, 0x08, 0x07, 0x06, 0x05, // timestamp
        0x02, 0x00, 0x00, 0x00, // sample count
        0xDD, 0xCC, 0xBB, 0xAA, // word 0
        0x01, 0x00, 0x00, 0x00, // word 1
    ];
    assert_eq!(bytes, expected);
}

#[test]
fn decode_round_trips_f32_bit_patterns() {
    let samples: Vec<f32> = vec![0.5, -1.0, 0.0, 3.25];
    let words: Vec<u32> = samples.iter().map(|s| s.to_bits()).collect();
    let p = WirePacket {
        session_id: 77,
        sequence: 41,
        capture_timestamp: 960,
        payload: words.clone(),
    };
    let bytes = encode_packet(&p);
    let q = decode_packet(&bytes, 77, 4).expect("well-formed datagram");
    assert_eq!(q.session_id, 77);
    assert_eq!(q.sequence, 41);
    assert_eq!(q.capture_timestamp, 960);
    assert_eq!(q.payload, words);
    let back: Vec<f32> = q.payload.iter().map(|w| f32::from_bits(*w)).collect();
    assert_eq!(back, samples);
}

#[test]
fn decode_rejects_short_datagram() {
    let bytes: Vec<u8> = vec![1, 2, 3];
    assert_eq!(decode_packet(&bytes, 1, 4), Err(ProtocolError::TooShort));
}

#[test]
fn decode_rejects_foreign_session() {
    let p = WirePacket { session_id: 5, sequence: 0, capture_timestamp: 0, payload: vec![0] };
    let bytes = encode_packet(&p);
    assert_eq!(decode_packet(&bytes, 6, 1), Err(ProtocolError::WrongSession));
}

#[test]
fn decode_rejects_wrong_sample_count() {
    let p = WirePacket { session_id: 5, sequence: 0, capture_timestamp: 0, payload: vec![0, 0] };
    let bytes = encode_packet(&p);
    assert_eq!(decode_packet(&bytes, 5, 3), Err(ProtocolError::WrongSampleCount));
}

#[test]
fn decode_rejects_truncated_payload() {
    let p = WirePacket { session_id: 5, sequence: 0, capture_timestamp: 0, payload: vec![0, 0] };
    let mut bytes = encode_packet(&p);
    bytes.pop();
    assert_eq!(decode_packet(&bytes, 5, 2), Err(ProtocolError::LengthMismatch));
}
