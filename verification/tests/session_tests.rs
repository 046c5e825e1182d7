use voicechat::capture::FrameQueue;
use voicechat::mixer::mix_frames;
use voicechat::packetizer::Packetizer;
use voicechat::session::{
    build_request, decode_response, encode_request, encode_response, ClientData,
    HandshakeRequest, HandshakeResponse, NegotiationError, NegotiationStep, Negotiator,
    RejectReason, Room,
};
use voicechat::transport::SendHealth;
use voicechat::{send_audio, FULL_SCALE};

fn request() -> HandshakeRequest {
    build_request(ClientData {
        udp_port: 4000,
        sample_rate: 48000,
        buffer_size: 480,
        room: Room { name: String::from("lobby"), password: Some(String::from("opensesame")) },
        username: String::from("ada"),
    })
}

#[test]
fn defaults_are_empty() {
    let r = Room::default();
    assert!(r.name.is_empty());
    assert!(r.password.is_none());
    let c = ClientData::default();
    assert_eq!((c.udp_port, c.sample_rate, c.buffer_size), (0, 0, 0));
    assert!(c.username.is_empty());
    assert!(c.room.name.is_empty());
}

#[test]
fn acceptance_yields_descriptor_with_server_session_id() {
    let mut n = Negotiator::new(3, 100);
    let resp = HandshakeResponse::Accept { session_id: 0xDEAD_BEEF, sample_rate: 44100, frame_size: 441 };
    match n.on_response(request(), &resp) {
        NegotiationStep::Done(d) => {
            assert_eq!(d.session_id, 0xDEAD_BEEF);
            assert_eq!(d.sample_rate, 44100); // server override wins
            assert_eq!(d.frame_size, 441);
            assert_eq!(d.room.name, "lobby");
            assert_eq!(d.username, "ada");
            assert_eq!(d.local_udp_port, 4000);
        },
        _ => panic!("acceptance must complete negotiation"),
    }
}

#[test]
fn wrong_password_is_terminal_and_never_retried() {
    let mut n = Negotiator::new(3, 100);
    let resp = HandshakeResponse::Reject(RejectReason::WrongPassword);
    match n.on_response(request(), &resp) {
        NegotiationStep::Fail(e) => {
            assert_eq!(e, NegotiationError::Rejected(RejectReason::WrongPassword));
        },
        _ => panic!("a rejection must fail, never retry"),
    }
    assert_eq!(n.attempts, 0); // no attempt was spent retrying a rejection
}

#[test]
fn connect_failures_back_off_then_give_up() {
    let mut n = Negotiator::new(3, 100);
    match n.on_connect_failure() {
        NegotiationStep::Retry { delay_ms } => assert_eq!(delay_ms, 100),
        _ => panic!("first failure retries"),
    }
    match n.on_connect_failure() {
        NegotiationStep::Retry { delay_ms } => assert_eq!(delay_ms, 200),
        _ => panic!("second failure retries with longer delay"),
    }
    match n.on_connect_failure() {
        NegotiationStep::Fail(e) => assert_eq!(e, NegotiationError::Unreachable),
        _ => panic!("the retry budget is exhausted"),
    }
}

#[test]
fn mixing_full_scale_participants_stays_in_range() {
    // four all-full-scale contributors clamp to full scale, no wrap
    let frames: Vec<Vec<i32>> = vec![vec![FULL_SCALE; 8]; 4];
    let out = mix_frames(&frames, 8);
    assert_eq!(out, vec![FULL_SCALE; 8]);
    let frames_neg: Vec<Vec<i32>> = vec![vec![-FULL_SCALE; 8]; 4];
    let out_neg = mix_frames(&frames_neg, 8);
    assert_eq!(out_neg, vec![-FULL_SCALE; 8]);
    // two opposite contributors cancel exactly
    let mixed = mix_frames(&vec![vec![FULL_SCALE; 2], vec![-FULL_SCALE; 2]], 2);
    assert_eq!(mixed, vec![0, 0]);
    // an empty room mixes to silence
    let silent = mix_frames(&Vec::new(), 3);
    assert_eq!(silent, vec![0, 0, 0]);
}

#[test]
fn send_health_escalates_only_after_consecutive_failures() {
    let mut h = SendHealth::new(3);
    assert!(!h.record(false));
    assert!(!h.record(false));
    assert!(!h.record(true)); // a success clears the run
    assert!(!h.record(false));
    assert!(!h.record(false));
    assert!(h.record(false)); // third consecutive failure escalates
}

#[test]
fn capture_queue_drops_oldest_when_full() {
    let mut q = FrameQueue::new(1, 2);
    assert!(!q.push_frame(vec![1]));
    assert!(!q.push_frame(vec![2]));
    assert!(q.push_frame(vec![3])); // frame [1] is dropped
    assert_eq!(q.dropped, 1);
    assert_eq!(q.pop_frame(), Some(vec![2]));
    assert_eq!(q.pop_frame(), Some(vec![3]));
    assert_eq!(q.pop_frame(), None);
}

#[test]
fn send_audio_emits_silence_on_underrun() {
    let mut q = FrameQueue::new(2, 4);
    let mut pz = Packetizer::new(2);
    q.push_frame(vec![5, 6]);
    let p0 = send_audio(&mut q, &mut pz);
    assert_eq!((p0.sequence, p0.capture_timestamp), (0, 0));
    assert_eq!(p0.payload, vec![5, 6]);
    // queue now empty: the tick still emits, with silence
    let p1 = send_audio(&mut q, &mut pz);
    assert_eq!((p1.sequence, p1.capture_timestamp), (1, 2));
    assert_eq!(p1.payload, vec![0, 0]);
}

#[test]
fn response_codec_round_trips() {
    let acc = HandshakeResponse::Accept { session_id: 9, sample_rate: 48000, frame_size: 480 };
    let bytes = encode_response(&acc);
    assert_eq!(bytes.len(), 13);
    match decode_response(&bytes) {
        Some(HandshakeResponse::Accept { session_id, sample_rate, frame_size }) => {
            assert_eq!((session_id, sample_rate, frame_size), (9, 48000, 480));
        },
        _ => panic!("a well-formed acceptance must decode"),
    }
    let rej = encode_response(&HandshakeResponse::Reject(RejectReason::RoomNotFound));
    assert!(matches!(
        decode_response(&rej),
        Some(HandshakeResponse::Reject(RejectReason::RoomNotFound))
    ));
    assert!(decode_response(&vec![5u8; 13]).is_none()); // unknown status
    assert!(decode_response(&vec![0u8; 12]).is_none()); // short message
}

#[test]
fn request_encoding_exact_layout() {
    let r = HandshakeRequest {
        room: Room { name: String::from("ab"), password: Some(String::from("x")) },
        username: String::from("cd"),
        requested_udp_port: 0x1234,
        sample_rate: 48000,
        frame_size: 480,
    };
    let bytes = encode_request(&r);
    let mut expected: Vec<u8> = vec![0x34, 0x12]; // port, little-endian
    expected.extend_from_slice(&48000u32.to_le_bytes());
    expected.extend_from_slice(&480u32.to_le_bytes());
    expected.push(1); // password present
    expected.extend_from_slice(&2u32.to_le_bytes());
    expected.extend_from_slice(b"ab");
    expected.extend_from_slice(&1u32.to_le_bytes());
    expected.extend_from_slice(b"x");
    expected.extend_from_slice(&2u32.to_le_bytes());
    expected.extend_from_slice(b"cd");
    assert_eq!(bytes, expected);

    let open = HandshakeRequest {
        room: Room { name: String::from("caf\u{e9}"), password: None },
        username: String::from("n"),
        requested_udp_port: 1,
        sample_rate: 8000,
        frame_size: 80,
    };
    let open_bytes = encode_request(&open);
    assert_eq!(open_bytes[10], 0); // no password flag
    assert_eq!(&open_bytes[11..15], &5u32.to_le_bytes()); // UTF-8 length of the room name
    assert_eq!(&open_bytes[15..20], "caf\u{e9}".as_bytes());
}
