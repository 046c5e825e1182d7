use voicechat::capture::FrameQueue;
use voicechat::packetizer::Packetizer;
use voicechat::participants::ParticipantTable;
use voicechat::wire::{decode_packet, encode_packet, WirePacket};
use voicechat::{enqueue_output_audio, play_audio, send_audio, FULL_SCALE};

const SESSION: u32 = 42;

fn to_fixed(x: f32) -> i32 {
    let v = x * FULL_SCALE as f32;
    let fs = FULL_SCALE as f32;
    v.clamp(-fs, fs) as i32
}

fn to_float(s: i32) -> f32 {
    s as f32 / FULL_SCALE as f32
}

/// Deterministic pseudo-random stream for the simulated channel.
struct Lcg(u64);

impl Lcg {
    fn next(&mut self) -> u64 {
        self.0 = self
            .0
            .wrapping_mul(6364136223846793005)
            .wrapping_add(1442695040888963407);
        self.0 >> 33
    }
}

#[test]
fn inactive_participant_leaves_the_mix_and_returns() {
    let frame_size = 4;
    let timeout = 1000;
    let mut table = ParticipantTable::new(frame_size, 1, 16, timeout);
    let loud = vec![1000; frame_size];

    // a sender appears and contributes
    assert!(enqueue_output_audio(&mut table, 0, 7, 0, loud.clone()));
    assert_eq!(table.participants.len(), 1);
    let out = play_audio(&mut table, 100);
    assert_eq!(out, vec![1000; frame_size]);

    // it falls silent past the timeout: evicted, mixes are silence
    table.evict_inactive(1500);
    assert_eq!(table.participants.len(), 0);
    let silent = play_audio(&mut table, 1500);
    assert_eq!(silent, vec![0; frame_size]);

    // traffic resumes: the sender is re-created and re-included
    assert!(enqueue_output_audio(&mut table, 2000, 7, 50, loud.clone()));
    assert_eq!(table.participants.len(), 1);
    let back = play_audio(&mut table, 2000);
    assert_eq!(back, vec![1000; frame_size]);
}

#[test]
fn still_active_participant_survives_eviction() {
    let mut table = ParticipantTable::new(2, 1, 8, 1000);
    assert!(enqueue_output_audio(&mut table, 500, 1, 0, vec![3, 3]));
    table.evict_inactive(1200); // heard 700 ms ago: stays
    assert_eq!(table.participants.len(), 1);
    table.evict_inactive(1501); // heard 1001 ms ago: goes
    assert_eq!(table.participants.len(), 0);
}

/// End-to-end: a 1 kHz tone, packetized, pushed through a lossy and
/// reordering channel, jitter-buffered and mixed back. The recovered
/// tone keeps its fundamental frequency (zero-crossing count) and its
/// RMS level within a tolerance set by the loss rate.
#[test]
fn tone_survives_lossy_reordering_channel() {
    let sample_rate = 8000usize;
    let frame_size = 80usize; // 10 ms
    let tick_ms = 10u64;
    let n_frames = 120usize; // 1.2 s of audio
    let amplitude = 0.5f32;

    // capture side: synthesize the tone and packetize it
    let mut queue = FrameQueue::new(frame_size, 8);
    let mut packetizer = Packetizer::new(frame_size);
    let mut rng = Lcg(12345);
    let mut sent: Vec<(u64, Vec<u8>)> = Vec::new(); // (delivery time, datagram)
    for i in 0..n_frames {
        let mut frame: Vec<i32> = Vec::with_capacity(frame_size);
        for k in 0..frame_size {
            let t = (i * frame_size + k) as f32 / sample_rate as f32;
            let x = amplitude * (2.0 * std::f32::consts::PI * 1000.0 * t).sin();
            frame.push(to_fixed(x));
        }
        queue.push_frame(frame);
        let pkt = send_audio(&mut queue, &mut packetizer);
        let words: Vec<u32> = pkt.payload.iter().map(|s| to_float(*s).to_bits()).collect();
        let wire = WirePacket {
            session_id: SESSION,
            sequence: pkt.sequence,
            capture_timestamp: pkt.capture_timestamp,
            payload: words,
        };
        let bytes = encode_packet(&wire);
        let send_time = i as u64 * tick_ms;
        if rng.next() % 100 < 5 {
            continue; // 5% loss
        }
        let delay = rng.next() % 51; // 0..=50 ms of jitter
        sent.push((send_time + delay, bytes));
    }
    sent.sort_by_key(|(at, _)| *at);

    // receive side: deliver by arrival time, pull one mix per tick
    let mut table = ParticipantTable::new(frame_size, 6, 64, 5000);
    let mut next = 0usize;
    let mut output: Vec<f32> = Vec::new();
    let total_ticks = n_frames + 20;
    for tick in 0..total_ticks {
        let now = tick as u64 * tick_ms;
        while next < sent.len() && sent[next].0 <= now {
            let (_, bytes) = &sent[next];
            if let Ok(p) = decode_packet(bytes, SESSION, frame_size) {
                let samples: Vec<i32> =
                    p.payload.iter().map(|w| to_fixed(f32::from_bits(*w))).collect();
                assert!(enqueue_output_audio(&mut table, now, 1, p.sequence, samples));
            }
            next += 1;
        }
        let mixed = play_audio(&mut table, now);
        assert_eq!(mixed.len(), frame_size);
        for s in &mixed {
            assert!(-FULL_SCALE <= *s && *s <= FULL_SCALE);
        }
        output.extend(mixed.iter().map(|s| to_float(*s)));
    }

    // measure a settled window well past the fill phase
    let start = 30 * frame_size;
    let end = 110 * frame_size;
    let window = &output[start..end];
    let seconds = (end - start) as f32 / sample_rate as f32;

    let rms = (window.iter().map(|x| x * x).sum::<f32>() / window.len() as f32).sqrt();
    let input_rms = amplitude / 2.0f32.sqrt();
    assert!(
        (rms - input_rms).abs() < 0.2 * input_rms,
        "rms {} vs input {}",
        rms,
        input_rms
    );

    let mut crossings = 0usize;
    for w in window.windows(2) {
        if (w[0] >= 0.0) != (w[1] >= 0.0) {
            crossings += 1;
        }
    }
    let expected = 2.0 * 1000.0 * seconds;
    assert!(
        (crossings as f32 - expected).abs() < 0.1 * expected,
        "crossings {} vs expected {}",
        crossings,
        expected
    );
}
