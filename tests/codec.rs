use intercom::add_numbers;
use intercom::jitter::JitterBuffer;
use intercom::rtp::{AudioError, RtpHeader, RtpPacket};
use intercom::ulaw::{compute_decode_ulaw, decode_ulaw, encode_ulaw};

#[test]
fn adds_two_numbers() {
    assert_eq!(add_numbers(2, 2), 4);
}

#[test]
fn ulaw_all_codes_round_trip_preserves_pcm() {
    for b in 0u16..=255 {
        let b = b as u8;
        let pcm1 = decode_ulaw(&[b])[0];
        let b2 = encode_ulaw(&[pcm1])[0];
        let pcm2 = decode_ulaw(&[b2])[0];
        assert_eq!(pcm2, pcm1, "byte 0x{b:02x} changed PCM");
    }
}

#[test]
fn ulaw_special_values() {
    assert_eq!(decode_ulaw(&[0xFF])[0], 0);
    assert_eq!(decode_ulaw(&[0x7F])[0], 0);
    assert_eq!(encode_ulaw(&[0])[0], 0xFF);
}

#[test]
fn ulaw_table_and_compute_decode_match_for_all_codes() {
    for b in 0u16..=255 {
        let b = b as u8;
        let a = compute_decode_ulaw(&[b])[0];
        let t = decode_ulaw(&[b])[0];
        assert_eq!(a, t, "mismatch at byte 0x{b:02x}");
    }
}

#[test]
fn ulaw_known_codes() {
    assert_eq!(decode_ulaw(&[0x00])[0], -32124);
    assert_eq!(decode_ulaw(&[0x80])[0], 32124);
    assert_eq!(encode_ulaw(&[32767])[0], 0x80);
    assert_eq!(encode_ulaw(&[-32768])[0], 0x00);
    assert_eq!(encode_ulaw(&[1000])[0], 0xce);
}

#[test]
fn ulaw_caps_at_512_samples() {
    let samples = vec![0i16; 600];
    assert_eq!(encode_ulaw(&samples).len(), 512);
    assert_eq!(decode_ulaw(&vec![0xFFu8; 513]).len(), 512);
    assert!(encode_ulaw(&[]).is_empty());
}

fn silence(n: usize) -> Vec<i16> {
    vec![0i16; n]
}

#[test]
fn jitter_buffer_reordering() {
    let mut jb: JitterBuffer<4, 4> = JitterBuffer::new();
    jb.push_frame(2, &[20, 21, 22, 23]);
    jb.push_frame(1, &[10, 11, 12, 13]);

    let (f1, ok1) = jb.pop_frame();
    assert!(ok1);
    assert_eq!(f1[..], [10, 11, 12, 13]);

    let (f2, ok2) = jb.pop_frame();
    assert!(ok2);
    assert_eq!(f2[..], [20, 21, 22, 23]);

    let (f3, ok3) = jb.pop_frame();
    assert!(!ok3);
    assert_eq!(f3, silence(4));
}

#[test]
fn jitter_buffer_drops_and_underflow() {
    let mut jb: JitterBuffer<3, 3> = JitterBuffer::new();
    jb.push_frame(5, &[1, 2, 3]);

    let (f1, ok1) = jb.pop_frame();
    assert!(ok1);
    assert_eq!(f1[..], [1, 2, 3]);

    let (f2, ok2) = jb.pop_frame();
    assert!(!ok2);
    assert_eq!(f2, silence(3));

    let (f3, ok3) = jb.pop_frame();
    assert!(!ok3);
    assert_eq!(f3, silence(3));
}

#[test]
fn jitter_scenario_push_2_1_4_pop_5() {
    let mut jb: JitterBuffer<10, 160> = JitterBuffer::new();
    jb.push_frame(2, &vec![2i16; 160]);
    jb.push_frame(1, &vec![1i16; 160]);
    jb.push_frame(4, &vec![4i16; 160]);
    let expect: [(i16, bool); 5] = [(1, true), (2, true), (0, false), (4, true), (0, false)];
    for (v, real) in expect {
        let (f, ok) = jb.pop_frame();
        assert_eq!(ok, real);
        assert_eq!(f, vec![v; 160]);
    }
}

#[test]
fn jitter_empty_pop_is_silence() {
    let mut jb: JitterBuffer<2, 3> = JitterBuffer::new();
    let (f, ok) = jb.pop_frame();
    assert!(!ok);
    assert_eq!(f, silence(3));
}

#[test]
fn jitter_overflow_evicts_oldest_and_full_buffer_skips_gap() {
    let mut jb: JitterBuffer<2, 2> = JitterBuffer::new();
    jb.push_frame(10, &[1, 1]);
    jb.push_frame(11, &[2, 2]);
    jb.push_frame(12, &[3]);
    let (f, ok) = jb.pop_frame();
    assert!(ok);
    assert_eq!(f, vec![2, 2]);
    let (f, ok) = jb.pop_frame();
    assert!(ok);
    assert_eq!(f, vec![3, 0]);
}

#[test]
fn jitter_duplicate_sequence_is_ignored() {
    let mut jb: JitterBuffer<4, 1> = JitterBuffer::new();
    jb.push_frame(7, &[1]);
    jb.push_frame(7, &[9]);
    assert_eq!(jb.pop_frame(), (vec![1], true));
    assert_eq!(jb.pop_frame(), (vec![0], false));
}

#[test]
fn header_pack_unpack() {
    let header = RtpHeader {
        version: 2,
        padding: false,
        extension: false,
        csrc_count: 0,
        marker: true,
        payload_type: 0,
        sequence_number: 42,
        timestamp: 160,
        ssrc: 0x11223344,
    };
    let packet: RtpPacket<4> = RtpPacket { header, payload: vec![1, 2, 3, 4] };
    let bytes = packet.pack().unwrap();
    let unpacked: RtpPacket<4> = RtpPacket::unpack(&bytes).unwrap();
    assert_eq!(unpacked.header, header);
    assert_eq!(unpacked.payload, packet.payload);
}

#[test]
fn rtp_wire_bytes_are_exact() {
    let header = RtpHeader {
        version: 2,
        padding: false,
        extension: false,
        csrc_count: 0,
        marker: true,
        payload_type: 0,
        sequence_number: 0x0102,
        timestamp: 0x03040506,
        ssrc: 0x0708090a,
    };
    let packet: RtpPacket<2> = RtpPacket::new(header, vec![0xaa, 0xbb]);
    let bytes = packet.pack().unwrap();
    assert_eq!(bytes, vec![0x80, 0x80, 1, 2, 3, 4, 5, 6, 7, 8, 9, 10, 0xaa, 0xbb]);
    assert_eq!(RtpHeader::default().version, 2);
}

#[test]
fn rtp_short_buffer_is_invalid_and_long_payload_is_full() {
    assert_eq!(RtpPacket::<4>::unpack(&[0u8; 11]), Err(AudioError::InvalidPacket));
    assert_eq!(RtpPacket::<4>::unpack(&[0x80u8; 17]), Err(AudioError::BufferFull));
    let big: RtpPacket<600> = RtpPacket { header: RtpHeader::default(), payload: vec![0; 513] };
    assert_eq!(big.pack(), Err(AudioError::BufferFull));
}

#[test]
fn jitter_duplicate_on_full_buffer_keeps_frames() {
    let mut jb: JitterBuffer<2, 1> = JitterBuffer::new();
    jb.push_frame(10, &[1]);
    jb.push_frame(11, &[2]);
    jb.push_frame(11, &[9]);
    assert_eq!(jb.pop_frame(), (vec![1], true));
    assert_eq!(jb.pop_frame(), (vec![2], true));
    assert_eq!(jb.pop_frame(), (vec![0], false));
}
