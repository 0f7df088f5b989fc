use intercom::agc::{frame_rms_i16, isqrt_u32, Agc};
use intercom::dsp::Up6Polyphase;

#[test]
fn polyphase_output_length_and_dc() {
    for x in [6000i16, -1234, i16::MAX, i16::MIN, 1] {
        let mut up = Up6Polyphase::new();
        let input = [x; 160];
        let mut out = [0i16; 960];
        up.process_frame(&input, &mut out);
        assert_eq!(out.len(), 960);
        // once 16 samples have filled the history, DC passes unchanged
        assert!(out[96..].iter().all(|s| *s == x), "DC {} in the first frame", x);
        let mut out2 = [0i16; 960];
        up.process_frame(&input, &mut out2);
        assert!(out2.iter().all(|s| *s == x), "DC {} in the second frame", x);
    }
    let mut silent = [1i16; 960];
    let mut up2 = Up6Polyphase::new();
    up2.process_frame(&[0i16; 160], &mut silent);
    assert!(silent.iter().all(|s| *s == 0));
}

#[test]
fn polyphase_push_sample_shifts_history() {
    let mut up = Up6Polyphase::new();
    up.push_sample(1000);
    let mut out = [0i16; 960];
    up.process_frame(&[0i16; 160], &mut out);
    assert!(out[..96].iter().any(|s| *s != 0));
    assert!(out[96..].iter().all(|s| *s == 0));
}

#[test]
fn isqrt_and_rms() {
    assert_eq!(isqrt_u32(0), 0);
    assert_eq!(isqrt_u32(15), 3);
    assert_eq!(isqrt_u32(16), 4);
    assert_eq!(isqrt_u32(u32::MAX), 65535);
    assert_eq!(frame_rms_i16(&[3, -3, 3, -3]), 3);
    assert_eq!(frame_rms_i16(&[i16::MIN; 4]), 32768);
}

#[test]
fn agc_moves_gain_toward_target() {
    let mut agc = Agc::new();
    let mut frame = vec![1000i16; 160];
    let (gain, rms) = agc.process_frame(&mut frame);
    assert_eq!(rms, 1000);
    // desired 16000*4096/1000 = 65536; release 16: 12288 + (53248*16 >> 8)
    assert_eq!(gain, 12288 + ((65536 - 12288) * 16 >> 8));
    assert_eq!(frame[0] as i32, (1000 * gain) >> 12);
}

#[test]
fn agc_gate_and_limiter() {
    let mut agc = Agc::new();
    let mut quiet = vec![10i16; 160];
    let (gain, rms) = agc.process_frame(&mut quiet);
    assert_eq!(rms, 10);
    assert_eq!(gain, 12288);
    let mut loud = vec![20000i16; 160];
    let (gain2, _) = agc.process_frame(&mut loud);
    assert!(gain2 < 12288);
    let y = (20000i32 * gain2) >> 12;
    let expect = if y > 28500 { 28500 + ((y - 28500) >> 2) } else { y };
    assert_eq!(loud[0] as i32, expect.clamp(-32768, 32767));
    agc.set_max_gain(8192);
    agc.set_target_rms(8000);
    agc.set_noise_gate_rms(0);
    agc.set_attack_release(255, 255);
}
