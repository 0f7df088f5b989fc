use intercom::agent::{build_contact_uri, parse_uri, SipAction, SipAgent};
use intercom::audio::{downsample_pairs, plan_transition, AudioCore, Engine, EngineKind};
use intercom::auth::md5_hex;
use intercom::messages::{
    HardwareError, WifiConfig, AudioCommand, AudioMode, ButtonEvent, ButtonState, LedState, PhoneState, RtpCommand, UiCommand,
};
use intercom::rtp::{RtpHeader, RtpPacket};
use intercom::rtp_session::{parse_ipv4, RtpSession};
use intercom::transaction::Endpoint;
use intercom::ui::{LedPattern, UiState};

fn agent() -> SipAgent {
    SipAgent::new("sip:registrar", "sip:u@example.com", "u", "p", "10.0.0.2", 5060, 4000, 20, 0)
}

fn peer() -> Endpoint {
    Endpoint::new(192, 0, 2, 5, 5060)
}

fn invite(body: &str) -> String {
    format!(
        "INVITE sip:u@10.0.0.2 SIP/2.0\r\nVia: SIP/2.0/UDP 192.0.2.5:5060;branch=z9hG4bKa\r\n\
From: <sip:bob@192.0.2.5>;tag=bob1\r\nTo: <sip:u@10.0.0.2>\r\nCall-ID: call-1\r\n\
CSeq: 1 INVITE\r\nContent-Type: application/sdp\r\n\r\n{}",
        body
    )
}

const OFFER: &str = "v=0\r\no=- 1 1 IN IP4 192.0.2.5\r\ns=-\r\nc=IN IP4 192.0.2.5\r\nt=0 0\r\nm=audio 20000 RTP/AVP 0\r\n";

fn sent_texts(actions: &[SipAction]) -> Vec<String> {
    actions
        .iter()
        .filter_map(|a| match a {
            SipAction::SendTo(_, t) => Some(t.clone()),
            SipAction::SendToRegistrar(t) => Some(t.clone()),
            _ => None,
        })
        .collect()
}

#[test]
fn contact_and_registrar_uris() {
    assert_eq!(build_contact_uri("sip:alice@example.com", "10.0.0.2", 5070), "sip:alice@10.0.0.2:5070");
    assert_eq!(parse_uri("sip:192.0.2.1"), "192.0.2.1:5060");
    assert_eq!(parse_uri("sip:192.0.2.1:5080"), "192.0.2.1:5080");
}

#[test]
fn registration_with_digest_scenario() {
    let mut a = agent();
    let first = a.maybe_send_register(0);
    let texts = sent_texts(&first);
    assert_eq!(texts.len(), 1);
    assert!(texts[0].starts_with("REGISTER sip:registrar SIP/2.0\r\n"));
    assert!(texts[0].contains("Expires: 30\r\n"));
    let challenge = "SIP/2.0 401 Unauthorized\r\nCSeq: 1 REGISTER\r\n\
WWW-Authenticate: Digest realm=\"x\", nonce=\"n\", algorithm=MD5\r\n\r\n";
    let acts = a.on_datagram(challenge, Endpoint::new(10, 0, 0, 1, 5060), 100);
    assert!(sent_texts(&acts).is_empty());
    assert!(a.next_register_at() <= 1100);
    let second = sent_texts(&a.maybe_send_register(a.next_register_at()));
    assert_eq!(second.len(), 1);
    let ha1 = md5_hex(b"u:x:p");
    let ha2 = md5_hex(b"REGISTER:sip:registrar");
    let response = md5_hex(format!("{}:n:{}", ha1, ha2).as_bytes());
    assert!(second[0].contains(&format!("response=\"{}\"", response)), "{}", second[0]);
    assert!(second[0].contains("CSeq: 2 REGISTER\r\n"));
}

#[test]
fn registration_refresh_scenario() {
    let mut a = agent();
    let first = sent_texts(&a.maybe_send_register(0));
    let ok = "SIP/2.0 200 OK\r\nCSeq: 1 REGISTER\r\nExpires: 100\r\n\r\n";
    let acts = a.on_datagram(ok, Endpoint::new(10, 0, 0, 1, 5060), 1000);
    assert_eq!(acts, vec![SipAction::Ui(UiCommand::RegistrationStateChanged(true))]);
    assert_eq!(a.next_register_at(), 1000 + 80_000);
    assert!(a.maybe_send_register(80_999).is_empty());
    let next = sent_texts(&a.maybe_send_register(81_000));
    assert_eq!(next.len(), 1);
    for h in ["Call-ID: reg-1\r\n", "From: sip:u@10.0.0.2:5060;tag=from-1\r\n", "To: sip:u@10.0.0.2:5060;tag=to-1\r\n"] {
        assert!(first[0].contains(h));
        assert!(next[0].contains(h));
    }
    assert!(next[0].contains("CSeq: 2 REGISTER\r\n"));
    assert!(next[0].contains("Expires: 100\r\n"));
}

#[test]
fn registration_failure_retries_in_thirty_seconds() {
    let mut a = agent();
    a.maybe_send_register(0);
    let fail = "SIP/2.0 503 Service Unavailable\r\nCSeq: 1 REGISTER\r\n\r\n";
    a.on_datagram(fail, Endpoint::new(10, 0, 0, 1, 5060), 10);
    assert_eq!(a.next_register_at(), 30_010);
}

#[test]
fn incoming_call_bad_sdp_is_declined() {
    let mut a = agent();
    let acts = a.on_datagram(&invite("not sdp"), peer(), 0);
    let texts = sent_texts(&acts);
    assert_eq!(texts.len(), 1);
    assert!(texts[0].starts_with("SIP/2.0 488 Not Acceptable Here\r\n"));
    assert_eq!(a.phone_state(), PhoneState::Idle);
    assert!(!a.has_call());
}

fn to_tag(text: &str) -> String {
    let line = text.lines().find(|l| l.starts_with("To: ")).unwrap();
    line.split(";tag=").nth(1).unwrap().to_string()
}

fn answered_call() -> (SipAgent, String) {
    let mut a = agent();
    let acts = a.on_datagram(&invite(OFFER), peer(), 0);
    let texts = sent_texts(&acts);
    assert_eq!(texts.len(), 1);
    assert!(texts[0].starts_with("SIP/2.0 180 Ringing\r\n"));
    assert!(acts.contains(&SipAction::Ui(UiCommand::DialogStateChanged(PhoneState::Ringing))));
    assert!(acts.contains(&SipAction::Audio(AudioCommand::SetDialogState(PhoneState::Ringing))));
    let ok = sent_texts(&a.handle_button_event(ButtonEvent::ShortPress, 500));
    assert_eq!(ok.len(), 1);
    assert!(ok[0].starts_with("SIP/2.0 200 OK\r\n"));
    assert!(ok[0].contains("m=audio 4000 RTP/AVP 0"));
    assert!(ok[0].contains("Contact: <sip:u@10.0.0.2:5060>\r\n"));
    (a, ok[0].clone())
}

#[test]
fn incoming_call_answered_scenario() {
    let (mut a, ok) = answered_call();
    let tag = to_tag(&ok);
    let ack = format!(
        "ACK sip:u@10.0.0.2 SIP/2.0\r\nVia: SIP/2.0/UDP 192.0.2.5:5060;branch=z9hG4bKb\r\n\
From: <sip:bob@192.0.2.5>;tag=bob1\r\nTo: <sip:u@10.0.0.2>;tag={}\r\nCall-ID: call-1\r\nCSeq: 1 ACK\r\n\r\n",
        tag
    );
    let acts = a.on_datagram(&ack, peer(), 600);
    assert!(acts.contains(&SipAction::Rtp(RtpCommand::StartStream {
        remote_ip: "192.0.2.5".to_string(),
        remote_port: 20000,
        expected_remote_ssrc: None,
        local_ssrc: None,
        payload_type: 0,
    })));
    assert_eq!(a.phone_state(), PhoneState::Established);
    // push-to-talk edges
    assert_eq!(
        a.handle_button_event(ButtonEvent::StateChanged(ButtonState::Pressed), 700),
        vec![SipAction::Audio(AudioCommand::SetMode(AudioMode::Talk))]
    );
    assert_eq!(
        a.handle_button_event(ButtonEvent::StateChanged(ButtonState::Released), 800),
        vec![SipAction::Audio(AudioCommand::SetMode(AudioMode::Listen))]
    );
    // hang up
    let bye = a.handle_button_event(ButtonEvent::DoubleTap, 900);
    assert_eq!(bye[0], SipAction::Rtp(RtpCommand::StopStream));
    assert_eq!(a.phone_state(), PhoneState::Idle);
    assert!(!a.has_call());
}

#[test]
fn ptt_without_call_does_nothing() {
    let mut a = agent();
    assert!(a.handle_button_event(ButtonEvent::StateChanged(ButtonState::Pressed), 0).is_empty());
}

#[test]
fn ring_timeout_scenario() {
    let mut a = agent();
    a.on_datagram(&invite(OFFER), peer(), 0);
    assert!(a.check_call_timeouts(19_999).is_empty());
    let acts = a.check_call_timeouts(20_000);
    let texts = sent_texts(&acts);
    assert_eq!(texts.len(), 1);
    assert!(texts[0].starts_with("SIP/2.0 480 Temporarily Unavailable\r\n"));
    assert!(acts.contains(&SipAction::Rtp(RtpCommand::StopStream)));
    assert!(acts.contains(&SipAction::Ui(UiCommand::DialogStateChanged(PhoneState::Idle))));
    assert!(acts.contains(&SipAction::Audio(AudioCommand::SetDialogState(PhoneState::Idle))));
    assert!(a.check_call_timeouts(40_000).is_empty());
    assert_eq!(a.phone_state(), PhoneState::Idle);
}

#[test]
fn second_invite_while_ringing_is_busy() {
    let mut a = agent();
    a.on_datagram(&invite(OFFER), peer(), 0);
    let other = invite(OFFER).replace("call-1", "call-2").replace("bob1", "carol");
    let texts = sent_texts(&a.on_datagram(&other, peer(), 10));
    assert_eq!(texts.len(), 1);
    assert!(texts[0].starts_with("SIP/2.0 486 Busy Here\r\n"));
}

#[test]
fn options_gets_allow_and_accept() {
    let mut a = agent();
    let opt = "OPTIONS sip:u@10.0.0.2 SIP/2.0\r\nVia: SIP/2.0/UDP 192.0.2.5\r\nFrom: <sip:x>;tag=1\r\n\
To: <sip:u>\r\nCall-ID: o1\r\nCSeq: 7 OPTIONS\r\n\r\n";
    let texts = sent_texts(&a.on_datagram(opt, peer(), 0));
    assert_eq!(texts.len(), 1);
    assert!(texts[0].starts_with("SIP/2.0 200 OK\r\n"));
    assert!(texts[0].contains("Allow: INVITE, ACK, CANCEL, BYE, OPTIONS\r\n"));
    assert!(texts[0].contains("Accept: application/sdp\r\n"));
}

#[test]
fn final_response_is_retransmitted_by_timers() {
    let (mut a, _) = answered_call();
    assert!(a.process_core_timers(900).is_empty());
    let again = sent_texts(&a.process_core_timers(1000));
    assert_eq!(again.len(), 1);
    assert!(again[0].starts_with("SIP/2.0 200 OK\r\n"));
}

#[test]
fn ui_gestures() {
    let mut ui = UiState::new(ButtonState::Released, 0);
    assert_eq!(ui.poll_button(ButtonState::Pressed, 0), vec![ButtonEvent::StateChanged(ButtonState::Pressed)]);
    assert_eq!(
        ui.poll_button(ButtonState::Released, 100),
        vec![ButtonEvent::StateChanged(ButtonState::Released), ButtonEvent::ShortPress]
    );
    ui.poll_button(ButtonState::Pressed, 200);
    assert_eq!(
        ui.poll_button(ButtonState::Released, 300),
        vec![ButtonEvent::StateChanged(ButtonState::Released), ButtonEvent::DoubleTap]
    );
    ui.poll_button(ButtonState::Pressed, 1000);
    assert_eq!(ui.poll_button(ButtonState::Released, 1700), vec![ButtonEvent::StateChanged(ButtonState::Released)]);
    assert!(ui.poll_button(ButtonState::Released, 1740).is_empty());
}

#[test]
fn ui_led_patterns() {
    assert_eq!(LedPattern::for_state(PhoneState::Ringing, true).blink_period_ms, Some(300));
    let mut ui = UiState::new(ButtonState::Released, 0);
    assert_eq!(ui.update_led(0), Some(LedState::Color { red: 255, green: 0, blue: 0 }));
    assert_eq!(ui.update_led(100), None);
    assert_eq!(ui.update_led(800), Some(LedState::Off));
    ui.handle_command(UiCommand::RegistrationStateChanged(true), 900);
    assert_eq!(ui.update_led(900), Some(LedState::Color { red: 0, green: 255, blue: 0 }));
    ui.handle_command(UiCommand::DialogStateChanged(PhoneState::Established), 1000);
    assert_eq!(ui.update_led(1000), Some(LedState::Color { red: 0, green: 0, blue: 255 }));
    assert_eq!(ui.update_led(5000), None);
}

fn rtp_bytes(pt: u8, seq: u16, ssrc: u32) -> Vec<u8> {
    let h = RtpHeader { payload_type: pt, sequence_number: seq, ssrc, ..RtpHeader::default() };
    RtpPacket::<4>::new(h, vec![0xff, 0xff]).pack().unwrap()
}

#[test]
fn rtp_session_filters_and_sends() {
    assert_eq!(parse_ipv4("192.0.2.5"), Some(0xc000_0205));
    assert_eq!(parse_ipv4("192.0.2"), None);
    assert_eq!(parse_ipv4("192.0.2.256"), None);
    let mut s = RtpSession::new(7, 0);
    s.handle_command(
        &RtpCommand::StartStream {
            remote_ip: "192.0.2.5".into(),
            remote_port: 20000,
            expected_remote_ssrc: None,
            local_ssrc: None,
            payload_type: 0,
        },
        99,
        0,
    );
    assert!(s.is_active());
    assert_eq!(s.local_ssrc(), 99);
    let nat = Endpoint::new(192, 0, 2, 5, 31000);
    assert!(s.handle_rx_packet(&rtp_bytes(0, 1, 5), Endpoint::new(192, 0, 2, 6, 20000)).is_none());
    assert!(s.handle_rx_packet(&rtp_bytes(8, 1, 5), nat).is_none());
    assert!(s.handle_rx_packet(&[0u8; 11], nat).is_none());
    let got = s.handle_rx_packet(&rtp_bytes(0, 1, 5), nat).unwrap();
    assert_eq!(got.header.sequence_number, 1);
    assert!(s.handle_rx_packet(&rtp_bytes(0, 2, 6), nat).is_none());
    assert!(s.handle_rx_packet(&rtp_bytes(0, 2, 5), nat).is_some());
    let (dest, bytes) = s.send_one(vec![1, 2]).unwrap();
    assert_eq!(dest, nat);
    let (dest2, bytes2) = s.send_one(vec![3]).unwrap();
    assert_eq!(dest2, nat);
    let p1 = RtpPacket::<512>::unpack(&bytes).unwrap();
    let p2 = RtpPacket::<512>::unpack(&bytes2).unwrap();
    assert_eq!(p1.header.sequence_number + 1, p2.header.sequence_number);
    assert_eq!(p1.header.timestamp + 160, p2.header.timestamp);
    assert_eq!(p1.header.ssrc, 99);
    assert!(s.tick_due(20));
    s.advance_tick(65);
    assert!(!s.tick_due(79));
    assert!(s.tick_due(80));
    s.handle_command(&RtpCommand::StopStream, 0, 100);
    assert!(!s.is_active());
    assert!(s.send_one(vec![1]).is_none());
}

#[test]
fn audio_ptt_cycle_produces_frames_only_while_talking() {
    let mut core = AudioCore::new();
    core.handle_command(AudioCommand::SetDialogState(PhoneState::Established));
    assert_eq!(core.wanted(), EngineKind::Listen);
    core.handle_command(AudioCommand::SetMode(AudioMode::Talk));
    assert_eq!(core.wanted(), EngineKind::Talk);
    core.set_engine(EngineKind::Talk);
    let mic = vec![100i16; 320];
    assert!(core.capture_tick(0, &mic).is_none());
    let frame = core.capture_tick(20, &mic).unwrap();
    assert_eq!(frame.len(), 160);
    core.handle_command(AudioCommand::SetMode(AudioMode::Listen));
    assert_eq!(core.wanted(), EngineKind::Listen);
    core.set_engine(EngineKind::Listen);
    assert!(core.capture_tick(40, &mic).is_none());
    assert!(core.capture_tick(60, &mic).is_none());
    assert!(core.playout_tick(60).is_none());
    let out = core.playout_tick(80).unwrap();
    assert_eq!(out.len(), 1920);
    assert!(out.iter().all(|s| *s == 0));
    assert_eq!(core.engine(), Engine::Listen { next: Some(100) });
}

#[test]
fn audio_playout_uses_received_packets() {
    let mut core = AudioCore::new();
    core.handle_command(AudioCommand::SetDialogState(PhoneState::Established));
    core.set_engine(EngineKind::Listen);
    let h = RtpHeader { sequence_number: 3, ..RtpHeader::default() };
    core.handle_rtp_pcmu(&RtpPacket::new(h, vec![0x80; 160]));
    core.playout_tick(0);
    let out = core.playout_tick(20).unwrap();
    assert_eq!(out.len(), 1920);
    assert!(out.iter().any(|s| *s != 0));
    assert_eq!(out[0], out[1]);
}

#[test]
fn downsampling_averages_pairs() {
    let mut v = vec![0i16; 320];
    v[0] = 3;
    v[1] = 4;
    v[2] = -3;
    v[3] = -4;
    let d = downsample_pairs(&v);
    assert_eq!(d.len(), 160);
    assert_eq!(d[0], 3);
    assert_eq!(d[1], -3);
    assert_eq!(downsample_pairs(&[1i16; 10]), vec![0i16; 160]);
}

#[test]
fn wifi_config_limits() {
    let ok = WifiConfig::new("home", "secret", None).unwrap();
    assert_eq!(ok.ssid, "home");
    assert!(ok.username.is_none());
    let long = "x".repeat(33);
    assert!(matches!(WifiConfig::new(&long, "p", None), Err(HardwareError::Config(_))));
    assert!(matches!(WifiConfig::new("s", &"p".repeat(65), None), Err(HardwareError::Config(_))));
    assert!(matches!(WifiConfig::new("s", "p", Some(&long)), Err(HardwareError::Config(_))));
    assert_eq!(WifiConfig::new("s", "p", Some("user")).unwrap().username.as_deref(), Some("user"));
}

#[test]
fn hangup_before_ack_does_nothing() {
    let (mut a, _) = answered_call();
    assert!(a.handle_button_event(ButtonEvent::DoubleTap, 550).is_empty());
    assert!(a.has_call());
    assert_eq!(a.phone_state(), PhoneState::Ringing);
}

#[test]
fn audio_engine_transitions() {
    assert_eq!(plan_transition(EngineKind::Off, EngineKind::Off), None);
    assert_eq!(plan_transition(EngineKind::Off, EngineKind::Listen), Some((false, EngineKind::Listen)));
    assert_eq!(plan_transition(EngineKind::Listen, EngineKind::Talk), Some((true, EngineKind::Talk)));
    let mut core = AudioCore::new();
    core.complete_start(EngineKind::Talk, false);
    assert_eq!(core.engine(), Engine::Off);
    core.complete_start(EngineKind::Talk, true);
    assert_eq!(core.engine(), Engine::Talk { next: None });
}

#[test]
fn invite_without_via_is_not_taken() {
    let mut a = agent();
    let text = invite(OFFER).replace("Via: SIP/2.0/UDP 192.0.2.5:5060;branch=z9hG4bKa\r\n", "");
    let acts = a.on_datagram(&text, peer(), 0);
    assert!(sent_texts(&acts).is_empty());
    assert!(!a.has_call());
    assert_eq!(a.phone_state(), PhoneState::Idle);
}
