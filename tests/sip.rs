use intercom::auth::{
    authorization_header, md5_hex, parse_www_authenticate, DigestChallenge, DigestCredentials,
};
use intercom::message::{header_value, parse_message, Header, Message, Method, Request, Response};
use intercom::registration::{RegistrationResult, RegistrationState, RegistrationTransaction};
use intercom::sdp::{parse, SessionDescription};
use intercom::dialog::{parse_tag_param, Dialog, DialogState};
use intercom::message::SipError;
use intercom::stack::{is_register_response, CoreDialogEvent, CoreEvent, InviteKind, SipStack};
use intercom::transaction::{
    parse_cseq_method, parse_cseq_number, Endpoint, InviteServerTransactionManager, T1_MS,
};

#[test]
fn renders_request_and_response() {
    let mut req = Request::new(Method::Invite, "sip:100@example.com").unwrap();
    req.add_header(Header::new("Via", "SIP/2.0/UDP 192.0.2.1").unwrap()).unwrap();
    let rendered = req.render().unwrap();
    assert!(rendered.starts_with("INVITE sip:100@example.com SIP/2.0"));

    let mut resp = Response::new(200, "OK").unwrap();
    resp.add_header(Header::new("Content-Length", "0").unwrap());
    let rendered_resp = resp.render().unwrap();
    assert!(rendered_resp.starts_with("SIP/2.0 200 OK"));
}

#[test]
fn render_is_exact() {
    let mut req = Request::new(Method::Options, "sip:x").unwrap();
    req.add_header(Header::new("A", "1").unwrap()).unwrap();
    req.set_body("hi").unwrap();
    assert_eq!(req.render().unwrap(), "OPTIONS sip:x SIP/2.0\r\nA: 1\r\n\r\nhi");
    let resp = Response::new(486, "Busy Here").unwrap();
    assert_eq!(resp.render().unwrap(), "SIP/2.0 486 Busy Here\r\n\r\n");
}

#[test]
fn parses_request() {
    let raw = "INVITE sip:100@example.com SIP/2.0\r\nVia: SIP/2.0/UDP host\r\n\r\n";
    let message = parse_message(raw).unwrap();
    match message {
        Message::Request(r) => assert_eq!(r.method, Method::Invite),
        _ => panic!("expected request"),
    }
}

#[test]
fn parses_options_request() {
    let raw = "OPTIONS sip:ping SIP/2.0\r\nVia: SIP/2.0/UDP host\r\n\r\n";
    let message = parse_message(raw).unwrap();
    match message {
        Message::Request(r) => assert_eq!(r.method, Method::Options),
        _ => panic!("expected request"),
    }
}

#[test]
fn parses_response_headers_and_body() {
    let raw = "SIP/2.0 401 Unauthorized Now\r\nCSeq:  2 REGISTER \r\nX:y:z\r\n\r\nline1\r\nline2";
    match parse_message(raw).unwrap() {
        Message::Response(r) => {
            assert_eq!(r.status_code, 401);
            assert_eq!(r.reason, "Unauthorized Now");
            assert_eq!(r.headers.len(), 2);
            assert_eq!(r.headers[0].name, "CSeq");
            assert_eq!(r.headers[0].value, "2 REGISTER");
            assert_eq!(r.headers[1].value, "y:z");
            assert_eq!(r.body, "line1\r\nline2");
            assert_eq!(header_value(&r.headers, "cseq"), Some("2 REGISTER"));
            assert_eq!(header_value(&r.headers, "Via"), None);
        }
        _ => panic!("expected response"),
    }
}

#[test]
fn parse_rejects_malformed() {
    assert!(parse_message("FOO sip:x SIP/2.0\r\n\r\n").is_err());
    assert!(parse_message("INVITE sip:x\r\n\r\n").is_err());
    assert!(parse_message("INVITE sip:x SIP/2.0\r\nNoColon\r\n\r\n").is_err());
    assert!(parse_message("SIP/3.0 200 OK\r\n\r\n").is_err());
    assert!(parse_message("SIP/2.0 abc OK\r\n\r\n").is_err());
    assert!(parse_message("").is_err());
}

#[test]
fn digest_auth_header_matches_reference() {
    let challenge = parse_www_authenticate(
        r#"Digest realm="testrealm@host.com", nonce="dcd98b7102dd2f0e8b11d0f600bfb0c093", algorithm=MD5"#,
    )
    .unwrap();
    let creds = DigestCredentials { username: "Mufasa", password: "Circle Of Life" };
    let header = authorization_header(&challenge, &creds, "GET", "/dir/index.html").unwrap();
    assert!(
        header.value.contains("response=\"670fd8c2df070c60b045671b8b24ff02\""),
        "unexpected header: {}",
        header.value
    );
}

#[test]
fn md5_round_trip_reference() {
    let digest = md5_hex(b"abc");
    assert_eq!(digest.as_str(), "900150983cd24fb0d6963f7d28e17f72");
}

#[test]
fn registration_digest_scenario() {
    let ch = parse_www_authenticate("Digest realm=\"x\", nonce=\"n\", algorithm=MD5").unwrap();
    assert_eq!(ch, DigestChallenge { realm: "x".into(), nonce: "n".into(), algorithm: "MD5".into() });
    let creds = DigestCredentials { username: "u", password: "p" };
    let h = authorization_header(&ch, &creds, "REGISTER", "sip:registrar").unwrap();
    let ha1 = md5_hex(b"u:x:p");
    let ha2 = md5_hex(b"REGISTER:sip:registrar");
    let expected = md5_hex(format!("{}:n:{}", ha1, ha2).as_bytes());
    assert_eq!(expected.len(), 32);
    assert_eq!(
        h.value,
        format!(
            "Digest username=\"u\", realm=\"x\", nonce=\"n\", uri=\"sip:registrar\", response=\"{}\", algorithm=\"MD5\"",
            expected
        )
    );
}

#[test]
fn challenge_parse_errors() {
    assert!(parse_www_authenticate("Basic realm=\"x\"").is_err());
    assert!(parse_www_authenticate("Digest").is_err());
    assert!(parse_www_authenticate("Digest realm=\"x\"").is_err());
    assert!(parse_www_authenticate("Digest realm=\"x\", nonce").is_err());
    let c = parse_www_authenticate("  DIGEST Nonce=abc , REALM=\"r\" ").unwrap();
    assert_eq!(c.nonce, "abc");
    assert_eq!(c.realm, "r");
    assert_eq!(c.algorithm, "MD5");
}

#[test]
fn registration_flow() {
    let mut reg = RegistrationTransaction::default();
    let req = reg
        .build_register("sip:user@example.com", "sip:user@example.com", "192.0.2.1", 5060, 120, None)
        .unwrap();
    assert_eq!(req.method, Method::Register);
    let mut resp = Response::new(200, "OK").unwrap();
    resp.add_header(Header::new("Expires", "120").unwrap());
    reg.handle_response(&resp);
    assert_eq!(reg.state(), RegistrationState::Registered);
}

#[test]
fn register_request_headers() {
    let mut reg = RegistrationTransaction::new();
    let req = reg.build_register("sip:reg", "sip:me@h", "10.0.0.1", 5060, 30, None).unwrap();
    let text = req.render().unwrap();
    assert_eq!(
        text,
        "REGISTER sip:reg SIP/2.0\r\nVia: SIP/2.0/UDP 10.0.0.1:5060;branch=z9hG4bK00000001;rport\r\n\
Max-Forwards: 70\r\nFrom: sip:me@h;tag=from-1\r\nTo: sip:me@h;tag=to-1\r\nCall-ID: reg-1\r\n\
CSeq: 1 REGISTER\r\nContact: sip:me@h\r\nExpires: 30\r\nContent-Length: 0\r\n\r\n"
    );
    assert!(reg.build_register("sip:reg", "sip:me@h", "10.0.0.1", 5060, 30, None).is_err());
    let resp = Response::new(503, "Unavailable").unwrap();
    assert_eq!(reg.handle_response(&resp), RegistrationResult::Failed(503));
    assert_eq!(reg.state(), RegistrationState::Unregistered);
    let again = reg.build_register("sip:reg", "sip:me@h", "10.0.0.1", 5060, 30, None).unwrap();
    assert_eq!(header_value(&again.headers, "CSeq"), Some("2 REGISTER"));
    assert_eq!(header_value(&again.headers, "Call-ID"), Some("reg-1"));
}

#[test]
fn refresh_interval_is_eighty_percent_with_floor() {
    let mut reg = RegistrationTransaction::new();
    let mut resp = Response::new(200, "OK").unwrap();
    resp.add_header(Header::new("Expires", "100").unwrap());
    assert_eq!(reg.handle_response(&resp), RegistrationResult::Registered(100));
    assert_eq!(reg.next_refresh_interval_secs(), 80);
    let mut resp = Response::new(200, "OK").unwrap();
    resp.add_header(Header::new("Expires", "2").unwrap());
    reg.handle_response(&resp);
    assert_eq!(reg.next_refresh_interval_secs(), 4);
    let resp = Response::new(200, "OK").unwrap();
    assert_eq!(reg.handle_response(&resp), RegistrationResult::Registered(2));
}

#[test]
fn builds_basic_offer() {
    let offer = SessionDescription::offer();
    assert_eq!(offer.payload_type, 0);
}

#[test]
fn sdp_parse_and_render() {
    let sdp = parse("v=0\r\no=- 1 1 IN IP4 192.0.2.5\r\nc=IN IP4 192.0.2.5\r\nm=audio 20000 RTP/AVP 0\r\n").unwrap();
    assert_eq!(sdp.connection_address, "192.0.2.5");
    assert_eq!(sdp.media_port, 20000);
    assert_eq!(sdp.payload_type, 0);
    assert_eq!(sdp.origin, "-");
    assert!(parse("not sdp").is_err());
    let local = SessionDescription {
        origin: "-".into(),
        connection_address: "10.0.0.2".into(),
        media_port: 4000,
        payload_type: 0,
    };
    let text = local.render();
    assert!(text.contains("m=audio 4000 RTP/AVP 0\r\n"));
    assert_eq!(parse(&text).unwrap(), local);
}

fn sample_invite() -> Request {
    let mut req = Request::new(Method::Invite, "sip:alice@example.com").unwrap();
    req.add_header(Header::new("Via", "SIP/2.0/UDP 192.0.2.10:5060;branch=z9hG4bK1").unwrap()).unwrap();
    req.add_header(Header::new("From", "<sip:bob@example.com>;tag=from1").unwrap()).unwrap();
    req.add_header(Header::new("To", "<sip:alice@example.com>").unwrap()).unwrap();
    req.add_header(Header::new("Call-ID", "call123").unwrap()).unwrap();
    req.add_header(Header::new("CSeq", "1 INVITE").unwrap()).unwrap();
    req.add_header(Header::new("Content-Length", "0").unwrap()).unwrap();
    req
}

fn sample_response(status: u16) -> Response {
    let mut resp = Response::new(status, "OK").unwrap();
    resp.add_header(Header::new("Via", "SIP/2.0/UDP 192.0.2.10:5060;branch=z9hG4bK1").unwrap());
    resp.add_header(Header::new("From", "<sip:bob@example.com>;tag=from1").unwrap());
    resp.add_header(Header::new("To", "<sip:alice@example.com>;tag=to1").unwrap());
    resp.add_header(Header::new("Call-ID", "call123").unwrap());
    resp.add_header(Header::new("CSeq", "1 INVITE").unwrap());
    resp.add_header(Header::new("Content-Length", "0").unwrap());
    resp
}

fn sample_ack() -> Request {
    let mut req = Request::new(Method::Ack, "sip:alice@example.com").unwrap();
    req.add_header(Header::new("Via", "SIP/2.0/UDP 192.0.2.10:5060;branch=z9hG4bKack").unwrap()).unwrap();
    req.add_header(Header::new("From", "<sip:bob@example.com>;tag=from1").unwrap()).unwrap();
    req.add_header(Header::new("To", "<sip:alice@example.com>;tag=to1").unwrap()).unwrap();
    req.add_header(Header::new("Call-ID", "call123").unwrap()).unwrap();
    req.add_header(Header::new("CSeq", "1 ACK").unwrap()).unwrap();
    req.add_header(Header::new("Content-Length", "0").unwrap()).unwrap();
    req
}

#[test]
fn retransmits_final_response_until_ack() {
    let mut mgr = InviteServerTransactionManager::new();
    let base: u64 = 1_000_000;
    let remote = Endpoint::new(192, 0, 2, 10, 5060);
    let invite = sample_invite();

    assert!(mgr.on_invite(&invite, remote).is_none());

    let resp = sample_response(200);
    mgr.on_outgoing_response(&resp, remote, base);

    assert!(mgr.poll(base + 100).is_empty());

    let events = mgr.poll(base + T1_MS);
    assert_eq!(events.len(), 1);

    let ack = sample_ack();
    mgr.on_ack(&ack, base + 1000);
    assert!(mgr.poll(base + 2000).is_empty());
}

#[test]
fn responds_to_retransmitted_invite_with_last_response() {
    let mut mgr = InviteServerTransactionManager::new();
    let remote = Endpoint::new(192, 0, 2, 10, 5060);
    let invite = sample_invite();
    assert!(mgr.on_invite(&invite, remote).is_none());

    let resp = sample_response(180);
    mgr.on_outgoing_response(&resp, remote, 0);

    let retrans = mgr.on_invite(&invite, remote);
    assert!(retrans.is_some());
    assert_eq!(retrans.unwrap().status_code, 180);
}

#[test]
fn retransmission_backoff_and_timer_h() {
    let mut mgr = InviteServerTransactionManager::new();
    let remote = Endpoint::new(192, 0, 2, 10, 5060);
    mgr.on_outgoing_response(&sample_response(200), remote, 0);
    let first = mgr.poll(500);
    assert_eq!(first.len(), 1);
    assert_eq!(first[0].1, remote);
    assert!(mgr.poll(1400).is_empty());
    assert_eq!(mgr.poll(1500).len(), 1);
    assert!(mgr.poll(32_000).is_empty());
    assert!(mgr.poll(40_000).is_empty());
    assert!(mgr.on_invite(&sample_invite(), remote).is_none());
}

fn request(method: Method, headers: &[(&str, &str)]) -> Request {
    let mut req = Request::new(method, "sip:alice@example.com").unwrap();
    for (n, v) in headers {
        req.add_header(Header::new(n, v).unwrap()).unwrap();
    }
    req
}

#[test]
fn dialog_invite_answer_ack_bye() {
    let mut d = Dialog::new();
    let ev = d.handle_incoming_invite(sample_invite());
    assert_eq!(ev.len(), 1);
    assert!(matches!(
        &ev[0],
        CoreEvent::Dialog(CoreDialogEvent::IncomingInvite { kind: InviteKind::Initial, .. })
    ));
    assert!(matches!(d.state, DialogState::Ringing { .. }));
    let ringing = d.build_response_for_request(&sample_invite(), 180, "Ringing", None).unwrap();
    assert_eq!(header_value(&ringing.headers, "To"), Some("<sip:alice@example.com>;tag=dlg1"));
    // same Call-ID without a To tag once the local tag is set: not in-dialog
    let again = d.handle_incoming_invite(sample_invite());
    assert!(matches!(
        &again[0],
        CoreEvent::Dialog(CoreDialogEvent::IncomingInvite { kind: InviteKind::InitialWhileBusy, .. })
    ));
    let mut reinvite = sample_invite();
    reinvite.headers[2] = Header::new("To", "<sip:alice@example.com>;tag=dlg1").unwrap();
    let re = d.handle_incoming_invite(reinvite);
    assert!(matches!(
        &re[0],
        CoreEvent::Dialog(CoreDialogEvent::IncomingInvite { kind: InviteKind::Reinvite, .. })
    ));
    let ok = d
        .build_response_for_request(&sample_invite(), 200, "OK", Some(("application/sdp", "v=0\r\n")))
        .unwrap();
    assert_eq!(header_value(&ok.headers, "To"), Some("<sip:alice@example.com>;tag=dlg1"));
    assert_eq!(header_value(&ok.headers, "Content-Length"), Some("5"));
    let bad_ack = request(Method::Ack, &[("Call-ID", "call123"), ("To", "<sip:a>;tag=zzz")]);
    assert!(matches!(d.handle_incoming_ack(&bad_ack), Err(SipError::Invalid(_))));
    let ack = request(Method::Ack, &[("Call-ID", "call123"), ("To", "<sip:a>;tag=dlg1")]);
    assert!(d.handle_incoming_ack(&ack).is_ok());
    assert!(matches!(d.state, DialogState::Established { .. }));
    let bye = request(
        Method::Bye,
        &[
            ("Via", "SIP/2.0/UDP h"),
            ("Call-ID", "call123"),
            ("CSeq", "2 BYE"),
            ("From", "<sip:bob@example.com>;tag=from1"),
            ("To", "<sip:alice@example.com>;tag=dlg1"),
        ],
    );
    let resp = d.handle_incoming_bye(&bye).unwrap();
    assert_eq!(resp.status_code, 200);
    assert!(matches!(d.state, DialogState::Terminated));
    assert!(matches!(d.handle_incoming_bye(&bye), Err(SipError::InvalidState(_))));
}

#[test]
fn dialog_cancel_while_ringing() {
    let mut d = Dialog::new();
    let cancel = request(
        Method::Cancel,
        &[
            ("Via", "SIP/2.0/UDP h"),
            ("Call-ID", "call123"),
            ("CSeq", "1 CANCEL"),
            ("From", "<sip:bob@example.com>;tag=from1"),
            ("To", "<sip:alice@example.com>"),
        ],
    );
    assert!(matches!(d.handle_incoming_cancel(&cancel), Err(SipError::InvalidState(_))));
    d.handle_incoming_invite(sample_invite());
    let r = d.handle_incoming_cancel(&cancel).unwrap();
    assert_eq!(r.cancel_ok.status_code, 200);
    assert_eq!(r.maybe_invite_487.unwrap().status_code, 487);
    assert!(matches!(d.state, DialogState::Terminated));
}

#[test]
fn dialog_outgoing_and_tags() {
    let mut d = Dialog::new();
    let req = d.start_outgoing("sip:bob@example.com").unwrap();
    assert_eq!(header_value(&req.headers, "CSeq"), Some("1 INVITE"));
    assert!(matches!(d.start_outgoing("sip:x"), Err(SipError::InvalidState(_))));
    assert!(d.build_bye("sip:bob@example.com").is_none());
    assert_eq!(parse_tag_param("<sip:a>;TAG=abc;x=1"), Some("abc"));
    assert_eq!(parse_tag_param("<sip:a>"), None);
    let missing = request(Method::Options, &[("Call-ID", "c")]);
    assert!(matches!(
        d.build_response_for_request(&missing, 200, "OK", None),
        Err(SipError::Invalid(_))
    ));
}

#[test]
fn stack_options_and_register_response() {
    let mut stack = SipStack::new();
    let opt = request(
        Method::Options,
        &[("Via", "SIP/2.0/UDP h"), ("Call-ID", "o"), ("CSeq", "1 OPTIONS"), ("From", "<sip:x>;tag=1"), ("To", "<sip:y>")],
    );
    let ev = stack.on_message(Message::Request(opt), Endpoint::new(10, 0, 0, 9, 5060), 0);
    assert_eq!(ev.len(), 1);
    match &ev[0] {
        CoreEvent::SendResponse(r) => {
            assert_eq!(header_value(&r.headers, "Allow"), Some("INVITE, ACK, CANCEL, BYE, OPTIONS"));
            assert_eq!(header_value(&r.headers, "Accept"), Some("application/sdp"));
        }
        _ => panic!("expected a response"),
    }
    let mut resp = Response::new(200, "OK").unwrap();
    resp.add_header(Header::new("CSeq", " 1 REGISTER ").unwrap());
    assert!(is_register_response(&resp));
    let ev = stack.on_message(Message::Response(resp), Endpoint::new(10, 0, 0, 1, 5060), 0);
    assert_eq!(ev.len(), 2);
    assert_eq!(stack.registration_state(), RegistrationState::Registered);
    assert_eq!(parse_cseq_number("42 INVITE"), Some(42));
    assert_eq!(parse_cseq_method("42 INVITE").as_deref(), Some("INVITE"));
    assert_eq!(parse_cseq_number("x INVITE"), None);
}

#[test]
fn failed_cancel_leaves_dialog_ringing() {
    let mut d = Dialog::new();
    d.handle_incoming_invite(sample_invite());
    let cancel = request(
        Method::Cancel,
        &[
            ("Call-ID", "call123"),
            ("CSeq", "1 CANCEL"),
            ("From", "<sip:bob@example.com>;tag=from1"),
            ("To", "<sip:alice@example.com>"),
        ],
    );
    assert!(matches!(d.handle_incoming_cancel(&cancel), Err(SipError::Invalid(_))));
    assert!(matches!(d.state, DialogState::Ringing { .. }));
    let ringing = d.build_response_for_request(&sample_invite(), 180, "Ringing", None).unwrap();
    assert_eq!(header_value(&ringing.headers, "To"), Some("<sip:alice@example.com>;tag=dlg1"));
}
