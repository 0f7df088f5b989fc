//! Decisions of the SIP task: registration scheduling, incoming calls,
//! answering, hang-up, push-to-talk and ring timeouts. Each step takes the
//! current time (milliseconds of a monotonic clock) and returns the actions
//! for the caller to carry out: datagrams to send and commands to the other
//! tasks.
use vstd::prelude::*;
use crate::auth::{authorization_header, authorization_value, digest_response, DigestCredentials};
use crate::dialog::{build_response_spec, DialogRole, DialogState, DialogStateView, DialogView};
use crate::message::{
    copy_string, parse_message, parse_message_spec, render_request, render_response, Header,
    Request, RequestView, ResponseView,
};
use crate::messages::{
    AudioCommand, AudioMode, ButtonEvent, ButtonState, PhoneState, RtpCommand, UiCommand,
};
use crate::registration::{
    lit, refresh_interval, register_headers, RegView, RegistrationResult, RegistrationState,
    MIN_EXPIRES,
};
use crate::sdp::{parse_sdp, render_sdp, SdpView, SessionDescription};
use crate::stack::{
    events_view, on_message_spec, record_spec, CoreDialogEvent, CoreEvent, CoreRegistrationEvent,
    EventView, InviteKind, SipStack, StackView,
};
use crate::text::{
    dec_digits, find_from, find_from_exec, has_prefix_at, has_prefix_at_exec, push_decimal,
    push_str, str_chars, string_of_range,
};
use crate::transaction::{add_ms, add_ms_exec, poll_keep, poll_out, Endpoint};

verus! {

/// Expires requested before the registrar has granted one.
pub const INITIAL_EXPIRES: u32 = 30;

/// How long a REGISTER waits for its answer before it is sent again.
pub const REGISTER_TIMEOUT_MS: u64 = 5000;

/// Delay before answering a challenge with credentials.
pub const AUTH_RETRY_MS: u64 = 1000;

/// Delay before retrying after a failed registration.
pub const REGISTER_RETRY_MS: u64 = 30000;

/// What the SIP task should do.
#[derive(Debug, Clone, PartialEq, Eq)]
pub enum SipAction {
    /// Send this text to the registrar.
    SendToRegistrar(String),
    /// Send this text to an address.
    SendTo(Endpoint, String),
    Ui(UiCommand),
    Audio(AudioCommand),
    Rtp(RtpCommand),
}

pub enum ActionView {
    ToRegistrar(Seq<char>),
    To(Endpoint, Seq<char>),
    Ui(UiCommand),
    Audio(AudioCommand),
    RtpStart {
        ip: Seq<char>,
        port: u16,
        expected_remote_ssrc: Option<u32>,
        local_ssrc: Option<u32>,
        payload_type: u8,
    },
    RtpStop,
}

impl View for SipAction {
    type V = ActionView;

    open spec fn view(&self) -> ActionView {
        match self {
            SipAction::SendToRegistrar(t) => ActionView::ToRegistrar(t@),
            SipAction::SendTo(e, t) => ActionView::To(*e, t@),
            SipAction::Ui(c) => ActionView::Ui(*c),
            SipAction::Audio(c) => ActionView::Audio(*c),
            SipAction::Rtp(RtpCommand::StartStream { remote_ip, remote_port, expected_remote_ssrc, local_ssrc, payload_type }) => ActionView::RtpStart {
                ip: remote_ip@,
                port: *remote_port,
                expected_remote_ssrc: *expected_remote_ssrc,
                local_ssrc: *local_ssrc,
                payload_type: *payload_type,
            },
            SipAction::Rtp(RtpCommand::StopStream) => ActionView::RtpStop,
        }
    }
}

pub open spec fn actions_view(a: Seq<SipAction>) -> Seq<ActionView> {
    a.map_values(|x: SipAction| x@)
}

/// The phone state that a dialog state shows.
pub open spec fn phone_of(s: DialogStateView) -> PhoneState {
    match s {
        DialogStateView::Idle => PhoneState::Idle,
        DialogStateView::Inviting => PhoneState::Ringing,
        DialogStateView::Ringing { .. } => PhoneState::Ringing,
        DialogStateView::Established { .. } => PhoneState::Established,
        DialogStateView::Terminated => PhoneState::Idle,
    }
}

pub fn dialog_state_to_phone_state(s: &DialogState) -> (r: PhoneState)
    ensures
        r == phone_of(s@),
{
    match s {
        DialogState::Idle => PhoneState::Idle,
        DialogState::Inviting => PhoneState::Ringing,
        DialogState::Ringing { .. } => PhoneState::Ringing,
        DialogState::Established { .. } => PhoneState::Established,
        DialogState::Terminated => PhoneState::Idle,
    }
}

/// `s` without all leading copies of `p`.
pub open spec fn strip_prefixes(s: Seq<char>, p: Seq<char>) -> Seq<char>
    decreases s.len(),
{
    if p.len() > 0 && has_prefix_at(s, 0, p) {
        strip_prefixes(s.subrange(p.len() as int, s.len() as int), p)
    } else {
        s
    }
}

fn strip_prefixes_exec(s: &Vec<char>, p: &Vec<char>) -> (r: usize)
    ensures
        r <= s@.len(),
        s@.subrange(r as int, s@.len() as int) == strip_prefixes(s@, p@),
{
    let mut i: usize = 0;
    let sl = s.len();
    assert(s@.subrange(0, s@.len() as int) =~= s@);
    while p.len() > 0 && has_prefix_at_exec(s.as_slice(), i, p.as_slice())
        invariant
            sl == s@.len(),
            i <= s@.len(),
            strip_prefixes(s@.subrange(i as int, s@.len() as int), p@) == strip_prefixes(s@, p@),
        decreases s@.len() - i,
    {
        let ghost rest = s@.subrange(i as int, s@.len() as int);
        assert(crate::text::has_prefix_at(rest, 0, p@)) by {
            assert(rest.subrange(0, p@.len() as int) =~= s@.subrange(i as int, i + p@.len()));
        }
        assert(rest.subrange(p@.len() as int, rest.len() as int) =~= s@.subrange(i + p@.len(), s@.len() as int));
        i = i + p.len();
    }
    let ghost rest = s@.subrange(i as int, s@.len() as int);
    assert(!(p@.len() > 0 && has_prefix_at(rest, 0, p@))) by {
        if p@.len() > 0 && has_prefix_at(rest, 0, p@) {
            assert(rest.subrange(0, p@.len() as int) =~= s@.subrange(i as int, i + p@.len()));
        }
    }
    i
}

/// The registrar's `host:port`: the URI without `sip:`, port 5060 added
/// when none is given.
pub open spec fn parse_uri_spec(uri: Seq<char>) -> Seq<char> {
    let h = strip_prefixes(uri, "sip:"@);
    if find_from(h, 0, seq![':']) < h.len() {
        h
    } else {
        h + ":5060"@
    }
}

pub fn parse_uri(uri: &str) -> (r: String)
    ensures
        r@ == parse_uri_spec(uri@),
{
    let s = str_chars(uri);
    let p = str_chars("sip:");
    let i = strip_prefixes_exec(&s, &p);
    let mut host = string_of_range(&s, i, s.len());
    let h = str_chars(host.as_str());
    let mut colon: Vec<char> = Vec::new();
    colon.push(':');
    assert(colon@ =~= seq![':']);
    if find_from_exec(h.as_slice(), 0, colon.as_slice()) >= h.len() {
        push_str(&mut host, ":5060");
    }
    host
}

/// `sip:<user>@<ip>:<port>`, the user part taken from the template (after
/// `sip:`, up to `@`).
pub open spec fn contact_spec(template: Seq<char>, ip: Seq<char>, port: u16) -> Seq<char> {
    let t = strip_prefixes(template, "sip:"@);
    let user = t.subrange(0, find_from(t, 0, seq!['@']));
    "sip:"@ + user + "@"@ + ip + ":"@ + dec_digits(port as nat)
}

pub fn build_contact_uri(template: &str, ip: &str, port: u16) -> (r: String)
    ensures
        r@ == contact_spec(template@, ip@, port),
{
    let s = str_chars(template);
    let p = str_chars("sip:");
    let i = strip_prefixes_exec(&s, &p);
    let t = crate::message::slice_chars_pub(&s, i, s.len());
    let mut at: Vec<char> = Vec::new();
    at.push('@');
    assert(at@ =~= seq!['@']);
    let e = find_from_exec(t.as_slice(), 0, at.as_slice());
    let user = string_of_range(&t, 0, e);
    let mut out = String::new();
    push_str(&mut out, "sip:");
    push_str(&mut out, user.as_str());
    push_str(&mut out, "@");
    push_str(&mut out, ip);
    push_str(&mut out, ":");
    push_decimal(&mut out, port as u64);
    assert(out@ =~= contact_spec(template@, ip@, port));
    out
}

/// The call in progress.
#[derive(Debug)]
pub struct CallContext {
    pub invite: Request,
    pub remote_sdp: SessionDescription,
    pub local_sdp: SessionDescription,
    /// Set while ringing.
    pub ring_deadline: Option<u64>,
    pub remote_addr: Endpoint,
}

pub struct CtxView {
    pub invite: RequestView,
    pub remote_sdp: SdpView,
    pub local_sdp: SdpView,
    pub ring_deadline: Option<u64>,
    pub remote_addr: Endpoint,
}

impl View for CallContext {
    type V = CtxView;

    open spec fn view(&self) -> CtxView {
        CtxView {
            invite: self.invite@,
            remote_sdp: self.remote_sdp@,
            local_sdp: self.local_sdp@,
            ring_deadline: self.ring_deadline,
            remote_addr: self.remote_addr,
        }
    }
}

pub struct AgentView {
    pub stack: StackView,
    pub ctx: Option<CtxView>,
    pub next_register: u64,
    pub last_reg_state: RegistrationState,
    pub ring_timeout_ms: u64,
    pub registrar: Seq<char>,
    pub contact_template: Seq<char>,
    pub username: Seq<char>,
    pub password: Seq<char>,
    pub local_ip: Seq<char>,
    pub local_sip_port: u16,
    pub local_rtp_port: u16,
}

/// The SIP task's state, apart from its socket and channels.
pub struct SipAgent {
    core: SipStack,
    call_ctx: Option<CallContext>,
    next_register: u64,
    last_reg_state: RegistrationState,
    ring_timeout_ms: u64,
    registrar: String,
    contact_template: String,
    username: String,
    password: String,
    local_ip: String,
    local_sip_port: u16,
    local_rtp_port: u16,
}

impl View for SipAgent {
    type V = AgentView;

    closed spec fn view(&self) -> AgentView {
        AgentView {
            stack: self.core@,
            ctx: match self.call_ctx {
                Some(c) => Some(c@),
                None => None,
            },
            next_register: self.next_register,
            last_reg_state: self.last_reg_state,
            ring_timeout_ms: self.ring_timeout_ms,
            registrar: self.registrar@,
            contact_template: self.contact_template@,
            username: self.username@,
            password: self.password@,
            local_ip: self.local_ip@,
            local_sip_port: self.local_sip_port,
            local_rtp_port: self.local_rtp_port,
        }
    }
}

/// The same agent with another dialog state.
pub open spec fn with_dialog_state(a: AgentView, st: DialogStateView) -> AgentView {
    AgentView { stack: StackView { dialog: DialogView { state: st, ..a.stack.dialog }, ..a.stack }, ..a }
}

/// The commands that announce a phone state to the UI and the audio task.
pub open spec fn broadcast_spec(p: PhoneState) -> Seq<ActionView> {
    seq![ActionView::Ui(UiCommand::DialogStateChanged(p)), ActionView::Audio(AudioCommand::SetDialogState(p))]
}

/// When the next REGISTER is due after a registration result.
pub open spec fn next_register_after(result: RegistrationResult, now: u64, last_expires: u32, prev: u64) -> u64 {
    match result {
        RegistrationResult::Registered(_) => {
            let r = refresh_interval(last_expires);
            let secs = if r < MIN_EXPIRES { MIN_EXPIRES as int } else { r };
            add_ms(now, (secs * 1000) as u64)
        },
        RegistrationResult::AuthRequired => add_ms(now, AUTH_RETRY_MS),
        RegistrationResult::Failed(_) => add_ms(now, REGISTER_RETRY_MS),
        RegistrationResult::Sent => prev,
    }
}

/// The ring timeout at `now`: a UAS call still ringing at its deadline is
/// declined with 480, RTP stopped, the dialog terminated and Idle
/// announced; otherwise nothing happens.
pub open spec fn ring_timeout_spec(a: AgentView, now: u64) -> (AgentView, Seq<ActionView>) {
    if !ring_timed_out(a, now) {
        (a, Seq::empty())
    } else {
        let c = a.ctx->Some_0;
        let cleared = AgentView { ctx: None, ..a };
        let (a2, sent) = send_response_spec(cleared, c.invite, 480, "Temporarily Unavailable"@, None, None, c.remote_addr, now);
        (with_dialog_state(a2, DialogStateView::Terminated), sent + seq![ActionView::RtpStop] + broadcast_spec(PhoneState::Idle))
    }
}

/// The ringing call whose deadline has passed at `now`.
pub open spec fn ring_timed_out(a: AgentView, now: u64) -> bool {
    &&& a.stack.dialog.state matches DialogStateView::Ringing { role, .. } && role == DialogRole::Uas
    &&& a.ctx matches Some(c) && c.ring_deadline matches Some(d) && now >= d
}

impl SipAgent {
    pub fn new(
        registrar: &str,
        contact_template: &str,
        username: &str,
        password: &str,
        local_ip: &str,
        local_sip_port: u16,
        local_rtp_port: u16,
        ring_timeout_secs: u32,
        now: u64,
    ) -> (r: Self)
        ensures
            r@.stack.dialog.state is Idle,
            r@.stack.reg.state == RegistrationState::Unregistered,
            r@.ctx is None,
            r@.next_register == now,
            r@.last_reg_state == RegistrationState::Unregistered,
            r@.ring_timeout_ms == ring_timeout_secs as int * 1000,
            r@.registrar == registrar@,
            r@.contact_template == contact_template@,
            r@.username == username@,
            r@.password == password@,
            r@.local_ip == local_ip@,
            r@.local_sip_port == local_sip_port,
            r@.local_rtp_port == local_rtp_port,
    {
        SipAgent {
            core: SipStack::new(),
            call_ctx: None,
            next_register: now,
            last_reg_state: RegistrationState::Unregistered,
            ring_timeout_ms: ring_timeout_secs as u64 * 1000,
            registrar: lit(registrar),
            contact_template: lit(contact_template),
            username: lit(username),
            password: lit(password),
            local_ip: lit(local_ip),
            local_sip_port,
            local_rtp_port,
        }
    }

    pub fn phone_state(&self) -> (r: PhoneState)
        ensures
            r == phone_of(self@.stack.dialog.state),
    {
        let st = self.core.dialog_state();
        dialog_state_to_phone_state(&st)
    }

    pub fn has_call(&self) -> (r: bool)
        ensures
            r == (self@.ctx is Some),
    {
        self.call_ctx.is_some()
    }

    pub fn next_register_at(&self) -> (r: u64)
        ensures
            r == self@.next_register,
    {
        self.next_register
    }

    /// The phone state, announced to the UI and the audio task.
    pub fn broadcast_phone_state(&self) -> (r: Vec<SipAction>)
        ensures
            actions_view(r@) == broadcast_spec(phone_of(self@.stack.dialog.state)),
    {
        let p = self.phone_state();
        let mut out: Vec<SipAction> = Vec::new();
        out.push(SipAction::Ui(UiCommand::DialogStateChanged(p)));
        out.push(SipAction::Audio(AudioCommand::SetDialogState(p)));
        assert(actions_view(out@) =~= broadcast_spec(p));
        out
    }

    /// Push-to-talk: while a call exists, a press selects Talk and a
    /// release Listen, one command per edge; without a call nothing.
    pub fn handle_button_state_changed(&self, state: ButtonState) -> (r: Vec<SipAction>)
        ensures
            self@.ctx is None ==> r@.len() == 0,
            self@.ctx is Some ==> actions_view(r@) == seq![ActionView::Audio(AudioCommand::SetMode(
                if state == ButtonState::Pressed { AudioMode::Talk } else { AudioMode::Listen },
            ))],
    {
        let mut out: Vec<SipAction> = Vec::new();
        if self.call_ctx.is_none() {
            return out;
        }
        let mode = match state {
            ButtonState::Pressed => AudioMode::Talk,
            ButtonState::Released => AudioMode::Listen,
        };
        out.push(SipAction::Audio(AudioCommand::SetMode(mode)));
        assert(actions_view(out@) =~= seq![ActionView::Audio(AudioCommand::SetMode(mode))]);
        out
    }

    /// Schedules the next REGISTER after a result: a refresh at 80% of
    /// Expires (at least 5 s) after success, 1 s after a challenge, 30 s
    /// after a failure.
    pub fn handle_registration_result(&mut self, result: RegistrationResult, now: u64)
        ensures
            final(self)@ == (AgentView {
                next_register: next_register_after(result, now, old(self)@.stack.reg.last_expires, old(self)@.next_register),
                ..old(self)@
            }),
    {
        match result {
            RegistrationResult::Registered(_) => {
                let r = self.core.registration_refresh_interval_secs();
                let secs = if r < MIN_EXPIRES as u64 { MIN_EXPIRES as u64 } else { r };
                assert(r <= 0xffff_ffff);
                self.next_register = add_ms_exec(now, secs * 1000);
            },
            RegistrationResult::AuthRequired => {
                self.next_register = add_ms_exec(now, AUTH_RETRY_MS);
            },
            RegistrationResult::Failed(_) => {
                self.next_register = add_ms_exec(now, REGISTER_RETRY_MS);
            },
            RegistrationResult::Sent => {},
        }
    }

    /// A registration state report: forwarded to the UI (registered or
    /// not) when it differs from the last one.
    pub fn handle_reg_state(&mut self, state: RegistrationState) -> (r: Vec<SipAction>)
        ensures
            state != old(self)@.last_reg_state ==> final(self)@ == (AgentView { last_reg_state: state, ..old(self)@ })
                && actions_view(r@) == seq![ActionView::Ui(UiCommand::RegistrationStateChanged(state == RegistrationState::Registered))],
            state == old(self)@.last_reg_state ==> final(self)@ == old(self)@ && r@.len() == 0,
    {
        let mut out: Vec<SipAction> = Vec::new();
        if state != self.last_reg_state {
            self.last_reg_state = state;
            out.push(SipAction::Ui(UiCommand::RegistrationStateChanged(state == RegistrationState::Registered)));
            assert(actions_view(out@) =~= seq![ActionView::Ui(UiCommand::RegistrationStateChanged(state == RegistrationState::Registered))]);
        }
        out
    }
}


/// Sending a response: the dialog builds it (with a `Contact` when given),
/// the transaction layer records it, and it goes to `remote`. Nothing is
/// sent when the request lacks a header the response copies.
pub open spec fn send_response_spec(
    a: AgentView,
    invite: RequestView,
    status: u16,
    reason: Seq<char>,
    body: Option<(Seq<char>, Seq<char>)>,
    contact: Option<Seq<char>>,
    remote: Endpoint,
    now: u64,
) -> (AgentView, Seq<ActionView>) {
    match build_response_spec(a.stack.dialog, invite.headers, status, reason, body) {
        None => (a, Seq::empty()),
        Some((d2, rv)) => {
            let rv2 = match contact {
                Some(c) => ResponseView { headers: rv.headers.push(("Contact"@, c)), ..rv },
                None => rv,
            };
            (
                AgentView { stack: StackView { dialog: d2, txs: record_spec(a.stack.txs, rv2, remote, now), ..a.stack }, ..a },
                seq![ActionView::To(remote, render_response(rv2))],
            )
        },
    }
}

/// The contact address in angle brackets, for a 200 OK.
pub open spec fn contact_header_value(a: AgentView) -> Seq<char> {
    "<"@ + contact_spec(a.contact_template, a.local_ip, a.local_sip_port) + ">"@
}

/// The local session: PCMU on the local RTP port at the local address,
/// origin `-`.
pub open spec fn local_sdp_spec(a: AgentView) -> SdpView {
    SdpView { origin: "-"@, connection_address: a.local_ip, media_port: a.local_rtp_port, payload_type: 0 }
}

/// The RTP command for the call's remote session: start towards it with no
/// SSRC preference (the remote one is learned from the first packet, the
/// local one drawn by the RTP task), or stop when its port is 0 (on hold).
pub open spec fn rtp_start_spec(ctx: CtxView) -> Seq<ActionView> {
    if ctx.remote_sdp.media_port == 0 {
        seq![ActionView::RtpStop]
    } else {
        seq![ActionView::RtpStart {
            ip: ctx.remote_sdp.connection_address,
            port: ctx.remote_sdp.media_port,
            expected_remote_ssrc: None,
            local_ssrc: None,
            payload_type: ctx.remote_sdp.payload_type,
        }]
    }
}

impl SipAgent {
    pub fn build_local_sdp(&self) -> (r: SessionDescription)
        ensures
            r@ == local_sdp_spec(self@),
    {
        SessionDescription {
            origin: lit("-"),
            connection_address: copy_string(&self.local_ip),
            media_port: self.local_rtp_port,
            payload_type: 0,
        }
    }

    fn contact_value(&self) -> (r: String)
        ensures
            r@ == contact_header_value(self@),
    {
        let c = build_contact_uri(self.contact_template.as_str(), self.local_ip.as_str(), self.local_sip_port);
        let mut v = String::new();
        push_str(&mut v, "<");
        push_str(&mut v, c.as_str());
        push_str(&mut v, ">");
        v
    }

    /// Builds, records and sends a response (see `send_response_spec`).
    pub fn send_response(
        &mut self,
        invite: &Request,
        status: u16,
        reason: &str,
        body: Option<(&str, &str)>,
        with_contact: bool,
        remote: Endpoint,
        now: u64,
    ) -> (r: Vec<SipAction>)
        ensures
            (final(self)@, actions_view(r@)) == send_response_spec(
                old(self)@,
                invite@,
                status,
                reason@,
                match body {
                    Some((ct, data)) => Some((ct@, data@)),
                    None => None,
                },
                if with_contact { Some(contact_header_value(old(self)@)) } else { None },
                remote,
                now,
            ),
    {
        let mut out: Vec<SipAction> = Vec::new();
        let contact = self.contact_value();
        let mut resp = match self.core.build_response(invite, status, reason, body) {
            Ok(r) => r,
            Err(_) => {
                return out;
            },
        };
        if with_contact {
            resp.add_header(Header { name: lit("Contact"), value: contact });
        }
        let text = match resp.render() {
            Ok(t) => t,
            Err(_) => {
                return out;
            },
        };
        self.core.record_outgoing_response(&resp, remote, now);
        out.push(SipAction::SendTo(remote, text));
        proof {
            let (a2, acts) = send_response_spec(
                old(self)@,
                invite@,
                status,
                reason@,
                match body {
                    Some((ct, data)) => Some((ct@, data@)),
                    None => None,
                },
                if with_contact { Some(contact_header_value(old(self)@)) } else { None },
                remote,
                now,
            );
            assert(actions_view(out@) =~= acts);
        }
        out
    }

    /// The RTP commands for the current call: start towards the remote
    /// session, or stop when it is on hold; nothing without a call.
    pub fn start_rtp_streams_from_ctx(&self) -> (r: Vec<SipAction>)
        ensures
            match self@.ctx {
                None => r@.len() == 0,
                Some(c) => actions_view(r@) == rtp_start_spec(c),
            },
    {
        let mut out: Vec<SipAction> = Vec::new();
        match &self.call_ctx {
            None => {},
            Some(ctx) => {
                if ctx.remote_sdp.media_port == 0 {
                    out.push(SipAction::Rtp(RtpCommand::StopStream));
                } else {
                    out.push(SipAction::Rtp(RtpCommand::StartStream {
                        remote_ip: copy_string(&ctx.remote_sdp.connection_address),
                        remote_port: ctx.remote_sdp.media_port,
                        expected_remote_ssrc: None,
                        local_ssrc: None,
                        payload_type: ctx.remote_sdp.payload_type,
                    }));
                }
                assert(actions_view(out@) =~= rtp_start_spec(ctx@));
            },
        }
        out
    }

    /// Ring timeout: a UAS call still ringing at its deadline is declined
    /// with 480, RTP stopped, the dialog terminated and Idle announced.
    pub fn check_call_timeouts(&mut self, now: u64) -> (r: Vec<SipAction>)
        ensures
            (final(self)@, actions_view(r@)) == ring_timeout_spec(old(self)@, now),
    {
        let mut out: Vec<SipAction> = Vec::new();
        let timed_out = match (self.core.dialog_state(), &self.call_ctx) {
            (DialogState::Ringing { role, .. }, Some(ctx)) => role == DialogRole::Uas && match ctx.ring_deadline {
                Some(d) => now >= d,
                None => false,
            },
            _ => false,
        };
        if !timed_out {
            return out;
        }
        let ctx = match self.call_ctx.take() {
            Some(c) => c,
            None => {
                return out;
            },
        };
        let mut sent = self.send_response(&ctx.invite, 480, "Temporarily Unavailable", None, false, ctx.remote_addr, now);
        out.append(&mut sent);
        out.push(SipAction::Rtp(RtpCommand::StopStream));
        self.core.terminate_dialog();
        let mut b = self.broadcast_phone_state();
        out.append(&mut b);
        proof {
            let c = old(self)@.ctx->Some_0;
            let cleared = AgentView { ctx: None, ..old(self)@ };
            let (a2, s2) = send_response_spec(cleared, c.invite, 480, "Temporarily Unavailable"@, None, None, c.remote_addr, now);
            assert(actions_view(out@) =~= s2 + seq![ActionView::RtpStop] + broadcast_spec(PhoneState::Idle));
        }
        out
    }
}


/// SDP of an INVITE body: none when the body is empty or does not parse.
pub open spec fn offer_of(req: RequestView) -> Option<SdpView> {
    if req.body.len() == 0 {
        None
    } else {
        parse_sdp(req.body)
    }
}

/// An initial INVITE: without a usable SDP offer it is declined with 488
/// and the dialog goes back to `prior`; otherwise 180 Ringing is sent, the
/// call is stored with its ring deadline and Ringing is announced. When not
/// even the 180 can be built (a header it copies is missing) nothing is
/// sent or stored and the dialog goes back to `prior`.
pub open spec fn initial_invite_spec(a: AgentView, req: RequestView, remote: Endpoint, now: u64, prior: DialogStateView) -> (AgentView, Seq<ActionView>) {
    match offer_of(req) {
        None => {
            let (a2, sent) = send_response_spec(a, req, 488, "Not Acceptable Here"@, None, None, remote, now);
            (with_dialog_state(a2, prior), sent)
        },
        Some(d) => {
            let (a2, sent) = send_response_spec(a, req, 180, "Ringing"@, None, None, remote, now);
            if sent.len() == 0 {
                (with_dialog_state(a2, prior), sent)
            } else {
                (
                    AgentView {
                        ctx: Some(CtxView {
                            invite: req,
                            remote_sdp: d,
                            local_sdp: local_sdp_spec(a),
                            ring_deadline: Some(add_ms(now, a.ring_timeout_ms)),
                            remote_addr: remote,
                        }),
                        ..a2
                    },
                    sent + seq![
                        ActionView::Ui(UiCommand::DialogStateChanged(PhoneState::Ringing)),
                        ActionView::Audio(AudioCommand::SetDialogState(PhoneState::Ringing)),
                    ],
                )
            }
        },
    }
}

/// A re-INVITE: without a usable offer 488; else the remote session is
/// replaced (RTP re-pointed when established) and 200 OK answers with the
/// current local session, or 481 when there is no call.
pub open spec fn reinvite_spec(a: AgentView, req: RequestView, remote: Endpoint, now: u64) -> (AgentView, Seq<ActionView>) {
    match offer_of(req) {
        None => send_response_spec(a, req, 488, "Not Acceptable Here"@, None, None, remote, now),
        Some(d) => match a.ctx {
            Some(c) => {
                let c1 = CtxView { remote_sdp: d, ..c };
                let a1 = AgentView { ctx: Some(c1), ..a };
                let rtp = if a.stack.dialog.state is Established { rtp_start_spec(c1) } else { Seq::empty() };
                let (a2, sent) = send_response_spec(
                    a1,
                    req,
                    200,
                    "OK"@,
                    Some(("application/sdp"@, render_sdp(c.local_sdp))),
                    Some(contact_header_value(a1)),
                    remote,
                    now,
                );
                (a2, rtp + sent)
            },
            None => send_response_spec(a, req, 481, "Call/Transaction Does Not Exist"@, None, None, remote, now),
        },
    }
}

/// A dialog state report: the phone state is announced; an established
/// call starts RTP, an ended one stops it and forgets the call.
pub open spec fn state_changed_spec(a: AgentView, st: DialogStateView) -> (AgentView, Seq<ActionView>) {
    let b = broadcast_spec(phone_of(a.stack.dialog.state));
    match st {
        DialogStateView::Established { .. } => (a, b + match a.ctx {
            Some(c) => rtp_start_spec(c),
            None => Seq::empty(),
        }),
        DialogStateView::Terminated => (AgentView { ctx: None, ..a }, b + seq![ActionView::RtpStop]),
        DialogStateView::Idle => (AgentView { ctx: None, ..a }, b + seq![ActionView::RtpStop]),
        _ => (a, b),
    }
}

/// What one core event does.
pub open spec fn core_event_spec(a: AgentView, ev: EventView, remote: Endpoint, now: u64, prior: DialogStateView) -> (AgentView, Seq<ActionView>) {
    match ev {
        EventView::RegResult(r) => (AgentView { next_register: next_register_after(r, now, a.stack.reg.last_expires, a.next_register), ..a }, Seq::empty()),
        EventView::RegState(st) => if st != a.last_reg_state {
            (AgentView { last_reg_state: st, ..a }, seq![ActionView::Ui(UiCommand::RegistrationStateChanged(st == RegistrationState::Registered))])
        } else {
            (a, Seq::empty())
        },
        EventView::IncomingInvite(kind, req) => match kind {
            InviteKind::Initial => initial_invite_spec(a, req, remote, now, prior),
            InviteKind::Reinvite => reinvite_spec(a, req, remote, now),
            InviteKind::InitialWhileBusy => send_response_spec(a, req, 486, "Busy Here"@, None, None, remote, now),
        },
        EventView::DialogChanged(st) => state_changed_spec(a, st),
        EventView::Send(rv) => (a, seq![ActionView::To(remote, render_response(rv))]),
        EventView::SendTo(rv, t) => (a, seq![ActionView::To(t, render_response(rv))]),
    }
}

/// The core events in order.
pub open spec fn events_fold(a: AgentView, evs: Seq<EventView>, remote: Endpoint, now: u64, prior: DialogStateView) -> (AgentView, Seq<ActionView>)
    decreases evs.len(),
{
    if evs.len() == 0 {
        (a, Seq::empty())
    } else {
        let (a1, acts1) = events_fold(a, evs.drop_last(), remote, now, prior);
        let (a2, acts2) = core_event_spec(a1, evs.last(), remote, now, prior);
        (a2, acts1 + acts2)
    }
}

/// Ring timeout: after an initial INVITE with a usable offer is answered
/// with 180 at `t0` (the core has set the dialog ringing as UAS), nothing
/// happens before
/// `t0 + ring_timeout`; from then on, with no button input, the check sends
/// exactly one response, a 480, stops RTP, announces Idle and leaves the
/// phone Idle with no call, so later checks do nothing.
pub proof fn lemma_ring_timeout(
    a: AgentView,
    req: RequestView,
    remote: Endpoint,
    t0: u64,
    prior: DialogStateView,
    t: u64,
)
    requires
        a.stack.dialog.state matches DialogStateView::Ringing { role, .. } && role == DialogRole::Uas,
        offer_of(req) is Some,
        initial_invite_spec(a, req, remote, t0, prior).1.len() > 0,
        t0 <= t,
    ensures
        ({
            let a1 = initial_invite_spec(a, req, remote, t0, prior).0;
            let deadline = add_ms(t0, a.ring_timeout_ms);
            let (a2, acts) = ring_timeout_spec(a1, t);
            &&& t < deadline ==> a2 == a1 && acts.len() == 0
            &&& t >= deadline ==> {
                &&& exists|rv: ResponseView| rv.status_code == 480 && acts == seq![ActionView::To(remote, render_response(rv))]
                    + seq![ActionView::RtpStop] + broadcast_spec(PhoneState::Idle)
                &&& phone_of(a2.stack.dialog.state) == PhoneState::Idle
                &&& a2.ctx is None
                &&& forall|t2: u64| #[trigger] ring_timeout_spec(a2, t2).1.len() == 0
            }
        }),
{
    let a1 = initial_invite_spec(a, req, remote, t0, prior).0;
    let deadline = add_ms(t0, a.ring_timeout_ms);
    let c = a1.ctx->Some_0;
    let b180 = build_response_spec(a.stack.dialog, req.headers, 180, "Ringing"@, None);
    assert(b180 is Some);
    if t >= deadline {
        let cleared = AgentView { ctx: None, ..a1 };
        let (a2, sent) = send_response_spec(cleared, c.invite, 480, "Temporarily Unavailable"@, None, None, c.remote_addr, t);
        let (d2, rv) = build_response_spec(cleared.stack.dialog, c.invite.headers, 480, "Temporarily Unavailable"@, None)->Some_0;
        assert(rv.status_code == 480);
        assert(ring_timeout_spec(a1, t).1 == seq![ActionView::To(remote, render_response(rv))]
            + seq![ActionView::RtpStop] + broadcast_spec(PhoneState::Idle));
    }
}

/// Registration refresh: after a 200 OK carrying `Expires: E` for the
/// REGISTER in flight, the next REGISTER is due at 80% of E seconds (at
/// least 5 s) from now, and it carries the same Call-ID, the same From and
/// To tags and the CSeq incremented by one.
pub proof fn lemma_registration_refresh(
    a: AgentView,
    headers: Seq<crate::message::HeaderView>,
    e: u32,
    now: u64,
    contact: Seq<char>,
    host: Seq<char>,
    port: u16,
    expires: u32,
    auth: Option<crate::message::HeaderView>,
)
    requires
        crate::message::header_lookup(headers, "Expires"@) matches Some(v) && crate::text::parse_uint(v, u32::MAX as nat) == Some(e as nat),
    ensures
        ({
            let r = a.stack.reg;
            let (r2, res) = crate::registration::handle_response_spec(r, 200, headers);
            let a1 = AgentView { stack: StackView { reg: r2, ..a.stack }, ..a };
            let next = next_register_after(res, now, a1.stack.reg.last_expires, a.next_register);
            let secs: int = if (if e < 5 { 5int } else { e as int }) * 8 / 10 < 5 { 5 } else { (if e < 5 { 5int } else { e as int }) * 8 / 10 };
            let hs = register_headers(r2, contact, host, port, expires, auth);
            &&& res == RegistrationResult::Registered(e)
            &&& next == add_ms(now, (secs * 1000) as u64)
            &&& hs[4] == ("Call-ID"@, r.call_id)
            &&& hs[2] == ("From"@, crate::registration::tagged(contact, r.from_tag))
            &&& hs[3] == ("To"@, crate::registration::tagged(contact, r.to_tag))
            &&& hs[5] == ("CSeq"@, crate::registration::cseq_value(crate::registration::wrapping_inc(r.cseq), "REGISTER"@))
        }),
{
}

/// Answering: a ringing UAS call gets 200 OK with the local session and a
/// Contact, and its ring deadline is cleared; otherwise nothing.
pub open spec fn answer_spec(a: AgentView, now: u64) -> (AgentView, Seq<ActionView>) {
    if a.stack.dialog.state matches DialogStateView::Ringing { role, .. } && role == DialogRole::Uas && a.ctx is Some {
        let c = a.ctx->Some_0;
        let (a2, sent) = send_response_spec(a, c.invite, 200, "OK"@, Some(("application/sdp"@, render_sdp(c.local_sdp))), Some(contact_header_value(a)), c.remote_addr, now);
        (AgentView { ctx: Some(CtxView { ring_deadline: None, ..c }), ..a2 }, sent)
    } else {
        (a, Seq::empty())
    }
}

/// Hanging up: an established call stops RTP, ends the dialog and is
/// forgotten, and Idle is announced; otherwise nothing.
pub open spec fn hangup_spec(a: AgentView) -> (AgentView, Seq<ActionView>) {
    if a.stack.dialog.state is Established && (a.ctx matches Some(c) && c.ring_deadline is None) {
        (
            with_dialog_state(AgentView { ctx: None, ..a }, DialogStateView::Terminated),
            seq![ActionView::RtpStop] + broadcast_spec(PhoneState::Idle),
        )
    } else {
        (a, Seq::empty())
    }
}

/// A gesture: short press answers, double tap hangs up, and each level
/// change while a call exists sets the audio mode (pressed: Talk,
/// released: Listen).
pub open spec fn button_spec(a: AgentView, event: ButtonEvent, now: u64) -> (AgentView, Seq<ActionView>) {
    match event {
        ButtonEvent::ShortPress => answer_spec(a, now),
        ButtonEvent::DoubleTap => hangup_spec(a),
        ButtonEvent::StateChanged(s) => if a.ctx is Some {
            (a, seq![ActionView::Audio(AudioCommand::SetMode(if s == ButtonState::Pressed { AudioMode::Talk } else { AudioMode::Listen }))])
        } else {
            (a, Seq::empty())
        },
    }
}

/// Push-to-talk: every button edge while a call exists gives exactly one
/// `SetMode`, Talk for a press and Listen for a release, and changes
/// nothing else; without a call an edge does nothing.
pub proof fn lemma_ptt_edges(a: AgentView, level: ButtonState, now: u64)
    ensures
        ({
            let (a2, acts) = button_spec(a, ButtonEvent::StateChanged(level), now);
            &&& a2 == a
            &&& a.ctx is Some ==> acts.len() == 1 && acts[0] == ActionView::Audio(AudioCommand::SetMode(
                if level == ButtonState::Pressed { AudioMode::Talk } else { AudioMode::Listen },
            ))
            &&& a.ctx is None ==> acts.len() == 0
        }),
{
}

/// Registration with digest: after a 401 whose `WWW-Authenticate` reads as
/// a challenge (realm, nonce, algorithm), the registration is Unregistered,
/// the next REGISTER is due 1 s later, and that REGISTER carries
/// `Authorization` with the digest response over the configured user name
/// and password, `REGISTER` and the registrar URI, and the CSeq one above
/// the REGISTER that was answered.
pub proof fn lemma_registration_with_digest(
    a: AgentView,
    headers: Seq<crate::message::HeaderView>,
    realm: Seq<char>,
    nonce: Seq<char>,
    alg: Seq<char>,
    t1: u64,
)
    requires
        crate::message::header_lookup(headers, "WWW-Authenticate"@) matches Some(v)
            && crate::auth::parse_challenge(v) == Some((realm, nonce, alg)),
    ensures
        ({
            let (r2, res) = crate::registration::handle_response_spec(a.stack.reg, 401, headers);
            let next = next_register_after(res, t1, r2.last_expires, a.next_register);
            let a1 = AgentView { stack: StackView { reg: r2, ..a.stack }, next_register: next, ..a };
            let req = register_request_spec(a1, r2);
            &&& res == RegistrationResult::AuthRequired
            &&& r2.state == RegistrationState::Unregistered
            &&& next == add_ms(t1, AUTH_RETRY_MS)
            &&& req.headers[5] == ("CSeq"@, crate::registration::cseq_value(crate::registration::wrapping_inc(a.stack.reg.cseq), "REGISTER"@))
            &&& req.headers[8] == ("Authorization"@, authorization_value(
                a.username,
                realm,
                nonce,
                a.registrar,
                digest_response(a.username, realm, a.password, "REGISTER"@, a.registrar, nonce),
                alg,
            ))
        }),
{
}

/// Whether a REGISTER goes out at `now` (after a timed-out attempt was
/// abandoned).
pub open spec fn register_due(a: AgentView, now: u64) -> bool {
    now >= a.next_register
}

/// The REGISTER sent at `now` by an agent whose registration is `r`.
pub open spec fn register_request_spec(a: AgentView, r: RegView) -> RequestView {
    let contact = contact_spec(a.contact_template, a.local_ip, a.local_sip_port);
    let expires: u32 = if r.state == RegistrationState::Registered { r.last_expires } else { INITIAL_EXPIRES };
    let auth = match r.last_challenge {
        Some((realm, nonce, alg)) => Some((
            "Authorization"@,
            authorization_value(a.username, realm, nonce, a.registrar, digest_response(a.username, realm, a.password, "REGISTER"@, a.registrar, nonce), alg),
        )),
        None => None,
    };
    RequestView {
        method: crate::message::Method::Register,
        uri: a.registrar,
        version: crate::message::sip_2_0(),
        headers: register_headers(r, contact, a.local_ip, a.local_sip_port, expires, auth),
        body: Seq::empty(),
    }
}

impl SipAgent {
    /// Answers a ringing UAS call with 200 OK carrying the local session
    /// and a Contact; the ring deadline is cleared.
    pub fn handle_answer(&mut self, now: u64) -> (r: Vec<SipAction>)
        ensures
            (final(self)@, actions_view(r@)) == answer_spec(old(self)@, now),
    {
        let ringing_uas = match self.core.dialog_state() {
            DialogState::Ringing { role, .. } => role == DialogRole::Uas,
            _ => false,
        };
        if !ringing_uas || self.call_ctx.is_none() {
            return Vec::new();
        }
        let mut ctx = match self.call_ctx.take() {
            Some(c) => c,
            None => {
                return Vec::new();
            },
        };
        let body = ctx.local_sdp.render();
        let ghost mid = self@;
        assert(mid == AgentView { ctx: None, ..old(self)@ });
        let out = self.send_response(&ctx.invite, 200, "OK", Some(("application/sdp", body.as_str())), true, ctx.remote_addr, now);
        ctx.ring_deadline = None;
        self.call_ctx = Some(ctx);
        out
    }

    /// Hangs up an established call (one no longer ringing): RTP stops, the
    /// dialog terminates, Idle is announced and the call is forgotten.
    pub fn handle_hangup(&mut self) -> (r: Vec<SipAction>)
        ensures
            (final(self)@, actions_view(r@)) == hangup_spec(old(self)@),
    {
        let mut out: Vec<SipAction> = Vec::new();
        let in_call = match self.core.dialog_state() {
            DialogState::Established { .. } => true,
            _ => false,
        };
        let established = in_call && match &self.call_ctx {
            Some(ctx) => ctx.ring_deadline.is_none(),
            None => false,
        };
        if !established {
            return out;
        }
        out.push(SipAction::Rtp(RtpCommand::StopStream));
        self.core.terminate_dialog();
        let mut b = self.broadcast_phone_state();
        out.append(&mut b);
        self.call_ctx = None;
        assert(actions_view(out@) =~= seq![ActionView::RtpStop] + broadcast_spec(PhoneState::Idle));
        out
    }

    /// A gesture from the UI: short press answers, double tap hangs up,
    /// a state edge is push-to-talk.
    pub fn handle_button_event(&mut self, event: ButtonEvent, now: u64) -> (r: Vec<SipAction>)
        ensures
            (final(self)@, actions_view(r@)) == button_spec(old(self)@, event, now),
    {
        match event {
            ButtonEvent::ShortPress => self.handle_answer(now),
            ButtonEvent::DoubleTap => self.handle_hangup(),
            ButtonEvent::StateChanged(s) => self.handle_button_state_changed(s),
        }
    }

    fn sdp_offer(req: &Request) -> (r: Option<SessionDescription>)
        ensures
            match offer_of(req@) {
                Some(d) => r matches Some(x) && x@ == d,
                None => r is None,
            },
    {
        if req.body.as_str().is_empty() {
            return None;
        }
        match crate::sdp::parse(req.body.as_str()) {
            Ok(s) => Some(s),
            Err(_) => None,
        }
    }

    /// See `initial_invite_spec`.
    pub fn on_incoming_initial_invite(&mut self, req: Request, remote: Endpoint, now: u64, prior: DialogState) -> (r: Vec<SipAction>)
        ensures
            (final(self)@, actions_view(r@)) == initial_invite_spec(old(self)@, req@, remote, now, prior@),
    {
        match Self::sdp_offer(&req) {
            None => {
                let out = self.send_response(&req, 488, "Not Acceptable Here", None, false, remote, now);
                self.core.restore_dialog_state(prior);
                out
            },
            Some(sdp) => {
                let local = self.build_local_sdp();
                let mut out = self.send_response(&req, 180, "Ringing", None, false, remote, now);
                if out.len() == 0 {
                    self.core.restore_dialog_state(prior);
                    return out;
                }
                let deadline = add_ms_exec(now, self.ring_timeout_ms);
                self.call_ctx = Some(CallContext {
                    invite: req,
                    remote_sdp: sdp,
                    local_sdp: local,
                    ring_deadline: Some(deadline),
                    remote_addr: remote,
                });
                let ghost pre = actions_view(out@);
                out.push(SipAction::Ui(UiCommand::DialogStateChanged(PhoneState::Ringing)));
                out.push(SipAction::Audio(AudioCommand::SetDialogState(PhoneState::Ringing)));
                assert(actions_view(out@) =~= pre + seq![
                    ActionView::Ui(UiCommand::DialogStateChanged(PhoneState::Ringing)),
                    ActionView::Audio(AudioCommand::SetDialogState(PhoneState::Ringing)),
                ]);
                out
            },
        }
    }

    /// See `reinvite_spec`.
    pub fn on_incoming_reinvite(&mut self, req: Request, remote: Endpoint, now: u64) -> (r: Vec<SipAction>)
        ensures
            (final(self)@, actions_view(r@)) == reinvite_spec(old(self)@, req@, remote, now),
    {
        let sdp = match Self::sdp_offer(&req) {
            None => {
                return self.send_response(&req, 488, "Not Acceptable Here", None, false, remote, now);
            },
            Some(s) => s,
        };
        let mut ctx = match self.call_ctx.take() {
            None => {
                return self.send_response(&req, 481, "Call/Transaction Does Not Exist", None, false, remote, now);
            },
            Some(c) => c,
        };
        ctx.remote_sdp = sdp;
        let body = ctx.local_sdp.render();
        self.call_ctx = Some(ctx);
        let established = match self.core.dialog_state() {
            DialogState::Established { .. } => true,
            _ => false,
        };
        let mut out = if established { self.start_rtp_streams_from_ctx() } else { Vec::new() };
        let ghost pre = actions_view(out@);
        let mut sent = self.send_response(&req, 200, "OK", Some(("application/sdp", body.as_str())), true, remote, now);
        let ghost sv = actions_view(sent@);
        out.append(&mut sent);
        assert(actions_view(out@) =~= pre + sv);
        out
    }

    /// See `state_changed_spec`.
    pub fn on_dialog_state_changed(&mut self, state: &DialogState) -> (r: Vec<SipAction>)
        ensures
            (final(self)@, actions_view(r@)) == state_changed_spec(old(self)@, state@),
    {
        let mut out = self.broadcast_phone_state();
        let ghost b = actions_view(out@);
        match state {
            DialogState::Established { .. } => {
                let mut s = self.start_rtp_streams_from_ctx();
                let ghost sv = actions_view(s@);
                out.append(&mut s);
                assert(actions_view(out@) =~= b + sv);
            },
            DialogState::Terminated | DialogState::Idle => {
                out.push(SipAction::Rtp(RtpCommand::StopStream));
                self.call_ctx = None;
                assert(actions_view(out@) =~= b + seq![ActionView::RtpStop]);
            },
            _ => {},
        }
        out
    }

    /// Carries out one core event (see `core_event_spec`).
    pub fn handle_core_event(&mut self, ev: CoreEvent, remote: Endpoint, now: u64, prior: &DialogState) -> (r: Vec<SipAction>)
        ensures
            (final(self)@, actions_view(r@)) == core_event_spec(old(self)@, ev@, remote, now, prior@),
    {
        match ev {
            CoreEvent::Registration(CoreRegistrationEvent::Result(res)) => {
                self.handle_registration_result(res, now);
                Vec::new()
            },
            CoreEvent::Registration(CoreRegistrationEvent::StateChanged(st)) => self.handle_reg_state(st),
            CoreEvent::Dialog(CoreDialogEvent::IncomingInvite { kind, request }) => match kind {
                InviteKind::Initial => self.on_incoming_initial_invite(request, remote, now, prior.duplicate()),
                InviteKind::Reinvite => self.on_incoming_reinvite(request, remote, now),
                InviteKind::InitialWhileBusy => self.send_response(&request, 486, "Busy Here", None, false, remote, now),
            },
            CoreEvent::Dialog(CoreDialogEvent::DialogStateChanged(st)) => self.on_dialog_state_changed(&st),
            CoreEvent::SendResponse(resp) => {
                let mut out: Vec<SipAction> = Vec::new();
                match resp.render() {
                    Ok(text) => {
                        out.push(SipAction::SendTo(remote, text));
                    },
                    Err(_) => {},
                }
                assert(actions_view(out@) =~= seq![ActionView::To(remote, render_response(resp@))]);
                out
            },
            CoreEvent::SendResponseTo { response, target } => {
                let mut out: Vec<SipAction> = Vec::new();
                match response.render() {
                    Ok(text) => {
                        out.push(SipAction::SendTo(target, text));
                    },
                    Err(_) => {},
                }
                assert(actions_view(out@) =~= seq![ActionView::To(target, render_response(response@))]);
                out
            },
        }
    }

    /// A datagram received from `from`: parsed, handed to the SIP core,
    /// and each resulting event carried out in order. Text that does not
    /// parse is dropped.
    pub fn on_datagram(&mut self, text: &str, from: Endpoint, now: u64) -> (r: Vec<SipAction>)
        ensures
            match parse_message_spec(text@) {
                None => final(self)@ == old(self)@ && r@.len() == 0,
                Some(m) => {
                    let (s2, evs) = on_message_spec(old(self)@.stack, m, from, now);
                    (final(self)@, actions_view(r@)) == events_fold(
                        AgentView { stack: s2, ..old(self)@ },
                        evs,
                        from,
                        now,
                        old(self)@.stack.dialog.state,
                    )
                },
            },
    {
        let msg = match parse_message(text) {
            Ok(m) => m,
            Err(_) => {
                return Vec::new();
            },
        };
        let prior = self.core.dialog_state();
        let mut events = self.core.on_message(msg, from, now);
        let ghost evs = events_view(events@);
        let ghost a1 = self@;
        let mut out: Vec<SipAction> = Vec::new();
        let n = events.len();
        let mut i: usize = 0;
        while i < n
            invariant
                n == evs.len(),
                i <= n,
                events_view(events@) == evs.subrange(i as int, n as int),
                prior@ == old(self)@.stack.dialog.state,
                (self@, actions_view(out@)) == events_fold(a1, evs.subrange(0, i as int), from, now, prior@),
            decreases n - i,
        {
            assert(events_view(events@).len() == events@.len());
            assert(events_view(events@)[0] == events@[0]@);
            let ghost old_ev = events@;
            let ev = events.remove(0);
            assert(ev@ == evs[i as int]);
            assert(evs.subrange(0, i + 1).drop_last() =~= evs.subrange(0, i as int));
            assert forall|j: int| 0 <= j < events@.len() implies events_view(events@)[j] == evs[i + 1 + j] by {
                assert(events@[j] == old_ev[j + 1]);
                assert(events_view(old_ev)[j + 1] == old_ev[j + 1]@);
            }
            assert(events_view(events@) =~= evs.subrange(i + 1, n as int));
            let ghost pre = actions_view(out@);
            let mut acts = self.handle_core_event(ev, from, now, &prior);
            let ghost av = actions_view(acts@);
            out.append(&mut acts);
            assert(actions_view(out@) =~= pre + av);
            i = i + 1;
        }
        assert(evs.subrange(0, n as int) =~= evs);
        out
    }

    /// Retransmissions that the transaction timers call for now.
    pub fn process_core_timers(&mut self, now: u64) -> (r: Vec<SipAction>)
        ensures
            final(self)@ == (AgentView { stack: StackView { txs: poll_keep(old(self)@.stack.txs, now), ..old(self)@.stack }, ..old(self)@ }),
            r@.len() == poll_out(old(self)@.stack.txs, now).len(),
            forall|i: int| 0 <= i < r@.len() ==> (#[trigger] r@[i])@ == ActionView::To(
                poll_out(old(self)@.stack.txs, now)[i].1,
                render_response(poll_out(old(self)@.stack.txs, now)[i].0),
            ),
    {
        let events = self.core.poll_timers(now);
        let ghost po = poll_out(old(self)@.stack.txs, now);
        let mut out: Vec<SipAction> = Vec::new();
        let n = events.len();
        let mut i: usize = 0;
        while i < n
            invariant
                n == events@.len(),
                n == po.len(),
                i <= n,
                out@.len() == i,
                forall|j: int| 0 <= j < n ==> (#[trigger] events@[j])@ == EventView::SendTo(po[j].0, po[j].1),
                forall|j: int| 0 <= j < i ==> (#[trigger] out@[j])@ == ActionView::To(po[j].1, render_response(po[j].0)),
            decreases n - i,
        {
            match &events[i] {
                CoreEvent::SendResponseTo { response, target } => {
                    match response.render() {
                        Ok(text) => {
                            out.push(SipAction::SendTo(*target, text));
                        },
                        Err(_) => {
                            out.push(SipAction::SendTo(*target, String::new()));
                        },
                    }
                },
                _ => {
                    out.push(SipAction::SendTo(Endpoint { ip: 0, port: 0 }, String::new()));
                },
            }
            i = i + 1;
        }
        out
    }

    /// Registration upkeep at `now`: an attempt unanswered past its window
    /// is abandoned (Unregistered); when the timer is due and nothing is in
    /// flight a REGISTER goes out (with the last Expires once registered,
    /// else 30, and digest credentials when challenged) and the next check
    /// is 5 s later.
    pub fn maybe_send_register(&mut self, now: u64) -> (r: Vec<SipAction>)
        ensures
            ({
                let a = old(self)@;
                let timed_out = a.stack.reg.state == RegistrationState::Registering && now >= a.next_register;
                let r0 = if timed_out { RegView { state: RegistrationState::Unregistered, ..a.stack.reg } } else { a.stack.reg };
                let lrs = if timed_out { RegistrationState::Unregistered } else { a.last_reg_state };
                let pre: Seq<ActionView> = if timed_out && a.last_reg_state != RegistrationState::Unregistered {
                    seq![ActionView::Ui(UiCommand::RegistrationStateChanged(false))]
                } else {
                    Seq::empty()
                };
                if now < a.next_register || r0.state == RegistrationState::Registering {
                    &&& final(self)@ == AgentView { stack: StackView { reg: r0, ..a.stack }, last_reg_state: lrs, ..a }
                    &&& actions_view(r@) == pre
                } else {
                    &&& final(self)@.stack.reg == RegView {
                        state: RegistrationState::Registering,
                        cseq: crate::registration::wrapping_inc(r0.cseq),
                        branch_counter: crate::registration::wrapping_inc(r0.branch_counter),
                        ..r0
                    }
                    &&& final(self)@ == AgentView {
                        stack: StackView { reg: final(self)@.stack.reg, ..a.stack },
                        last_reg_state: lrs,
                        next_register: add_ms(now, REGISTER_TIMEOUT_MS),
                        ..a
                    }
                    &&& actions_view(r@) == pre + seq![ActionView::ToRegistrar(render_request(register_request_spec(a, r0)))]
                }
            }),
    {
        let mut out: Vec<SipAction> = Vec::new();
        if self.core.registration_state() == RegistrationState::Registering && now >= self.next_register {
            self.core.reset_registration();
            out = self.handle_reg_state(RegistrationState::Unregistered);
        }
        let ghost a0 = self@;
        let state = self.core.registration_state();
        if now < self.next_register || state == RegistrationState::Registering {
            return out;
        }
        let expires = if state == RegistrationState::Registered { self.core.last_expires() } else { INITIAL_EXPIRES };
        let auth = match self.core.last_challenge() {
            Some(ch) => {
                let creds = DigestCredentials { username: self.username.as_str(), password: self.password.as_str() };
                match authorization_header(&ch, &creds, "REGISTER", self.registrar.as_str()) {
                    Ok(h) => Some(h),
                    Err(_) => None,
                }
            },
            None => None,
        };
        let contact = build_contact_uri(self.contact_template.as_str(), self.local_ip.as_str(), self.local_sip_port);
        let req = match self.core.build_register(self.registrar.as_str(), contact.as_str(), self.local_ip.as_str(), self.local_sip_port, expires, auth) {
            Ok(r) => r,
            Err(_) => {
                self.next_register = add_ms_exec(now, REGISTER_RETRY_MS);
                return out;
            },
        };
        let text = match req.render() {
            Ok(t) => t,
            Err(_) => {
                self.next_register = add_ms_exec(now, REGISTER_RETRY_MS);
                return out;
            },
        };
        let ghost pre = actions_view(out@);
        out.push(SipAction::SendToRegistrar(text));
        self.next_register = add_ms_exec(now, REGISTER_TIMEOUT_MS);
        assert(actions_view(out@) =~= pre + seq![ActionView::ToRegistrar(text@)]);
        out
    }
}

} // verus!
