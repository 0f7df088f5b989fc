//! The SIP core: registration, the dialog and the INVITE server
//! transactions tied together, turning incoming messages into events for
//! the application. No I/O happens here.
use vstd::prelude::*;
use crate::auth::DigestChallenge;
use crate::dialog::{
    ack_outcome, bye_outcome, build_response_spec, cancel_outcome, invite_outcome, Dialog,
    DialogState, DialogStateView, DialogView,
};
use crate::message::{
    header_index, header_lookup, trim, trim_range_exec, Header, HeaderView, Message, MessageView,
    Method, Request, RequestView, Response, ResponseView,
};
use crate::registration::{
    challenge_view, handle_response_spec, lit, refresh_interval, RegView, RegistrationResult,
    RegistrationState, RegistrationTransaction,
};
use crate::text::{has_prefix_at_exec, str_chars};
use crate::transaction::{
    expired_spec, lemma_retransmission, retransmit_spec, T1_MS, TIMER_H_MS, TIMER_I_MS, ack_spec, cseq_method_spec, find_tx, new_tx, poll_keep, poll_out, tx_key, update_spec,
    Endpoint, InviteServerTransactionManager, TxView,
};

verus! {

/// Methods this endpoint accepts, for `Allow`.
pub const ALLOW_HEADER_VALUE: &'static str = "INVITE, ACK, CANCEL, BYE, OPTIONS";

/// Session description format accepted, for `Accept`.
pub const ACCEPT_HEADER_VALUE: &'static str = "application/sdp";

#[derive(Debug, Clone, PartialEq, Eq)]
pub enum CoreRegistrationEvent {
    Result(RegistrationResult),
    StateChanged(RegistrationState),
}

#[derive(Debug, Clone, Copy, PartialEq, Eq, Structural)]
pub enum InviteKind {
    Initial,
    Reinvite,
    InitialWhileBusy,
}

#[derive(Debug, Clone, PartialEq, Eq)]
pub enum CoreDialogEvent {
    IncomingInvite { kind: InviteKind, request: Request },
    DialogStateChanged(DialogState),
}

#[derive(Debug, Clone, PartialEq, Eq)]
pub enum CoreEvent {
    Registration(CoreRegistrationEvent),
    Dialog(CoreDialogEvent),
    SendResponse(Response),
    SendResponseTo { response: Response, target: Endpoint },
}

pub enum EventView {
    RegResult(RegistrationResult),
    RegState(RegistrationState),
    IncomingInvite(InviteKind, RequestView),
    DialogChanged(DialogStateView),
    Send(ResponseView),
    SendTo(ResponseView, Endpoint),
}

impl View for CoreEvent {
    type V = EventView;

    open spec fn view(&self) -> EventView {
        match self {
            CoreEvent::Registration(CoreRegistrationEvent::Result(r)) => EventView::RegResult(*r),
            CoreEvent::Registration(CoreRegistrationEvent::StateChanged(s)) => EventView::RegState(*s),
            CoreEvent::Dialog(CoreDialogEvent::IncomingInvite { kind, request }) => EventView::IncomingInvite(*kind, request@),
            CoreEvent::Dialog(CoreDialogEvent::DialogStateChanged(s)) => EventView::DialogChanged(s@),
            CoreEvent::SendResponse(r) => EventView::Send(r@),
            CoreEvent::SendResponseTo { response, target } => EventView::SendTo(response@, *target),
        }
    }
}

pub open spec fn events_view(es: Seq<CoreEvent>) -> Seq<EventView> {
    es.map_values(|e: CoreEvent| e@)
}

pub struct StackView {
    pub reg: RegView,
    pub dialog: DialogView,
    pub txs: Seq<TxView>,
    pub last_reg_state: RegistrationState,
}

#[derive(Debug)]
pub struct SipStack {
    pub registration: RegistrationTransaction,
    pub dialog: Dialog,
    invite_transactions: InviteServerTransactionManager,
    last_reg_state: RegistrationState,
}

impl View for SipStack {
    type V = StackView;

    closed spec fn view(&self) -> StackView {
        StackView {
            reg: self.registration@,
            dialog: self.dialog@,
            txs: self.invite_transactions@,
            last_reg_state: self.last_reg_state,
        }
    }
}

pub open spec fn ends_with(s: Seq<char>, p: Seq<char>) -> bool {
    s.len() >= p.len() && s.subrange(s.len() - p.len(), s.len() as int) == p
}

/// A response whose trimmed CSeq ends in `REGISTER`.
pub open spec fn is_register_response_spec(headers: Seq<HeaderView>) -> bool {
    match header_lookup(headers, "CSeq"@) {
        Some(v) => ends_with(trim(v), "REGISTER"@),
        None => false,
    }
}

/// Transactions after recording a sent response.
pub open spec fn record_spec(txs: Seq<TxView>, resp: ResponseView, remote: Endpoint, now: u64) -> Seq<TxView> {
    match (tx_key(resp.headers), header_lookup(resp.headers, "CSeq"@)) {
        (Some((cid, n)), Some(cs)) => if cseq_method_spec(cs) == Some("INVITE"@) {
            let k = find_tx(txs, cid, n);
            if k >= 0 {
                txs.update(k, update_spec(txs[k], resp, now))
            } else {
                txs.push(update_spec(new_tx(cid, n, remote), resp, now))
            }
        } else {
            txs
        },
        _ => txs,
    }
}

/// Transactions after an ACK.
pub open spec fn ack_txs_spec(txs: Seq<TxView>, ack: RequestView, now: u64) -> Seq<TxView> {
    match tx_key(ack.headers) {
        None => txs,
        Some((cid, n)) => {
            let k = find_tx(txs, cid, n);
            if k >= 0 {
                txs.update(k, ack_spec(txs[k], now))
            } else {
                txs
            }
        },
    }
}

/// What an INVITE does to the transactions, and the response to resend
/// for a retransmitted one.
pub open spec fn invite_txs_spec(txs: Seq<TxView>, req: RequestView, remote: Endpoint) -> (Seq<TxView>, Option<ResponseView>) {
    match tx_key(req.headers) {
        None => (txs, None),
        Some((cid, n)) => {
            let k = find_tx(txs, cid, n);
            if k >= 0 {
                (txs, txs[k].last_response)
            } else {
                (txs.push(new_tx(cid, n, remote)), None)
            }
        },
    }
}

pub open spec fn options_headers(hs: Seq<HeaderView>) -> Seq<HeaderView> {
    hs.push(("Allow"@, ALLOW_HEADER_VALUE@)).push(("Accept"@, ACCEPT_HEADER_VALUE@))
}

/// The stack after an incoming message and the events it yields.
pub open spec fn on_message_spec(s: StackView, m: MessageView, remote: Endpoint, now: u64) -> (StackView, Seq<EventView>) {
    match m {
        MessageView::Response(resp) => if is_register_response_spec(resp.headers) {
            let (reg2, res) = handle_response_spec(s.reg, resp.status_code, resp.headers);
            (StackView { reg: reg2, ..s }, seq![EventView::RegResult(res), EventView::RegState(reg2.state)])
        } else {
            (s, Seq::empty())
        },
        MessageView::Request(req) => match req.method {
            Method::Invite => {
                let (txs2, again) = invite_txs_spec(s.txs, req, remote);
                let pre: Seq<EventView> = match again {
                    Some(r) => seq![EventView::SendTo(r, remote)],
                    None => Seq::empty(),
                };
                let (st, kind) = invite_outcome(s.dialog.state, req);
                let post: Seq<EventView> = match kind {
                    Some(k) => seq![EventView::IncomingInvite(k, req)],
                    None => Seq::empty(),
                };
                (StackView { txs: txs2, dialog: DialogView { state: st, ..s.dialog }, ..s }, pre + post)
            },
            Method::Cancel => {
                let (d2, out) = cancel_outcome(s.dialog, req);
                match out {
                    Ok((ok, r487)) => (
                        StackView {
                            dialog: d2,
                            txs: record_spec(record_spec(s.txs, ok, remote, now), r487, remote, now),
                            ..s
                        },
                        seq![EventView::Send(ok), EventView::Send(r487), EventView::DialogChanged(d2.state)],
                    ),
                    Err(_) => (StackView { dialog: d2, ..s }, Seq::empty()),
                }
            },
            Method::Ack => {
                let txs2 = ack_txs_spec(s.txs, req, now);
                let (st, out) = ack_outcome(s.dialog.state, req);
                let s2 = StackView { txs: txs2, dialog: DialogView { state: st, ..s.dialog }, ..s };
                match out {
                    Ok(()) => (s2, seq![EventView::DialogChanged(st)]),
                    Err(_) => (s2, Seq::empty()),
                }
            },
            Method::Bye => {
                let (d2, out) = bye_outcome(s.dialog, req);
                match out {
                    Ok(resp) => (StackView { dialog: d2, ..s }, seq![EventView::Send(resp), EventView::DialogChanged(d2.state)]),
                    Err(_) => (StackView { dialog: d2, ..s }, Seq::empty()),
                }
            },
            Method::Options => match build_response_spec(s.dialog, req.headers, 200, "OK"@, None) {
                Some((d2, resp)) => (
                    StackView { dialog: d2, ..s },
                    seq![EventView::Send(ResponseView { headers: options_headers(resp.headers), ..resp })],
                ),
                None => (s, Seq::empty()),
            },
            Method::Register => (s, Seq::empty()),
        },
    }
}

/// Whether a response answers a REGISTER (its trimmed CSeq ends in
/// `REGISTER`).
pub fn is_register_response(resp: &Response) -> (r: bool)
    ensures
        r == is_register_response_spec(resp@.headers),
{
    match header_index(&resp.headers, "CSeq") {
        Some(i) => {
            let v = str_chars(resp.headers[i].value.as_str());
            let (a, b) = trim_range_exec(&v, 0, v.len());
            let pat = str_chars("REGISTER");
            if b - a < pat.len() {
                return false;
            }
            let r = has_prefix_at_exec(v.as_slice(), b - pat.len(), pat.as_slice());
            let ghost t = v@.subrange(a as int, b as int);
            assert(t.subrange(t.len() - pat@.len(), t.len() as int) =~= v@.subrange(b - pat@.len(), b as int));
            r
        },
        None => false,
    }
}

impl SipStack {
    pub fn new() -> (r: Self)
        ensures
            r@.dialog == (DialogView { state: DialogStateView::Idle, cseq: 0, next_tag_counter: 1 }),
            r@.txs.len() == 0,
            r@.reg == (RegView {
                state: RegistrationState::Unregistered,
                cseq: 0,
                call_id: crate::registration::simple_token_spec("reg"@, 1),
                from_tag: crate::registration::simple_token_spec("from"@, 1),
                to_tag: crate::registration::simple_token_spec("to"@, 1),
                branch_counter: 1,
                last_expires: crate::registration::DEFAULT_EXPIRES,
                last_challenge: None,
            }),
            r@.last_reg_state == RegistrationState::Unregistered,
    {
        SipStack {
            registration: RegistrationTransaction::new(),
            dialog: Dialog::new(),
            invite_transactions: InviteServerTransactionManager::new(),
            last_reg_state: RegistrationState::Unregistered,
        }
    }

    pub fn build_register(
        &mut self,
        registrar_uri: &str,
        contact_uri: &str,
        via_host: &str,
        via_port: u16,
        expires: u32,
        auth_header: Option<Header>,
    ) -> (r: Result<Request, crate::message::SipError>)
        ensures
            final(self)@.dialog == old(self)@.dialog,
            final(self)@.txs == old(self)@.txs,
            final(self)@.last_reg_state == old(self)@.last_reg_state,
            old(self)@.reg.state == RegistrationState::Registering ==> r is Err && final(self)@.reg == old(self)@.reg,
            old(self)@.reg.state != RegistrationState::Registering ==> (r matches Ok(req) && req@ == (
            RequestView {
                method: Method::Register,
                uri: registrar_uri@,
                version: crate::message::sip_2_0(),
                headers: crate::registration::register_headers(
                    old(self)@.reg,
                    contact_uri@,
                    via_host@,
                    via_port,
                    expires,
                    match auth_header {
                        Some(h) => Some(h@),
                        None => None,
                    },
                ),
                body: Seq::empty(),
            }) && final(self)@.reg == (RegView {
                state: RegistrationState::Registering,
                cseq: crate::registration::wrapping_inc(old(self)@.reg.cseq),
                branch_counter: crate::registration::wrapping_inc(old(self)@.reg.branch_counter),
                ..old(self)@.reg
            })),
    {
        self.registration.build_register(registrar_uri, contact_uri, via_host, via_port, expires, auth_header)
    }

    /// Applies a REGISTER response; a `Result` event is added when the
    /// registration state changed since the last report.
    pub fn on_register_response(&mut self, resp: &Response, events: &mut Vec<CoreEvent>) -> (r: RegistrationResult)
        ensures
            ({
                let (reg2, res) = handle_response_spec(old(self)@.reg, resp.status_code, resp@.headers);
                &&& r == res
                &&& final(self)@.reg == reg2
                &&& final(self)@.dialog == old(self)@.dialog
                &&& final(self)@.txs == old(self)@.txs
                &&& if reg2.state != old(self)@.last_reg_state {
                    final(self)@.last_reg_state == reg2.state && events_view(final(events)@) == events_view(old(events)@).push(EventView::RegResult(res))
                } else {
                    final(self)@.last_reg_state == old(self)@.last_reg_state && final(events)@ == old(events)@
                }
            }),
    {
        let result = self.registration.handle_response(resp);
        let state = self.registration.state();
        if state != self.last_reg_state {
            self.last_reg_state = state;
            events.push(CoreEvent::Registration(CoreRegistrationEvent::Result(result)));
            assert(events_view(events@) =~= events_view(old(events)@).push(EventView::RegResult(result)));
        }
        result
    }

    /// Retransmissions due now, as `SendResponseTo` events.
    pub fn poll_timers(&mut self, now: u64) -> (r: Vec<CoreEvent>)
        ensures
            final(self)@ == (StackView { txs: poll_keep(old(self)@.txs, now), ..old(self)@ }),
            r@.len() == poll_out(old(self)@.txs, now).len(),
            forall|i: int| 0 <= i < r@.len() ==> (#[trigger] r@[i])@ == EventView::SendTo(
                poll_out(old(self)@.txs, now)[i].0,
                poll_out(old(self)@.txs, now)[i].1,
            ),
    {
        let due = self.invite_transactions.poll(now);
        let mut events: Vec<CoreEvent> = Vec::new();
        let ghost po = poll_out(old(self)@.txs, now);
        let n = due.len();
        let mut i: usize = 0;
        while i < n
            invariant
                n == due@.len(),
                i <= n,
                n == po.len(),
                events@.len() == i,
                forall|j: int| 0 <= j < n ==> (#[trigger] due@[j]).0@ == po[j].0 && due@[j].1 == po[j].1,
                forall|j: int| 0 <= j < i ==> (#[trigger] events@[j])@ == EventView::SendTo(po[j].0, po[j].1),
            decreases n - i,
        {
            let resp = due[i].0.duplicate();
            let target = due[i].1;
            events.push(CoreEvent::SendResponseTo { response: resp, target });
            i = i + 1;
        }
        events
    }

    /// Records a sent response so that its transaction retransmits it.
    pub fn record_outgoing_response(&mut self, resp: &Response, target: Endpoint, now: u64)
        ensures
            final(self)@ == (StackView { txs: record_spec(old(self)@.txs, resp@, target, now), ..old(self)@ }),
    {
        self.invite_transactions.on_outgoing_response(resp, target, now);
    }


    pub fn dialog_state(&self) -> (r: DialogState)
        ensures
            r@ == self@.dialog.state,
    {
        self.dialog.state_copy()
    }

    /// Ends the dialog locally.
    pub fn terminate_dialog(&mut self)
        ensures
            final(self)@ == (StackView { dialog: DialogView { state: DialogStateView::Terminated, ..old(self)@.dialog }, ..old(self)@ }),
    {
        self.dialog.terminate_local();
    }

    /// Puts the dialog back in an earlier state.
    pub fn restore_dialog_state(&mut self, st: DialogState)
        ensures
            final(self)@ == (StackView { dialog: DialogView { state: st@, ..old(self)@.dialog }, ..old(self)@ }),
    {
        self.dialog.set_state(st);
    }

    /// A response to `req` built by the dialog.
    pub fn build_response(&mut self, req: &Request, status: u16, reason: &str, body: Option<(&str, &str)>) -> (r: Result<Response, crate::message::SipError>)
        ensures
            match build_response_spec(
                old(self)@.dialog,
                req@.headers,
                status,
                reason@,
                match body {
                    Some((ct, data)) => Some((ct@, data@)),
                    None => None,
                },
            ) {
                None => r is Err && final(self)@ == old(self)@,
                Some((d2, rv)) => r matches Ok(resp) && resp@ == rv && final(self)@ == (StackView { dialog: d2, ..old(self)@ }),
            },
    {
        self.dialog.build_response_for_request(req, status, reason, body)
    }

    /// Abandons a REGISTER in flight.
    pub fn reset_registration(&mut self)
        ensures
            final(self)@ == (StackView { reg: RegView { state: RegistrationState::Unregistered, ..old(self)@.reg }, ..old(self)@ }),
    {
        self.registration.reset_to_unregistered();
    }

    pub fn last_expires(&self) -> (r: u32)
        ensures
            r == self@.reg.last_expires,
    {
        self.registration.last_expires()
    }

    pub fn registration_state(&self) -> (r: RegistrationState)
        ensures
            r == self@.reg.state,
    {
        self.registration.state()
    }

    pub fn last_challenge(&self) -> (r: Option<DigestChallenge>)
        ensures
            match self@.reg.last_challenge {
                Some(c) => r matches Some(rc) && challenge_view(rc) == c,
                None => r is None,
            },
    {
        self.registration.last_challenge()
    }

    /// Seconds until the registration should be refreshed.
    pub fn registration_refresh_interval_secs(&self) -> (r: u64)
        ensures
            r == refresh_interval(self@.reg.last_expires),
    {
        self.registration.next_refresh_interval_secs()
    }

    /// Handles one incoming message (see `on_message_spec`): REGISTER
    /// responses update the registration; INVITE, CANCEL, ACK, BYE and
    /// OPTIONS drive the transactions and the dialog.
    pub fn on_message(&mut self, msg: Message, remote_addr: Endpoint, now: u64) -> (r: Vec<CoreEvent>)
        ensures
            (final(self)@, events_view(r@)) == on_message_spec(old(self)@, msg@, remote_addr, now),
    {
        let mut events: Vec<CoreEvent> = Vec::new();
        match msg {
            Message::Response(resp) => {
                if is_register_response(&resp) {
                    let res = self.registration.handle_response(&resp);
                    events.push(CoreEvent::Registration(CoreRegistrationEvent::Result(res)));
                    let state = self.registration.state();
                    events.push(CoreEvent::Registration(CoreRegistrationEvent::StateChanged(state)));
                }
            },
            Message::Request(req) => {
                match req.method {
                    Method::Invite => {
                        let again = self.invite_transactions.on_invite(&req, remote_addr);
                        match again {
                            Some(resp) => {
                                events.push(CoreEvent::SendResponseTo { response: resp, target: remote_addr });
                            },
                            None => {},
                        }
                        let ghost pre = events_view(events@);
                        let mut dialog_events = self.dialog.handle_incoming_invite(req);
                        let ghost post = events_view(dialog_events@);
                        events.append(&mut dialog_events);
                        assert(events_view(events@) =~= pre + post);
                    },
                    Method::Cancel => {
                        match self.dialog.handle_incoming_cancel(&req) {
                            Ok(cancel_res) => {
                                self.invite_transactions.on_outgoing_response(&cancel_res.cancel_ok, remote_addr, now);
                                let CancelParts { ok, r487 } = split_cancel(cancel_res);
                                match r487 {
                                    Some(r4) => {
                                        self.invite_transactions.on_outgoing_response(&r4, remote_addr, now);
                                        events.push(CoreEvent::SendResponse(ok));
                                        events.push(CoreEvent::SendResponse(r4));
                                    },
                                    None => {
                                        events.push(CoreEvent::SendResponse(ok));
                                    },
                                }
                                events.push(CoreEvent::Dialog(CoreDialogEvent::DialogStateChanged(self.dialog.state_copy())));
                            },
                            Err(_) => {},
                        }
                    },
                    Method::Ack => {
                        self.invite_transactions.on_ack(&req, now);
                        match self.dialog.handle_incoming_ack(&req) {
                            Ok(()) => {
                                events.push(CoreEvent::Dialog(CoreDialogEvent::DialogStateChanged(self.dialog.state_copy())));
                            },
                            Err(_) => {},
                        }
                    },
                    Method::Bye => {
                        match self.dialog.handle_incoming_bye(&req) {
                            Ok(resp) => {
                                events.push(CoreEvent::SendResponse(resp));
                                events.push(CoreEvent::Dialog(CoreDialogEvent::DialogStateChanged(self.dialog.state_copy())));
                            },
                            Err(_) => {},
                        }
                    },
                    Method::Options => {
                        match self.dialog.build_response_for_request(&req, 200, "OK", None) {
                            Ok(mut resp) => {
                                resp.add_header(Header { name: lit("Allow"), value: lit(ALLOW_HEADER_VALUE) });
                                resp.add_header(Header { name: lit("Accept"), value: lit(ACCEPT_HEADER_VALUE) });
                                events.push(CoreEvent::SendResponse(resp));
                            },
                            Err(_) => {},
                        }
                    },
                    Method::Register => {},
                }
            },
        }
        proof {
            let (s2, ev) = on_message_spec(old(self)@, msg@, remote_addr, now);
            assert(events_view(events@) =~= ev);
        }
        events
    }
}

struct CancelParts {
    ok: Response,
    r487: Option<Response>,
}

fn split_cancel(c: crate::dialog::CancelResult) -> (r: CancelParts)
    ensures
        r.ok@ == c.cancel_ok@,
        match c.maybe_invite_487 {
            Some(x) => r.r487 matches Some(y) && y@ == x@,
            None => r.r487 is None,
        },
{
    CancelParts { ok: c.cancel_ok, r487: c.maybe_invite_487 }
}

proof fn lemma_poll_single(t: TxView, now: u64)
    ensures
        poll_out(seq![t], now) == (match retransmit_spec(t, now).1 {
            Some(r) => seq![(r, t.remote)],
            None => Seq::empty(),
        }),
        poll_keep(seq![t], now) == (if expired_spec(retransmit_spec(t, now).0, now) {
            Seq::empty()
        } else {
            seq![retransmit_spec(t, now).0]
        }),
{
    reveal_with_fuel(poll_out, 2);
    reveal_with_fuel(poll_keep, 2);
    assert(seq![t].drop_last() =~= Seq::<TxView>::empty());
    assert(seq![t].last() == t);
    assert(Seq::<(ResponseView, Endpoint)>::empty().push((retransmit_spec(t, now).1->Some_0, t.remote)) =~= seq![(retransmit_spec(t, now).1->Some_0, t.remote)]);
    assert(Seq::<TxView>::empty().push(retransmit_spec(t, now).0) =~= seq![retransmit_spec(t, now).0]);
}

/// Retransmission through the transaction manager: after an INVITE opens
/// its transaction and a final response is recorded at `t0`, polls before
/// `t0 + T1` resend nothing, the poll at `t0 + T1` resends it once to the
/// sender, later polls before `t0 + 3*T1` nothing and the one at
/// `t0 + 3*T1` once more. From Timer H on nothing is resent and the
/// transaction is dropped. Once a matching ACK is seen, no poll resends it,
/// and from Timer I after the ACK the transaction is dropped.
pub proof fn lemma_manager_retransmission(
    req: RequestView,
    resp: ResponseView,
    ack: RequestView,
    c: Seq<char>,
    n: u32,
    remote: Endpoint,
    t0: u64,
    ta: u64,
    now: u64,
)
    requires
        tx_key(req.headers) == Some((c, n)),
        tx_key(resp.headers) == Some((c, n)),
        tx_key(ack.headers) == Some((c, n)),
        header_lookup(resp.headers, "CSeq"@) matches Some(cs) && cseq_method_spec(cs) == Some("INVITE"@),
        resp.status_code >= 200,
        t0 <= ta,
        ta + TIMER_H_MS <= u64::MAX,
    ensures
        ({
            let txs1 = record_spec(invite_txs_spec(Seq::empty(), req, remote).0, resp, remote, t0);
            let txs2 = poll_keep(txs1, (t0 + T1_MS) as u64);
            let txs3 = ack_txs_spec(txs1, ack, ta);
            &&& t0 <= now < t0 + T1_MS ==> poll_out(txs1, now).len() == 0
            &&& poll_out(txs1, (t0 + T1_MS) as u64) == seq![(resp, remote)]
            &&& t0 + T1_MS < now < t0 + 3 * T1_MS ==> poll_out(txs2, now).len() == 0
            &&& poll_out(txs2, (t0 + 3 * T1_MS) as u64) == seq![(resp, remote)]
            &&& now >= t0 + TIMER_H_MS ==> poll_out(txs1, now).len() == 0 && poll_keep(txs1, now).len() == 0
                && poll_out(txs2, now).len() == 0 && poll_keep(txs2, now).len() == 0
            &&& poll_out(txs3, now).len() == 0
            &&& now >= ta + TIMER_I_MS ==> poll_keep(txs3, now).len() == 0
        }),
{
    let t = new_tx(c, n, remote);
    let txs0 = invite_txs_spec(Seq::empty(), req, remote).0;
    assert(find_tx(Seq::<TxView>::empty(), c, n) == -1);
    assert(txs0 == seq![t]);
    assert(seq![t].drop_last() =~= Seq::<TxView>::empty());
    assert(find_tx(seq![t], c, n) == 0);
    let u = update_spec(t, resp, t0);
    let txs1 = record_spec(txs0, resp, remote, t0);
    assert(txs1 =~= seq![u]);
    lemma_retransmission(t, resp, t0, now);
    lemma_poll_single(u, now);
    lemma_poll_single(u, (t0 + T1_MS) as u64);
    let c1 = retransmit_spec(u, (t0 + T1_MS) as u64).0;
    assert(!expired_spec(c1, (t0 + T1_MS) as u64));
    let txs2 = poll_keep(txs1, (t0 + T1_MS) as u64);
    assert(txs2 == seq![c1]);
    lemma_poll_single(c1, now);
    lemma_poll_single(c1, (t0 + 3 * T1_MS) as u64);
    let a = ack_spec(u, ta);
    let txs3 = ack_txs_spec(txs1, ack, ta);
    assert(find_tx(seq![u], c, n) == 0) by {
        assert(seq![u].drop_last() =~= Seq::<TxView>::empty());
    }
    assert(txs3 =~= seq![a]);
    lemma_poll_single(a, now);
}

} // verus!
