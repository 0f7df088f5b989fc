//! INVITE server transactions over UDP: retransmission of final responses
//! (Timer G), abandoning them (Timer H) and cleanup after the ACK (Timer I).
//! Times are milliseconds of a monotonic clock.
use vstd::prelude::*;
use crate::message::{
    header_index, header_lookup, tokens, tokens_exec, Request, Response,
    ResponseView,
};
use crate::text::{parse_uint, parse_uint_exec, str_chars};

verus! {

/// Round-trip estimate: first retransmission interval.
pub const T1_MS: u64 = 500;

/// Cap of the retransmission interval.
pub const T2_MS: u64 = 4000;

/// Timer H: how long a final response waits for its ACK (64 * T1).
pub const TIMER_H_MS: u64 = 32000;

/// Timer I: how long a confirmed transaction is kept after the ACK.
pub const TIMER_I_MS: u64 = 5000;

/// An IPv4 transport address.
#[derive(Debug, Clone, Copy, PartialEq, Eq, Hash, Structural)]
pub struct Endpoint {
    /// Address, most significant octet first.
    pub ip: u32,
    pub port: u16,
}

impl Endpoint {
    pub fn new(a: u8, b: u8, c: u8, d: u8, port: u16) -> (r: Endpoint)
        ensures
            r.ip == a as int * 0x100_0000 + b as int * 0x1_0000 + c as int * 0x100 + d as int,
            r.port == port,
    {
        Endpoint {
            ip: (a as u32) * 0x100_0000 + (b as u32) * 0x1_0000 + (c as u32) * 0x100 + d as u32,
            port,
        }
    }
}

/// `t + d`, saturating at the end of the clock.
pub open spec fn add_ms(t: u64, d: u64) -> u64 {
    if t + d > u64::MAX {
        u64::MAX
    } else {
        (t + d) as u64
    }
}

pub fn add_ms_exec(t: u64, d: u64) -> (r: u64)
    ensures
        r == add_ms(t, d),
{
    if t > u64::MAX - d {
        u64::MAX
    } else {
        t + d
    }
}

#[derive(Debug, Clone, Copy, PartialEq, Eq, Structural)]
pub enum InviteServerTxState {
    Proceeding,
    Completed,
    Confirmed,
}

#[derive(Debug)]
struct InviteServerTransaction {
    call_id: String,
    cseq: u32,
    remote: Endpoint,
    last_response: Option<Response>,
    state: InviteServerTxState,
    timer_g_interval: u64,
    next_timer_g: Option<u64>,
    deadline_h: Option<u64>,
    deadline_i: Option<u64>,
}

pub struct TxView {
    pub call_id: Seq<char>,
    pub cseq: u32,
    pub remote: Endpoint,
    pub last_response: Option<ResponseView>,
    pub state: InviteServerTxState,
    pub timer_g_interval: u64,
    pub next_timer_g: Option<u64>,
    pub deadline_h: Option<u64>,
    pub deadline_i: Option<u64>,
}

impl View for InviteServerTransaction {
    type V = TxView;

    closed spec fn view(&self) -> TxView {
        TxView {
            call_id: self.call_id@,
            cseq: self.cseq,
            remote: self.remote,
            last_response: match self.last_response {
                Some(r) => Some(r@),
                None => None,
            },
            state: self.state,
            timer_g_interval: self.timer_g_interval,
            next_timer_g: self.next_timer_g,
            deadline_h: self.deadline_h,
            deadline_i: self.deadline_i,
        }
    }
}

/// A transaction as it is created: proceeding, no response, no timers.
pub open spec fn new_tx(call_id: Seq<char>, cseq: u32, remote: Endpoint) -> TxView {
    TxView {
        call_id,
        cseq,
        remote,
        last_response: None,
        state: InviteServerTxState::Proceeding,
        timer_g_interval: T1_MS,
        next_timer_g: None,
        deadline_h: None,
        deadline_i: None,
    }
}

/// Records a response sent; a final one (>= 200) completes the
/// transaction and arms Timer G at T1 and Timer H.
pub open spec fn update_spec(t: TxView, resp: ResponseView, now: u64) -> TxView {
    if resp.status_code < 200 {
        TxView { last_response: Some(resp), ..t }
    } else {
        TxView {
            last_response: Some(resp),
            state: InviteServerTxState::Completed,
            timer_g_interval: T1_MS,
            next_timer_g: Some(add_ms(now, T1_MS)),
            deadline_h: Some(add_ms(now, TIMER_H_MS)),
            deadline_i: None,
            ..t
        }
    }
}

/// The ACK confirms the transaction: no more retransmissions, Timer I armed.
pub open spec fn ack_spec(t: TxView, now: u64) -> TxView {
    TxView {
        state: InviteServerTxState::Confirmed,
        next_timer_g: None,
        deadline_i: Some(add_ms(now, TIMER_I_MS)),
        ..t
    }
}

pub open spec fn min_u64(a: u64, b: u64) -> u64 {
    if a < b {
        a
    } else {
        b
    }
}

/// One tick of Timer G: the response to resend now, if any, and the
/// transaction after it (interval doubled up to T2, Timer G re-armed).
pub open spec fn retransmit_spec(t: TxView, now: u64) -> (TxView, Option<ResponseView>) {
    if t.state != InviteServerTxState::Completed || t.deadline_h is None {
        (t, None)
    } else if now >= t.deadline_h->Some_0 {
        (TxView { next_timer_g: None, ..t }, None)
    } else if t.next_timer_g is None || now < t.next_timer_g->Some_0 || t.last_response is None {
        (t, None)
    } else {
        let iv = min_u64(if t.timer_g_interval > u64::MAX / 2 { u64::MAX } else { (t.timer_g_interval * 2) as u64 }, T2_MS);
        (
            TxView { timer_g_interval: iv, next_timer_g: Some(add_ms(now, iv)), ..t },
            t.last_response,
        )
    }
}

/// Whether the transaction may be forgotten: Timer H or Timer I has fired.
pub open spec fn expired_spec(t: TxView, now: u64) -> bool {
    match t.state {
        InviteServerTxState::Proceeding => false,
        InviteServerTxState::Completed => t.deadline_h matches Some(h) && now >= h,
        InviteServerTxState::Confirmed => t.deadline_i matches Some(i) && now >= i,
    }
}

impl InviteServerTransaction {
    fn new(call_id: String, cseq: u32, remote: Endpoint) -> (r: Self)
        ensures
            r@ == new_tx(call_id@, cseq, remote),
    {
        InviteServerTransaction {
            call_id,
            cseq,
            remote,
            last_response: None,
            state: InviteServerTxState::Proceeding,
            timer_g_interval: T1_MS,
            next_timer_g: None,
            deadline_h: None,
            deadline_i: None,
        }
    }

    fn matches(&self, call_id: &Vec<char>, cseq: u32) -> (r: bool)
        ensures
            r == (self@.call_id == call_id@ && self@.cseq == cseq),
    {
        let mine = str_chars(self.call_id.as_str());
        if self.cseq != cseq || mine.len() != call_id.len() {
            return false;
        }
        let mut i: usize = 0;
        while i < mine.len()
            invariant
                mine@ == self.call_id@,
                mine@.len() == call_id@.len(),
                i <= mine@.len(),
                forall|j: int| 0 <= j < i ==> mine@[j] == call_id@[j],
            decreases mine@.len() - i,
        {
            if mine[i] != call_id[i] {
                return false;
            }
            i = i + 1;
        }
        assert(mine@ =~= call_id@);
        true
    }

    fn update_with_response(&mut self, resp: &Response, now: u64)
        ensures
            final(self)@ == update_spec(old(self)@, resp@, now),
    {
        self.last_response = Some(resp.duplicate());
        if resp.status_code < 200 {
            return;
        }
        self.state = InviteServerTxState::Completed;
        self.timer_g_interval = T1_MS;
        self.next_timer_g = Some(add_ms_exec(now, T1_MS));
        self.deadline_h = Some(add_ms_exec(now, TIMER_H_MS));
        self.deadline_i = None;
    }

    fn on_ack(&mut self, now: u64)
        ensures
            final(self)@ == ack_spec(old(self)@, now),
    {
        self.state = InviteServerTxState::Confirmed;
        self.next_timer_g = None;
        self.deadline_i = Some(add_ms_exec(now, TIMER_I_MS));
    }

    fn maybe_retransmit(&mut self, now: u64) -> (r: Option<Response>)
        ensures
            final(self)@ == retransmit_spec(old(self)@, now).0,
            match retransmit_spec(old(self)@, now).1 {
                Some(v) => r matches Some(resp) && resp@ == v,
                None => r is None,
            },
    {
        if self.state != InviteServerTxState::Completed {
            return None;
        }
        let deadline_h = match self.deadline_h {
            Some(h) => h,
            None => {
                return None;
            },
        };
        if now >= deadline_h {
            self.next_timer_g = None;
            return None;
        }
        let next = match self.next_timer_g {
            Some(n) => n,
            None => {
                return None;
            },
        };
        if now < next {
            return None;
        }
        match &self.last_response {
            Some(resp) => {
                let out = resp.duplicate();
                let doubled = if self.timer_g_interval > u64::MAX / 2 {
                    u64::MAX
                } else {
                    self.timer_g_interval * 2
                };
                let iv = if doubled < T2_MS { doubled } else { T2_MS };
                self.timer_g_interval = iv;
                self.next_timer_g = Some(add_ms_exec(now, iv));
                Some(out)
            },
            None => None,
        }
    }

    fn expired(&self, now: u64) -> (r: bool)
        ensures
            r == expired_spec(self@, now),
    {
        match self.state {
            InviteServerTxState::Proceeding => false,
            InviteServerTxState::Completed => match self.deadline_h {
                Some(h) => now >= h,
                None => false,
            },
            InviteServerTxState::Confirmed => match self.deadline_i {
                Some(i) => now >= i,
                None => false,
            },
        }
    }
}

/// Retransmission of a final response sent at `t0`: nothing is resent
/// before T1; at T1 it is resent once, and the next resend is due at 3*T1
/// (the interval doubles), so polls up to 3*T1 resend it exactly twice; once
/// the ACK is seen nothing is resent; from Timer H on nothing is resent.
pub proof fn lemma_retransmission(t: TxView, resp: ResponseView, t0: u64, now: u64)
    requires
        resp.status_code >= 200,
        t0 + TIMER_H_MS <= u64::MAX,
    ensures
        ({
            let c = update_spec(t, resp, t0);
            let c1 = retransmit_spec(c, (t0 + T1_MS) as u64).0;
            &&& t0 <= now < t0 + T1_MS ==> retransmit_spec(c, now).1 is None
            &&& retransmit_spec(c, (t0 + T1_MS) as u64).1 == Some(resp)
            &&& t0 + T1_MS <= now < t0 + 3 * T1_MS ==> retransmit_spec(c1, now).1 is None
            &&& retransmit_spec(c1, (t0 + 3 * T1_MS) as u64).1 == Some(resp)
            &&& now >= t0 + TIMER_H_MS ==> retransmit_spec(c, now).1 is None
                && retransmit_spec(c1, now).1 is None
            &&& retransmit_spec(ack_spec(c, now), now).1 is None
            &&& forall|a: u64, b: u64| #[trigger] retransmit_spec(ack_spec(c1, a), b).1 is None
        }),
{
}

/// Index of the first transaction keyed (Call-ID, CSeq number), or -1.
pub open spec fn find_tx(txs: Seq<TxView>, call_id: Seq<char>, cseq: u32) -> int
    decreases txs.len(),
{
    if txs.len() == 0 {
        -1
    } else if find_tx(txs.drop_last(), call_id, cseq) >= 0 {
        find_tx(txs.drop_last(), call_id, cseq)
    } else if txs.last().call_id == call_id && txs.last().cseq == cseq {
        txs.len() - 1
    } else {
        -1
    }
}

proof fn lemma_find_tx(txs: Seq<TxView>, call_id: Seq<char>, cseq: u32, i: int)
    requires
        0 <= i <= txs.len(),
        forall|j: int|
            0 <= j < i ==> !((#[trigger] txs[j]).call_id == call_id && txs[j].cseq == cseq),
    ensures
        find_tx(txs.subrange(0, i), call_id, cseq) == -1,
        i < txs.len() && txs[i].call_id == call_id && txs[i].cseq == cseq ==> find_tx(
            txs.subrange(0, i + 1),
            call_id,
            cseq,
        ) == i,
    decreases i,
{
    if i > 0 {
        lemma_find_tx(txs, call_id, cseq, i - 1);
        assert(txs.subrange(0, i).drop_last() =~= txs.subrange(0, i - 1));
    }
    if i < txs.len() {
        assert(txs.subrange(0, i + 1).drop_last() =~= txs.subrange(0, i));
        assert(txs.subrange(0, i + 1).last() == txs[i]);
        assert(find_tx(txs.subrange(0, i), call_id, cseq) == -1);
    }
}

proof fn lemma_find_tx_prefix(txs: Seq<TxView>, call_id: Seq<char>, cseq: u32, i: int)
    requires
        0 <= i <= txs.len(),
        find_tx(txs.subrange(0, i), call_id, cseq) >= 0,
    ensures
        find_tx(txs, call_id, cseq) == find_tx(txs.subrange(0, i), call_id, cseq),
    decreases txs.len() - i,
{
    if i < txs.len() {
        assert(txs.subrange(0, i + 1).drop_last() =~= txs.subrange(0, i));
        lemma_find_tx_prefix(txs, call_id, cseq, i + 1);
    } else {
        assert(txs.subrange(0, i) =~= txs);
    }
}

/// The first whitespace-separated token of a CSeq value as a number.
pub open spec fn cseq_number_spec(v: Seq<char>) -> Option<u32> {
    let t = tokens(v, 0, v.len() as int);
    if t.len() >= 1 && parse_uint(t[0], u32::MAX as nat) is Some {
        Some(parse_uint(t[0], u32::MAX as nat)->Some_0 as u32)
    } else {
        None
    }
}

/// The second token of a CSeq value: its method.
pub open spec fn cseq_method_spec(v: Seq<char>) -> Option<Seq<char>> {
    let t = tokens(v, 0, v.len() as int);
    if t.len() >= 2 {
        Some(t[1])
    } else {
        None
    }
}

/// Reads the sequence number of a CSeq value (`"1 INVITE"` gives 1).
pub fn parse_cseq_number(cseq: &str) -> (r: Option<u32>)
    ensures
        r == cseq_number_spec(cseq@),
{
    let s = str_chars(cseq);
    let t = tokens_exec(&s, 0, s.len());
    if t.len() < 1 {
        return None;
    }
    let (a, b) = t[0];
    assert(tokens(s@, 0, s@.len() as int)[0] == s@.subrange(a as int, b as int));
    match parse_uint_exec(s.as_slice(), a, b, 0xffff_ffff) {
        Some(n) => Some(n as u32),
        None => None,
    }
}

/// Reads the method of a CSeq value (`"1 INVITE"` gives `INVITE`).
pub fn parse_cseq_method(cseq: &str) -> (r: Option<String>)
    ensures
        match cseq_method_spec(cseq@) {
            Some(m) => r matches Some(s) && s@ == m,
            None => r is None,
        },
{
    let s = str_chars(cseq);
    let t = tokens_exec(&s, 0, s.len());
    if t.len() < 2 {
        return None;
    }
    let (a, b) = t[1];
    assert(tokens(s@, 0, s@.len() as int)[1] == s@.subrange(a as int, b as int));
    Some(crate::text::string_of_range(&s, a, b))
}

/// The (Call-ID, CSeq number) key of a message's headers.
pub open spec fn tx_key(headers: Seq<crate::message::HeaderView>) -> Option<(Seq<char>, u32)> {
    match header_lookup(headers, "Call-ID"@) {
        None => None,
        Some(cid) => match header_lookup(headers, "CSeq"@) {
            None => None,
            Some(cs) => match cseq_number_spec(cs) {
                None => None,
                Some(n) => Some((cid, n)),
            },
        },
    }
}

/// Retransmissions due now, in transaction order.
pub open spec fn poll_out(txs: Seq<TxView>, now: u64) -> Seq<(ResponseView, Endpoint)>
    decreases txs.len(),
{
    if txs.len() == 0 {
        Seq::empty()
    } else {
        let rest = poll_out(txs.drop_last(), now);
        match retransmit_spec(txs.last(), now).1 {
            Some(r) => rest.push((r, txs.last().remote)),
            None => rest,
        }
    }
}

/// Transactions kept after a poll: each advanced by its timer, those that
/// expired dropped.
pub open spec fn poll_keep(txs: Seq<TxView>, now: u64) -> Seq<TxView>
    decreases txs.len(),
{
    if txs.len() == 0 {
        Seq::empty()
    } else {
        let rest = poll_keep(txs.drop_last(), now);
        let t = retransmit_spec(txs.last(), now).0;
        if expired_spec(t, now) {
            rest
        } else {
            rest.push(t)
        }
    }
}

/// Tracks the INVITE server transactions by (Call-ID, CSeq number).
#[derive(Debug)]
pub struct InviteServerTransactionManager {
    transactions: Vec<InviteServerTransaction>,
}

impl View for InviteServerTransactionManager {
    type V = Seq<TxView>;

    closed spec fn view(&self) -> Seq<TxView> {
        self.transactions@.map_values(|t: InviteServerTransaction| t@)
    }
}

impl InviteServerTransactionManager {
    pub fn new() -> (r: Self)
        ensures
            r@ == Seq::<TxView>::empty(),
    {
        let r = InviteServerTransactionManager { transactions: Vec::new() };
        assert(r@ =~= Seq::<TxView>::empty());
        r
    }

    fn find(&self, call_id: &Vec<char>, cseq: u32) -> (r: Option<usize>)
        ensures
            find_tx(self@, call_id@, cseq) == (match r {
                Some(i) => i as int,
                None => -1,
            }),
            r matches Some(i) ==> i < self@.len(),
    {
        let ghost txs = self@;
        let mut i: usize = 0;
        while i < self.transactions.len()
            invariant
                txs == self@,
                i <= txs.len(),
                forall|j: int|
                    0 <= j < i ==> !((#[trigger] txs[j]).call_id == call_id@ && txs[j].cseq == cseq),
            decreases txs.len() - i,
        {
            if self.transactions[i].matches(call_id, cseq) {
                proof {
                    lemma_find_tx(txs, call_id@, cseq, i as int);
                    lemma_find_tx_prefix(txs, call_id@, cseq, i + 1);
                }
                return Some(i);
            }
            i = i + 1;
        }
        proof {
            lemma_find_tx(txs, call_id@, cseq, i as int);
            assert(txs.subrange(0, i as int) =~= txs);
        }
        None
    }

    /// An INVITE arrives: for a retransmission of a known transaction, the
    /// last response to resend; otherwise a new transaction is opened.
    pub fn on_invite(&mut self, req: &Request, remote: Endpoint) -> (r: Option<Response>)
        ensures
            match tx_key(req@.headers) {
                None => r is None && final(self)@ == old(self)@,
                Some((cid, n)) => {
                    let k = find_tx(old(self)@, cid, n);
                    if k >= 0 {
                        final(self)@ == old(self)@ && match old(self)@[k].last_response {
                            Some(v) => r matches Some(resp) && resp@ == v,
                            None => r is None,
                        }
                    } else {
                        r is None && final(self)@ == old(self)@.push(new_tx(cid, n, remote))
                    }
                },
            },
    {
        let ci = match header_index(&req.headers, "Call-ID") {
            Some(i) => i,
            None => {
                return None;
            },
        };
        let si = match header_index(&req.headers, "CSeq") {
            Some(i) => i,
            None => {
                return None;
            },
        };
        let cseq = match parse_cseq_number(req.headers[si].value.as_str()) {
            Some(n) => n,
            None => {
                return None;
            },
        };
        let cid = str_chars(req.headers[ci].value.as_str());
        match self.find(&cid, cseq) {
            Some(k) => match &self.transactions[k].last_response {
                Some(resp) => Some(resp.duplicate()),
                None => None,
            },
            None => {
                let t = InviteServerTransaction::new(
                    crate::message::copy_string(&req.headers[ci].value),
                    cseq,
                    remote,
                );
                let ghost tv = t@;
                self.transactions.push(t);
                assert(self@ =~= old(self)@.push(tv));
                None
            },
        }
    }

    /// A response was sent to `remote`: responses to INVITE are recorded on
    /// their transaction (opened now if unseen) to drive retransmission.
    pub fn on_outgoing_response(&mut self, resp: &Response, remote: Endpoint, now: u64)
        ensures
            match (tx_key(resp@.headers), header_lookup(resp@.headers, "CSeq"@)) {
                (Some((cid, n)), Some(cs)) => if cseq_method_spec(cs) == Some("INVITE"@) {
                    let k = find_tx(old(self)@, cid, n);
                    if k >= 0 {
                        final(self)@ == old(self)@.update(k, update_spec(old(self)@[k], resp@, now))
                    } else {
                        final(self)@ == old(self)@.push(update_spec(new_tx(cid, n, remote), resp@, now))
                    }
                } else {
                    final(self)@ == old(self)@
                },
                _ => final(self)@ == old(self)@,
            },
    {
        let si = match header_index(&resp.headers, "CSeq") {
            Some(i) => i,
            None => {
                return;
            },
        };
        let cseq = match parse_cseq_number(resp.headers[si].value.as_str()) {
            Some(n) => n,
            None => {
                return;
            },
        };
        let m = match parse_cseq_method(resp.headers[si].value.as_str()) {
            Some(m) => m,
            None => {
                return;
            },
        };
        let mc = str_chars(m.as_str());
        let inv = str_chars("INVITE");
        if !crate::text::has_prefix_at_exec(mc.as_slice(), 0, inv.as_slice()) || mc.len() != inv.len() {
            assert(m@ != "INVITE"@) by {
                if m@ == "INVITE"@ {
                    assert(mc@.subrange(0, inv@.len() as int) =~= mc@);
                }
            }
            return;
        }
        assert(mc@.subrange(0, inv@.len() as int) =~= mc@);
        let ci = match header_index(&resp.headers, "Call-ID") {
            Some(i) => i,
            None => {
                return;
            },
        };
        let cid = str_chars(resp.headers[ci].value.as_str());
        match self.find(&cid, cseq) {
            Some(k) => {
                let ghost old_t = self@[k as int];
                let mut t = self.transactions.remove(k);
                t.update_with_response(resp, now);
                let ghost tv = t@;
                self.transactions.insert(k, t);
                assert(self@ =~= old(self)@.update(k as int, update_spec(old_t, resp@, now)));
            },
            None => {
                let mut t = InviteServerTransaction::new(
                    crate::message::copy_string(&resp.headers[ci].value),
                    cseq,
                    remote,
                );
                t.update_with_response(resp, now);
                let ghost tv = t@;
                self.transactions.push(t);
                assert(self@ =~= old(self)@.push(tv));
            },
        }
    }

    /// An ACK confirms the transaction with the same key.
    pub fn on_ack(&mut self, ack: &Request, now: u64)
        ensures
            match tx_key(ack@.headers) {
                None => final(self)@ == old(self)@,
                Some((cid, n)) => {
                    let k = find_tx(old(self)@, cid, n);
                    if k >= 0 {
                        final(self)@ == old(self)@.update(k, ack_spec(old(self)@[k], now))
                    } else {
                        final(self)@ == old(self)@
                    }
                },
            },
    {
        let ci = match header_index(&ack.headers, "Call-ID") {
            Some(i) => i,
            None => {
                return;
            },
        };
        let si = match header_index(&ack.headers, "CSeq") {
            Some(i) => i,
            None => {
                return;
            },
        };
        let cseq = match parse_cseq_number(ack.headers[si].value.as_str()) {
            Some(n) => n,
            None => {
                return;
            },
        };
        let cid = str_chars(ack.headers[ci].value.as_str());
        match self.find(&cid, cseq) {
            Some(k) => {
                let ghost old_t = self@[k as int];
                let mut t = self.transactions.remove(k);
                t.on_ack(now);
                self.transactions.insert(k, t);
                assert(self@ =~= old(self)@.update(k as int, ack_spec(old_t, now)));
            },
            None => {},
        }
    }

    /// Advances the timers: the retransmissions due now with their
    /// destinations, and expired transactions forgotten.
    pub fn poll(&mut self, now: u64) -> (r: Vec<(Response, Endpoint)>)
        ensures
            r@.len() == poll_out(old(self)@, now).len(),
            forall|i: int|
                0 <= i < r@.len() ==> (#[trigger] r@[i]).0@ == poll_out(old(self)@, now)[i].0
                    && r@[i].1 == poll_out(old(self)@, now)[i].1,
            final(self)@ == poll_keep(old(self)@, now),
    {
        let ghost txs = old(self)@;
        let mut out: Vec<(Response, Endpoint)> = Vec::new();
        let mut kept: Vec<InviteServerTransaction> = Vec::new();
        let mut old_list: Vec<InviteServerTransaction> = Vec::new();
        core::mem::swap(&mut old_list, &mut self.transactions);
        assert(old_list@.map_values(|t: InviteServerTransaction| t@) =~= txs);
        let mut i: usize = 0;
        let n = old_list.len();
        while i < n
            invariant
                n == old_list@.len(),
                n == txs.len(),
                i <= n,
                forall|j: int| i <= j < n ==> (#[trigger] old_list@[j])@ == txs[j],
                out@.len() == poll_out(txs.subrange(0, i as int), now).len(),
                forall|j: int|
                    0 <= j < out@.len() ==> (#[trigger] out@[j]).0@ == poll_out(txs.subrange(0, i as int), now)[j].0
                        && out@[j].1 == poll_out(txs.subrange(0, i as int), now)[j].1,
                kept@.map_values(|t: InviteServerTransaction| t@) == poll_keep(txs.subrange(0, i as int), now),
            decreases n - i,
        {
            let ghost pre = txs.subrange(0, i as int);
            let ghost cur = txs.subrange(0, i + 1);
            assert(cur.drop_last() =~= pre);
            assert(cur.last() == txs[i as int]);
            let mut t = old_list.remove(i);
            old_list.insert(i, InviteServerTransaction::new(String::new(), 0, t.remote));
            let ghost tv0 = t@;
            assert(tv0 == txs[i as int]);
            let remote = t.remote;
            let re = t.maybe_retransmit(now);
            match re {
                Some(resp) => {
                    out.push((resp, remote));
                },
                None => {},
            }
            let gone = t.expired(now);
            let ghost kv = kept@.map_values(|x: InviteServerTransaction| x@);
            if !gone {
                let ghost tv = t@;
                kept.push(t);
                assert(kept@.map_values(|x: InviteServerTransaction| x@) =~= kv.push(tv));
            }
            proof {
                assert forall|j: int| i + 1 <= j < n implies (#[trigger] old_list@[j])@ == txs[j] by {}
            }
            i = i + 1;
        }
        assert(txs.subrange(0, n as int) =~= txs);
        self.transactions = kept;
        out
    }
}

} // verus!
