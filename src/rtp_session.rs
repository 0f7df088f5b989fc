//! The RTP stream of the current call: which inbound packets are accepted,
//! where outbound packets go, their sequence numbers and timestamps, and the
//! 20 ms send cadence. Times are milliseconds of a monotonic clock.
use vstd::prelude::*;
use crate::messages::{RtpCommand, RX_PAYLOAD_MAX};
use crate::rtp::{rtp_pack_spec, rtp_unpack_spec, RtpHeader, RtpPacket, MAX_PACKED_LEN};
use crate::text::{parse_uint, parse_uint_exec, str_chars};
use crate::transaction::{add_ms, add_ms_exec, Endpoint};

verus! {

/// Send period.
pub const TICK_MS: u64 = 20;

/// RTP timestamp advance per frame: 20 ms at 8 kHz.
pub const FRAME_SAMPLES: u32 = 160;

/// Value of a dotted-quad IPv4 address (`a.b.c.d`, each 0..=255).
pub open spec fn ipv4_of(s: Seq<char>) -> Option<u32> {
    let d1 = crate::text::find_from(s, 0, seq!['.']);
    let d2 = crate::text::find_from(s, d1 + 1, seq!['.']);
    let d3 = crate::text::find_from(s, d2 + 1, seq!['.']);
    if d3 >= s.len() {
        None
    } else {
        match (
            octet(s.subrange(0, d1)),
            octet(s.subrange(d1 + 1, d2)),
            octet(s.subrange(d2 + 1, d3)),
            octet(s.subrange(d3 + 1, s.len() as int)),
        ) {
            (Some(a), Some(b), Some(c), Some(d)) => Some((a * 0x100_0000 + b * 0x1_0000 + c * 0x100 + d) as u32),
            _ => None,
        }
    }
}

/// One to three decimal digits worth at most 255.
pub open spec fn octet(s: Seq<char>) -> Option<nat> {
    if 1 <= s.len() <= 3 && s[0] != '+' {
        parse_uint(s, 255)
    } else {
        None
    }
}

proof fn lemma_find_ge(s: Seq<char>, from: int, p: Seq<char>)
    requires
        0 <= from <= s.len(),
    ensures
        from <= crate::text::find_from(s, from, p) <= s.len(),
    decreases s.len() - from,
{
    if from < s.len() && !crate::text::has_prefix_at(s, from, p) {
        lemma_find_ge(s, from + 1, p);
    }
}

fn octet_exec(s: &Vec<char>, lo: usize, hi: usize) -> (r: Option<u64>)
    requires
        lo <= hi <= s@.len(),
    ensures
        match octet(s@.subrange(lo as int, hi as int)) {
            Some(v) => r == Some(v as u64),
            None => r is None,
        },
{
    if hi - lo < 1 || hi - lo > 3 || s[lo] == '+' {
        assert(hi - lo >= 1 ==> s@.subrange(lo as int, hi as int)[0] == s@[lo as int]);
        return None;
    }
    assert(s@.subrange(lo as int, hi as int)[0] == s@[lo as int]);
    parse_uint_exec(s.as_slice(), lo, hi, 255)
}

/// Reads a dotted-quad IPv4 address.
pub fn parse_ipv4(text: &str) -> (r: Option<u32>)
    ensures
        r == ipv4_of(text@),
{
    let s = str_chars(text);
    let mut dot: Vec<char> = Vec::new();
    dot.push('.');
    assert(dot@ =~= seq!['.']);
    proof {
        lemma_find_ge(s@, 0, seq!['.']);
    }
    let d1 = crate::text::find_from_exec(s.as_slice(), 0, dot.as_slice());
    if d1 >= s.len() {
        proof {
            assert(crate::text::find_from(s@, d1 + 1, seq!['.']) == s@.len());
            assert(crate::text::find_from(s@, s@.len() as int, seq!['.']) == s@.len());
        }
        return None;
    }
    let d2 = crate::text::find_from_exec(s.as_slice(), d1 + 1, dot.as_slice());
    if d2 >= s.len() {
        proof {
            assert(crate::text::find_from(s@, s@.len() as int + 1, seq!['.']) == s@.len());
        }
        return None;
    }
    let d3 = crate::text::find_from_exec(s.as_slice(), d2 + 1, dot.as_slice());
    if d3 >= s.len() {
        return None;
    }
    let a = octet_exec(&s, 0, d1);
    let b = octet_exec(&s, d1 + 1, d2);
    let c = octet_exec(&s, d2 + 1, d3);
    let d = octet_exec(&s, d3 + 1, s.len());
    match (a, b, c, d) {
        (Some(a), Some(b), Some(c), Some(d)) => Some((a * 0x100_0000 + b * 0x1_0000 + c * 0x100 + d) as u32),
        _ => None,
    }
}

/// The next deadline after `now` on the grid `next + k * 20 ms`: missed
/// ticks are skipped in whole periods.
pub open spec fn advance_tick_spec(next: u64, now: u64) -> u64 {
    if next > now {
        next
    } else {
        let t = next + ((now - next) / TICK_MS as int + 1) * TICK_MS as int;
        if t > u64::MAX {
            u64::MAX
        } else {
            t as u64
        }
    }
}

pub struct SessionView {
    pub active: bool,
    pub signaled_peer: Option<Endpoint>,
    pub observed_peer: Option<Endpoint>,
    pub expected_remote_ssrc: Option<u32>,
    pub payload_type: Option<u8>,
    pub local_ssrc: u32,
    pub seq: u16,
    pub ts: u32,
    pub next_tick: u64,
}

/// RTP stream state of the RTP task, apart from its socket.
pub struct RtpSession {
    active: bool,
    signaled_peer: Option<Endpoint>,
    observed_peer: Option<Endpoint>,
    expected_remote_ssrc: Option<u32>,
    payload_type: Option<u8>,
    local_ssrc: u32,
    seq: u16,
    ts: u32,
    next_tick: u64,
}

impl View for RtpSession {
    type V = SessionView;

    closed spec fn view(&self) -> SessionView {
        SessionView {
            active: self.active,
            signaled_peer: self.signaled_peer,
            observed_peer: self.observed_peer,
            expected_remote_ssrc: self.expected_remote_ssrc,
            payload_type: self.payload_type,
            local_ssrc: self.local_ssrc,
            seq: self.seq,
            ts: self.ts,
            next_tick: self.next_tick,
        }
    }
}

/// Whether a datagram of `bytes` from `from` is accepted, and the state
/// after it: at least 12 bytes, from the signaled IP (any port), a valid
/// packet, the expected payload type, and the expected SSRC (the first
/// accepted one is learned). The sender becomes the observed peer.
pub open spec fn accept_spec(s: SessionView, bytes: Seq<u8>, from: Endpoint) -> (SessionView, Option<(RtpHeader, Seq<u8>)>) {
    if bytes.len() < 12 {
        (s, None)
    } else if s.signaled_peer matches Some(p) && p.ip != from.ip {
        (s, None)
    } else {
        match rtp_unpack_spec(bytes, RX_PAYLOAD_MAX as int) {
            Err(_) => (s, None),
            Ok((h, payload)) => if s.payload_type matches Some(pt) && pt != h.payload_type {
                (s, None)
            } else if s.expected_remote_ssrc matches Some(x) && x != h.ssrc {
                (s, None)
            } else {
                (SessionView { expected_remote_ssrc: Some(h.ssrc), observed_peer: Some(from), ..s }, Some((h, payload)))
            },
        }
    }
}

/// The header of the next outbound packet.
pub open spec fn send_header(s: SessionView) -> RtpHeader {
    RtpHeader {
        version: 2,
        padding: false,
        extension: false,
        csrc_count: 0,
        marker: false,
        payload_type: match s.payload_type {
            Some(p) => p,
            None => 0,
        },
        sequence_number: s.seq,
        timestamp: s.ts,
        ssrc: s.local_ssrc,
    }
}

pub open spec fn wrap16(x: int) -> u16 {
    (x % 0x1_0000) as u16
}

pub open spec fn wrap32(x: int) -> u32 {
    (x % 0x1_0000_0000) as u32
}

/// Relies on `rand::random`: a fresh value from the thread-local generator,
/// used for SSRCs and identifiers. Nothing is known of the value.
#[verifier::external_body]
pub fn random_u32() -> (r: u32) {
    rand::random::<u32>()
}

impl RtpSession {
    /// An inactive session with a freshly drawn local SSRC.
    pub fn with_random_ssrc(now: u64) -> (r: Self)
        ensures
            !r@.active,
            r@.signaled_peer is None,
            r@.observed_peer is None,
            r@.next_tick == now,
    {
        RtpSession::new(random_u32(), now)
    }

    /// Applies a command, drawing a fresh local SSRC for a `StartStream`
    /// that names none (see `handle_command`).
    pub fn apply_command(&mut self, cmd: &RtpCommand, now: u64)
        ensures
            match cmd {
                RtpCommand::StartStream { remote_ip, remote_port, expected_remote_ssrc, local_ssrc, payload_type } => match ipv4_of(remote_ip@) {
                    None => final(self)@ == old(self)@,
                    Some(ip) => {
                        &&& final(self)@.active
                        &&& final(self)@.signaled_peer == Some(Endpoint { ip, port: *remote_port })
                        &&& final(self)@.observed_peer is None
                        &&& final(self)@.expected_remote_ssrc == *expected_remote_ssrc
                        &&& final(self)@.payload_type == Some(*payload_type)
                        &&& (local_ssrc matches Some(x) ==> final(self)@.local_ssrc == *x)
                        &&& final(self)@.seq == 0
                        &&& final(self)@.ts == 0
                        &&& final(self)@.next_tick == add_ms(now, TICK_MS)
                    },
                },
                RtpCommand::StopStream => final(self)@ == (SessionView {
                    active: false,
                    signaled_peer: None,
                    observed_peer: None,
                    expected_remote_ssrc: None,
                    payload_type: None,
                    ..old(self)@
                }),
            },
    {
        let fresh = random_u32();
        self.handle_command(cmd, fresh, now);
    }

    /// An inactive session with the given local SSRC.
    pub fn new(local_ssrc: u32, now: u64) -> (r: Self)
        ensures
            r@ == (SessionView {
                active: false,
                signaled_peer: None,
                observed_peer: None,
                expected_remote_ssrc: None,
                payload_type: None,
                local_ssrc,
                seq: 0,
                ts: 0,
                next_tick: now,
            }),
    {
        RtpSession {
            active: false,
            signaled_peer: None,
            observed_peer: None,
            expected_remote_ssrc: None,
            payload_type: None,
            local_ssrc,
            seq: 0,
            ts: 0,
            next_tick: now,
        }
    }

    pub fn is_active(&self) -> (r: bool)
        ensures
            r == self@.active,
    {
        self.active
    }

    pub fn local_ssrc(&self) -> (r: u32)
        ensures
            r == self@.local_ssrc,
    {
        self.local_ssrc
    }

    /// Applies a command. `StartStream` towards a readable IPv4 address
    /// activates the stream (sequence and timestamp from 0, the local SSRC
    /// given or `fresh_ssrc`, first send one tick from now); one with an
    /// unreadable address is ignored. `StopStream` deactivates and forgets
    /// the peers and filters.
    pub fn handle_command(&mut self, cmd: &RtpCommand, fresh_ssrc: u32, now: u64)
        ensures
            match cmd {
                RtpCommand::StartStream { remote_ip, remote_port, expected_remote_ssrc, local_ssrc, payload_type } => match ipv4_of(remote_ip@) {
                    None => final(self)@ == old(self)@,
                    Some(ip) => final(self)@ == (SessionView {
                        active: true,
                        signaled_peer: Some(Endpoint { ip, port: *remote_port }),
                        observed_peer: None,
                        expected_remote_ssrc: *expected_remote_ssrc,
                        payload_type: Some(*payload_type),
                        local_ssrc: match local_ssrc {
                            Some(x) => *x,
                            None => fresh_ssrc,
                        },
                        seq: 0,
                        ts: 0,
                        next_tick: add_ms(now, TICK_MS),
                    }),
                },
                RtpCommand::StopStream => final(self)@ == (SessionView {
                    active: false,
                    signaled_peer: None,
                    observed_peer: None,
                    expected_remote_ssrc: None,
                    payload_type: None,
                    ..old(self)@
                }),
            },
    {
        match cmd {
            RtpCommand::StartStream { remote_ip, remote_port, expected_remote_ssrc, local_ssrc, payload_type } => {
                match parse_ipv4(remote_ip.as_str()) {
                    None => {},
                    Some(ip) => {
                        self.signaled_peer = Some(Endpoint { ip, port: *remote_port });
                        self.observed_peer = None;
                        self.expected_remote_ssrc = *expected_remote_ssrc;
                        self.payload_type = Some(*payload_type);
                        self.local_ssrc = match local_ssrc {
                            Some(x) => *x,
                            None => fresh_ssrc,
                        };
                        self.seq = 0;
                        self.ts = 0;
                        self.active = true;
                        self.next_tick = add_ms_exec(now, TICK_MS);
                    },
                }
            },
            RtpCommand::StopStream => {
                self.active = false;
                self.signaled_peer = None;
                self.observed_peer = None;
                self.expected_remote_ssrc = None;
                self.payload_type = None;
            },
        }
    }

    /// Filters an inbound datagram (see `accept_spec`) and returns the
    /// accepted packet for the audio task.
    pub fn handle_rx_packet(&mut self, bytes: &[u8], from: Endpoint) -> (r: Option<RtpPacket<512>>)
        ensures
            final(self)@ == accept_spec(old(self)@, bytes@, from).0,
            match accept_spec(old(self)@, bytes@, from).1 {
                None => r is None,
                Some((h, p)) => r matches Some(pkt) && pkt.header == h && pkt.payload@ == p,
            },
    {
        if bytes.len() < 12 {
            return None;
        }
        match self.signaled_peer {
            Some(p) => {
                if p.ip != from.ip {
                    return None;
                }
            },
            None => {},
        }
        let pkt = match RtpPacket::<512>::unpack(bytes) {
            Ok(p) => p,
            Err(_) => {
                return None;
            },
        };
        match self.payload_type {
            Some(pt) => {
                if pkt.header.payload_type != pt {
                    return None;
                }
            },
            None => {},
        }
        match self.expected_remote_ssrc {
            Some(x) => {
                if x != pkt.header.ssrc {
                    return None;
                }
            },
            None => {},
        }
        self.expected_remote_ssrc = Some(pkt.header.ssrc);
        self.observed_peer = Some(from);
        Some(pkt)
    }

    /// Whether the send deadline has come.
    pub fn tick_due(&self, now: u64) -> (r: bool)
        ensures
            r == (now >= self@.next_tick),
    {
        now >= self.next_tick
    }

    /// Moves the send deadline past `now` by whole periods.
    pub fn advance_tick(&mut self, now: u64)
        ensures
            final(self)@ == (SessionView { next_tick: advance_tick_spec(old(self)@.next_tick, now), ..old(self)@ }),
    {
        if self.next_tick <= now {
            let k = (now - self.next_tick) / TICK_MS + 1;
            if k > u64::MAX / TICK_MS {
                self.next_tick = u64::MAX;
            } else {
                self.next_tick = add_ms_exec(self.next_tick, k * TICK_MS);
            }
        }
    }

    /// While inactive the first send waits one period from now.
    pub fn rearm_idle(&mut self, now: u64)
        ensures
            final(self)@ == (SessionView { next_tick: add_ms(now, TICK_MS), ..old(self)@ }),
    {
        self.next_tick = add_ms_exec(now, TICK_MS);
    }

    /// The next outbound packet with `payload`, to the observed peer (else
    /// the signaled one); sequence number and timestamp then advance by 1
    /// and 160 (wrapping). Nothing without a peer; nothing is sent, though
    /// the counters advance, when the packet would exceed 524 bytes.
    pub fn send_one(&mut self, payload: Vec<u8>) -> (r: Option<(Endpoint, Vec<u8>)>)
        ensures
            (old(self)@.observed_peer is None && old(self)@.signaled_peer is None) ==> r is None && final(self)@ == old(self)@,
            !(old(self)@.observed_peer is None && old(self)@.signaled_peer is None) ==> ({
                let dest = match old(self)@.observed_peer {
                    Some(p) => p,
                    None => old(self)@.signaled_peer->Some_0,
                };
                &&& final(self)@ == (SessionView {
                    seq: wrap16(old(self)@.seq + 1),
                    ts: wrap32(old(self)@.ts + FRAME_SAMPLES),
                    ..old(self)@
                })
                &&& payload@.len() + 12 <= MAX_PACKED_LEN ==> (r matches Some((d, bytes)) && d == dest && bytes@ == rtp_pack_spec(send_header(old(self)@), payload@))
                &&& payload@.len() + 12 > MAX_PACKED_LEN ==> r is None
            }),
    {
        let dest = match self.observed_peer {
            Some(p) => p,
            None => match self.signaled_peer {
                Some(p) => p,
                None => {
                    return None;
                },
            },
        };
        let header = RtpHeader {
            version: 2,
            padding: false,
            extension: false,
            csrc_count: 0,
            marker: false,
            payload_type: match self.payload_type {
                Some(p) => p,
                None => 0,
            },
            sequence_number: self.seq,
            timestamp: self.ts,
            ssrc: self.local_ssrc,
        };
        let pkt: RtpPacket<512> = RtpPacket { header, payload };
        self.seq = self.seq.wrapping_add(1);
        self.ts = self.ts.wrapping_add(FRAME_SAMPLES);
        match pkt.pack() {
            Ok(bytes) => Some((dest, bytes)),
            Err(_) => None,
        }
    }
}

} // verus!
