//! The REGISTER client transaction: request building and response handling.
use vstd::prelude::*;
use crate::auth::{parse_challenge, parse_www_authenticate, DigestChallenge};
use crate::message::{
    header_index, header_lookup, sip_2_0, Header, HeaderView, Method, Request,
    RequestView, Response, SipError,
};
use crate::text::{
    dec_digits, hex_digits, parse_uint, parse_uint_exec, push_decimal, push_hex, push_str,
    str_chars, zero_pad,
};

verus! {

#[derive(Debug, Clone, Copy, PartialEq, Eq, Structural)]
pub enum RegistrationState {
    Unregistered,
    Registering,
    Registered,
    Error,
}

#[derive(Debug, Clone, Copy, PartialEq, Eq, Structural)]
pub enum RegistrationResult {
    Sent,
    Registered(u32),
    AuthRequired,
    Failed(u16),
}

/// Expires taken before any registrar has granted one.
pub const DEFAULT_EXPIRES: u32 = 3600;

/// Shortest registration lifetime used for scheduling refreshes.
pub const MIN_EXPIRES: u32 = 5;

#[derive(Debug)]
pub struct RegistrationTransaction {
    state: RegistrationState,
    cseq: u32,
    call_id: String,
    from_tag: String,
    to_tag: String,
    branch_counter: u32,
    last_expires: u32,
    last_challenge: Option<DigestChallenge>,
}

pub struct RegView {
    pub state: RegistrationState,
    pub cseq: u32,
    pub call_id: Seq<char>,
    pub from_tag: Seq<char>,
    pub to_tag: Seq<char>,
    pub branch_counter: u32,
    pub last_expires: u32,
    /// (realm, nonce, algorithm) of the last challenge.
    pub last_challenge: Option<(Seq<char>, Seq<char>, Seq<char>)>,
}

pub open spec fn challenge_view(c: DigestChallenge) -> (Seq<char>, Seq<char>, Seq<char>) {
    (c.realm@, c.nonce@, c.algorithm@)
}

impl View for RegistrationTransaction {
    type V = RegView;

    closed spec fn view(&self) -> RegView {
        RegView {
            state: self.state,
            cseq: self.cseq,
            call_id: self.call_id@,
            from_tag: self.from_tag@,
            to_tag: self.to_tag@,
            branch_counter: self.branch_counter,
            last_expires: self.last_expires,
            last_challenge: match self.last_challenge {
                Some(c) => Some(challenge_view(c)),
                None => None,
            },
        }
    }
}

pub open spec fn wrapping_inc(x: u32) -> u32 {
    if x == u32::MAX {
        0
    } else {
        (x + 1) as u32
    }
}

/// `prefix-<counter in hex>`.
pub open spec fn simple_token_spec(prefix: Seq<char>, counter: u32) -> Seq<char> {
    prefix + "-"@ + hex_digits(counter as nat)
}

fn simple_token(prefix: &str, counter: u32) -> (r: String)
    ensures
        r@ == simple_token_spec(prefix@, counter),
{
    let mut t = String::new();
    push_str(&mut t, prefix);
    push_str(&mut t, "-");
    push_hex(&mut t, counter as u64, 0);
    assert(t@ =~= simple_token_spec(prefix@, counter));
    t
}

/// Via branch: the magic cookie and the counter as eight hex digits.
pub open spec fn branch_spec(counter: u32) -> Seq<char> {
    "z9hG4bK"@ + zero_pad(hex_digits(counter as nat), 8)
}

pub open spec fn via_value(host: Seq<char>, port: u16, branch: Seq<char>) -> Seq<char> {
    "SIP/2.0/UDP "@ + host + ":"@ + dec_digits(port as nat) + ";branch="@ + branch + ";rport"@
}

pub open spec fn tagged(uri: Seq<char>, tag: Seq<char>) -> Seq<char> {
    uri + ";tag="@ + tag
}

pub open spec fn cseq_value(seq: u32, method: Seq<char>) -> Seq<char> {
    dec_digits(seq as nat) + " "@ + method
}

/// Headers of a REGISTER in order: Via, Max-Forwards, From, To, Call-ID,
/// CSeq, Contact, Expires, the optional Authorization, Content-Length.
pub open spec fn register_headers(
    r: RegView,
    contact: Seq<char>,
    via_host: Seq<char>,
    via_port: u16,
    expires: u32,
    auth: Option<HeaderView>,
) -> Seq<HeaderView> {
    let base = seq![
        ("Via"@, via_value(via_host, via_port, branch_spec(r.branch_counter))),
        ("Max-Forwards"@, "70"@),
        ("From"@, tagged(contact, r.from_tag)),
        ("To"@, tagged(contact, r.to_tag)),
        ("Call-ID"@, r.call_id),
        ("CSeq"@, cseq_value(wrapping_inc(r.cseq), "REGISTER"@)),
        ("Contact"@, contact),
        ("Expires"@, dec_digits(expires as nat)),
    ];
    let with_auth = match auth {
        Some(h) => base.push(h),
        None => base,
    };
    with_auth.push(("Content-Length"@, "0"@))
}

/// The state after a final response, and what the response meant.
pub open spec fn handle_response_spec(r: RegView, status: u16, headers: Seq<HeaderView>) -> (
    RegView,
    RegistrationResult,
) {
    if status == 200 {
        let e = match header_lookup(headers, "Expires"@) {
            Some(v) => match parse_uint(v, u32::MAX as nat) {
                Some(n) => n as u32,
                None => r.last_expires,
            },
            None => r.last_expires,
        };
        (
            RegView { state: RegistrationState::Registered, last_expires: e, ..r },
            RegistrationResult::Registered(e),
        )
    } else if status == 401 || status == 407 {
        let ch = match header_lookup(headers, "WWW-Authenticate"@) {
            Some(v) => parse_challenge(v),
            None => None,
        };
        (
            RegView {
                state: RegistrationState::Unregistered,
                last_challenge: if ch is Some {
                    ch
                } else {
                    r.last_challenge
                },
                ..r
            },
            RegistrationResult::AuthRequired,
        )
    } else {
        (RegView { state: RegistrationState::Unregistered, ..r }, RegistrationResult::Failed(status))
    }
}

/// Seconds until the registration should be refreshed: 80% of the last
/// Expires, counting at least 5 seconds.
pub open spec fn refresh_interval(last_expires: u32) -> int {
    let e: int = if last_expires < MIN_EXPIRES {
        MIN_EXPIRES as int
    } else {
        last_expires as int
    };
    (e * 8) / 10
}

impl RegistrationTransaction {
    /// A fresh transaction: unregistered, CSeq 0, Call-ID `reg-1`, tags
    /// `from-1` and `to-1`, branch counter 1, Expires 3600, no challenge.
    pub fn new() -> (r: Self)
        ensures
            r@ == (RegView {
                state: RegistrationState::Unregistered,
                cseq: 0,
                call_id: simple_token_spec("reg"@, 1),
                from_tag: simple_token_spec("from"@, 1),
                to_tag: simple_token_spec("to"@, 1),
                branch_counter: 1,
                last_expires: DEFAULT_EXPIRES,
                last_challenge: None,
            }),
    {
        RegistrationTransaction {
            state: RegistrationState::Unregistered,
            cseq: 0,
            call_id: simple_token("reg", 1),
            from_tag: simple_token("from", 1),
            to_tag: simple_token("to", 1),
            branch_counter: 1,
            last_expires: DEFAULT_EXPIRES,
            last_challenge: None,
        }
    }

    pub fn state(&self) -> (r: RegistrationState)
        ensures
            r == self@.state,
    {
        self.state
    }

    pub fn last_expires(&self) -> (r: u32)
        ensures
            r == self@.last_expires,
    {
        self.last_expires
    }

    pub fn last_challenge(&self) -> (r: Option<DigestChallenge>)
        ensures
            match self@.last_challenge {
                Some(c) => r matches Some(rc) && challenge_view(rc) == c,
                None => r is None,
            },
    {
        match &self.last_challenge {
            Some(c) => Some(c.duplicate()),
            None => None,
        }
    }

    /// Gives up on an attempt in flight: back to `Unregistered`.
    pub fn reset_to_unregistered(&mut self)
        ensures
            final(self)@ == (RegView { state: RegistrationState::Unregistered, ..old(self)@ }),
    {
        self.state = RegistrationState::Unregistered;
    }

    /// The next Via branch; the counter advances (wrapping).
    pub fn next_branch(&mut self) -> (r: String)
        ensures
            r@ == branch_spec(old(self)@.branch_counter),
            final(self)@ == (RegView {
                branch_counter: wrapping_inc(old(self)@.branch_counter),
                ..old(self)@
            }),
    {
        let mut b = String::new();
        let counter = self.branch_counter;
        self.branch_counter = self.branch_counter.wrapping_add(1);
        push_str(&mut b, "z9hG4bK");
        push_hex(&mut b, counter as u64, 8);
        b
    }

    /// Seconds until the next refresh.
    pub fn next_refresh_interval_secs(&self) -> (r: u64)
        ensures
            r == refresh_interval(self@.last_expires),
    {
        let e: u64 = if self.last_expires < MIN_EXPIRES {
            MIN_EXPIRES as u64
        } else {
            self.last_expires as u64
        };
        (e * 8) / 10
    }

    /// Builds the next REGISTER; `InvalidState` while one is in flight.
    /// CSeq and the branch counter advance and the state becomes
    /// `Registering`; Call-ID and tags stay.
    pub fn build_register(
        &mut self,
        registrar_uri: &str,
        contact_uri: &str,
        via_host: &str,
        via_port: u16,
        expires: u32,
        auth_header: Option<Header>,
    ) -> (r: Result<Request, SipError>)
        ensures
            old(self)@.state == RegistrationState::Registering ==> (r matches Err(
                SipError::InvalidState(_),
            ) && final(self)@ == old(self)@),
            old(self)@.state != RegistrationState::Registering ==> (r matches Ok(req) && req@ == (
            RequestView {
                method: Method::Register,
                uri: registrar_uri@,
                version: sip_2_0(),
                headers: register_headers(
                    old(self)@,
                    contact_uri@,
                    via_host@,
                    via_port,
                    expires,
                    match auth_header {
                        Some(h) => Some(h@),
                        None => None,
                    },
                ),
                body: Seq::empty(),
            }) && final(self)@ == (RegView {
                state: RegistrationState::Registering,
                cseq: wrapping_inc(old(self)@.cseq),
                branch_counter: wrapping_inc(old(self)@.branch_counter),
                ..old(self)@
            })),
    {
        if self.state == RegistrationState::Registering {
            return Err(SipError::InvalidState("already registering"));
        }
        self.cseq = self.cseq.wrapping_add(1);
        self.state = RegistrationState::Registering;
        let mut req = match Request::new(Method::Register, registrar_uri) {
            Ok(r) => r,
            Err(e) => {
                return Err(e);
            },
        };
        let branch = self.next_branch();
        let mut via = String::new();
        push_str(&mut via, "SIP/2.0/UDP ");
        push_str(&mut via, via_host);
        push_str(&mut via, ":");
        push_decimal(&mut via, via_port as u64);
        push_str(&mut via, ";branch=");
        push_str(&mut via, branch.as_str());
        push_str(&mut via, ";rport");
        let mut from = String::new();
        push_str(&mut from, contact_uri);
        push_str(&mut from, ";tag=");
        push_str(&mut from, self.from_tag.as_str());
        let mut to = String::new();
        push_str(&mut to, contact_uri);
        push_str(&mut to, ";tag=");
        push_str(&mut to, self.to_tag.as_str());
        let mut cseq = String::new();
        push_decimal(&mut cseq, self.cseq as u64);
        push_str(&mut cseq, " ");
        push_str(&mut cseq, "REGISTER");
        let mut exp = String::new();
        push_decimal(&mut exp, expires as u64);
        let ghost h0 = req@.headers;
        assert(via@ =~= via_value(via_host@, via_port, branch_spec(old(self)@.branch_counter)));
        assert(from@ =~= tagged(contact_uri@, old(self)@.from_tag));
        assert(to@ =~= tagged(contact_uri@, old(self)@.to_tag));
        assert(self.cseq == wrapping_inc(old(self)@.cseq));
        assert(cseq@ =~= cseq_value(wrapping_inc(old(self)@.cseq), "REGISTER"@));
        let _ = req.add_header(Header { name: lit("Via"), value: via });
        let _ = req.add_header(Header { name: lit("Max-Forwards"), value: lit("70") });
        let _ = req.add_header(Header { name: lit("From"), value: from });
        let _ = req.add_header(Header { name: lit("To"), value: to });
        let _ = req.add_header(Header { name: lit("Call-ID"), value: crate::message::copy_string(&self.call_id) });
        let _ = req.add_header(Header { name: lit("CSeq"), value: cseq });
        let _ = req.add_header(Header { name: lit("Contact"), value: lit(contact_uri) });
        let _ = req.add_header(Header { name: lit("Expires"), value: exp });
        let ghost auth_v: Option<HeaderView> = match &auth_header {
            Some(h) => Some(h@),
            None => None,
        };
        match auth_header {
            Some(h) => {
                let _ = req.add_header(h);
            },
            None => {},
        }
        let _ = req.add_header(Header { name: lit("Content-Length"), value: lit("0") });
        assert(req@.headers =~= register_headers(
            old(self)@,
            contact_uri@,
            via_host@,
            via_port,
            expires,
            auth_v,
        ));
        Ok(req)
    }

    /// Applies a final response to the REGISTER: 200 registers (with the
    /// response's Expires when it parses, else the last one); 401 and 407
    /// store a readable `WWW-Authenticate` challenge; they and any other
    /// status leave the state `Unregistered`.
    pub fn handle_response(&mut self, resp: &Response) -> (r: RegistrationResult)
        ensures
            (final(self)@, r) == handle_response_spec(old(self)@, resp.status_code, resp@.headers),
    {
        if resp.status_code == 200 {
            self.state = RegistrationState::Registered;
            let expires = match header_index(&resp.headers, "Expires") {
                Some(i) => {
                    let v = str_chars(resp.headers[i].value.as_str());
                    match parse_uint_exec(v.as_slice(), 0, v.len(), 0xffff_ffff) {
                        Some(n) => {
                            assert(v@.subrange(0, v@.len() as int) =~= v@);
                            n as u32
                        },
                        None => {
                            assert(v@.subrange(0, v@.len() as int) =~= v@);
                            self.last_expires
                        },
                    }
                },
                None => self.last_expires,
            };
            self.last_expires = expires;
            RegistrationResult::Registered(expires)
        } else if resp.status_code == 401 || resp.status_code == 407 {
            match header_index(&resp.headers, "WWW-Authenticate") {
                Some(i) => {
                    let v = resp.headers[i].value.as_str();
                    match parse_www_authenticate(v) {
                        Ok(c) => {
                            self.last_challenge = Some(c);
                        },
                        Err(_) => {},
                    }
                },
                None => {},
            }
            self.state = RegistrationState::Unregistered;
            RegistrationResult::AuthRequired
        } else {
            self.state = RegistrationState::Unregistered;
            RegistrationResult::Failed(resp.status_code)
        }
    }
}

impl Default for RegistrationTransaction {
    fn default() -> (r: Self)
        ensures
            r@ == (RegView {
                state: RegistrationState::Unregistered,
                cseq: 0,
                call_id: simple_token_spec("reg"@, 1),
                from_tag: simple_token_spec("from"@, 1),
                to_tag: simple_token_spec("to"@, 1),
                branch_counter: 1,
                last_expires: DEFAULT_EXPIRES,
                last_challenge: None,
            }),
    {
        RegistrationTransaction::new()
    }
}

/// A `String` holding `s`.
pub fn lit(s: &str) -> (r: String)
    ensures
        r@ == s@,
{
    let mut out = String::new();
    push_str(&mut out, s);
    out
}

} // verus!
