//! Session descriptions (SDP) for a single PCMU audio stream: building the
//! local offer and reading the peer's address, port and payload type.
use vstd::prelude::*;
use crate::message::{tokens, tokens_exec};
use crate::text::{
    dec_digits, find_from, find_from_exec, has_prefix_at, has_prefix_at_exec, parse_uint,
    parse_uint_exec, push_decimal, push_str, str_chars, string_of_range,
};

verus! {

#[derive(Debug, Clone, PartialEq, Eq)]
pub struct SessionDescription {
    pub origin: String,
    pub connection_address: String,
    pub media_port: u16,
    pub payload_type: u8,
}

#[derive(Debug, Clone, PartialEq, Eq)]
pub enum SdpError {
    /// The text lacks a connection line or an audio media line.
    Invalid(String),
}

pub struct SdpView {
    pub origin: Seq<char>,
    pub connection_address: Seq<char>,
    pub media_port: u16,
    pub payload_type: u8,
}

impl View for SessionDescription {
    type V = SdpView;

    open spec fn view(&self) -> SdpView {
        SdpView {
            origin: self.origin@,
            connection_address: self.connection_address@,
            media_port: self.media_port,
            payload_type: self.payload_type,
        }
    }
}

/// Port of the default offer.
pub const DEFAULT_MEDIA_PORT: u16 = 10000;

impl SessionDescription {
    /// The default offer: PCMU on port 10000, unspecified address.
    pub fn offer() -> (r: Self)
        ensures
            r@ == (SdpView {
                origin: "atom-echo"@,
                connection_address: "0.0.0.0"@,
                media_port: DEFAULT_MEDIA_PORT,
                payload_type: 0,
            }),
    {
        let mut origin = String::new();
        push_str(&mut origin, "atom-echo");
        let mut addr = String::new();
        push_str(&mut addr, "0.0.0.0");
        SessionDescription {
            origin,
            connection_address: addr,
            media_port: DEFAULT_MEDIA_PORT,
            payload_type: 0,
        }
    }

    pub fn duplicate(&self) -> (r: Self)
        ensures
            r@ == self@,
    {
        let mut origin = String::new();
        push_str(&mut origin, self.origin.as_str());
        let mut addr = String::new();
        push_str(&mut addr, self.connection_address.as_str());
        SessionDescription {
            origin,
            connection_address: addr,
            media_port: self.media_port,
            payload_type: self.payload_type,
        }
    }

    /// The description as SDP text, CRLF line endings.
    pub fn render(&self) -> (r: String)
        ensures
            r@ == render_sdp(self@),
    {
        let mut out = String::new();
        push_str(&mut out, "v=0\r\no=");
        push_str(&mut out, self.origin.as_str());
        push_str(&mut out, " 0 0 IN IP4 ");
        push_str(&mut out, self.connection_address.as_str());
        push_str(&mut out, "\r\ns=-\r\nc=IN IP4 ");
        push_str(&mut out, self.connection_address.as_str());
        push_str(&mut out, "\r\nt=0 0\r\nm=audio ");
        push_decimal(&mut out, self.media_port as u64);
        push_str(&mut out, " RTP/AVP ");
        push_decimal(&mut out, self.payload_type as u64);
        push_str(&mut out, "\r\na=rtpmap:");
        push_decimal(&mut out, self.payload_type as u64);
        push_str(&mut out, " PCMU/8000\r\n");
        assert(out@ =~= render_sdp(self@));
        out
    }
}

pub open spec fn render_sdp(d: SdpView) -> Seq<char> {
    "v=0\r\no="@ + d.origin + " 0 0 IN IP4 "@ + d.connection_address + "\r\ns=-\r\nc=IN IP4 "@
        + d.connection_address + "\r\nt=0 0\r\nm=audio "@ + dec_digits(d.media_port as nat)
        + " RTP/AVP "@ + dec_digits(d.payload_type as nat) + "\r\na=rtpmap:"@ + dec_digits(
        d.payload_type as nat,
    ) + " PCMU/8000\r\n"@
}

/// What the lines read so far gave: the first origin user name, the first
/// connection address and the first audio media (port, payload type).
pub struct SdpScan {
    pub origin: Option<Seq<char>>,
    pub conn: Option<Seq<char>>,
    pub media: Option<(u16, u8)>,
}

/// What the line `s[q..e]` contributes to `acc`.
pub open spec fn scan_line(s: Seq<char>, q: int, e: int, acc: SdpScan) -> SdpScan {
    let t = tokens(s, q, e);
    if t.len() >= 1 && has_prefix_at(t[0], 0, "o="@) && acc.origin is None {
        SdpScan { origin: Some(t[0].subrange(2, t[0].len() as int)), ..acc }
    } else if t.len() >= 3 && t[0] == "c=IN"@ && acc.conn is None {
        SdpScan { conn: Some(t[2]), ..acc }
    } else if t.len() >= 4 && t[0] == "m=audio"@ && acc.media is None && parse_uint(
        t[1],
        u16::MAX as nat,
    ) is Some && parse_uint(t[3], u8::MAX as nat) is Some {
        SdpScan {
            media: Some(
                (
                    parse_uint(t[1], u16::MAX as nat)->Some_0 as u16,
                    parse_uint(t[3], u8::MAX as nat)->Some_0 as u8,
                ),
            ),
            ..acc
        }
    } else {
        acc
    }
}

/// Scans the lines (LF-separated) from position `q` on.
pub open spec fn scan_lines(s: Seq<char>, q: int, acc: SdpScan) -> SdpScan
    decreases s.len() + 1 - q,
{
    if q > s.len() || q < 0 {
        acc
    } else {
        let e = find_from(s, q, seq!['\n']);
        if e < q || e > s.len() {
            acc
        } else if e >= s.len() {
            scan_line(s, q, e, acc)
        } else {
            scan_lines(s, e + 1, scan_line(s, q, e, acc))
        }
    }
}

/// The description that SDP text gives, if it has a connection line and an
/// audio media line.
pub open spec fn parse_sdp(s: Seq<char>) -> Option<SdpView> {
    let r = scan_lines(s, 0, SdpScan { origin: None, conn: None, media: None });
    if r.conn is Some && r.media is Some {
        Some(
            SdpView {
                origin: if r.origin is Some {
                    r.origin->Some_0
                } else {
                    "-"@
                },
                connection_address: r.conn->Some_0,
                media_port: r.media->Some_0.0,
                payload_type: r.media->Some_0.1,
            },
        )
    } else {
        None
    }
}

struct ScanState {
    origin: Option<String>,
    conn: Option<String>,
    media: Option<(u16, u8)>,
}

spec fn scan_view(st: ScanState) -> SdpScan {
    SdpScan {
        origin: match st.origin {
            Some(o) => Some(o@),
            None => None,
        },
        conn: match st.conn {
            Some(c) => Some(c@),
            None => None,
        },
        media: st.media,
    }
}

fn range_eq(s: &Vec<char>, lo: usize, hi: usize, t: &str) -> (r: bool)
    requires
        lo <= hi <= s@.len(),
    ensures
        r == (s@.subrange(lo as int, hi as int) == t@),
{
    let tc = str_chars(t);
    if hi - lo != tc.len() {
        assert(s@.subrange(lo as int, hi as int).len() != t@.len());
        return false;
    }
    has_prefix_at_exec(s.as_slice(), lo, tc.as_slice())
}

fn scan_line_exec(s: &Vec<char>, q: usize, e: usize, st: ScanState) -> (r: ScanState)
    requires
        q <= e <= s@.len(),
    ensures
        scan_view(r) == scan_line(s@, q as int, e as int, scan_view(st)),
{
    let t = tokens_exec(s, q, e);
    let ghost tk = tokens(s@, q as int, e as int);
    if t.len() >= 1 {
        assert(tk[0] == s@.subrange(t@[0].0 as int, t@[0].1 as int));
    }
    if t.len() >= 2 {
        assert(tk[1] == s@.subrange(t@[1].0 as int, t@[1].1 as int));
    }
    if t.len() >= 3 {
        assert(tk[2] == s@.subrange(t@[2].0 as int, t@[2].1 as int));
    }
    if t.len() >= 4 {
        assert(tk[3] == s@.subrange(t@[3].0 as int, t@[3].1 as int));
    }
    let o = str_chars("o=");
    if t.len() >= 1 && st.origin.is_none() {
        let (a, b) = t[0];
        let tok = crate::message::slice_chars_pub(s, a, b);
        if has_prefix_at_exec(tok.as_slice(), 0, o.as_slice()) {
            proof {
                reveal_strlit("o=");
            }
            assert(o@.len() == 2);
            let name = string_of_range(s, a + 2, b);
            assert(tok@.subrange(2, tok@.len() as int) =~= s@.subrange(a + 2, b as int));
            return ScanState { origin: Some(name), ..st };
        }
    }
    if t.len() >= 3 && st.conn.is_none() && range_eq(s, t[0].0, t[0].1, "c=IN") {
        let (a, b) = t[2];
        return ScanState { conn: Some(string_of_range(s, a, b)), ..st };
    }
    if t.len() >= 4 && st.media.is_none() && range_eq(s, t[0].0, t[0].1, "m=audio") {
        let port = parse_uint_exec(s.as_slice(), t[1].0, t[1].1, 65535);
        let pt = parse_uint_exec(s.as_slice(), t[3].0, t[3].1, 255);
        match (port, pt) {
            (Some(p), Some(y)) => {
                return ScanState { media: Some((p as u16, y as u8)), ..st };
            },
            _ => {
                return st;
            },
        }
    }
    st
}

fn scan_lines_exec(s: &Vec<char>, q: usize, st: ScanState) -> (r: ScanState)
    requires
        q <= s@.len(),
    ensures
        scan_view(r) == scan_lines(s@, q as int, scan_view(st)),
    decreases s@.len() + 1 - q,
{
    let mut lf: Vec<char> = Vec::new();
    lf.push('\n');
    assert(lf@ =~= seq!['\n']);
    let e = find_from_exec(s.as_slice(), q, lf.as_slice());
    let st2 = scan_line_exec(s, q, e, st);
    if e >= s.len() {
        st2
    } else {
        scan_lines_exec(s, e + 1, st2)
    }
}

/// Reads the connection address, the audio port and its first payload type
/// (and the origin's user name, `-` when absent) from SDP text; `Invalid`
/// when either the `c=IN IP4` line or the `m=audio` line is missing.
pub fn parse(input: &str) -> (r: Result<SessionDescription, SdpError>)
    ensures
        match parse_sdp(input@) {
            Some(d) => r matches Ok(sd) && sd@ == d,
            None => r is Err,
        },
{
    let s = str_chars(input);
    let st = scan_lines_exec(&s, 0, ScanState { origin: None, conn: None, media: None });
    let origin = match st.origin {
        Some(o) => o,
        None => {
            let mut d = String::new();
            push_str(&mut d, "-");
            d
        },
    };
    match (st.conn, st.media) {
        (Some(c), Some((port, pt))) => Ok(
            SessionDescription { origin, connection_address: c, media_port: port, payload_type: pt },
        ),
        _ => {
            let mut msg = String::new();
            push_str(&mut msg, "missing connection or audio media line");
            Err(SdpError::Invalid(msg))
        },
    }
}

} // verus!
