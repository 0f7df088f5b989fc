//! SIP message model, rendering to text and parsing from text.
use vstd::prelude::*;
use crate::text::{
    dec_digits, eq_ignore_case, eq_ignore_case_exec, find_from, find_from_exec, has_prefix_at,
    has_prefix_at_exec, is_ws, is_ws_exec, parse_uint, parse_uint_exec, push_decimal,
    push_str, str_chars, string_of_range,
};

verus! {

/// Errors of the SIP layer.
#[derive(Debug, Clone, Copy, PartialEq, Eq)]
pub enum SipError {
    /// A message or header that cannot be read or lacks a required part.
    Invalid(&'static str),
    /// A buffer too small for the rendered text.
    Capacity,
    /// An operation that the current state does not allow.
    InvalidState(&'static str),
}

#[derive(Debug, Clone, Copy, PartialEq, Eq, Structural)]
pub enum Method {
    Register,
    Invite,
    Ack,
    Bye,
    Cancel,
    Options,
}

#[derive(Debug, Clone, Copy, PartialEq, Eq, Structural)]
pub struct Version {
    pub major: u8,
    pub minor: u8,
}

pub open spec fn sip_2_0() -> Version {
    Version { major: 2, minor: 0 }
}

impl Version {
    pub fn sip_2_0() -> (r: Version)
        ensures
            r == sip_2_0(),
    {
        Version { major: 2, minor: 0 }
    }
}

/// A header as (name, value).
pub type HeaderView = (Seq<char>, Seq<char>);

#[derive(Debug, Clone, PartialEq, Eq)]
pub struct Header {
    pub name: String,
    pub value: String,
}

impl View for Header {
    type V = HeaderView;

    open spec fn view(&self) -> HeaderView {
        (self.name@, self.value@)
    }
}

pub type HeaderList = Vec<Header>;

pub open spec fn headers_view(hs: Seq<Header>) -> Seq<HeaderView> {
    hs.map_values(|h: Header| h@)
}

#[derive(Debug, Clone, PartialEq, Eq)]
pub struct Request {
    pub method: Method,
    pub uri: String,
    pub version: Version,
    pub headers: Vec<Header>,
    pub body: String,
}

pub struct RequestView {
    pub method: Method,
    pub uri: Seq<char>,
    pub version: Version,
    pub headers: Seq<HeaderView>,
    pub body: Seq<char>,
}

impl View for Request {
    type V = RequestView;

    open spec fn view(&self) -> RequestView {
        RequestView {
            method: self.method,
            uri: self.uri@,
            version: self.version,
            headers: headers_view(self.headers@),
            body: self.body@,
        }
    }
}

#[derive(Debug, Clone, PartialEq, Eq)]
pub struct Response {
    pub version: Version,
    pub status_code: u16,
    pub reason: String,
    pub headers: HeaderList,
    pub body: String,
}

pub struct ResponseView {
    pub version: Version,
    pub status_code: u16,
    pub reason: Seq<char>,
    pub headers: Seq<HeaderView>,
    pub body: Seq<char>,
}

impl View for Response {
    type V = ResponseView;

    open spec fn view(&self) -> ResponseView {
        ResponseView {
            version: self.version,
            status_code: self.status_code,
            reason: self.reason@,
            headers: headers_view(self.headers@),
            body: self.body@,
        }
    }
}

#[derive(Debug, Clone, PartialEq, Eq)]
pub enum Message {
    Request(Request),
    Response(Response),
}

pub enum MessageView {
    Request(RequestView),
    Response(ResponseView),
}

impl View for Message {
    type V = MessageView;

    open spec fn view(&self) -> MessageView {
        match self {
            Message::Request(r) => MessageView::Request(r@),
            Message::Response(r) => MessageView::Response(r@),
        }
    }
}

/// A fresh copy of a string.
pub fn copy_string(s: &String) -> (r: String)
    ensures
        r@ == s@,
{
    let mut out = String::new();
    push_str(&mut out, s.as_str());
    out
}

impl Header {
    pub fn new(name: &str, value: &str) -> (r: Result<Header, SipError>)
        ensures
            r matches Ok(h) && h.name@ == name@ && h.value@ == value@,
    {
        let mut name_buf = String::new();
        push_str(&mut name_buf, name);
        let mut value_buf = String::new();
        push_str(&mut value_buf, value);
        Ok(Header { name: name_buf, value: value_buf })
    }

    pub fn duplicate(&self) -> (r: Header)
        ensures
            r@ == self@,
    {
        Header { name: copy_string(&self.name), value: copy_string(&self.value) }
    }
}

pub fn copy_headers(hs: &Vec<Header>) -> (r: Vec<Header>)
    ensures
        headers_view(r@) == headers_view(hs@),
{
    let mut out: Vec<Header> = Vec::new();
    let mut i: usize = 0;
    while i < hs.len()
        invariant
            i <= hs@.len(),
            out@.len() == i,
            forall|j: int| 0 <= j < i ==> (#[trigger] out@[j])@ == hs@[j]@,
        decreases hs@.len() - i,
    {
        out.push(hs[i].duplicate());
        i = i + 1;
    }
    assert(headers_view(out@) =~= headers_view(hs@));
    out
}

/// The method's name on the wire.
pub open spec fn method_name(m: Method) -> Seq<char> {
    match m {
        Method::Register => "REGISTER"@,
        Method::Invite => "INVITE"@,
        Method::Ack => "ACK"@,
        Method::Bye => "BYE"@,
        Method::Cancel => "CANCEL"@,
        Method::Options => "OPTIONS"@,
    }
}

pub fn method_str(m: Method) -> (r: &'static str)
    ensures
        r@ == method_name(m),
{
    match m {
        Method::Register => "REGISTER",
        Method::Invite => "INVITE",
        Method::Ack => "ACK",
        Method::Bye => "BYE",
        Method::Cancel => "CANCEL",
        Method::Options => "OPTIONS",
    }
}

/// Header lines, each `name: value` followed by CRLF.
pub open spec fn render_headers(hs: Seq<HeaderView>) -> Seq<char>
    decreases hs.len(),
{
    if hs.len() == 0 {
        Seq::empty()
    } else {
        render_headers(hs.drop_last()) + hs.last().0 + ": "@ + hs.last().1 + "\r\n"@
    }
}

pub open spec fn render_version(v: Version) -> Seq<char> {
    "SIP/"@ + dec_digits(v.major as nat) + "."@ + dec_digits(v.minor as nat)
}

/// A request as text: request line, header lines, an empty line, the body.
pub open spec fn render_request(r: RequestView) -> Seq<char> {
    method_name(r.method) + " "@ + r.uri + " "@ + render_version(r.version) + "\r\n"@
        + render_headers(r.headers) + "\r\n"@ + r.body
}

/// A response as text: status line, header lines, an empty line, the body.
pub open spec fn render_response(r: ResponseView) -> Seq<char> {
    render_version(r.version) + " "@ + dec_digits(r.status_code as nat) + " "@ + r.reason
        + "\r\n"@ + render_headers(r.headers) + "\r\n"@ + r.body
}

fn push_version(out: &mut String, v: Version)
    ensures
        final(out)@ == old(out)@ + render_version(v),
{
    push_str(out, "SIP/");
    push_decimal(out, v.major as u64);
    push_str(out, ".");
    push_decimal(out, v.minor as u64);
    assert(final(out)@ =~= old(out)@ + render_version(v));
}

fn push_headers_and_body(out: &mut String, headers: &Vec<Header>, body: &String)
    ensures
        final(out)@ == old(out)@ + render_headers(headers_view(headers@)) + "\r\n"@ + body@,
{
    let ghost start = out@;
    let mut i: usize = 0;
    while i < headers.len()
        invariant
            i <= headers@.len(),
            out@ == start + render_headers(headers_view(headers@.subrange(0, i as int))),
        decreases headers@.len() - i,
    {
        let h = &headers[i];
        push_str(out, h.name.as_str());
        push_str(out, ": ");
        push_str(out, h.value.as_str());
        push_str(out, "\r\n");
        let ghost pre = headers_view(headers@.subrange(0, i as int));
        i = i + 1;
        let ghost cur = headers_view(headers@.subrange(0, i as int));
        assert(cur.drop_last() =~= pre);
        assert(out@ =~= start + render_headers(cur));
    }
    assert(headers@.subrange(0, headers@.len() as int) =~= headers@);
    push_str(out, "\r\n");
    push_str(out, body.as_str());
    assert(out@ =~= start + render_headers(headers_view(headers@)) + "\r\n"@ + body@);
}

impl Request {
    pub fn new(method: Method, uri: &str) -> (r: Result<Request, SipError>)
        ensures
            r matches Ok(req) && req@ == (RequestView {
                method,
                uri: uri@,
                version: sip_2_0(),
                headers: Seq::empty(),
                body: Seq::empty(),
            }),
    {
        let mut uri_buf = String::new();
        push_str(&mut uri_buf, uri);
        let r = Request {
            method,
            uri: uri_buf,
            version: Version::sip_2_0(),
            headers: Vec::new(),
            body: String::new(),
        };
        assert(headers_view(r.headers@) =~= Seq::empty());
        Ok(r)
    }

    pub fn add_header(&mut self, header: Header) -> (r: Result<(), SipError>)
        ensures
            r is Ok,
            final(self)@ == (RequestView { headers: old(self)@.headers.push(header@), ..old(self)@ }),
    {
        self.headers.push(header);
        assert(headers_view(self.headers@) =~= headers_view(old(self).headers@).push(header@));
        Ok(())
    }

    pub fn set_body(&mut self, body: &str) -> (r: Result<(), SipError>)
        ensures
            r is Ok,
            final(self)@ == (RequestView { body: body@, ..old(self)@ }),
    {
        let mut b = String::new();
        push_str(&mut b, body);
        self.body = b;
        Ok(())
    }

    pub fn duplicate(&self) -> (r: Request)
        ensures
            r@ == self@,
    {
        Request {
            method: self.method,
            uri: copy_string(&self.uri),
            version: self.version,
            headers: copy_headers(&self.headers),
            body: copy_string(&self.body),
        }
    }

    pub fn render(&self) -> (r: Result<String, SipError>)
        ensures
            r matches Ok(s) && s@ == render_request(self@),
    {
        let mut out = String::new();
        push_str(&mut out, method_str(self.method));
        push_str(&mut out, " ");
        push_str(&mut out, self.uri.as_str());
        push_str(&mut out, " ");
        push_version(&mut out, self.version);
        push_str(&mut out, "\r\n");
        push_headers_and_body(&mut out, &self.headers, &self.body);
        assert(out@ =~= render_request(self@));
        Ok(out)
    }
}

impl Response {
    pub fn new(status_code: u16, reason: &str) -> (r: Result<Response, SipError>)
        ensures
            r matches Ok(resp) && resp@ == (ResponseView {
                version: sip_2_0(),
                status_code,
                reason: reason@,
                headers: Seq::empty(),
                body: Seq::empty(),
            }),
    {
        let mut reason_buf = String::new();
        push_str(&mut reason_buf, reason);
        let r = Response {
            version: Version::sip_2_0(),
            status_code,
            reason: reason_buf,
            headers: Vec::new(),
            body: String::new(),
        };
        assert(headers_view(r.headers@) =~= Seq::empty());
        Ok(r)
    }

    pub fn add_header(&mut self, header: Header)
        ensures
            final(self)@ == (ResponseView { headers: old(self)@.headers.push(header@), ..old(self)@ }),
    {
        self.headers.push(header);
        assert(headers_view(self.headers@) =~= headers_view(old(self).headers@).push(header@));
    }

    pub fn set_body(&mut self, body: &str)
        ensures
            final(self)@ == (ResponseView { body: body@, ..old(self)@ }),
    {
        let mut b = String::new();
        push_str(&mut b, body);
        self.body = b;
    }

    pub fn duplicate(&self) -> (r: Response)
        ensures
            r@ == self@,
    {
        Response {
            version: self.version,
            status_code: self.status_code,
            reason: copy_string(&self.reason),
            headers: copy_headers(&self.headers),
            body: copy_string(&self.body),
        }
    }

    pub fn render(&self) -> (r: Result<String, SipError>)
        ensures
            r matches Ok(s) && s@ == render_response(self@),
    {
        let mut out = String::new();
        push_version(&mut out, self.version);
        push_str(&mut out, " ");
        push_decimal(&mut out, self.status_code as u64);
        push_str(&mut out, " ");
        push_str(&mut out, self.reason.as_str());
        push_str(&mut out, "\r\n");
        push_headers_and_body(&mut out, &self.headers, &self.body);
        assert(out@ =~= render_response(self@));
        Ok(out)
    }
}

/// The value of the first header whose name equals `name` up to ASCII case.
pub open spec fn header_lookup(hs: Seq<HeaderView>, name: Seq<char>) -> Option<Seq<char>>
    decreases hs.len(),
{
    if hs.len() == 0 {
        None
    } else if eq_ignore_case(hs[0].0, name) {
        Some(hs[0].1)
    } else {
        header_lookup(hs.drop_first(), name)
    }
}

proof fn lemma_header_lookup_step(hs: Seq<HeaderView>, name: Seq<char>, i: int)
    requires
        0 <= i < hs.len(),
        forall|j: int| 0 <= j < i ==> !eq_ignore_case(#[trigger] hs[j].0, name),
    ensures
        header_lookup(hs, name) == header_lookup(hs.subrange(i, hs.len() as int), name),
    decreases i,
{
    if i > 0 {
        assert(hs.drop_first().subrange(i - 1, hs.drop_first().len() as int) =~= hs.subrange(
            i,
            hs.len() as int,
        ));
        assert forall|j: int| 0 <= j < i - 1 implies !eq_ignore_case(
            #[trigger] hs.drop_first()[j].0,
            name,
        ) by {
            assert(hs.drop_first()[j] == hs[j + 1]);
        }
        lemma_header_lookup_step(hs.drop_first(), name, i - 1);
        assert(!eq_ignore_case(hs[0].0, name));
    } else {
        assert(hs.subrange(0, hs.len() as int) =~= hs);
    }
}

/// The first header named `name` (ignoring ASCII case), by index.
pub fn header_index(headers: &Vec<Header>, name: &str) -> (r: Option<usize>)
    ensures
        match header_lookup(headers_view(headers@), name@) {
            None => r is None,
            Some(v) => r matches Some(i) && i < headers@.len() && headers@[i as int].value@ == v,
        },
{
    let want = str_chars(name);
    let ghost hv = headers_view(headers@);
    let mut i: usize = 0;
    while i < headers.len()
        invariant
            i <= headers@.len(),
            hv == headers_view(headers@),
            want@ == name@,
            forall|j: int| 0 <= j < i ==> !eq_ignore_case(#[trigger] hv[j].0, name@),
        decreases headers@.len() - i,
    {
        let n = str_chars(headers[i].name.as_str());
        if eq_ignore_case_exec(n.as_slice(), want.as_slice()) {
            proof {
                lemma_header_lookup_step(hv, name@, i as int);
            }
            assert(hv.subrange(i as int, hv.len() as int)[0] == hv[i as int]);
            return Some(i);
        }
        i = i + 1;
    }
    proof {
        if hv.len() > 0 {
            assert(header_lookup(hv, name@) is None) by {
                lemma_lookup_none(hv, name@);
            }
        }
    }
    None
}

proof fn lemma_lookup_none(hs: Seq<HeaderView>, name: Seq<char>)
    requires
        forall|j: int| 0 <= j < hs.len() ==> !eq_ignore_case(#[trigger] hs[j].0, name),
    ensures
        header_lookup(hs, name) is None,
    decreases hs.len(),
{
    if hs.len() > 0 {
        assert forall|j: int| 0 <= j < hs.drop_first().len() implies !eq_ignore_case(
            #[trigger] hs.drop_first()[j].0,
            name,
        ) by {
            assert(hs.drop_first()[j] == hs[j + 1]);
        }
        lemma_lookup_none(hs.drop_first(), name);
        assert(!eq_ignore_case(hs[0].0, name));
    }
}

/// The value of the first header named `name`, ignoring ASCII case.
pub fn header_value<'a>(headers: &'a HeaderList, name: &str) -> (r: Option<&'a str>)
    ensures
        match header_lookup(headers_view(headers@), name@) {
            None => r is None,
            Some(v) => r matches Some(s) && s@ == v,
        },
{
    match header_index(headers, name) {
        Some(i) => Some(headers[i].value.as_str()),
        None => None,
    }
}

// ---------------------------------------------------------------------------
// Parsing

pub open spec fn crlf() -> Seq<char> {
    seq!['\r', '\n']
}

/// Index of the first non-whitespace character in `s[i..hi]`, or `hi`.
pub open spec fn skip_ws(s: Seq<char>, i: int, hi: int) -> int
    decreases hi - i,
{
    if i >= hi {
        hi
    } else if is_ws(s[i]) {
        skip_ws(s, i + 1, hi)
    } else {
        i
    }
}

/// End of the run of non-whitespace characters that starts at `i`.
pub open spec fn token_end(s: Seq<char>, i: int, hi: int) -> int
    decreases hi - i,
{
    if i >= hi {
        hi
    } else if is_ws(s[i]) {
        i
    } else {
        token_end(s, i + 1, hi)
    }
}

/// End (exclusive) of `s[lo..j]` once trailing whitespace is dropped.
pub open spec fn skip_ws_back(s: Seq<char>, lo: int, j: int) -> int
    decreases j - lo,
{
    if j <= lo {
        lo
    } else if is_ws(s[j - 1]) {
        skip_ws_back(s, lo, j - 1)
    } else {
        j
    }
}

/// `str::trim` on `s[lo..hi]`, as a range of `s`.
pub open spec fn trim_range(s: Seq<char>, lo: int, hi: int) -> (int, int) {
    let a = skip_ws(s, lo, hi);
    (a, skip_ws_back(s, a, hi))
}

pub open spec fn trim(s: Seq<char>) -> Seq<char> {
    let (a, b) = trim_range(s, 0, s.len() as int);
    s.subrange(a, b)
}

/// `str::split_whitespace` on `s[i..hi]`.
pub open spec fn tokens(s: Seq<char>, i: int, hi: int) -> Seq<Seq<char>>
    decreases hi - i,
{
    let a = skip_ws(s, i, hi);
    if a >= hi || a < i {
        Seq::empty()
    } else {
        let b = token_end(s, a, hi);
        if b <= a || b > hi {
            Seq::empty()
        } else {
            seq![s.subrange(a, b)] + tokens(s, b, hi)
        }
    }
}

proof fn lemma_skip_ws(s: Seq<char>, i: int, hi: int)
    requires
        0 <= i <= hi <= s.len(),
    ensures
        i <= skip_ws(s, i, hi) <= hi,
        skip_ws(s, i, hi) < hi ==> !is_ws(s[skip_ws(s, i, hi)]),
    decreases hi - i,
{
    if i < hi && is_ws(s[i]) {
        lemma_skip_ws(s, i + 1, hi);
    }
}

proof fn lemma_token_end(s: Seq<char>, i: int, hi: int)
    requires
        0 <= i <= hi <= s.len(),
    ensures
        i <= token_end(s, i, hi) <= hi,
        i < hi && !is_ws(s[i]) ==> i < token_end(s, i, hi),
    decreases hi - i,
{
    if i < hi && !is_ws(s[i]) {
        lemma_token_end(s, i + 1, hi);
    }
}

proof fn lemma_skip_ws_back(s: Seq<char>, lo: int, j: int)
    requires
        0 <= lo <= j <= s.len(),
    ensures
        lo <= skip_ws_back(s, lo, j) <= j,
    decreases j - lo,
{
    if j > lo && is_ws(s[j - 1]) {
        lemma_skip_ws_back(s, lo, j - 1);
    }
}

fn skip_ws_exec(s: &Vec<char>, i: usize, hi: usize) -> (r: usize)
    requires
        i <= hi <= s@.len(),
    ensures
        r == skip_ws(s@, i as int, hi as int),
        i <= r <= hi,
{
    proof {
        lemma_skip_ws(s@, i as int, hi as int);
    }
    let mut k = i;
    while k < hi && is_ws_exec(s[k])
        invariant
            i <= k <= hi <= s@.len(),
            skip_ws(s@, i as int, hi as int) == skip_ws(s@, k as int, hi as int),
        decreases hi - k,
    {
        k = k + 1;
    }
    k
}

fn token_end_exec(s: &Vec<char>, i: usize, hi: usize) -> (r: usize)
    requires
        i <= hi <= s@.len(),
    ensures
        r == token_end(s@, i as int, hi as int),
        i <= r <= hi,
{
    proof {
        lemma_token_end(s@, i as int, hi as int);
    }
    let mut k = i;
    while k < hi && !is_ws_exec(s[k])
        invariant
            i <= k <= hi <= s@.len(),
            token_end(s@, i as int, hi as int) == token_end(s@, k as int, hi as int),
        decreases hi - k,
    {
        k = k + 1;
    }
    k
}

fn skip_ws_back_exec(s: &Vec<char>, lo: usize, j: usize) -> (r: usize)
    requires
        lo <= j <= s@.len(),
    ensures
        r == skip_ws_back(s@, lo as int, j as int),
        lo <= r <= j,
{
    proof {
        lemma_skip_ws_back(s@, lo as int, j as int);
    }
    let mut k = j;
    while k > lo && is_ws_exec(s[k - 1])
        invariant
            lo <= k <= j <= s@.len(),
            skip_ws_back(s@, lo as int, j as int) == skip_ws_back(s@, lo as int, k as int),
        decreases k - lo,
    {
        k = k - 1;
    }
    k
}

/// `str::trim` on `s[lo..hi]`, as a range.
pub fn trim_range_exec(s: &Vec<char>, lo: usize, hi: usize) -> (r: (usize, usize))
    requires
        lo <= hi <= s@.len(),
    ensures
        (r.0 as int, r.1 as int) == trim_range(s@, lo as int, hi as int),
        lo <= r.0 <= r.1 <= hi,
{
    let a = skip_ws_exec(s, lo, hi);
    let b = skip_ws_back_exec(s, a, hi);
    (a, b)
}

/// The whitespace-separated tokens of `s[i..hi]`, as ranges.
pub fn tokens_exec(s: &Vec<char>, i: usize, hi: usize) -> (r: Vec<(usize, usize)>)
    requires
        i <= hi <= s@.len(),
    ensures
        r@.len() == tokens(s@, i as int, hi as int).len(),
        forall|k: int| 0 <= k < r@.len() ==> (#[trigger] r@[k]).0 <= r@[k].1 <= hi,
        forall|k: int|
            0 <= k < r@.len() ==> s@.subrange(r@[k].0 as int, r@[k].1 as int) == #[trigger] tokens(
                s@,
                i as int,
                hi as int,
            )[k],
    decreases hi - i,
{
    let a = skip_ws_exec(s, i, hi);
    if a >= hi {
        return Vec::new();
    }
    let b = token_end_exec(s, a, hi);
    proof {
        lemma_skip_ws(s@, i as int, hi as int);
        lemma_token_end(s@, a as int, hi as int);
    }
    let rest = tokens_exec(s, b, hi);
    let ghost toks = tokens(s@, i as int, hi as int);
    let ghost rt = tokens(s@, b as int, hi as int);
    assert(toks == seq![s@.subrange(a as int, b as int)] + rt);
    let mut out: Vec<(usize, usize)> = Vec::new();
    out.push((a, b));
    let mut k: usize = 0;
    while k < rest.len()
        invariant
            k <= rest@.len(),
            out@.len() == k + 1,
            rest@.len() == rt.len(),
            out@[0] == (a, b),
            forall|m: int| 1 <= m < out@.len() ==> out@[m] == rest@[m - 1],
        decreases rest@.len() - k,
    {
        out.push(rest[k]);
        k = k + 1;
    }
    assert forall|m: int| 0 <= m < out@.len() implies (#[trigger] out@[m]).0 <= out@[m].1 <= hi by {
        if m > 0 {
            assert(out@[m] == rest@[m - 1]);
        }
    }
    assert forall|m: int| 0 <= m < out@.len() implies s@.subrange(
        out@[m].0 as int,
        out@[m].1 as int,
    ) == #[trigger] toks[m] by {
        if m > 0 {
            assert(out@[m] == rest@[m - 1]);
            assert(toks[m] == rt[m - 1]);
        }
    }
    out
}

/// Tokens joined with single spaces.
pub open spec fn join_space(ts: Seq<Seq<char>>) -> Seq<char>
    decreases ts.len(),
{
    if ts.len() == 0 {
        Seq::empty()
    } else if ts.len() == 1 {
        ts[0]
    } else {
        join_space(ts.drop_last()) + " "@ + ts.last()
    }
}

pub open spec fn method_of_name(t: Seq<char>) -> Option<Method> {
    if t == "REGISTER"@ {
        Some(Method::Register)
    } else if t == "INVITE"@ {
        Some(Method::Invite)
    } else if t == "ACK"@ {
        Some(Method::Ack)
    } else if t == "BYE"@ {
        Some(Method::Bye)
    } else if t == "CANCEL"@ {
        Some(Method::Cancel)
    } else if t == "OPTIONS"@ {
        Some(Method::Options)
    } else {
        None
    }
}

fn seq_eq(s: &Vec<char>, lo: usize, hi: usize, t: &str) -> (r: bool)
    requires
        lo <= hi <= s@.len(),
    ensures
        r == (s@.subrange(lo as int, hi as int) == t@),
{
    let tc = str_chars(t);
    if hi - lo != tc.len() {
        assert(s@.subrange(lo as int, hi as int).len() != t@.len());
        return false;
    }
    let r = has_prefix_at_exec(s.as_slice(), lo, tc.as_slice());
    r
}

/// Reads a method name (case-sensitive).
pub fn parse_method(s: &Vec<char>, lo: usize, hi: usize) -> (r: Result<Method, SipError>)
    requires
        lo <= hi <= s@.len(),
    ensures
        match method_of_name(s@.subrange(lo as int, hi as int)) {
            Some(m) => r == Ok::<Method, SipError>(m),
            None => r matches Err(SipError::Invalid(_)),
        },
{
    if seq_eq(s, lo, hi, "REGISTER") {
        Ok(Method::Register)
    } else if seq_eq(s, lo, hi, "INVITE") {
        Ok(Method::Invite)
    } else if seq_eq(s, lo, hi, "ACK") {
        Ok(Method::Ack)
    } else if seq_eq(s, lo, hi, "BYE") {
        Ok(Method::Bye)
    } else if seq_eq(s, lo, hi, "CANCEL") {
        Ok(Method::Cancel)
    } else if seq_eq(s, lo, hi, "OPTIONS") {
        Ok(Method::Options)
    } else {
        Err(SipError::Invalid("unknown method"))
    }
}

/// The header line `s[q..e]` split at its first colon: the name as it
/// stands and the trimmed value.
pub open spec fn parse_header_line(s: Seq<char>, q: int, e: int) -> Option<HeaderView> {
    let c = find_from(s, q, seq![':']);
    if c >= e {
        None
    } else {
        let (a, b) = trim_range(s, c + 1, e);
        Some((s.subrange(q, c), s.subrange(a, b)))
    }
}

/// Header lines from position `q` up to the first empty line, and the body
/// after it (all remaining lines, CRLF-joined); `None` when a header line
/// has no colon.
pub open spec fn parse_headers_from(s: Seq<char>, q: int) -> Option<(Seq<HeaderView>, Seq<char>)>
    decreases s.len() + 2 - q,
{
    if q > s.len() || q < 0 {
        Some((Seq::empty(), Seq::empty()))
    } else {
        let e = find_from(s, q, crlf());
        if e <= q || e > s.len() {
            Some(
                (
                    Seq::empty(),
                    if q + 2 <= s.len() {
                        s.subrange(q + 2, s.len() as int)
                    } else {
                        Seq::empty()
                    },
                ),
            )
        } else {
            match parse_header_line(s, q, e) {
                None => None,
                Some(h) => if e + 2 > s.len() {
                    Some((seq![h], Seq::empty()))
                } else {
                    match parse_headers_from(s, e + 2) {
                        None => None,
                        Some((hs, b)) => Some((seq![h] + hs, b)),
                    }
                },
            }
        }
    }
}

/// The request or response that `s` encodes, or `None` for malformed text.
pub open spec fn parse_message_spec(s: Seq<char>) -> Option<MessageView> {
    let e0 = find_from(s, 0, crlf());
    let toks = tokens(s, 0, e0);
    match parse_headers_from(s, e0 + 2) {
        None => None,
        Some((hs, body)) => if has_prefix_at(s, 0, "SIP/"@) {
            if has_prefix_at(toks[0], 0, "SIP/2.0"@) && toks.len() >= 2 && parse_uint(
                toks[1],
                u16::MAX as nat,
            ) is Some {
                Some(
                    MessageView::Response(
                        ResponseView {
                            version: sip_2_0(),
                            status_code: parse_uint(toks[1], u16::MAX as nat)->Some_0 as u16,
                            reason: join_space(toks.subrange(2, toks.len() as int)),
                            headers: hs,
                            body,
                        },
                    ),
                )
            } else {
                None
            }
        } else if toks.len() >= 3 && method_of_name(toks[0]) is Some {
            Some(
                MessageView::Request(
                    RequestView {
                        method: method_of_name(toks[0])->Some_0,
                        uri: toks[1],
                        version: sip_2_0(),
                        headers: hs,
                        body,
                    },
                ),
            )
        } else {
            None
        },
    }
}

fn crlf_exec() -> (r: Vec<char>)
    ensures
        r@ == crlf(),
{
    let mut v: Vec<char> = Vec::new();
    v.push('\r');
    v.push('\n');
    assert(v@ =~= crlf());
    v
}

fn parse_header_line_exec(s: &Vec<char>, q: usize, e: usize) -> (r: Option<Header>)
    requires
        q <= e <= s@.len(),
    ensures
        match parse_header_line(s@, q as int, e as int) {
            None => r is None,
            Some(h) => r matches Some(hd) && hd@ == h,
        },
{
    let mut colon: Vec<char> = Vec::new();
    colon.push(':');
    assert(colon@ =~= seq![':']);
    let c = find_from_exec(s.as_slice(), q, colon.as_slice());
    if c >= e {
        return None;
    }
    let (a, b) = trim_range_exec(s, c + 1, e);
    Some(Header { name: string_of_range(s, q, c), value: string_of_range(s, a, b) })
}

/// A CRLF found before the end leaves room for both characters.
proof fn lemma_crlf_fits(s: Seq<char>, q: int)
    requires
        0 <= q <= s.len(),
    ensures
        find_from(s, q, crlf()) < s.len() ==> find_from(s, q, crlf()) + 2 <= s.len(),
    decreases s.len() - q,
{
    if q < s.len() && !has_prefix_at(s, q, crlf()) {
        lemma_crlf_fits(s, q + 1);
    }
}

/// Header lines from `q` up to the empty line, then the body.
fn parse_headers_and_body(s: &Vec<char>, q: usize) -> (r: Option<(Vec<Header>, String)>)
    requires
        q <= s@.len(),
    ensures
        match parse_headers_from(s@, q as int) {
            None => r is None,
            Some((hs, b)) => r matches Some((vh, vb)) && headers_view(vh@) == hs && vb@ == b,
        },
    decreases s@.len() + 2 - q,
{
    let nl = crlf_exec();
    let e = find_from_exec(s.as_slice(), q, nl.as_slice());
    if e <= q {
        let body = if s.len() >= 2 && q <= s.len() - 2 {
            string_of_range(s, q + 2, s.len())
        } else {
            String::new()
        };
        let v: Vec<Header> = Vec::new();
        assert(headers_view(v@) =~= Seq::empty());
        return Some((v, body));
    }
    match parse_header_line_exec(s, q, e) {
        None => None,
        Some(h) => {
            if e >= s.len() - 1 {
                proof {
                    lemma_crlf_fits(s@, q as int);
                }
                let ghost hv = h@;
                let mut hs: Vec<Header> = Vec::new();
                hs.push(h);
                assert(headers_view(hs@) =~= seq![hv]);
                return Some((hs, String::new()));
            }
            match parse_headers_and_body(s, e + 2) {
                None => None,
                Some((mut hs, b)) => {
                    let ghost hv = h@;
                    let ghost rest = headers_view(hs@);
                    hs.insert(0, h);
                    assert(headers_view(hs@) =~= seq![hv] + rest);
                    Some((hs, b))
                },
            }
        },
    }
}

/// Reads a SIP request or response from text: a start line, header lines
/// (`name: value`, split at the first colon, value trimmed) up to an empty
/// line, and the rest as the body. A start line beginning with `SIP/` is a
/// status line.
pub fn parse_message(input: &str) -> (r: Result<Message, SipError>)
    ensures
        match parse_message_spec(input@) {
            Some(m) => r matches Ok(msg) && msg@ == m,
            None => r matches Err(SipError::Invalid(_)),
        },
{
    let s = str_chars(input);
    let nl = crlf_exec();
    let e0 = find_from_exec(s.as_slice(), 0, nl.as_slice());
    let toks = tokens_exec(&s, 0, e0);
    let parsed = if s.len() == 0 || e0 >= s.len() - 1 {
        proof {
            lemma_crlf_fits(s@, 0);
        }
        let v: Vec<Header> = Vec::new();
        assert(headers_view(v@) =~= Seq::empty());
        Some((v, String::new()))
    } else {
        parse_headers_and_body(&s, e0 + 2)
    };
    let (headers, body) = match parsed {
        Some(x) => x,
        None => {
            return Err(SipError::Invalid("header value"));
        },
    };
    let sip = str_chars("SIP/");
    if has_prefix_at_exec(s.as_slice(), 0, sip.as_slice()) {
        if toks.len() == 0 {
            return Err(SipError::Invalid("missing version"));
        }
        let v20 = str_chars("SIP/2.0");
        let (v0, v1) = toks[0];
        let vtok = slice_chars(&s, v0, v1);
        if !has_prefix_at_exec(vtok.as_slice(), 0, v20.as_slice()) {
            return Err(SipError::Invalid("unsupported version"));
        }
        if toks.len() < 2 {
            return Err(SipError::Invalid("missing status"));
        }
        let (s0, s1) = toks[1];
        let status = match parse_uint_exec(s.as_slice(), s0, s1, 65535) {
            Some(v) => v as u16,
            None => {
                return Err(SipError::Invalid("status parse"));
            },
        };
        let reason = join_tokens(&s, &toks, 2);
        let ghost tk = tokens(s@, 0, e0 as int);
        assert(tk[0] == s@.subrange(v0 as int, v1 as int));
        assert(tk[1] == s@.subrange(s0 as int, s1 as int));
        assert(Seq::new(
            (toks@.len() - 2) as nat,
            |k: int| s@.subrange(toks@[2 + k].0 as int, toks@[2 + k].1 as int),
        ) =~= tk.subrange(2, tk.len() as int)) by {
            assert forall|k: int| 0 <= k < toks@.len() - 2 implies s@.subrange(
                toks@[2 + k].0 as int,
                toks@[2 + k].1 as int,
            ) == #[trigger] tk[2 + k] by {}
        }
        let resp = Response {
            version: Version::sip_2_0(),
            status_code: status,
            reason,
            headers,
            body,
        };
        Ok(Message::Response(resp))
    } else {
        if toks.len() < 3 {
            return Err(SipError::Invalid("missing request line part"));
        }
        let (m0, m1) = toks[0];
        let method = match parse_method(&s, m0, m1) {
            Ok(m) => m,
            Err(e) => {
                return Err(e);
            },
        };
        let (u0, u1) = toks[1];
        let ghost tk = tokens(s@, 0, e0 as int);
        assert(tk[0] == s@.subrange(m0 as int, m1 as int));
        assert(tk[1] == s@.subrange(u0 as int, u1 as int));
        let req = Request {
            method,
            uri: string_of_range(&s, u0, u1),
            version: Version::sip_2_0(),
            headers,
            body,
        };
        Ok(Message::Request(req))
    }
}

/// The characters `s[lo..hi]`.
pub fn slice_chars_pub(s: &Vec<char>, lo: usize, hi: usize) -> (r: Vec<char>)
    requires
        lo <= hi <= s@.len(),
    ensures
        r@ == s@.subrange(lo as int, hi as int),
{
    slice_chars(s, lo, hi)
}

fn slice_chars(s: &Vec<char>, lo: usize, hi: usize) -> (r: Vec<char>)
    requires
        lo <= hi <= s@.len(),
    ensures
        r@ == s@.subrange(lo as int, hi as int),
{
    let mut v: Vec<char> = Vec::new();
    let mut i = lo;
    while i < hi
        invariant
            lo <= i <= hi <= s@.len(),
            v@ == s@.subrange(lo as int, i as int),
        decreases hi - i,
    {
        v.push(s[i]);
        i = i + 1;
        assert(v@ =~= s@.subrange(lo as int, i as int));
    }
    v
}

/// The tokens from index `from` on, joined with single spaces.
fn join_tokens(s: &Vec<char>, toks: &Vec<(usize, usize)>, from: usize) -> (r: String)
    requires
        forall|k: int| 0 <= k < toks@.len() ==> (#[trigger] toks@[k]).0 <= toks@[k].1 <= s@.len(),
    ensures
        r@ == join_space(
            Seq::new(
                (if from < toks@.len() { toks@.len() - from } else { 0 }) as nat,
                |k: int| s@.subrange(toks@[from + k].0 as int, toks@[from + k].1 as int),
            ),
        ),
{
    let mut out = String::new();
    let mut k: usize = from;
    let ghost all = Seq::new(
        (if from < toks@.len() { toks@.len() - from } else { 0 }) as nat,
        |k: int| s@.subrange(toks@[from + k].0 as int, toks@[from + k].1 as int),
    );
    if from >= toks.len() {
        return out;
    }
    while k < toks.len()
        invariant
            from <= k <= toks@.len(),
            from < toks@.len(),
            forall|m: int| 0 <= m < toks@.len() ==> (#[trigger] toks@[m]).0 <= toks@[m].1 <= s@.len(),
            all.len() == toks@.len() - from,
            all == Seq::new(
                (toks@.len() - from) as nat,
                |k: int| s@.subrange(toks@[from + k].0 as int, toks@[from + k].1 as int),
            ),
            out@ == join_space(all.subrange(0, k - from)),
        decreases toks@.len() - k,
    {
        let (a, b) = toks[k];
        let ghost pre = all.subrange(0, k - from);
        let ghost cur = all.subrange(0, k - from + 1);
        assert(cur.drop_last() =~= pre);
        assert(cur.last() == s@.subrange(a as int, b as int));
        if k > from {
            push_str(&mut out, " ");
        }
        let piece = string_of_range(s, a, b);
        push_str(&mut out, piece.as_str());
        k = k + 1;
        assert(out@ =~= join_space(cur));
    }
    assert(all.subrange(0, toks@.len() - from) =~= all);
    out
}

} // verus!
