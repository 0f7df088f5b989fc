//! HTTP digest authentication (RFC 2617, MD5) for SIP requests.
use vstd::prelude::*;
use crate::message::{trim_range, trim_range_exec, Header, SipError};
use crate::text::{
    ascii_lower_exec, eq_ignore_case, eq_ignore_case_exec, find_from,
    find_from_exec, lower_seq, push_char, push_str, str_chars, string_of_range,
};

verus! {

/// The MD5 digest (16 bytes) of `data`.
pub uninterp spec fn md5_of(data: Seq<u8>) -> Seq<u8>;

/// Relies on the `md-5` crate's `Md5::digest`: the 16-byte MD5 digest of
/// the input, a function of the input alone.
#[verifier::external_body]
fn md5_digest(data: &[u8]) -> (r: Vec<u8>)
    ensures
        r@ == md5_of(data@),
{
    <md5::Md5 as md5::Digest>::digest(data).to_vec()
}

/// Two lower-case hex digits per byte.
pub open spec fn hex_of_bytes(b: Seq<u8>) -> Seq<char>
    decreases b.len(),
{
    if b.len() == 0 {
        Seq::empty()
    } else {
        hex_of_bytes(b.drop_last()) + seq![hex_digit(b.last() / 16), hex_digit(b.last() % 16)]
    }
}

pub open spec fn hex_digit(d: u8) -> char {
    if d < 10 {
        (d + 48) as char
    } else {
        (d + 87) as char
    }
}

/// The bytes as lower-case hex, two digits each.
pub fn hex_lower(bytes: &[u8]) -> (r: String)
    ensures
        r@ == hex_of_bytes(bytes@),
{
    let mut out = String::new();
    let mut i: usize = 0;
    while i < bytes.len()
        invariant
            i <= bytes@.len(),
            out@ == hex_of_bytes(bytes@.subrange(0, i as int)),
        decreases bytes@.len() - i,
    {
        let b = bytes[i];
        let hi = b / 16;
        let lo = b % 16;
        push_char(&mut out, if hi < 10 { (hi + 48) as char } else { (hi + 87) as char });
        push_char(&mut out, if lo < 10 { (lo + 48) as char } else { (lo + 87) as char });
        assert(bytes@.subrange(0, i + 1).drop_last() =~= bytes@.subrange(0, i as int));
        i = i + 1;
        assert(out@ =~= hex_of_bytes(bytes@.subrange(0, i as int)));
    }
    assert(bytes@.subrange(0, bytes@.len() as int) =~= bytes@);
    out
}

/// Lower-case hex of the MD5 digest of the UTF-8 bytes of `s`.
pub open spec fn md5_hex_of(s: Seq<char>) -> Seq<char> {
    hex_of_bytes(md5_of(vstd::utf8::encode_utf8(s)))
}

/// Lower-case hex of the MD5 digest of `data`.
pub fn md5_hex(data: &[u8]) -> (r: String)
    ensures
        r@ == hex_of_bytes(md5_of(data@)),
{
    let d = md5_digest(data);
    hex_lower(d.as_slice())
}

fn md5_hex_str(s: &String) -> (r: String)
    ensures
        r@ == md5_hex_of(s@),
{
    md5_hex(s.as_str().as_bytes())
}

#[derive(Debug, Clone, PartialEq, Eq)]
pub struct DigestChallenge {
    pub realm: String,
    pub nonce: String,
    pub algorithm: String,
}

#[derive(Debug, Clone, PartialEq, Eq)]
pub struct DigestCredentials<'a> {
    pub username: &'a str,
    pub password: &'a str,
}

impl DigestChallenge {
    pub fn duplicate(&self) -> (r: Self)
        ensures
            r.realm@ == self.realm@,
            r.nonce@ == self.nonce@,
            r.algorithm@ == self.algorithm@,
    {
        DigestChallenge {
            realm: crate::message::copy_string(&self.realm),
            nonce: crate::message::copy_string(&self.nonce),
            algorithm: crate::message::copy_string(&self.algorithm),
        }
    }
}

/// The digest response: `MD5(MD5(user:realm:password) ":" nonce ":"
/// MD5(method:uri))`, each digest in lower-case hex.
pub open spec fn digest_response(
    user: Seq<char>,
    realm: Seq<char>,
    password: Seq<char>,
    method: Seq<char>,
    uri: Seq<char>,
    nonce: Seq<char>,
) -> Seq<char> {
    let ha1 = md5_hex_of(user + ":"@ + realm + ":"@ + password);
    let ha2 = md5_hex_of(method + ":"@ + uri);
    md5_hex_of(ha1 + ":"@ + nonce + ":"@ + ha2)
}

pub fn compute_digest_response(
    challenge: &DigestChallenge,
    creds: &DigestCredentials<'_>,
    method: &str,
    uri: &str,
) -> (r: Result<String, SipError>)
    ensures
        r matches Ok(s) && s@ == digest_response(
            creds.username@,
            challenge.realm@,
            creds.password@,
            method@,
            uri@,
            challenge.nonce@,
        ),
{
    let mut a1 = String::new();
    push_str(&mut a1, creds.username);
    push_str(&mut a1, ":");
    push_str(&mut a1, challenge.realm.as_str());
    push_str(&mut a1, ":");
    push_str(&mut a1, creds.password);
    let mut a2 = String::new();
    push_str(&mut a2, method);
    push_str(&mut a2, ":");
    push_str(&mut a2, uri);
    let ha1 = md5_hex_str(&a1);
    let ha2 = md5_hex_str(&a2);
    let mut combo = String::new();
    push_str(&mut combo, ha1.as_str());
    push_str(&mut combo, ":");
    push_str(&mut combo, challenge.nonce.as_str());
    push_str(&mut combo, ":");
    push_str(&mut combo, ha2.as_str());
    assert(a1@ =~= creds.username@ + ":"@ + challenge.realm@ + ":"@ + creds.password@);
    assert(a2@ =~= method@ + ":"@ + uri@);
    assert(combo@ =~= ha1@ + ":"@ + challenge.nonce@ + ":"@ + ha2@);
    Ok(md5_hex_str(&combo))
}

/// The `Authorization` header value for a challenge.
pub open spec fn authorization_value(
    user: Seq<char>,
    realm: Seq<char>,
    nonce: Seq<char>,
    uri: Seq<char>,
    response: Seq<char>,
    algorithm: Seq<char>,
) -> Seq<char> {
    "Digest username=\""@ + user + "\", realm=\""@ + realm + "\", nonce=\""@ + nonce
        + "\", uri=\""@ + uri + "\", response=\""@ + response + "\", algorithm=\""@ + algorithm
        + "\""@
}

/// `Authorization: Digest ...` answering `challenge` for `method` on `uri`.
pub fn authorization_header(
    challenge: &DigestChallenge,
    creds: &DigestCredentials<'_>,
    method: &str,
    uri: &str,
) -> (r: Result<Header, SipError>)
    ensures
        r matches Ok(h) && h.name@ == "Authorization"@ && h.value@ == authorization_value(
            creds.username@,
            challenge.realm@,
            challenge.nonce@,
            uri@,
            digest_response(
                creds.username@,
                challenge.realm@,
                creds.password@,
                method@,
                uri@,
                challenge.nonce@,
            ),
            challenge.algorithm@,
        ),
{
    let response = match compute_digest_response(challenge, creds, method, uri) {
        Ok(r) => r,
        Err(e) => {
            return Err(e);
        },
    };
    let mut value = String::new();
    push_str(&mut value, "Digest username=\"");
    push_str(&mut value, creds.username);
    push_str(&mut value, "\", realm=\"");
    push_str(&mut value, challenge.realm.as_str());
    push_str(&mut value, "\", nonce=\"");
    push_str(&mut value, challenge.nonce.as_str());
    push_str(&mut value, "\", uri=\"");
    push_str(&mut value, uri);
    push_str(&mut value, "\", response=\"");
    push_str(&mut value, response.as_str());
    push_str(&mut value, "\", algorithm=\"");
    push_str(&mut value, challenge.algorithm.as_str());
    push_str(&mut value, "\"");
    assert(value@ =~= authorization_value(
        creds.username@,
        challenge.realm@,
        challenge.nonce@,
        uri@,
        response@,
        challenge.algorithm@,
    ));
    Header::new("Authorization", value.as_str())
}

/// Index of the first character of `s[i..hi]` other than `c`, or `hi`.
pub open spec fn skip_char(s: Seq<char>, i: int, hi: int, c: char) -> int
    decreases hi - i,
{
    if i >= hi {
        hi
    } else if s[i] == c {
        skip_char(s, i + 1, hi, c)
    } else {
        i
    }
}

/// End of `s[lo..j]` once trailing copies of `c` are dropped.
pub open spec fn skip_char_back(s: Seq<char>, lo: int, j: int, c: char) -> int
    decreases j - lo,
{
    if j <= lo {
        lo
    } else if s[j - 1] == c {
        skip_char_back(s, lo, j - 1, c)
    } else {
        j
    }
}

/// `trim_matches('"')` on `s[a..b]`, as a range.
pub open spec fn unquote_range(s: Seq<char>, a: int, b: int) -> (int, int) {
    let a2 = skip_char(s, a, b, '"');
    (a2, skip_char_back(s, a2, b, '"'))
}

proof fn lemma_skip_char(s: Seq<char>, i: int, hi: int, c: char)
    requires
        0 <= i <= hi <= s.len(),
    ensures
        i <= skip_char(s, i, hi, c) <= hi,
    decreases hi - i,
{
    if i < hi && s[i] == c {
        lemma_skip_char(s, i + 1, hi, c);
    }
}

proof fn lemma_skip_char_back(s: Seq<char>, lo: int, j: int, c: char)
    requires
        0 <= lo <= j <= s.len(),
    ensures
        lo <= skip_char_back(s, lo, j, c) <= j,
    decreases j - lo,
{
    if j > lo && s[j - 1] == c {
        lemma_skip_char_back(s, lo, j - 1, c);
    }
}

fn unquote_range_exec(s: &Vec<char>, a: usize, b: usize) -> (r: (usize, usize))
    requires
        a <= b <= s@.len(),
    ensures
        (r.0 as int, r.1 as int) == unquote_range(s@, a as int, b as int),
        a <= r.0 <= r.1 <= b,
{
    proof {
        lemma_skip_char(s@, a as int, b as int, '"');
    }
    let mut i = a;
    while i < b && s[i] == '"'
        invariant
            a <= i <= b <= s@.len(),
            skip_char(s@, a as int, b as int, '"') == skip_char(s@, i as int, b as int, '"'),
        decreases b - i,
    {
        i = i + 1;
    }
    proof {
        lemma_skip_char_back(s@, i as int, b as int, '"');
    }
    let mut j = b;
    while j > i && s[j - 1] == '"'
        invariant
            i <= j <= b <= s@.len(),
            skip_char_back(s@, i as int, b as int, '"') == skip_char_back(s@, i as int, j as int, '"'),
        decreases j - i,
    {
        j = j - 1;
    }
    (i, j)
}

/// Parameters gathered from a digest challenge.
pub struct AuthScan {
    pub realm: Option<Seq<char>>,
    pub nonce: Option<Seq<char>>,
    pub algorithm: Seq<char>,
}

/// The effect of the parameter `key=value` (`s[q..c]`) on `acc`; `None` when
/// it has no `=`.
pub open spec fn auth_param(s: Seq<char>, q: int, c: int, acc: AuthScan) -> Option<AuthScan> {
    let (pa, pb) = trim_range(s, q, c);
    let eq = find_from(s, pa, seq!['=']);
    if eq >= pb {
        None
    } else {
        let (ka, kb) = trim_range(s, pa, eq);
        let (va0, vb0) = trim_range(s, eq + 1, pb);
        let (va, vb) = unquote_range(s, va0, vb0);
        let key = lower_seq(s.subrange(ka, kb));
        let val = s.subrange(va, vb);
        Some(
            if key == "realm"@ {
                AuthScan { realm: Some(val), ..acc }
            } else if key == "nonce"@ {
                AuthScan { nonce: Some(val), ..acc }
            } else if key == "algorithm"@ {
                AuthScan { algorithm: val, ..acc }
            } else {
                acc
            },
        )
    }
}

/// The comma-separated parameters of `s[q..hi]`, in order.
pub open spec fn auth_params(s: Seq<char>, q: int, hi: int, acc: AuthScan) -> Option<AuthScan>
    decreases hi + 1 - q,
{
    if q > hi {
        Some(acc)
    } else {
        let c0 = find_from(s, q, seq![',']);
        let c = if c0 > hi {
            hi
        } else {
            c0
        };
        if c < q {
            Some(acc)
        } else {
            match auth_param(s, q, c, acc) {
                None => None,
                Some(a2) => if c >= hi {
                    Some(a2)
                } else {
                    auth_params(s, c + 1, hi, a2)
                },
            }
        }
    }
}

/// The challenge that a `WWW-Authenticate` value gives: scheme `Digest`
/// (any case), then comma-separated `key=value` parameters, values trimmed
/// and unquoted; realm and nonce are required, the algorithm defaults to MD5.
pub open spec fn parse_challenge(s: Seq<char>) -> Option<(Seq<char>, Seq<char>, Seq<char>)> {
    let (ta, tb) = trim_range(s, 0, s.len() as int);
    let sp0 = find_from(s, ta, seq![' ']);
    let sp = if sp0 > tb {
        tb
    } else {
        sp0
    };
    if !eq_ignore_case(s.subrange(ta, sp), "digest"@) || sp >= tb {
        None
    } else {
        match auth_params(s, sp + 1, tb, AuthScan { realm: None, nonce: None, algorithm: "MD5"@ }) {
            None => None,
            Some(a) => if a.realm is Some && a.nonce is Some {
                Some((a.realm->Some_0, a.nonce->Some_0, a.algorithm))
            } else {
                None
            },
        }
    }
}

struct ChallengeAcc {
    realm: Option<String>,
    nonce: Option<String>,
    algorithm: String,
}

spec fn acc_view(a: ChallengeAcc) -> AuthScan {
    AuthScan {
        realm: match a.realm {
            Some(r) => Some(r@),
            None => None,
        },
        nonce: match a.nonce {
            Some(n) => Some(n@),
            None => None,
        },
        algorithm: a.algorithm@,
    }
}

fn lower_range(s: &Vec<char>, lo: usize, hi: usize) -> (r: Vec<char>)
    requires
        lo <= hi <= s@.len(),
    ensures
        r@ == lower_seq(s@.subrange(lo as int, hi as int)),
{
    let mut v: Vec<char> = Vec::new();
    let mut i = lo;
    while i < hi
        invariant
            lo <= i <= hi <= s@.len(),
            v@ == lower_seq(s@.subrange(lo as int, i as int)),
        decreases hi - i,
    {
        v.push(ascii_lower_exec(s[i]));
        i = i + 1;
        assert(v@ =~= lower_seq(s@.subrange(lo as int, i as int)));
    }
    v
}

fn chars_eq(a: &Vec<char>, t: &str) -> (r: bool)
    ensures
        r == (a@ == t@),
{
    let tc = str_chars(t);
    if a.len() != tc.len() {
        return false;
    }
    let mut i: usize = 0;
    while i < a.len()
        invariant
            a@.len() == tc@.len(),
            tc@ == t@,
            i <= a@.len(),
            forall|j: int| 0 <= j < i ==> a@[j] == tc@[j],
        decreases a@.len() - i,
    {
        if a[i] != tc[i] {
            return false;
        }
        i = i + 1;
    }
    assert(a@ =~= tc@);
    true
}

fn auth_param_exec(s: &Vec<char>, q: usize, c: usize, acc: ChallengeAcc) -> (r: Option<ChallengeAcc>)
    requires
        q <= c <= s@.len(),
    ensures
        match auth_param(s@, q as int, c as int, acc_view(acc)) {
            None => r is None,
            Some(a) => r matches Some(ra) && acc_view(ra) == a,
        },
{
    let (pa, pb) = trim_range_exec(s, q, c);
    let mut eqs: Vec<char> = Vec::new();
    eqs.push('=');
    assert(eqs@ =~= seq!['=']);
    let eq = find_from_exec(s.as_slice(), pa, eqs.as_slice());
    if eq >= pb {
        return None;
    }
    let (ka, kb) = trim_range_exec(s, pa, eq);
    let (va0, vb0) = trim_range_exec(s, eq + 1, pb);
    let (va, vb) = unquote_range_exec(s, va0, vb0);
    let key = lower_range(s, ka, kb);
    let val = string_of_range(s, va, vb);
    if chars_eq(&key, "realm") {
        Some(ChallengeAcc { realm: Some(val), ..acc })
    } else if chars_eq(&key, "nonce") {
        Some(ChallengeAcc { nonce: Some(val), ..acc })
    } else if chars_eq(&key, "algorithm") {
        Some(ChallengeAcc { algorithm: val, ..acc })
    } else {
        Some(acc)
    }
}

fn auth_params_exec(s: &Vec<char>, q: usize, hi: usize, acc: ChallengeAcc) -> (r: Option<ChallengeAcc>)
    requires
        hi <= s@.len(),
        q <= hi,
    ensures
        match auth_params(s@, q as int, hi as int, acc_view(acc)) {
            None => r is None,
            Some(a) => r matches Some(ra) && acc_view(ra) == a,
        },
    decreases hi + 1 - q,
{
    let mut comma: Vec<char> = Vec::new();
    comma.push(',');
    assert(comma@ =~= seq![',']);
    let c0 = find_from_exec(s.as_slice(), q, comma.as_slice());
    let c = if c0 > hi { hi } else { c0 };
    match auth_param_exec(s, q, c, acc) {
        None => None,
        Some(a2) => if c >= hi {
            Some(a2)
        } else {
            auth_params_exec(s, c + 1, hi, a2)
        },
    }
}

/// Reads a digest challenge from a `WWW-Authenticate` header value.
pub fn parse_www_authenticate(input: &str) -> (r: Result<DigestChallenge, SipError>)
    ensures
        match parse_challenge(input@) {
            Some((realm, nonce, alg)) => r matches Ok(c) && c.realm@ == realm && c.nonce@ == nonce
                && c.algorithm@ == alg,
            None => r matches Err(SipError::Invalid(_)),
        },
{
    let s = str_chars(input);
    let (ta, tb) = trim_range_exec(&s, 0, s.len());
    let mut sps: Vec<char> = Vec::new();
    sps.push(' ');
    assert(sps@ =~= seq![' ']);
    let sp0 = find_from_exec(s.as_slice(), ta, sps.as_slice());
    let sp = if sp0 > tb { tb } else { sp0 };
    let scheme = crate::message::slice_chars_pub(&s, ta, sp);
    let digest = str_chars("digest");
    if !eq_ignore_case_exec(scheme.as_slice(), digest.as_slice()) {
        return Err(SipError::Invalid("auth scheme"));
    }
    if sp >= tb {
        return Err(SipError::Invalid("auth params"));
    }
    let mut alg = String::new();
    push_str(&mut alg, "MD5");
    let acc = ChallengeAcc { realm: None, nonce: None, algorithm: alg };
    match auth_params_exec(&s, sp + 1, tb, acc) {
        None => Err(SipError::Invalid("auth value")),
        Some(a) => match (a.realm, a.nonce) {
            (Some(realm), Some(nonce)) => Ok(DigestChallenge { realm, nonce, algorithm: a.algorithm }),
            (None, _) => Err(SipError::Invalid("realm")),
            (_, None) => Err(SipError::Invalid("nonce")),
        },
    }
}

} // verus!
