//! The INVITE dialog: its states, matching of in-dialog requests, and the
//! responses built for incoming requests.
use vstd::prelude::*;
use vstd::string::StrSliceExecFns;
use crate::message::{
    copy_string, header_index, header_lookup, headers_view, sip_2_0, Header,
    HeaderView, Method, Request, RequestView, Response, ResponseView, SipError,
};
use crate::registration::{cseq_value, lit, wrapping_inc};
use crate::stack::{CoreDialogEvent, CoreEvent, InviteKind};
use crate::text::{
    dec_digits, find_from, find_from_exec, hex_digits, lower_seq, push_decimal, push_hex, push_str,
    str_chars, str_eq,
};

verus! {

#[derive(Debug, Clone, Copy, PartialEq, Eq, Structural)]
pub enum DialogRole {
    Uac,
    Uas,
}

#[derive(Debug, Clone, PartialEq, Eq)]
pub struct SipDialogId {
    pub call_id: String,
    pub local_tag: String,
    pub remote_tag: String,
}

/// (Call-ID, local tag, remote tag).
pub type IdView = (Seq<char>, Seq<char>, Seq<char>);

impl View for SipDialogId {
    type V = IdView;

    open spec fn view(&self) -> IdView {
        (self.call_id@, self.local_tag@, self.remote_tag@)
    }
}

impl SipDialogId {
    pub fn duplicate(&self) -> (r: Self)
        ensures
            r@ == self@,
    {
        SipDialogId {
            call_id: copy_string(&self.call_id),
            local_tag: copy_string(&self.local_tag),
            remote_tag: copy_string(&self.remote_tag),
        }
    }
}

#[derive(Debug, Clone, PartialEq, Eq)]
pub enum DialogState {
    Idle,
    /// We sent an INVITE; nothing confirmed yet.
    Inviting,
    Ringing { role: DialogRole, id: SipDialogId, original_invite: Request },
    Established { role: DialogRole, id: SipDialogId },
    Terminated,
}

pub enum DialogStateView {
    Idle,
    Inviting,
    Ringing { role: DialogRole, id: IdView, invite: RequestView },
    Established { role: DialogRole, id: IdView },
    Terminated,
}

impl View for DialogState {
    type V = DialogStateView;

    open spec fn view(&self) -> DialogStateView {
        match self {
            DialogState::Idle => DialogStateView::Idle,
            DialogState::Inviting => DialogStateView::Inviting,
            DialogState::Ringing { role, id, original_invite } => DialogStateView::Ringing {
                role: *role,
                id: id@,
                invite: original_invite@,
            },
            DialogState::Established { role, id } => DialogStateView::Established {
                role: *role,
                id: id@,
            },
            DialogState::Terminated => DialogStateView::Terminated,
        }
    }
}

impl DialogState {
    pub fn duplicate(&self) -> (r: Self)
        ensures
            r@ == self@,
    {
        match self {
            DialogState::Idle => DialogState::Idle,
            DialogState::Inviting => DialogState::Inviting,
            DialogState::Ringing { role, id, original_invite } => DialogState::Ringing {
                role: *role,
                id: id.duplicate(),
                original_invite: original_invite.duplicate(),
            },
            DialogState::Established { role, id } => DialogState::Established {
                role: *role,
                id: id.duplicate(),
            },
            DialogState::Terminated => DialogState::Terminated,
        }
    }

    /// The state's name (`Idle`, `Ringing`, ...).
    pub fn name(&self) -> (r: &'static str)
        ensures
            r@ == state_name(self@),
    {
        match self {
            DialogState::Idle => "Idle",
            DialogState::Inviting => "Inviting",
            DialogState::Ringing { .. } => "Ringing",
            DialogState::Established { .. } => "Established",
            DialogState::Terminated => "Terminated",
        }
    }
}

pub open spec fn state_name(s: DialogStateView) -> Seq<char> {
    match s {
        DialogStateView::Idle => "Idle"@,
        DialogStateView::Inviting => "Inviting"@,
        DialogStateView::Ringing { .. } => "Ringing"@,
        DialogStateView::Established { .. } => "Established"@,
        DialogStateView::Terminated => "Terminated"@,
    }
}

/// The dialog id of a ringing or established dialog.
pub open spec fn id_of(s: DialogStateView) -> Option<IdView> {
    match s {
        DialogStateView::Ringing { id, .. } => Some(id),
        DialogStateView::Established { id, .. } => Some(id),
        _ => None,
    }
}

/// The value after the first `tag=` (any case) up to the next `;`.
pub open spec fn tag_param(s: Seq<char>) -> Option<Seq<char>> {
    let p = find_from(lower_seq(s), 0, "tag="@);
    if p + 4 > s.len() {
        None
    } else {
        let e = find_from(s, p + 4, seq![';']);
        Some(s.subrange(p + 4, e))
    }
}

proof fn lemma_find_bounds(s: Seq<char>, from: int, p: Seq<char>)
    requires
        0 <= from <= s.len(),
    ensures
        from <= find_from(s, from, p) <= s.len(),
        find_from(s, from, p) < s.len() ==> crate::text::has_prefix_at(s, find_from(s, from, p), p),
    decreases s.len() - from,
{
    if from < s.len() && !crate::text::has_prefix_at(s, from, p) {
        lemma_find_bounds(s, from + 1, p);
    }
}

fn lower_chars(s: &Vec<char>) -> (r: Vec<char>)
    ensures
        r@ == lower_seq(s@),
{
    let mut v: Vec<char> = Vec::new();
    let mut i: usize = 0;
    while i < s.len()
        invariant
            i <= s@.len(),
            v@ == lower_seq(s@.subrange(0, i as int)),
        decreases s@.len() - i,
    {
        v.push(crate::text::ascii_lower_exec(s[i]));
        i = i + 1;
        assert(v@ =~= lower_seq(s@.subrange(0, i as int)));
    }
    assert(s@.subrange(0, s@.len() as int) =~= s@);
    v
}

/// Reads the `tag` parameter of a From or To value.
pub fn parse_tag_param(input: &str) -> (r: Option<&str>)
    ensures
        match tag_param(input@) {
            Some(t) => r matches Some(x) && x@ == t,
            None => r is None,
        },
{
    let s = str_chars(input);
    let lower = lower_chars(&s);
    let pat = str_chars("tag=");
    let p = find_from_exec(lower.as_slice(), 0, pat.as_slice());
    proof {
        lemma_find_bounds(lower@, 0, "tag="@);
        if p < lower@.len() {
            assert(p + "tag="@.len() <= lower@.len());
        }
    }
    if p >= s.len() || s.len() - p < 4 {
        proof {
            reveal_strlit("tag=");
        }
        return None;
    }
    proof {
        reveal_strlit("tag=");
    }
    let mut semi: Vec<char> = Vec::new();
    semi.push(';');
    assert(semi@ =~= seq![';']);
    let e = find_from_exec(s.as_slice(), p + 4, semi.as_slice());
    Some(input.substring_char(p + 4, e))
}

/// Whether a To value already carries a tag: `tag=` occurs in it, in any
/// case.
pub open spec fn has_tag(to: Seq<char>) -> bool {
    find_from(lower_seq(to), 0, "tag="@) < to.len()
}

/// The local tag for allocation counter value `n`.
pub open spec fn tag_name(n: u32) -> Seq<char> {
    "dlg"@ + hex_digits(n as nat)
}

pub struct DialogView {
    pub state: DialogStateView,
    pub cseq: u32,
    pub next_tag_counter: u32,
}

#[derive(Debug)]
pub struct Dialog {
    pub state: DialogState,
    pub cseq: u32,
    next_tag_counter: u32,
}

impl View for Dialog {
    type V = DialogView;

    closed spec fn view(&self) -> DialogView {
        DialogView { state: self.state@, cseq: self.cseq, next_tag_counter: self.next_tag_counter }
    }
}

pub open spec fn set_local_tag(s: DialogStateView, tag: Seq<char>) -> DialogStateView {
    match s {
        DialogStateView::Ringing { role, id, invite } => DialogStateView::Ringing {
            role,
            id: (id.0, tag, id.2),
            invite,
        },
        DialogStateView::Established { role, id } => DialogStateView::Established {
            role,
            id: (id.0, tag, id.2),
        },
        other => other,
    }
}

/// Which tag a response to a request without a To tag carries, and the
/// dialog after choosing it. One tag is always allocated; the dialog's own
/// tag is used (and fixed on first use) when the Call-ID is the dialog's,
/// else a second one is allocated.
pub open spec fn choose_tag(d: DialogView, call_id: Seq<char>) -> (DialogView, Seq<char>) {
    let n0 = d.next_tag_counter;
    let n1 = wrapping_inc(n0);
    match id_of(d.state) {
        Some(id) => if id.0 == call_id {
            let tag = if id.1.len() == 0 {
                tag_name(n0)
            } else {
                id.1
            };
            (DialogView { state: set_local_tag(d.state, tag), next_tag_counter: n1, ..d }, tag)
        } else {
            (DialogView { next_tag_counter: wrapping_inc(n1), ..d }, tag_name(n1))
        },
        None => (DialogView { next_tag_counter: wrapping_inc(n1), ..d }, tag_name(n1)),
    }
}

/// The response to a request with the given headers: Via, Call-ID, CSeq
/// and From copied, To tagged, then Content-Type and Content-Length for a
/// body (its length in UTF-8 bytes) or `Content-Length: 0`. `None` when the
/// request lacks one of the copied headers.
pub open spec fn build_response_spec(
    d: DialogView,
    req_headers: Seq<HeaderView>,
    status: u16,
    reason: Seq<char>,
    body: Option<(Seq<char>, Seq<char>)>,
) -> Option<(DialogView, ResponseView)> {
    let via = header_lookup(req_headers, "Via"@);
    let cid = header_lookup(req_headers, "Call-ID"@);
    let cseq = header_lookup(req_headers, "CSeq"@);
    let from = header_lookup(req_headers, "From"@);
    let to = header_lookup(req_headers, "To"@);
    if via is None || cid is None || cseq is None || from is None || to is None {
        None
    } else {
        let raw_to = to->Some_0;
        let (d2, to_value) = if has_tag(raw_to) {
            (d, raw_to)
        } else {
            let (d2, tag) = choose_tag(d, cid->Some_0);
            (d2, raw_to + ";tag="@ + tag)
        };
        let base = seq![
            ("Via"@, via->Some_0),
            ("Call-ID"@, cid->Some_0),
            ("CSeq"@, cseq->Some_0),
            ("From"@, from->Some_0),
            ("To"@, to_value),
        ];
        let (hs, b) = match body {
            Some((ct, data)) => (
                base + seq![
                    ("Content-Type"@, ct),
                    ("Content-Length"@, dec_digits(vstd::utf8::encode_utf8(data).len())),
                ],
                data,
            ),
            None => (base.push(("Content-Length"@, "0"@)), Seq::empty()),
        };
        Some(
            (
                d2,
                ResponseView {
                    version: sip_2_0(),
                    status_code: status,
                    reason,
                    headers: hs,
                    body: b,
                },
            ),
        )
    }
}

fn header_copy(headers: &Vec<Header>, name: &str) -> (r: Option<String>)
    ensures
        match header_lookup(headers_view(headers@), name@) {
            Some(v) => r matches Some(s) && s@ == v,
            None => r is None,
        },
{
    match header_index(headers, name) {
        Some(i) => Some(copy_string(&headers[i].value)),
        None => None,
    }
}

impl Dialog {
    /// An idle dialog: CSeq 0, tags allocated from 1.
    pub fn new() -> (r: Self)
        ensures
            r@ == (DialogView { state: DialogStateView::Idle, cseq: 0, next_tag_counter: 1 }),
    {
        Dialog { state: DialogState::Idle, cseq: 0, next_tag_counter: 1 }
    }

    pub fn allocate_tag(&mut self) -> (r: String)
        ensures
            r@ == tag_name(old(self)@.next_tag_counter),
            final(self)@ == (DialogView {
                next_tag_counter: wrapping_inc(old(self)@.next_tag_counter),
                ..old(self)@
            }),
    {
        let mut tag = String::new();
        let idx = self.next_tag_counter;
        self.next_tag_counter = self.next_tag_counter.wrapping_add(1);
        push_str(&mut tag, "dlg");
        push_hex(&mut tag, idx as u64, 0);
        tag
    }

    pub fn id_ref(&self) -> (r: Option<&SipDialogId>)
        ensures
            match id_of(self@.state) {
                Some(id) => r matches Some(x) && x@ == id,
                None => r is None,
            },
    {
        match &self.state {
            DialogState::Ringing { id, .. } => Some(id),
            DialogState::Established { id, .. } => Some(id),
            _ => None,
        }
    }

    /// `CSeq: <cseq> <method>`.
    pub fn cseq_header(&self, method: &str) -> (r: Result<Header, SipError>)
        ensures
            r matches Ok(h) && h@ == ("CSeq"@, cseq_value(self@.cseq, method@)),
    {
        let mut value = String::new();
        push_decimal(&mut value, self.cseq as u64);
        push_str(&mut value, " ");
        push_str(&mut value, method);
        Header::new("CSeq", value.as_str())
    }

    /// Starts an outgoing call: only from Idle or Terminated; CSeq advances.
    pub fn start_outgoing(&mut self, target: &str) -> (r: Result<Request, SipError>)
        ensures
            !(old(self)@.state is Idle || old(self)@.state is Terminated) ==> (r matches Err(
                SipError::InvalidState(_),
            ) && final(self)@ == old(self)@),
            (old(self)@.state is Idle || old(self)@.state is Terminated) ==> (r matches Ok(req)
                && final(self)@ == (DialogView {
                state: DialogStateView::Inviting,
                cseq: wrapping_inc(old(self)@.cseq),
                ..old(self)@
            }) && req@ == (RequestView {
                method: Method::Invite,
                uri: target@,
                version: sip_2_0(),
                headers: seq![("CSeq"@, cseq_value(wrapping_inc(old(self)@.cseq), "INVITE"@))],
                body: Seq::empty(),
            })),
    {
        match self.state {
            DialogState::Idle | DialogState::Terminated => {},
            _ => {
                return Err(SipError::InvalidState("dialog busy"));
            },
        }
        self.state = DialogState::Inviting;
        self.cseq = self.cseq.wrapping_add(1);
        let mut req = match Request::new(Method::Invite, target) {
            Ok(r) => r,
            Err(e) => {
                return Err(e);
            },
        };
        let h = match self.cseq_header("INVITE") {
            Ok(h) => h,
            Err(e) => {
                return Err(e);
            },
        };
        let _ = req.add_header(h);
        assert(req@.headers =~= seq![("CSeq"@, cseq_value(wrapping_inc(old(self)@.cseq), "INVITE"@))]);
        Ok(req)
    }

    /// A BYE for an established dialog, which then terminates.
    pub fn build_bye(&mut self, target: &str) -> (r: Option<Request>)
        ensures
            !(old(self)@.state is Established) ==> (r is None && final(self)@ == old(self)@),
            old(self)@.state is Established ==> (r matches Some(req) && final(self)@ == (DialogView {
                state: DialogStateView::Terminated,
                cseq: wrapping_inc(old(self)@.cseq),
                ..old(self)@
            }) && req@ == (RequestView {
                method: Method::Bye,
                uri: target@,
                version: sip_2_0(),
                headers: seq![("CSeq"@, cseq_value(wrapping_inc(old(self)@.cseq), "BYE"@))],
                body: Seq::empty(),
            })),
    {
        match self.state {
            DialogState::Established { .. } => {},
            _ => {
                return None;
            },
        }
        self.cseq = self.cseq.wrapping_add(1);
        let mut req = match Request::new(Method::Bye, target) {
            Ok(r) => r,
            Err(_) => {
                return None;
            },
        };
        let h = match self.cseq_header("BYE") {
            Ok(h) => h,
            Err(_) => {
                return None;
            },
        };
        let _ = req.add_header(h);
        self.state = DialogState::Terminated;
        assert(req@.headers =~= seq![("CSeq"@, cseq_value(wrapping_inc(old(self)@.cseq), "BYE"@))]);
        Some(req)
    }

    /// An ACK request carrying the current CSeq.
    pub fn build_ack(&mut self) -> (r: Result<Request, SipError>)
        ensures
            final(self)@ == old(self)@,
            r matches Ok(req) && req@ == (RequestView {
                method: Method::Ack,
                uri: "sip:remote"@,
                version: sip_2_0(),
                headers: seq![("CSeq"@, cseq_value(old(self)@.cseq, "ACK"@))],
                body: Seq::empty(),
            }),
    {
        let mut req = match Request::new(Method::Ack, "sip:remote") {
            Ok(r) => r,
            Err(e) => {
                return Err(e);
            },
        };
        let h = match self.cseq_header("ACK") {
            Ok(h) => h,
            Err(e) => {
                return Err(e);
            },
        };
        let _ = req.add_header(h);
        assert(req@.headers =~= seq![("CSeq"@, cseq_value(old(self)@.cseq, "ACK"@))]);
        Ok(req)
    }

    fn choose_tag_exec(&mut self, call_id: &String) -> (r: String)
        ensures
            (final(self)@, r@) == choose_tag(old(self)@, call_id@),
    {
        let new_tag = self.allocate_tag();
        let matching = match &self.state {
            DialogState::Ringing { id, .. } | DialogState::Established { id, .. } => {
                if id.call_id == *call_id {
                    Some(id.local_tag.as_str().is_empty())
                } else {
                    None
                }
            },
            _ => None,
        };
        match matching {
            Some(empty) => {
                proof {
                    if empty {
                        assert(self@.state matches DialogStateView::Ringing { .. } || self@.state matches DialogStateView::Established { .. });
                    }
                }
                match &mut self.state {
                    DialogState::Ringing { id, .. } => {
                        if id.local_tag.as_str().is_empty() {
                            id.local_tag = new_tag;
                        }
                        copy_string(&id.local_tag)
                    },
                    DialogState::Established { id, .. } => {
                        if id.local_tag.as_str().is_empty() {
                            id.local_tag = new_tag;
                        }
                        copy_string(&id.local_tag)
                    },
                    _ => new_tag,
                }
            },
            None => self.allocate_tag(),
        }
    }

    /// Builds a response to `req` (see `build_response_spec`); fails with
    /// `Invalid` when Via, Call-ID, CSeq, From or To is missing, leaving
    /// the dialog as it was.
    pub fn build_response_for_request(
        &mut self,
        req: &Request,
        status: u16,
        reason: &str,
        body: Option<(&str, &str)>,
    ) -> (r: Result<Response, SipError>)
        ensures
            match build_response_spec(
                old(self)@,
                req@.headers,
                status,
                reason@,
                match body {
                    Some((ct, data)) => Some((ct@, data@)),
                    None => None,
                },
            ) {
                None => r matches Err(SipError::Invalid(_)) && final(self)@ == old(self)@,
                Some((d2, rv)) => r matches Ok(resp) && resp@ == rv && final(self)@ == d2,
            },
    {
        let mut resp = match Response::new(status, reason) {
            Ok(r) => r,
            Err(e) => {
                return Err(e);
            },
        };
        let via = match header_copy(&req.headers, "Via") {
            Some(v) => v,
            None => {
                return Err(SipError::Invalid("missing Via"));
            },
        };
        let call_id = match header_copy(&req.headers, "Call-ID") {
            Some(v) => v,
            None => {
                return Err(SipError::Invalid("missing Call-ID"));
            },
        };
        let cseq = match header_copy(&req.headers, "CSeq") {
            Some(v) => v,
            None => {
                return Err(SipError::Invalid("missing CSeq"));
            },
        };
        let from = match header_copy(&req.headers, "From") {
            Some(v) => v,
            None => {
                return Err(SipError::Invalid("missing From"));
            },
        };
        let raw_to = match header_copy(&req.headers, "To") {
            Some(v) => v,
            None => {
                return Err(SipError::Invalid("missing To"));
            },
        };
        resp.add_header(Header { name: lit("Via"), value: via });
        resp.add_header(Header { name: lit("Call-ID"), value: copy_string(&call_id) });
        resp.add_header(Header { name: lit("CSeq"), value: cseq });
        resp.add_header(Header { name: lit("From"), value: from });
        let mut to_value = copy_string(&raw_to);
        let to_chars = str_chars(raw_to.as_str());
        let lower = lower_chars(&to_chars);
        let pat = str_chars("tag=");
        let p = find_from_exec(lower.as_slice(), 0, pat.as_slice());
        if p >= to_chars.len() {
            let tag = self.choose_tag_exec(&call_id);
            push_str(&mut to_value, ";tag=");
            push_str(&mut to_value, tag.as_str());
        }
        let ghost tv = to_value@;
        let ghost spec_to = if has_tag(raw_to@) {
            raw_to@
        } else {
            raw_to@ + ";tag="@ + choose_tag(old(self)@, call_id@).1
        };
        assert(tv =~= spec_to);
        resp.add_header(Header { name: lit("To"), value: to_value });
        let ghost base = seq![
            ("Via"@, header_lookup(req@.headers, "Via"@)->Some_0),
            ("Call-ID"@, header_lookup(req@.headers, "Call-ID"@)->Some_0),
            ("CSeq"@, header_lookup(req@.headers, "CSeq"@)->Some_0),
            ("From"@, header_lookup(req@.headers, "From"@)->Some_0),
            ("To"@, spec_to),
        ];
        assert(resp@.headers =~= base);
        match body {
            Some((ct, data)) => {
                resp.add_header(Header { name: lit("Content-Type"), value: lit(ct) });
                resp.set_body(data);
                let mut len_str = String::new();
                let nbytes = data.as_bytes().len();
                push_decimal(&mut len_str, nbytes as u64);
                resp.add_header(Header { name: lit("Content-Length"), value: len_str });
                assert(resp@.headers =~= base + seq![
                    ("Content-Type"@, ct@),
                    ("Content-Length"@, dec_digits(vstd::utf8::encode_utf8(data@).len())),
                ]);
                assert(resp@.body == data@);
            },
            None => {
                resp.add_header(Header { name: lit("Content-Length"), value: lit("0") });
                assert(resp@.headers =~= base.push(("Content-Length"@, "0"@)));
            },
        }
        assert(resp@.headers =~= build_response_spec(
            old(self)@,
            req@.headers,
            status,
            reason@,
            match body {
                Some((ct, data)) => Some((ct@, data@)),
                None => None,
            },
        )->Some_0.1.headers);
        Ok(resp)
    }

    pub fn set_state(&mut self, st: DialogState)
        ensures
            final(self)@ == (DialogView { state: st@, ..old(self)@ }),
    {
        self.state = st;
    }

    /// A copy of the current state.
    pub fn state_copy(&self) -> (r: DialogState)
        ensures
            r@ == self@.state,
    {
        self.state.duplicate()
    }

    pub fn terminate_local(&mut self)
        ensures
            final(self)@ == (DialogView { state: DialogStateView::Terminated, ..old(self)@ }),
    {
        self.state = DialogState::Terminated;
    }
}


/// How an INVITE is classified, and the state it leaves: `None` (no event)
/// when Call-ID, From or To is missing; `Initial` without a change when the
/// From has no tag; `Reinvite` when it matches the UAS dialog (same Call-ID
/// and remote tag, and the To tag equals the local tag unless that is still
/// empty); otherwise `Initial` from Idle or Terminated (the dialog starts
/// ringing as UAS with an empty local tag) or `InitialWhileBusy`.
pub open spec fn invite_outcome(st: DialogStateView, req: RequestView) -> (DialogStateView, Option<InviteKind>) {
    let cid = header_lookup(req.headers, "Call-ID"@);
    let from = header_lookup(req.headers, "From"@);
    let to = header_lookup(req.headers, "To"@);
    if cid is None || from is None || to is None {
        (st, None)
    } else if tag_param(from->Some_0) is None {
        (st, Some(InviteKind::Initial))
    } else {
        let call_id = cid->Some_0;
        let from_tag = tag_param(from->Some_0)->Some_0;
        let to_tag = tag_param(to->Some_0);
        let in_dialog = match st {
            DialogStateView::Ringing { role, id, .. } => role == DialogRole::Uas && id_matches(id, call_id, from_tag, to_tag),
            DialogStateView::Established { role, id } => role == DialogRole::Uas && id_matches(id, call_id, from_tag, to_tag),
            _ => false,
        };
        if in_dialog {
            (st, Some(InviteKind::Reinvite))
        } else if st is Idle || st is Terminated {
            (
                DialogStateView::Ringing {
                    role: DialogRole::Uas,
                    id: (call_id, Seq::empty(), from_tag),
                    invite: req,
                },
                Some(InviteKind::Initial),
            )
        } else {
            (st, Some(InviteKind::InitialWhileBusy))
        }
    }
}

/// An in-dialog request matches on Call-ID and remote tag; the To tag must
/// equal the local tag once that is set.
pub open spec fn id_matches(id: IdView, call_id: Seq<char>, from_tag: Seq<char>, to_tag: Option<Seq<char>>) -> bool {
    id.0 == call_id && id.2 == from_tag && (id.1.len() == 0 || to_tag == Some(id.1))
}

fn id_matches_exec(id: &SipDialogId, call_id: &str, from_tag: &str, to_tag: Option<&str>) -> (r: bool)
    ensures
        r == id_matches(id@, call_id@, from_tag@, match to_tag {
            Some(t) => Some(t@),
            None => None,
        }),
{
    if !str_eq(id.call_id.as_str(), call_id) || !str_eq(id.remote_tag.as_str(), from_tag) {
        return false;
    }
    if id.local_tag.as_str().is_empty() {
        return true;
    }
    match to_tag {
        Some(t) => str_eq(t, id.local_tag.as_str()),
        None => false,
    }
}

/// Outcome of a CANCEL: the dialog after it and (200 to the CANCEL, 487 to
/// the INVITE), or the error with the dialog unchanged; see
/// `handle_incoming_cancel`.
pub open spec fn cancel_outcome(d: DialogView, cancel: RequestView) -> (DialogView, Result<(ResponseView, ResponseView), bool>) {
    match d.state {
        DialogStateView::Ringing { role, id, invite } => {
            let cid = header_lookup(cancel.headers, "Call-ID"@);
            let from = header_lookup(cancel.headers, "From"@);
            if role != DialogRole::Uas {
                (d, Err(true))
            } else if cid is None || from is None {
                (d, Err(false))
            } else {
                let tag = match tag_param(from->Some_0) {
                    Some(t) => t,
                    None => "remote"@,
                };
                if cid->Some_0 != id.0 || tag != id.2 {
                    (d, Err(false))
                } else {
                    let idle = DialogView { state: DialogStateView::Idle, ..d };
                    match build_response_spec(idle, cancel.headers, 200, "OK"@, None) {
                        None => (d, Err(false)),
                        Some((d1, ok)) => match build_response_spec(d1, invite.headers, 487, "Request Terminated"@, None) {
                            None => (d, Err(false)),
                            Some((d2, r487)) => (DialogView { state: DialogStateView::Terminated, ..d2 }, Ok((ok, r487))),
                        },
                    }
                }
            }
        },
        _ => (d, Err(true)),
    }
}

/// Outcome of an ACK: `Err(true)` for the wrong state or role, `Err(false)`
/// for a missing header or a mismatch; a ringing dialog becomes established.
pub open spec fn ack_outcome(st: DialogStateView, ack: RequestView) -> (DialogStateView, Result<(), bool>) {
    let (role, id, ringing) = match st {
        DialogStateView::Ringing { role, id, .. } => (role, id, true),
        DialogStateView::Established { role, id } => (role, id, false),
        _ => (DialogRole::Uac, (Seq::empty(), Seq::empty(), Seq::empty()), false),
    };
    if !(st is Ringing || st is Established) || role != DialogRole::Uas {
        (st, Err(true))
    } else {
        let cid = header_lookup(ack.headers, "Call-ID"@);
        let to = header_lookup(ack.headers, "To"@);
        if cid is None || to is None {
            (st, Err(false))
        } else {
            let tag = match tag_param(to->Some_0) {
                Some(t) => t,
                None => Seq::empty(),
            };
            if cid->Some_0 != id.0 || tag != id.1 {
                (st, Err(false))
            } else if ringing {
                (DialogStateView::Established { role, id }, Ok(()))
            } else {
                (st, Ok(()))
            }
        }
    }
}

/// Outcome of a BYE on an established dialog: the dialog terminates and a
/// 200 is built; `Err(true)` in another state, `Err(false)` for a missing
/// header or a mismatch.
pub open spec fn bye_outcome(d: DialogView, bye: RequestView) -> (DialogView, Result<ResponseView, bool>) {
    match d.state {
        DialogStateView::Established { role, id } => {
            let cid = header_lookup(bye.headers, "Call-ID"@);
            let from = header_lookup(bye.headers, "From"@);
            let to = header_lookup(bye.headers, "To"@);
            if cid is None || from is None || to is None {
                (d, Err(false))
            } else {
                let ft = match tag_param(from->Some_0) { Some(t) => t, None => Seq::empty() };
                let tt = match tag_param(to->Some_0) { Some(t) => t, None => Seq::empty() };
                let ok = if role == DialogRole::Uas {
                    cid->Some_0 == id.0 && ft == id.2 && tt == id.1
                } else {
                    cid->Some_0 == id.0 && tt == id.2 && ft == id.1
                };
                if !ok {
                    (d, Err(false))
                } else {
                    let term = DialogView { state: DialogStateView::Terminated, ..d };
                    match build_response_spec(term, bye.headers, 200, "OK"@, None) {
                        None => (term, Err(false)),
                        Some((d2, resp)) => (d2, Ok(resp)),
                    }
                }
            }
        },
        _ => (d, Err(true)),
    }
}

/// A CANCEL that fails, for whatever reason, leaves the dialog unchanged.
pub proof fn lemma_cancel_error_keeps_dialog(d: DialogView, cancel: RequestView)
    ensures
        cancel_outcome(d, cancel).1 is Err ==> cancel_outcome(d, cancel).0 == d,
{
}

pub struct CancelResult {
    pub cancel_ok: Response,
    pub maybe_invite_487: Option<Response>,
}

impl Dialog {
    /// Classifies an incoming INVITE (see `invite_outcome`) and reports it
    /// as one `IncomingInvite` event carrying the request.
    pub fn handle_incoming_invite(&mut self, req: Request) -> (r: Vec<CoreEvent>)
        ensures
            ({
                let (st, kind) = invite_outcome(old(self)@.state, req@);
                &&& final(self)@ == (DialogView { state: st, ..old(self)@ })
                &&& match kind {
                    None => r@.len() == 0,
                    Some(k) => r@.len() == 1 && (r@[0] matches CoreEvent::Dialog(
                        CoreDialogEvent::IncomingInvite { kind, request },
                    ) && kind == k && request@ == req@),
                }
            }),
    {
        let mut events: Vec<CoreEvent> = Vec::new();
        let ci = match header_index(&req.headers, "Call-ID") {
            Some(i) => i,
            None => {
                return events;
            },
        };
        let fi = match header_index(&req.headers, "From") {
            Some(i) => i,
            None => {
                return events;
            },
        };
        let ti = match header_index(&req.headers, "To") {
            Some(i) => i,
            None => {
                return events;
            },
        };
        let from_tag = match parse_tag_param(req.headers[fi].value.as_str()) {
            Some(t) => t,
            None => {
                events.push(CoreEvent::Dialog(CoreDialogEvent::IncomingInvite { kind: InviteKind::Initial, request: req }));
                return events;
            },
        };
        let to_tag = parse_tag_param(req.headers[ti].value.as_str());
        let call_id = req.headers[ci].value.as_str();
        let in_dialog = match &self.state {
            DialogState::Ringing { role, id, .. } => *role == DialogRole::Uas && id_matches_exec(id, call_id, from_tag, to_tag),
            DialogState::Established { role, id } => *role == DialogRole::Uas && id_matches_exec(id, call_id, from_tag, to_tag),
            _ => false,
        };
        if in_dialog {
            events.push(CoreEvent::Dialog(CoreDialogEvent::IncomingInvite { kind: InviteKind::Reinvite, request: req }));
            return events;
        }
        let can_start = match self.state {
            DialogState::Idle | DialogState::Terminated => true,
            _ => false,
        };
        if can_start {
            let id = SipDialogId { call_id: lit(call_id), local_tag: String::new(), remote_tag: lit(from_tag) };
            self.state = DialogState::Ringing { role: DialogRole::Uas, id, original_invite: req.duplicate() };
            events.push(CoreEvent::Dialog(CoreDialogEvent::IncomingInvite { kind: InviteKind::Initial, request: req }));
        } else {
            events.push(CoreEvent::Dialog(CoreDialogEvent::IncomingInvite { kind: InviteKind::InitialWhileBusy, request: req }));
        }
        events
    }

    /// Sets the ringing UAS state for an initial INVITE (Call-ID and From
    /// tag required; otherwise nothing changes).
    pub fn handle_initial_invite(&mut self, req: &Request)
        ensures
            ({
                let cid = header_lookup(req@.headers, "Call-ID"@);
                let from = header_lookup(req@.headers, "From"@);
                if cid is Some && from is Some && tag_param(from->Some_0) is Some {
                    final(self)@ == (DialogView {
                        state: DialogStateView::Ringing {
                            role: DialogRole::Uas,
                            id: (cid->Some_0, Seq::empty(), tag_param(from->Some_0)->Some_0),
                            invite: req@,
                        },
                        ..old(self)@
                    })
                } else {
                    final(self)@ == old(self)@
                }
            }),
    {
        let ci = match header_index(&req.headers, "Call-ID") {
            Some(i) => i,
            None => {
                return;
            },
        };
        let fi = match header_index(&req.headers, "From") {
            Some(i) => i,
            None => {
                return;
            },
        };
        let from_tag = match parse_tag_param(req.headers[fi].value.as_str()) {
            Some(t) => t,
            None => {
                return;
            },
        };
        let id = SipDialogId {
            call_id: copy_string(&req.headers[ci].value),
            local_tag: String::new(),
            remote_tag: lit(from_tag),
        };
        self.state = DialogState::Ringing { role: DialogRole::Uas, id, original_invite: req.duplicate() };
    }

    /// A CANCEL for the ringing UAS dialog (same Call-ID and remote tag,
    /// `remote` standing for a missing From tag): a 200 for the CANCEL and a
    /// 487 for the INVITE, and the dialog terminates. `InvalidState` when
    /// not ringing as UAS, `Invalid` for a missing header or a mismatch;
    /// on every error the dialog is left as it was.
    pub fn handle_incoming_cancel(&mut self, cancel_req: &Request) -> (r: Result<CancelResult, SipError>)
        ensures
            ({
                let (d2, out) = cancel_outcome(old(self)@, cancel_req@);
                &&& final(self)@ == d2
                &&& match out {
                    Ok((ok, r487)) => r matches Ok(cr) && cr.cancel_ok@ == ok && (cr.maybe_invite_487 matches Some(x) && x@ == r487),
                    Err(true) => r matches Err(SipError::InvalidState(_)),
                    Err(false) => r matches Err(SipError::Invalid(_)),
                }
            }),
    {
        let (role, invite) = match &self.state {
            DialogState::Ringing { role, original_invite, .. } => (*role, original_invite.duplicate()),
            _ => {
                return Err(SipError::InvalidState("received CANCEL while not ringing"));
            },
        };
        if role != DialogRole::Uas {
            return Err(SipError::InvalidState("received CANCEL but we are not UAS"));
        }
        let ci = match header_index(&cancel_req.headers, "Call-ID") {
            Some(i) => i,
            None => {
                return Err(SipError::Invalid("missing Call-ID"));
            },
        };
        let fi = match header_index(&cancel_req.headers, "From") {
            Some(i) => i,
            None => {
                return Err(SipError::Invalid("missing From"));
            },
        };
        let tag = match parse_tag_param(cancel_req.headers[fi].value.as_str()) {
            Some(t) => t,
            None => "remote",
        };
        let matches = match &self.state {
            DialogState::Ringing { id, .. } => str_eq(cancel_req.headers[ci].value.as_str(), id.call_id.as_str())
                && str_eq(tag, id.remote_tag.as_str()),
            _ => false,
        };
        if !matches {
            return Err(SipError::Invalid("CANCEL does not match current dialog"));
        }
        let saved_state = self.state.duplicate();
        let saved_counter = self.next_tag_counter;
        self.state = DialogState::Idle;
        let cancel_ok = match self.build_response_for_request(cancel_req, 200, "OK", None) {
            Ok(r) => r,
            Err(e) => {
                self.state = saved_state;
                self.next_tag_counter = saved_counter;
                return Err(e);
            },
        };
        let invite_487 = match self.build_response_for_request(&invite, 487, "Request Terminated", None) {
            Ok(r) => r,
            Err(e) => {
                self.state = saved_state;
                self.next_tag_counter = saved_counter;
                return Err(e);
            },
        };
        self.state = DialogState::Terminated;
        Ok(CancelResult { cancel_ok, maybe_invite_487: Some(invite_487) })
    }

    /// An ACK for the UAS dialog (same Call-ID, To tag equal to the local
    /// tag, empty when absent) confirms it: a ringing dialog becomes
    /// established.
    pub fn handle_incoming_ack(&mut self, ack_req: &Request) -> (r: Result<(), SipError>)
        ensures
            ({
                let (st, out) = ack_outcome(old(self)@.state, ack_req@);
                &&& final(self)@ == (DialogView { state: st, ..old(self)@ })
                &&& match out {
                    Ok(()) => r is Ok,
                    Err(true) => r matches Err(SipError::InvalidState(_)),
                    Err(false) => r matches Err(SipError::Invalid(_)),
                }
            }),
    {
        let (role, ringing) = match &self.state {
            DialogState::Ringing { role, .. } => (*role, true),
            DialogState::Established { role, .. } => (*role, false),
            _ => {
                return Err(SipError::InvalidState("ACK in wrong state"));
            },
        };
        if role != DialogRole::Uas {
            return Err(SipError::InvalidState("ACK but we are not UAS"));
        }
        let ci = match header_index(&ack_req.headers, "Call-ID") {
            Some(i) => i,
            None => {
                return Err(SipError::Invalid("missing Call-ID"));
            },
        };
        let ti = match header_index(&ack_req.headers, "To") {
            Some(i) => i,
            None => {
                return Err(SipError::Invalid("missing To"));
            },
        };
        let tag = match parse_tag_param(ack_req.headers[ti].value.as_str()) {
            Some(t) => t,
            None => {
                proof {
                    reveal_strlit("");
                }
                assert(""@ =~= Seq::<char>::empty());
                ""
            },
        };
        assert(tag@ == (match tag_param(ack_req.headers@[ti as int].value@) {
            Some(t) => t,
            None => Seq::empty(),
        }));
        let matched = match &self.state {
            DialogState::Ringing { id, .. } => str_eq(ack_req.headers[ci].value.as_str(), id.call_id.as_str())
                && str_eq(tag, id.local_tag.as_str()),
            DialogState::Established { id, .. } => str_eq(ack_req.headers[ci].value.as_str(), id.call_id.as_str())
                && str_eq(tag, id.local_tag.as_str()),
            _ => false,
        };
        if !matched {
            return Err(SipError::Invalid("ACK does not match current dialog"));
        }
        if ringing {
            let id = match &self.state {
                DialogState::Ringing { id, .. } => id.duplicate(),
                DialogState::Established { id, .. } => id.duplicate(),
                _ => SipDialogId { call_id: String::new(), local_tag: String::new(), remote_tag: String::new() },
            };
            self.state = DialogState::Established { role, id };
        }
        Ok(())
    }

    /// A BYE for the established dialog (tags checked by role, empty when
    /// absent): the dialog terminates and a 200 is returned.
    pub fn handle_incoming_bye(&mut self, bye_req: &Request) -> (r: Result<Response, SipError>)
        ensures
            ({
                let (d2, out) = bye_outcome(old(self)@, bye_req@);
                &&& final(self)@ == d2
                &&& match out {
                    Ok(resp) => r matches Ok(x) && x@ == resp,
                    Err(true) => r matches Err(SipError::InvalidState(_)),
                    Err(false) => r matches Err(SipError::Invalid(_)),
                }
            }),
    {
        let role = match &self.state {
            DialogState::Established { role, .. } => *role,
            _ => {
                return Err(SipError::InvalidState("BYE in wrong state"));
            },
        };
        let ci = match header_index(&bye_req.headers, "Call-ID") {
            Some(i) => i,
            None => {
                return Err(SipError::Invalid("missing Call-ID"));
            },
        };
        let fi = match header_index(&bye_req.headers, "From") {
            Some(i) => i,
            None => {
                return Err(SipError::Invalid("missing From"));
            },
        };
        let ti = match header_index(&bye_req.headers, "To") {
            Some(i) => i,
            None => {
                return Err(SipError::Invalid("missing To"));
            },
        };
        proof {
            reveal_strlit("");
        }
        assert(""@ =~= Seq::<char>::empty());
        let ft = match parse_tag_param(bye_req.headers[fi].value.as_str()) {
            Some(t) => t,
            None => "",
        };
        let tt = match parse_tag_param(bye_req.headers[ti].value.as_str()) {
            Some(t) => t,
            None => "",
        };
        assert(ft@ == (match tag_param(bye_req.headers@[fi as int].value@) {
            Some(t) => t,
            None => Seq::empty(),
        }));
        assert(tt@ == (match tag_param(bye_req.headers@[ti as int].value@) {
            Some(t) => t,
            None => Seq::empty(),
        }));
        let cid = bye_req.headers[ci].value.as_str();
        let ok = match &self.state {
            DialogState::Established { id, .. } => {
                if role == DialogRole::Uas {
                    str_eq(cid, id.call_id.as_str()) && str_eq(ft, id.remote_tag.as_str()) && str_eq(tt, id.local_tag.as_str())
                } else {
                    str_eq(cid, id.call_id.as_str()) && str_eq(tt, id.remote_tag.as_str()) && str_eq(ft, id.local_tag.as_str())
                }
            },
            _ => false,
        };
        if !ok {
            return Err(SipError::Invalid("BYE does not match current dialog"));
        }
        self.state = DialogState::Terminated;
        self.build_response_for_request(bye_req, 200, "OK", None)
    }
}

} // verus!
