//! The proxy's internal HTTP message, the connection context and the handler actions.
use vstd::prelude::*;
use vstd::string::StrSliceExecFns;
use crate::text::{
    chars_of, eq_ic, eq_ignore_case_chars, find_char_from, find_pat, first_from, first_pat,
    matches_at,
};

verus! {

/// A simplified HTTP message (request or response) passed between the proxy stages.
///
/// Responses carry their status line in the `:status` pseudo header.
#[derive(Debug, Clone)]
pub struct HttpMessage {
    pub method: String,
    pub uri: String,
    pub version: String,
    pub headers: Vec<(String, String)>,
    pub body: Vec<u8>,
}

pub type HeaderSeq = Seq<(Seq<char>, Seq<char>)>;

/// Mathematical model of an [`HttpMessage`].
pub struct MsgView {
    pub method: Seq<char>,
    pub uri: Seq<char>,
    pub version: Seq<char>,
    pub headers: HeaderSeq,
    pub body: Seq<u8>,
}

pub open spec fn headers_view(h: Seq<(String, String)>) -> HeaderSeq {
    Seq::new(h.len(), |i: int| (h[i].0@, h[i].1@))
}

impl View for HttpMessage {
    type V = MsgView;

    open spec fn view(&self) -> MsgView {
        MsgView {
            method: self.method@,
            uri: self.uri@,
            version: self.version@,
            headers: headers_view(self.headers@),
            body: self.body@,
        }
    }
}

pub open spec fn is_header_index(hs: HeaderSeq, name: Seq<char>, i: int) -> bool {
    &&& 0 <= i < hs.len()
    &&& eq_ic(hs[i].0, name)
    &&& forall|j: int| 0 <= j < i ==> !eq_ic(#[trigger] hs[j].0, name)
}

/// Index of the first header whose name equals `name` ignoring ASCII case.
pub open spec fn header_index(hs: HeaderSeq, name: Seq<char>) -> Option<int> {
    if exists|i: int| #[trigger] is_header_index(hs, name, i) {
        Some(choose|i: int| #[trigger] is_header_index(hs, name, i))
    } else {
        None
    }
}

/// Value of the first header named `name` (ASCII case-insensitive).
pub open spec fn header_lookup(hs: HeaderSeq, name: Seq<char>) -> Option<Seq<char>> {
    match header_index(hs, name) {
        Some(i) => Some(hs[i].1),
        None => None,
    }
}

/// The authority part of an absolute URI: the text after the first `://`,
/// up to the next `://`, and then up to the first `/`.
pub open spec fn uri_authority(u: Seq<char>) -> Option<Seq<char>> {
    match first_pat(u, scheme_sep()) {
        None => None,
        Some(i) => {
            let rest = u.skip(i + 3);
            let seg = match first_pat(rest, scheme_sep()) {
                Some(j) => rest.take(j),
                None => rest,
            };
            Some(
                match first_from(seg, 0, '/') {
                    Some(k) => seg.take(k),
                    None => seg,
                },
            )
        },
    }
}

pub open spec fn scheme_sep() -> Seq<char> {
    seq![':', '/', '/']
}

/// Target host of a request: the `Host` header, else the authority of the URI.
pub open spec fn msg_host(m: MsgView) -> Option<Seq<char>> {
    match header_lookup(m.headers, seq!['h', 'o', 's', 't']) {
        Some(h) => Some(h),
        None => uri_authority(m.uri),
    }
}

pub fn header_name_index(headers: &Vec<(String, String)>, name: &str) -> (r: Option<usize>)
    ensures
        r matches Some(i) ==> header_index(headers_view(headers@), name@) == Some(i as int),
        r is None ==> header_index(headers_view(headers@), name@) is None,
{
    let ghost hs = headers_view(headers@);
    let nv = chars_of(name);
    let mut i: usize = 0;
    while i < headers.len()
        invariant
            i <= headers.len(),
            hs == headers_view(headers@),
            nv@ == name@,
            forall|j: int| 0 <= j < i ==> !eq_ic(#[trigger] hs[j].0, name@),
        decreases headers.len() - i,
    {
        let kv = chars_of(headers[i].0.as_str());
        if eq_ignore_case_chars(&kv, &nv) {
            assert(is_header_index(hs, name@, i as int));
            proof {
                let k = choose|k: int| #[trigger] is_header_index(hs, name@, k);
                assert(k == i);
            }
            return Some(i);
        }
        i += 1;
    }
    assert(!exists|k: int| #[trigger] is_header_index(hs, name@, k));
    None
}

impl HttpMessage {
    /// Value of the first header matching `name` (ASCII case-insensitive).
    pub fn header(&self, name: &str) -> (r: Option<&str>)
        ensures
            r matches Some(v) ==> header_lookup(self@.headers, name@) == Some(v@),
            r is None ==> header_lookup(self@.headers, name@) is None,
    {
        match header_name_index(&self.headers, name) {
            Some(i) => Some(self.headers[i].1.as_str()),
            None => None,
        }
    }

    /// Target `host[:port]`: the `Host` header, else the authority of an absolute URI.
    pub fn host(&self) -> (r: Option<&str>)
        ensures
            r matches Some(v) ==> msg_host(self@) == Some(v@),
            r is None ==> msg_host(self@) is None,
    {
        match self.header("host") {
            Some(h) => {
                proof {
                    reveal_strlit("host");
                    assert("host"@ =~= seq!['h', 'o', 's', 't']);
                }
                Some(h)
            },
            None => {
                proof {
                    reveal_strlit("host");
                    assert("host"@ =~= seq!['h', 'o', 's', 't']);
                }
                uri_authority_str(self.uri.as_str())
            },
        }
    }
}

/// `uri.split("://").nth(1).and_then(|s| s.split('/').next())`.
pub fn uri_authority_str(uri: &str) -> (r: Option<&str>)
    ensures
        r matches Some(v) ==> uri_authority(uri@) == Some(v@),
        r is None ==> uri_authority(uri@) is None,
{
    let v = chars_of(uri);
    let mut sep: Vec<char> = Vec::new();
    sep.push(':');
    sep.push('/');
    sep.push('/');
    assert(sep@ =~= scheme_sep());
    match find_pat(&v, &sep) {
        None => None,
        Some(i) => {
            let vlen = v.len();
            assert(sep@.len() == 3);
            assert(matches_at(v@, sep@, i as int));
            let start = i + 3;
            let ghost rest = v@.skip(start as int);
            let rest_v = rest_chars(&v, start);
            let seg_end: usize = match find_pat(&rest_v, &sep) {
                Some(j) => j,
                None => rest_v.len(),
            };
            let ghost seg = if seg_end == rest_v.len() {
                rest
            } else {
                rest.take(seg_end as int)
            };
            assert(rest_v@.take(seg_end as int) == seg);
            let seg_v = prefix_chars(&rest_v, seg_end);
            let end: usize = match find_char_from(&seg_v, 0, '/') {
                Some(k) => k,
                None => seg_v.len(),
            };
            assert(seg_v@.take(end as int) == match first_from(seg, 0, '/') {
                Some(k) => seg.take(k),
                None => seg,
            });
            assert(start + end <= vlen);
            assert(v@.subrange(start as int, start + end) =~= seg_v@.take(end as int));
            Some(uri.substring_char(start, start + end))
        },
    }
}

pub fn rest_chars(v: &Vec<char>, start: usize) -> (r: Vec<char>)
    requires
        start <= v.len(),
    ensures
        r@ == v@.skip(start as int),
{
    let mut r: Vec<char> = Vec::new();
    let mut i = start;
    while i < v.len()
        invariant
            start <= i <= v.len(),
            r@ == v@.subrange(start as int, i as int),
        decreases v.len() - i,
    {
        r.push(v[i]);
        i += 1;
        assert(r@ =~= v@.subrange(start as int, i as int));
    }
    assert(r@ =~= v@.skip(start as int));
    r
}

pub fn prefix_chars(v: &Vec<char>, end: usize) -> (r: Vec<char>)
    requires
        end <= v.len(),
    ensures
        r@ == v@.take(end as int),
{
    let mut r: Vec<char> = Vec::new();
    let mut i: usize = 0;
    while i < end
        invariant
            i <= end <= v.len(),
            r@ == v@.take(i as int),
        decreases end - i,
    {
        r.push(v[i]);
        i += 1;
        assert(r@ =~= v@.take(i as int));
    }
    r
}

/// What the handler decides for a request.
#[derive(Debug)]
pub enum RequestAction {
    /// Pass the (possibly rewritten) request on to the upstream.
    Forward(HttpMessage),
    /// Answer the client directly, without contacting the upstream.
    Respond(HttpMessage),
    /// Hold the exchange at a breakpoint: flow id and stage.
    Pause(String, String),
}

/// What the handler decides for a response.
#[derive(Debug)]
pub enum ResponseAction {
    /// Return the (possibly rewritten) response to the client.
    Forward(HttpMessage),
    /// Hold the exchange at a breakpoint: flow id and stage.
    Pause(String, String),
}

pub enum ActionView {
    Forward(MsgView),
    Respond(MsgView),
    Pause(Seq<char>, Seq<char>),
}

impl View for RequestAction {
    type V = ActionView;

    open spec fn view(&self) -> ActionView {
        match self {
            RequestAction::Forward(m) => ActionView::Forward(m@),
            RequestAction::Respond(m) => ActionView::Respond(m@),
            RequestAction::Pause(a, b) => ActionView::Pause(a@, b@),
        }
    }
}

impl View for ResponseAction {
    type V = ActionView;

    open spec fn view(&self) -> ActionView {
        match self {
            ResponseAction::Forward(m) => ActionView::Forward(m@),
            ResponseAction::Pause(a, b) => ActionView::Pause(a@, b@),
        }
    }
}

/// The response the client receives: the handler's response when it forwards one,
/// otherwise the upstream's response as it came.
pub fn response_to_send(action: ResponseAction, upstream: HttpMessage) -> (r: HttpMessage)
    ensures
        match action {
            ResponseAction::Forward(res) => r == res,
            ResponseAction::Pause(_, _) => r == upstream,
        },
{
    match action {
        ResponseAction::Forward(res) => res,
        ResponseAction::Pause(_, _) => upstream,
    }
}

/// Connection context: the target the client asked for, the TLS server name and the
/// id of the flow recorded for the exchange.
#[derive(Debug, Clone)]
pub struct FlowContext {
    pub target_host: String,
    pub target_port: u16,
    pub sni: Option<String>,
    pub flow_id: Option<String>,
}

impl FlowContext {
    pub fn new(host: &str, port: u16) -> (r: Self)
        ensures
            r.target_host@ == host@,
            r.target_port == port,
            r.sni is None,
            r.flow_id is None,
    {
        FlowContext { target_host: host.to_string(), target_port: port, sni: None, flow_id: None }
    }

    pub fn with_sni(self, sni: Option<String>) -> (r: Self)
        ensures
            r == (FlowContext { sni: sni, ..self }),
    {
        let mut c = self;
        c.sni = sni;
        c
    }

    pub fn with_flow_id(self, flow_id: String) -> (r: Self)
        ensures
            r == (FlowContext { flow_id: Some(flow_id), ..self }),
    {
        let mut c = self;
        c.flow_id = Some(flow_id);
        c
    }
}

} // verus!
