//! The captured-traffic model: flows (request, response, timing, TLS details, state)
//! and the events pushed to the user interface.
use vstd::prelude::*;
use crate::message::{HeaderSeq, header_name_index, header_lookup, headers_view};
use crate::rules::{copy_bytes, copy_headers};
use crate::text::copy_string;

verus! {

/// Protocol of a captured exchange.
#[derive(Debug, Clone, Copy, PartialEq, Eq, Structural)]
pub enum FlowProtocol {
    Http1,
    Http2,
    WebSocket,
    /// Not intercepted; kept so that the model can name it.
    Http3,
}

/// State of a flow.
#[derive(Debug, Clone, Copy, PartialEq, Eq, Structural)]
pub enum FlowStatus {
    /// The request went out; no response yet.
    Pending,
    /// Request and response are both recorded.
    Complete,
    /// The exchange failed.
    Error,
    /// Held at a breakpoint, waiting for the user.
    Intercepted,
}

/// Breakpoint state of a flow.
#[derive(Debug, Clone)]
pub enum InterceptState {
    NotIntercepted,
    /// Held at the given stage (`request` or `response`).
    Paused { stage: String },
    Resumed,
}

/// A socket address as text and port.
#[derive(Debug, Clone)]
pub struct SocketAddrInfo {
    pub ip: String,
    pub port: u16,
}

/// A request or response as recorded in a flow.
#[derive(Debug, Clone)]
pub struct HttpMessage {
    /// `GET /api/users HTTP/1.1` or `HTTP/1.1 200 OK`.
    pub start_line: String,
    /// Method (requests only; empty for responses).
    pub method: String,
    /// URI (requests only; empty for responses).
    pub uri: String,
    pub version: String,
    /// Status code (responses only).
    pub status_code: Option<u16>,
    /// Headers in order; a name may repeat.
    pub headers: Vec<(String, String)>,
    /// The raw header block, when it was kept.
    pub headers_raw: Option<String>,
    /// The body, possibly cut at the size limit.
    pub body: Vec<u8>,
    /// Size of the whole body (larger than `body` when it was cut).
    pub body_size: usize,
    pub body_truncated: bool,
}

/// Timing of a flow, in epoch milliseconds.
#[derive(Debug, Clone, Copy, Default)]
pub struct FlowTiming {
    pub start_time: i64,
    pub dns_start: Option<i64>,
    pub dns_end: Option<i64>,
    pub connect_start: Option<i64>,
    pub connect_end: Option<i64>,
    pub tls_start: Option<i64>,
    pub tls_end: Option<i64>,
    pub send_start: Option<i64>,
    pub send_end: Option<i64>,
    pub ttfb: Option<i64>,
    pub end_time: Option<i64>,
}

/// TLS details of a flow.
#[derive(Debug, Clone)]
pub struct TlsInfo {
    pub version: String,
    pub cipher: String,
    pub sni: Option<String>,
    pub alpn: Option<String>,
}

/// A captured exchange.
#[derive(Debug, Clone)]
pub struct Flow {
    /// ULID: ordered by creation time.
    pub id: String,
    pub protocol: FlowProtocol,
    pub client_addr: Option<SocketAddrInfo>,
    pub server_addr: Option<SocketAddrInfo>,
    pub request: HttpMessage,
    pub response: Option<HttpMessage>,
    pub timing: FlowTiming,
    pub tls: Option<TlsInfo>,
    pub status: FlowStatus,
    pub error: Option<String>,
    pub intercept: InterceptState,
    pub tags: Vec<String>,
}

/// A page of flows and the number of flows stored.
#[derive(Debug, Clone)]
pub struct FlowListResponse {
    pub flows: Vec<Flow>,
    pub total: usize,
}

/// The body of a recorded message: UTF-8 text as it is, anything else in base64.
#[derive(Debug, Clone)]
pub struct FlowBodyResponse {
    pub body: String,
    pub body_size: usize,
    pub body_truncated: bool,
    pub content_type: Option<String>,
    /// `true` when `body` holds base64 of binary content.
    pub binary: bool,
}

/// Events pushed to the user interface.
#[derive(Debug, Clone)]
pub enum TrafficEvent {
    FlowStarted { flow: Flow },
    FlowComplete { flow_id: String, flow: Flow },
    FlowError { flow_id: String, error: String },
    FlowIntercepted { flow_id: String, stage: String },
}

// ───────────────────────── Models ─────────────────────────

pub open spec fn opt_str(o: Option<String>) -> Option<Seq<char>> {
    match o {
        Some(s) => Some(s@),
        None => None,
    }
}

pub struct FlowMsgView {
    pub start_line: Seq<char>,
    pub method: Seq<char>,
    pub uri: Seq<char>,
    pub version: Seq<char>,
    pub status_code: Option<u16>,
    pub headers: HeaderSeq,
    pub headers_raw: Option<Seq<char>>,
    pub body: Seq<u8>,
    pub body_size: usize,
    pub body_truncated: bool,
}

impl View for HttpMessage {
    type V = FlowMsgView;

    open spec fn view(&self) -> FlowMsgView {
        FlowMsgView {
            start_line: self.start_line@,
            method: self.method@,
            uri: self.uri@,
            version: self.version@,
            status_code: self.status_code,
            headers: headers_view(self.headers@),
            headers_raw: opt_str(self.headers_raw),
            body: self.body@,
            body_size: self.body_size,
            body_truncated: self.body_truncated,
        }
    }
}

pub open spec fn opt_msg(o: Option<HttpMessage>) -> Option<FlowMsgView> {
    match o {
        Some(m) => Some(m@),
        None => None,
    }
}

pub enum InterceptView {
    NotIntercepted,
    Paused(Seq<char>),
    Resumed,
}

impl View for InterceptState {
    type V = InterceptView;

    open spec fn view(&self) -> InterceptView {
        match self {
            InterceptState::NotIntercepted => InterceptView::NotIntercepted,
            InterceptState::Paused { stage } => InterceptView::Paused(stage@),
            InterceptState::Resumed => InterceptView::Resumed,
        }
    }
}

pub open spec fn opt_addr(o: Option<SocketAddrInfo>) -> Option<(Seq<char>, u16)> {
    match o {
        Some(a) => Some((a.ip@, a.port)),
        None => None,
    }
}

pub struct TlsView {
    pub version: Seq<char>,
    pub cipher: Seq<char>,
    pub sni: Option<Seq<char>>,
    pub alpn: Option<Seq<char>>,
}

pub open spec fn opt_tls(o: Option<TlsInfo>) -> Option<TlsView> {
    match o {
        Some(t) => Some(
            TlsView { version: t.version@, cipher: t.cipher@, sni: opt_str(t.sni), alpn: opt_str(t.alpn) },
        ),
        None => None,
    }
}

pub open spec fn strings_view(v: Seq<String>) -> Seq<Seq<char>> {
    Seq::new(v.len(), |i: int| v[i]@)
}

pub struct FlowView {
    pub id: Seq<char>,
    pub protocol: FlowProtocol,
    pub client_addr: Option<(Seq<char>, u16)>,
    pub server_addr: Option<(Seq<char>, u16)>,
    pub request: FlowMsgView,
    pub response: Option<FlowMsgView>,
    pub timing: FlowTiming,
    pub tls: Option<TlsView>,
    pub status: FlowStatus,
    pub error: Option<Seq<char>>,
    pub intercept: InterceptView,
    pub tags: Seq<Seq<char>>,
}

impl View for Flow {
    type V = FlowView;

    open spec fn view(&self) -> FlowView {
        FlowView {
            id: self.id@,
            protocol: self.protocol,
            client_addr: opt_addr(self.client_addr),
            server_addr: opt_addr(self.server_addr),
            request: self.request@,
            response: opt_msg(self.response),
            timing: self.timing,
            tls: opt_tls(self.tls),
            status: self.status,
            error: opt_str(self.error),
            intercept: self.intercept@,
            tags: strings_view(self.tags@),
        }
    }
}

pub open spec fn flows_view(v: Seq<Flow>) -> Seq<FlowView> {
    Seq::new(v.len(), |i: int| v[i]@)
}

// ───────────────────────── Copies ─────────────────────────

pub fn copy_opt_string(o: &Option<String>) -> (r: Option<String>)
    ensures
        opt_str(r) == opt_str(*o),
{
    match o {
        Some(s) => Some(copy_string(s)),
        None => None,
    }
}

pub fn copy_flow_message(m: &HttpMessage) -> (r: HttpMessage)
    ensures
        r@ == m@,
{
    HttpMessage {
        start_line: copy_string(&m.start_line),
        method: copy_string(&m.method),
        uri: copy_string(&m.uri),
        version: copy_string(&m.version),
        status_code: m.status_code,
        headers: copy_headers(&m.headers),
        headers_raw: copy_opt_string(&m.headers_raw),
        body: copy_bytes(&m.body),
        body_size: m.body_size,
        body_truncated: m.body_truncated,
    }
}

fn copy_addr(o: &Option<SocketAddrInfo>) -> (r: Option<SocketAddrInfo>)
    ensures
        opt_addr(r) == opt_addr(*o),
{
    match o {
        Some(a) => Some(SocketAddrInfo { ip: copy_string(&a.ip), port: a.port }),
        None => None,
    }
}

fn copy_tls(o: &Option<TlsInfo>) -> (r: Option<TlsInfo>)
    ensures
        opt_tls(r) == opt_tls(*o),
{
    match o {
        Some(t) => Some(
            TlsInfo {
                version: copy_string(&t.version),
                cipher: copy_string(&t.cipher),
                sni: copy_opt_string(&t.sni),
                alpn: copy_opt_string(&t.alpn),
            },
        ),
        None => None,
    }
}

fn copy_intercept(s: &InterceptState) -> (r: InterceptState)
    ensures
        r@ == s@,
{
    match s {
        InterceptState::NotIntercepted => InterceptState::NotIntercepted,
        InterceptState::Paused { stage } => InterceptState::Paused { stage: copy_string(stage) },
        InterceptState::Resumed => InterceptState::Resumed,
    }
}

fn copy_strings(v: &Vec<String>) -> (r: Vec<String>)
    ensures
        strings_view(r@) == strings_view(v@),
{
    let mut r: Vec<String> = Vec::new();
    let mut i: usize = 0;
    while i < v.len()
        invariant
            i <= v.len(),
            r@.len() == i,
            forall|j: int| 0 <= j < i ==> (#[trigger] r@[j])@ == v@[j]@,
        decreases v.len() - i,
    {
        r.push(copy_string(&v[i]));
        i += 1;
    }
    assert(strings_view(r@) =~= strings_view(v@));
    r
}

/// A copy of a flow, equal to it in every field.
pub fn copy_flow(f: &Flow) -> (r: Flow)
    ensures
        r@ == f@,
{
    Flow {
        id: copy_string(&f.id),
        protocol: f.protocol,
        client_addr: copy_addr(&f.client_addr),
        server_addr: copy_addr(&f.server_addr),
        request: copy_flow_message(&f.request),
        response: match &f.response {
            Some(m) => Some(copy_flow_message(m)),
            None => None,
        },
        timing: f.timing,
        tls: copy_tls(&f.tls),
        status: f.status,
        error: copy_opt_string(&f.error),
        intercept: copy_intercept(&f.intercept),
        tags: copy_strings(&f.tags),
    }
}

impl HttpMessage {
    /// Value of the first header matching `name` (ASCII case-insensitive).
    pub fn header(&self, name: &str) -> (r: Option<&str>)
        ensures
            r matches Some(v) ==> header_lookup(self@.headers, name@) == Some(v@),
            r is None ==> header_lookup(self@.headers, name@) is None,
    {
        match header_name_index(&self.headers, name) {
            Some(i) => Some(self.headers[i].1.as_str()),
            None => None,
        }
    }
}

} // verus!
