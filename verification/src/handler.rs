//! The flow-recording handler's decisions: how an exchange is recorded, and how each
//! rule outcome and breakpoint decision changes the flow store and what is answered.
//! Waiting (throttle delays, breakpoints) and pushing events are left to the caller.
use vstd::prelude::*;
use crate::flow::{
    Flow, FlowMsgView, FlowProtocol, FlowStatus, FlowTiming, FlowView, InterceptState,
    InterceptView, SocketAddrInfo, TlsInfo, TlsView, TrafficEvent, copy_flow, copy_flow_message,
    opt_str,
};
use crate::message::{
    FlowContext, HttpMessage, MsgView, RequestAction, ResponseAction, header_lookup,
};
use crate::rules::{RuleOutcome, copy_bytes, copy_headers, copy_message};
use crate::store::{FlowStore, get_spec, page, upsert_spec};
use crate::text::{
    chars_of, copy_string, lemma_skip_ws_bounds, lemma_word_end_bounds, parse_unsigned,
    parse_unsigned_chars, push_str, skip_ws_exec, string_from_str, word_end_exec, words, words_from,
};

verus! {

/// Bodies are recorded up to this many bytes.
pub const MAX_BODY_SIZE: usize = 262144;

// ───────────────────────── Breakpoint decisions ─────────────────────────

/// What the user decides for an exchange held at a breakpoint.
#[derive(Debug)]
pub enum InterceptDecision {
    /// Let it go on, possibly with an edited message.
    Continue { edited: Option<HttpMessage> },
    /// Answer the client with an empty 403 response.
    Abort,
    /// Close the client connection.
    DropConnection,
}

// ───────────────────────── Recording messages ─────────────────────────

pub open spec fn status_name() -> Seq<char> {
    seq![':', 's', 't', 'a', 't', 'u', 's']
}

/// Status text of a response: its `:status` pseudo header, `200 OK` when absent.
pub open spec fn status_of(m: MsgView) -> Seq<char> {
    match header_lookup(m.headers, status_name()) {
        Some(s) => s,
        None => "200 OK"@,
    }
}

/// Status code: the first word of the status text, when it is a number up to 65535.
pub open spec fn status_code_of(status: Seq<char>) -> Option<u16> {
    let ws = words(status);
    if ws.len() == 0 {
        None
    } else {
        match parse_unsigned(ws[0], u16::MAX as nat) {
            Some(n) => Some(n as u16),
            None => None,
        }
    }
}

/// A message as recorded in a flow: the body is cut at `MAX_BODY_SIZE` bytes (the full
/// size is kept); a response gets the start line `VERSION STATUS` and its status code,
/// a request the start line `METHOD URI VERSION`.
pub open spec fn flow_message_spec(m: MsgView, is_response: bool) -> FlowMsgView {
    FlowMsgView {
        start_line: if is_response {
            m.version + " "@ + status_of(m)
        } else {
            m.method + " "@ + m.uri + " "@ + m.version
        },
        method: if is_response { Seq::empty() } else { m.method },
        uri: if is_response { Seq::empty() } else { m.uri },
        version: m.version,
        status_code: if is_response { status_code_of(status_of(m)) } else { None },
        headers: m.headers,
        headers_raw: None,
        body: if m.body.len() > MAX_BODY_SIZE { m.body.take(MAX_BODY_SIZE as int) } else { m.body },
        body_size: m.body.len() as usize,
        body_truncated: m.body.len() > MAX_BODY_SIZE,
    }
}

fn first_word_code(s: &str) -> (r: Option<u16>)
    ensures
        r == status_code_of(s@),
{
    let v = chars_of(s);
    let ghost sv = v@;
    let a = skip_ws_exec(&v, 0);
    proof {
        lemma_skip_ws_bounds(sv, 0);
    }
    if a >= v.len() {
        assert(words_from(sv, 0) == Seq::<Seq<char>>::empty());
        return None;
    }
    let b = word_end_exec(&v, a);
    proof {
        lemma_word_end_bounds(sv, a as int);
        assert(words_from(sv, 0) == seq![sv.subrange(a as int, b as int)] + words_from(sv, b as int));
    }
    let mut w: Vec<char> = Vec::new();
    let mut i = a;
    while i < b
        invariant
            a <= i <= b <= v.len(),
            w@ == v@.subrange(a as int, i as int),
        decreases b - i,
    {
        w.push(v[i]);
        i += 1;
        assert(w@ =~= v@.subrange(a as int, i as int));
    }
    match parse_unsigned_chars(&w, 65535) {
        Some(n) => Some(n as u16),
        None => None,
    }
}

fn body_prefix(b: &Vec<u8>, n: usize) -> (r: Vec<u8>)
    requires
        n <= b.len(),
    ensures
        r@ == b@.take(n as int),
{
    let mut r: Vec<u8> = Vec::new();
    let mut i: usize = 0;
    while i < n
        invariant
            i <= n <= b.len(),
            r@ == b@.take(i as int),
        decreases n - i,
    {
        r.push(b[i]);
        i += 1;
        assert(r@ =~= b@.take(i as int));
    }
    r
}

/// Converts a proxied message into the form recorded in a flow.
pub fn to_flow_message(msg: &HttpMessage, is_response: bool) -> (r: crate::flow::HttpMessage)
    ensures
        r@ == flow_message_spec(msg@, is_response),
{
    let n = msg.body.len();
    let (body, body_truncated) = if n > MAX_BODY_SIZE {
        (body_prefix(&msg.body, MAX_BODY_SIZE), true)
    } else {
        (copy_bytes(&msg.body), false)
    };
    proof {
        reveal_strlit(":status");
        assert(":status"@ =~= status_name());
    }
    let (start_line, status_code) = if is_response {
        let status = match msg.header(":status") {
            Some(s) => string_from_str(s),
            None => string_from_str("200 OK"),
        };
        let code = first_word_code(status.as_str());
        let mut line = copy_string(&msg.version);
        push_str(&mut line, " ");
        push_str(&mut line, status.as_str());
        (line, code)
    } else {
        let mut line = copy_string(&msg.method);
        push_str(&mut line, " ");
        push_str(&mut line, msg.uri.as_str());
        push_str(&mut line, " ");
        push_str(&mut line, msg.version.as_str());
        (line, None)
    };
    let r = crate::flow::HttpMessage {
        start_line,
        method: if is_response {
            String::new()
        } else {
            copy_string(&msg.method)
        },
        uri: if is_response {
            String::new()
        } else {
            copy_string(&msg.uri)
        },
        version: copy_string(&msg.version),
        status_code,
        headers: copy_headers(&msg.headers),
        headers_raw: None,
        body,
        body_size: n,
        body_truncated,
    };
    assert(r@.start_line =~= flow_message_spec(msg@, is_response).start_line);
    assert(r@.method =~= flow_message_spec(msg@, is_response).method);
    assert(r@.uri =~= flow_message_spec(msg@, is_response).uri);
    r
}

/// The response given to an aborted exchange: `403 Forbidden` with an empty body.
pub open spec fn abort_response_spec() -> MsgView {
    MsgView {
        method: Seq::empty(),
        uri: Seq::empty(),
        version: "HTTP/1.1"@,
        headers: seq![(":status"@, "403 Forbidden"@), ("Content-Length"@, "0"@)],
        body: Seq::empty(),
    }
}

pub fn build_abort_response() -> (r: HttpMessage)
    ensures
        r@ == abort_response_spec(),
{
    let mut headers: Vec<(String, String)> = Vec::new();
    headers.push((string_from_str(":status"), string_from_str("403 Forbidden")));
    headers.push((string_from_str("Content-Length"), string_from_str("0")));
    let r = HttpMessage {
        method: String::new(),
        uri: String::new(),
        version: string_from_str("HTTP/1.1"),
        headers,
        body: Vec::new(),
    };
    assert(r@.headers =~= abort_response_spec().headers);
    assert(r@.method =~= Seq::<char>::empty());
    assert(r@.uri =~= Seq::<char>::empty());
    assert(r@.body =~= Seq::<u8>::empty());
    r
}

// ───────────────────────── New flows ─────────────────────────

/// The flow recorded when a request arrives, with the given id and clock reading.
pub open spec fn new_flow_spec(ctx: FlowContext, req: MsgView, id: Seq<char>, now: i64) -> FlowView {
    FlowView {
        id: id,
        protocol: FlowProtocol::Http1,
        client_addr: Some(("127.0.0.1"@, 0u16)),
        server_addr: Some((ctx.target_host@, ctx.target_port)),
        request: flow_message_spec(req, false),
        response: None,
        timing: FlowTiming {
            start_time: now,
            dns_start: None,
            dns_end: None,
            connect_start: None,
            connect_end: None,
            tls_start: None,
            tls_end: None,
            send_start: Some(now),
            send_end: None,
            ttfb: None,
            end_time: None,
        },
        tls: match ctx.sni {
            Some(sni) => Some(
                TlsView {
                    version: "TLS 1.2+"@,
                    cipher: Seq::empty(),
                    sni: Some(sni@),
                    alpn: Some("http/1.1"@),
                },
            ),
            None => None,
        },
        status: FlowStatus::Pending,
        error: None,
        intercept: InterceptView::NotIntercepted,
        tags: Seq::empty(),
    }
}

/// Builds the flow recorded for a request, with the given id and clock reading.
pub fn build_flow(ctx: &FlowContext, req: &HttpMessage, id: String, now: i64) -> (r: Flow)
    ensures
        r@ == new_flow_spec(*ctx, req@, id@, now),
{
    let tls = match &ctx.sni {
        Some(sni) => Some(
            TlsInfo {
                version: string_from_str("TLS 1.2+"),
                cipher: String::new(),
                sni: Some(copy_string(sni)),
                alpn: Some(string_from_str("http/1.1")),
            },
        ),
        None => None,
    };
    let r = Flow {
        id,
        protocol: FlowProtocol::Http1,
        client_addr: Some(SocketAddrInfo { ip: string_from_str("127.0.0.1"), port: 0 }),
        server_addr: Some(SocketAddrInfo { ip: copy_string(&ctx.target_host), port: ctx.target_port }),
        request: to_flow_message(req, false),
        response: None,
        timing: FlowTiming {
            start_time: now,
            dns_start: None,
            dns_end: None,
            connect_start: None,
            connect_end: None,
            tls_start: None,
            tls_end: None,
            send_start: Some(now),
            send_end: None,
            ttfb: None,
            end_time: None,
        },
        tls,
        status: FlowStatus::Pending,
        error: None,
        intercept: InterceptState::NotIntercepted,
        tags: Vec::new(),
    };
    proof {
        if ctx.sni is Some {
            assert(r@.tls->0.cipher =~= Seq::<char>::empty());
        }
    }
    assert(r@.tags =~= Seq::<Seq<char>>::empty());
    r
}

/// `Ulid::new().to_string()`: a fresh ULID, 26 characters of Crockford base 32. It
/// depends on the clock and on chance; nothing else is stated.
#[verifier::external_body]
fn new_flow_id() -> (r: String)
    ensures
        r@.len() == 26,
{
    ulid::Ulid::new().to_string()
}

/// `chrono::Utc::now().timestamp_millis()`: the current time in epoch milliseconds.
#[verifier::external_body]
pub(crate) fn now_millis() -> (r: i64) {
    chrono::Utc::now().timestamp_millis()
}

/// Creates the flow for a request, with a fresh id and the current time.
pub fn create_flow(ctx: &FlowContext, req: &HttpMessage) -> (r: Flow)
    ensures
        r@ == new_flow_spec(*ctx, req@, r@.id, r@.timing.start_time),
        r@.id.len() == 26,
{
    let now = now_millis();
    let id = new_flow_id();
    build_flow(ctx, req, id, now)
}

// ───────────────────────── Events ─────────────────────────

pub enum EventView {
    FlowStarted(FlowView),
    FlowComplete(Seq<char>, FlowView),
    FlowError(Seq<char>, Seq<char>),
    FlowIntercepted(Seq<char>, Seq<char>),
}

impl View for TrafficEvent {
    type V = EventView;

    open spec fn view(&self) -> EventView {
        match self {
            TrafficEvent::FlowStarted { flow } => EventView::FlowStarted(flow@),
            TrafficEvent::FlowComplete { flow_id, flow } => EventView::FlowComplete(flow_id@, flow@),
            TrafficEvent::FlowError { flow_id, error } => EventView::FlowError(flow_id@, error@),
            TrafficEvent::FlowIntercepted { flow_id, stage } => EventView::FlowIntercepted(flow_id@, stage@),
        }
    }
}

pub open spec fn opt_event(e: Option<TrafficEvent>) -> Option<EventView> {
    match e {
        Some(x) => Some(x@),
        None => None,
    }
}

/// Records a new request: a fresh flow is stored and the context learns its id; the
/// event announcing it is returned.
pub fn start_flow(store: &mut FlowStore, ctx: &mut FlowContext, req: &HttpMessage) -> (r: TrafficEvent)
    ensures
        r matches TrafficEvent::FlowStarted { flow } && flow@ == new_flow_spec(
            *old(ctx),
            req@,
            flow@.id,
            flow@.timing.start_time,
        ) && final(store)@ == upsert_spec(old(store)@, old(store).max(), flow@) && opt_str(final(ctx).flow_id)
            == Some(flow@.id) && final(ctx).target_host == old(ctx).target_host
            && final(ctx).target_port == old(ctx).target_port && final(ctx).sni == old(ctx).sni,
        final(store).max() == old(store).max(),
{
    let flow = create_flow(ctx, req);
    ctx.flow_id = Some(copy_string(&flow.id));
    store.upsert(copy_flow(&flow));
    TrafficEvent::FlowStarted { flow }
}

// ───────────────────────── Changes to stored flows ─────────────────────────

/// A change the handler makes to a stored flow.
pub enum FlowUpdate {
    /// The exchange was answered with this response (block, map local).
    Complete(HttpMessage),
    /// The request was rewritten to this one.
    RewriteRequest(HttpMessage),
    /// Held at a breakpoint at the given stage, with the response when it is the
    /// response that is held.
    Pause(String, Option<HttpMessage>),
    /// Let go from a request breakpoint with this request.
    ResumeRequest(HttpMessage),
    /// Aborted by the user: answered with the abort response.
    Abort,
    /// Dropped by the user.
    Drop,
    /// The response arrived (possibly rewritten), at the given time.
    ResponseDone(HttpMessage, i64),
    /// Let go from a response breakpoint with this response, at the given time.
    ResumeResponse(HttpMessage, i64),
}

pub enum UpdateView {
    Complete(MsgView),
    RewriteRequest(MsgView),
    Pause(Seq<char>, Option<MsgView>),
    ResumeRequest(MsgView),
    Abort,
    Drop,
    ResponseDone(MsgView, i64),
    ResumeResponse(MsgView, i64),
}

impl View for FlowUpdate {
    type V = UpdateView;

    open spec fn view(&self) -> UpdateView {
        match self {
            FlowUpdate::Complete(m) => UpdateView::Complete(m@),
            FlowUpdate::RewriteRequest(m) => UpdateView::RewriteRequest(m@),
            FlowUpdate::Pause(s, m) => UpdateView::Pause(
                s@,
                match m {
                    Some(x) => Some(x@),
                    None => None,
                },
            ),
            FlowUpdate::ResumeRequest(m) => UpdateView::ResumeRequest(m@),
            FlowUpdate::Abort => UpdateView::Abort,
            FlowUpdate::Drop => UpdateView::Drop,
            FlowUpdate::ResponseDone(m, t) => UpdateView::ResponseDone(m@, *t),
            FlowUpdate::ResumeResponse(m, t) => UpdateView::ResumeResponse(m@, *t),
        }
    }
}

pub open spec fn dropped_text() -> Seq<char> {
    "connection dropped by user"@
}

pub open spec fn answered_at(t: FlowTiming, now: i64) -> FlowTiming {
    FlowTiming { ttfb: Some(now), end_time: Some(now), ..t }
}

/// A flow after a change.
pub open spec fn apply_update(f: FlowView, u: UpdateView) -> FlowView {
    match u {
        UpdateView::Complete(m) => FlowView {
            status: FlowStatus::Complete,
            response: Some(flow_message_spec(m, true)),
            ..f
        },
        UpdateView::RewriteRequest(m) => FlowView { request: flow_message_spec(m, false), ..f },
        UpdateView::Pause(stage, held) => FlowView {
            status: FlowStatus::Intercepted,
            intercept: InterceptView::Paused(stage),
            response: match held {
                Some(m) => Some(flow_message_spec(m, true)),
                None => f.response,
            },
            ..f
        },
        UpdateView::ResumeRequest(m) => FlowView {
            status: FlowStatus::Pending,
            intercept: InterceptView::Resumed,
            request: flow_message_spec(m, false),
            ..f
        },
        UpdateView::Abort => FlowView {
            status: FlowStatus::Complete,
            intercept: InterceptView::Resumed,
            response: Some(flow_message_spec(abort_response_spec(), true)),
            ..f
        },
        UpdateView::Drop => FlowView {
            status: FlowStatus::Error,
            error: Some(dropped_text()),
            intercept: InterceptView::Resumed,
            ..f
        },
        UpdateView::ResponseDone(m, now) => FlowView {
            response: Some(flow_message_spec(m, true)),
            status: FlowStatus::Complete,
            timing: answered_at(f.timing, now),
            ..f
        },
        UpdateView::ResumeResponse(m, now) => FlowView {
            status: FlowStatus::Complete,
            intercept: InterceptView::Resumed,
            response: Some(flow_message_spec(m, true)),
            timing: answered_at(f.timing, now),
            ..f
        },
    }
}

/// The store after changing the newest flow with id `id`; unchanged when there is none.
pub open spec fn store_apply(s: Seq<FlowView>, max: usize, id: Seq<char>, u: UpdateView) -> Seq<FlowView> {
    match get_spec(s, id) {
        Some(f) => upsert_spec(s, max, apply_update(f, u)),
        None => s,
    }
}

/// The stored flow after the change, if the flow is stored.
pub open spec fn updated_flow(s: Seq<FlowView>, id: Seq<char>, u: UpdateView) -> Option<FlowView> {
    match get_spec(s, id) {
        Some(f) => Some(apply_update(f, u)),
        None => None,
    }
}

/// Applies a change to a flow in place.
pub fn apply_flow_update(flow: &mut Flow, u: FlowUpdate)
    ensures
        final(flow)@ == apply_update(old(flow)@, u@),
{
    match u {
        FlowUpdate::Complete(m) => {
            flow.status = FlowStatus::Complete;
            flow.response = Some(to_flow_message(&m, true));
        },
        FlowUpdate::RewriteRequest(m) => {
            flow.request = to_flow_message(&m, false);
        },
        FlowUpdate::Pause(stage, held) => {
            flow.status = FlowStatus::Intercepted;
            flow.intercept = InterceptState::Paused { stage };
            match held {
                Some(m) => {
                    flow.response = Some(to_flow_message(&m, true));
                },
                None => {},
            }
        },
        FlowUpdate::ResumeRequest(m) => {
            flow.status = FlowStatus::Pending;
            flow.intercept = InterceptState::Resumed;
            flow.request = to_flow_message(&m, false);
        },
        FlowUpdate::Abort => {
            flow.status = FlowStatus::Complete;
            flow.intercept = InterceptState::Resumed;
            let a = build_abort_response();
            flow.response = Some(to_flow_message(&a, true));
        },
        FlowUpdate::Drop => {
            flow.status = FlowStatus::Error;
            flow.error = Some(string_from_str("connection dropped by user"));
            flow.intercept = InterceptState::Resumed;
        },
        FlowUpdate::ResponseDone(m, now) => {
            flow.response = Some(to_flow_message(&m, true));
            flow.status = FlowStatus::Complete;
            flow.timing.ttfb = Some(now);
            flow.timing.end_time = Some(now);
        },
        FlowUpdate::ResumeResponse(m, now) => {
            flow.status = FlowStatus::Complete;
            flow.intercept = InterceptState::Resumed;
            flow.response = Some(to_flow_message(&m, true));
            flow.timing.ttfb = Some(now);
            flow.timing.end_time = Some(now);
        },
    }
}

/// Changes the newest stored flow with the given id and returns it as it now is;
/// `None`, with the store unchanged, when no flow has that id.
pub fn update_stored_flow(store: &mut FlowStore, flow_id: &str, u: FlowUpdate) -> (r: Option<Flow>)
    ensures
        final(store)@ == store_apply(old(store)@, old(store).max(), flow_id@, u@),
        final(store).max() == old(store).max(),
        match updated_flow(old(store)@, flow_id@, u@) {
            Some(g) => r matches Some(f) && f@ == g,
            None => r is None,
        },
{
    let ghost uv = u@;
    match store.get(flow_id) {
        Some(mut flow) => {
            apply_flow_update(&mut flow, u);
            store.upsert(copy_flow(&flow));
            Some(flow)
        },
        None => None,
    }
}

// ───────────────────────── Request decisions ─────────────────────────

/// What happens to a request once the rule chain has run.
pub enum RequestStep {
    /// Act now.
    Act(RequestAction),
    /// Hold the request at a breakpoint and ask the user.
    Breakpoint,
}

/// The step acts with the given action.
pub open spec fn acts(step: RequestStep, v: crate::message::ActionView) -> bool {
    match step {
        RequestStep::Act(a) => a@ == v,
        RequestStep::Breakpoint => false,
    }
}

/// The event announcing a completed flow, when it is stored.
pub open spec fn complete_event(f: Option<FlowView>, id: Seq<char>) -> Option<EventView> {
    match f {
        Some(g) => Some(EventView::FlowComplete(id, g)),
        None => None,
    }
}

/// Applies the outcome of the request rule chain to the stored flow `flow_id`:
/// a short-circuit completes the flow with its response and answers the client; a
/// rewrite records the rewritten request and forwards it; no outcome forwards the
/// request as it is; a breakpoint holds the request. Returns the step and the event to
/// push.
pub fn after_request_rules(
    store: &mut FlowStore,
    flow_id: &str,
    req: &HttpMessage,
    outcome: RuleOutcome,
) -> (r: (RequestStep, Option<TrafficEvent>))
    ensures
        final(store).max() == old(store).max(),
        match outcome@ {
            crate::rules::OutcomeView::Unchanged => final(store)@ == old(store)@ && r.1 is None
                && acts(r.0, crate::message::ActionView::Forward(req@)),
            crate::rules::OutcomeView::ShortCircuit(resp) => final(store)@ == store_apply(
                old(store)@,
                old(store).max(),
                flow_id@,
                UpdateView::Complete(resp),
            ) && opt_event(r.1) == complete_event(
                updated_flow(old(store)@, flow_id@, UpdateView::Complete(resp)),
                flow_id@,
            ) && acts(r.0, crate::message::ActionView::Respond(resp)),
            crate::rules::OutcomeView::Rewritten(m) => final(store)@ == store_apply(
                old(store)@,
                old(store).max(),
                flow_id@,
                UpdateView::RewriteRequest(m),
            ) && r.1 is None && acts(r.0, crate::message::ActionView::Forward(m)),
            crate::rules::OutcomeView::Pause(_, _) => final(store)@ == old(store)@ && r.1 is None
                && r.0 is Breakpoint,
        },
{
    match outcome {
        RuleOutcome::Unchanged => (RequestStep::Act(RequestAction::Forward(copy_message(req))), None),
        RuleOutcome::ShortCircuit(resp) => {
            let recorded = update_stored_flow(store, flow_id, FlowUpdate::Complete(copy_message(&resp)));
            let ev = match recorded {
                Some(flow) => Some(TrafficEvent::FlowComplete { flow_id: string_from_str(flow_id), flow }),
                None => None,
            };
            (RequestStep::Act(RequestAction::Respond(resp)), ev)
        },
        RuleOutcome::Rewritten(m) => {
            let _ = update_stored_flow(store, flow_id, FlowUpdate::RewriteRequest(copy_message(&m)));
            (RequestStep::Act(RequestAction::Forward(m)), None)
        },
        RuleOutcome::Pause(_, _) => (RequestStep::Breakpoint, None),
    }
}

/// Marks the stored flow as held at a breakpoint at `stage` (recording the held
/// response, if given) and returns the event announcing it; nothing when the flow is
/// not stored.
pub fn pause_flow(store: &mut FlowStore, flow_id: &str, stage: &str, held: Option<&HttpMessage>) -> (r:
    Option<TrafficEvent>)
    ensures
        final(store).max() == old(store).max(),
        final(store)@ == store_apply(
            old(store)@,
            old(store).max(),
            flow_id@,
            UpdateView::Pause(
                stage@,
                match held {
                    Some(m) => Some(m@),
                    None => None,
                },
            ),
        ),
        get_spec(old(store)@, flow_id@) is Some ==> opt_event(r) == Some(
            EventView::FlowIntercepted(flow_id@, stage@),
        ),
        get_spec(old(store)@, flow_id@) is None ==> r is None,
{
    let h = match held {
        Some(m) => Some(copy_message(m)),
        None => None,
    };
    match update_stored_flow(store, flow_id, FlowUpdate::Pause(string_from_str(stage), h)) {
        Some(_) => Some(
            TrafficEvent::FlowIntercepted { flow_id: string_from_str(flow_id), stage: string_from_str(stage) },
        ),
        None => None,
    }
}

pub open spec fn decision_request(d: InterceptDecision, req: MsgView) -> MsgView {
    match d {
        InterceptDecision::Continue { edited } => match edited {
            Some(m) => m@,
            None => req,
        },
        _ => req,
    }
}

/// Applies the user's decision on a request held at a breakpoint: `Continue` records
/// and forwards the (possibly edited) request; `Abort` completes the flow with the abort
/// response and answers it; `DropConnection` marks the flow failed and answers the abort
/// response (the connection is then closed).
pub fn resolve_request_breakpoint(
    store: &mut FlowStore,
    flow_id: &str,
    req: HttpMessage,
    decision: InterceptDecision,
) -> (r: (RequestAction, Option<TrafficEvent>))
    ensures
        final(store).max() == old(store).max(),
        match decision {
            InterceptDecision::Continue { edited } => final(store)@ == store_apply(
                old(store)@,
                old(store).max(),
                flow_id@,
                UpdateView::ResumeRequest(decision_request(decision, req@)),
            ) && r.1 is None && r.0@ == crate::message::ActionView::Forward(
                decision_request(decision, req@),
            ),
            InterceptDecision::Abort => final(store)@ == store_apply(
                old(store)@,
                old(store).max(),
                flow_id@,
                UpdateView::Abort,
            ) && opt_event(r.1) == complete_event(
                updated_flow(old(store)@, flow_id@, UpdateView::Abort),
                flow_id@,
            ) && r.0@ == crate::message::ActionView::Respond(abort_response_spec()),
            InterceptDecision::DropConnection => final(store)@ == store_apply(
                old(store)@,
                old(store).max(),
                flow_id@,
                UpdateView::Drop,
            ) && (get_spec(old(store)@, flow_id@) is Some ==> opt_event(r.1) == Some(
                EventView::FlowError(flow_id@, dropped_text()),
            )) && (get_spec(old(store)@, flow_id@) is None ==> r.1 is None) && r.0@
                == crate::message::ActionView::Respond(abort_response_spec()),
        },
{
    let ghost dv = decision_request(decision, req@);
    match decision {
        InterceptDecision::Continue { edited } => {
            let final_req = match edited {
                Some(m) => m,
                None => req,
            };
            let _ = update_stored_flow(store, flow_id, FlowUpdate::ResumeRequest(copy_message(&final_req)));
            (RequestAction::Forward(final_req), None)
        },
        InterceptDecision::Abort => {
            let ev = match update_stored_flow(store, flow_id, FlowUpdate::Abort) {
                Some(flow) => Some(TrafficEvent::FlowComplete { flow_id: string_from_str(flow_id), flow }),
                None => None,
            };
            (RequestAction::Respond(build_abort_response()), ev)
        },
        InterceptDecision::DropConnection => {
            let ev = match update_stored_flow(store, flow_id, FlowUpdate::Drop) {
                Some(flow) => Some(
                    TrafficEvent::FlowError {
                        flow_id: string_from_str(flow_id),
                        error: string_from_str("connection dropped by user"),
                    },
                ),
                None => None,
            };
            (RequestAction::Respond(build_abort_response()), ev)
        },
    }
}

// ───────────────────────── Response decisions ─────────────────────────

/// What happens to a response once the response rule chain has run.
pub enum ResponseStep {
    Act(ResponseAction),
    Breakpoint,
}

pub open spec fn sends(step: ResponseStep, v: crate::message::ActionView) -> bool {
    match step {
        ResponseStep::Act(a) => a@ == v,
        ResponseStep::Breakpoint => false,
    }
}

/// The flow a response belongs to: the context's flow when it is still pending;
/// without a flow id, the newest of the latest fifty flows that is pending and was sent
/// to the context's host.
pub open spec fn pending_flow_spec(s: Seq<FlowView>, ctx: FlowContext) -> Option<FlowView> {
    match ctx.flow_id {
        Some(id) => match get_spec(s, id@) {
            Some(f) => if f.status == FlowStatus::Pending { Some(f) } else { None },
            None => None,
        },
        None => first_pending_to(page(s.reverse(), 50, 0), ctx.target_host@),
    }
}

pub open spec fn pending_to(f: FlowView, host: Seq<char>) -> bool {
    f.status == FlowStatus::Pending && match f.server_addr {
        Some(a) => a.0 == host,
        None => false,
    }
}

/// The first flow of `s` that is pending and was sent to `host`.
pub open spec fn first_pending_to(s: Seq<FlowView>, host: Seq<char>) -> Option<FlowView>
    decreases s.len(),
{
    if s.len() == 0 {
        None
    } else if pending_to(s[0], host) {
        Some(s[0])
    } else {
        first_pending_to(s.drop_first(), host)
    }
}

/// Finds the stored flow a response belongs to.
pub fn find_pending_flow(store: &FlowStore, ctx: &FlowContext) -> (r: Option<Flow>)
    ensures
        match pending_flow_spec(store@, *ctx) {
            Some(g) => r matches Some(f) && f@ == g,
            None => r is None,
        },
{
    match &ctx.flow_id {
        Some(id) => match store.get(id.as_str()) {
            Some(f) => if f.status == FlowStatus::Pending {
                Some(f)
            } else {
                None
            },
            None => None,
        },
        None => {
            let recent = store.query_recent(50, 0);
            let ghost rs = crate::flow::flows_view(recent@);
            let mut i: usize = 0;
            assert(rs.skip(0) =~= rs);
            while i < recent.len()
                invariant
                    i <= recent@.len(),
                    rs == crate::flow::flows_view(recent@),
                    rs == page(store@.reverse(), 50, 0),
                    ctx.flow_id is None,
                    first_pending_to(rs.skip(i as int), ctx.target_host@) == first_pending_to(rs, ctx.target_host@),
                decreases recent.len() - i,
            {
                let ghost tail = rs.skip(i as int);
                assert(tail[0] == recent@[i as int]@);
                assert(tail.drop_first() =~= rs.skip(i + 1));
                let f = &recent[i];
                let hit = f.status == FlowStatus::Pending && match &f.server_addr {
                    Some(a) => crate::text::str_eq(a.ip.as_str(), ctx.target_host.as_str()),
                    None => false,
                };
                if hit {
                    assert(pending_to(tail[0], ctx.target_host@));
                    return Some(copy_flow(f));
                }
                i += 1;
            }
            assert(rs.skip(i as int) =~= Seq::<FlowView>::empty());
            None
        },
    }
}

/// The request recorded in a flow, as the rule chain sees it.
pub fn request_of_flow(flow: &Flow) -> (r: HttpMessage)
    ensures
        r@ == (MsgView {
            method: flow@.request.method,
            uri: flow@.request.uri,
            version: flow@.request.version,
            headers: flow@.request.headers,
            body: flow@.request.body,
        }),
{
    let m = copy_flow_message(&flow.request);
    HttpMessage { method: m.method, uri: m.uri, version: m.version, headers: m.headers, body: m.body }
}

/// Applies the outcome of the response rule chain to the flow the response belongs to:
/// with no outcome, a rewrite or a short-circuit, the flow is completed with the
/// response to send (the original, the rewritten or the short-circuit one) at time
/// `now`, and that response is sent; a breakpoint holds the response.
pub fn after_response_rules(
    store: &mut FlowStore,
    flow: &Flow,
    res: &HttpMessage,
    outcome: RuleOutcome,
    now: i64,
) -> (r: (ResponseStep, Option<TrafficEvent>))
    ensures
        final(store).max() == old(store).max(),
        match outcome@ {
            crate::rules::OutcomeView::Pause(_, _) => final(store)@ == old(store)@ && r.1 is None
                && r.0 is Breakpoint,
            _ => {
                let sent = match outcome@ {
                    crate::rules::OutcomeView::Rewritten(m) => m,
                    crate::rules::OutcomeView::ShortCircuit(m) => m,
                    _ => res@,
                };
                let g = apply_update(flow@, UpdateView::ResponseDone(sent, now));
                &&& final(store)@ == upsert_spec(old(store)@, old(store).max(), g)
                &&& opt_event(r.1) == Some(EventView::FlowComplete(flow@.id, g))
                &&& sends(r.0, crate::message::ActionView::Forward(sent))
            },
        },
{
    let sent = match outcome {
        RuleOutcome::Pause(_, _) => {
            return (ResponseStep::Breakpoint, None);
        },
        RuleOutcome::Unchanged => copy_message(res),
        RuleOutcome::Rewritten(m) => m,
        RuleOutcome::ShortCircuit(m) => m,
    };
    let mut f = copy_flow(flow);
    apply_flow_update(&mut f, FlowUpdate::ResponseDone(copy_message(&sent), now));
    store.upsert(copy_flow(&f));
    let id = copy_string(&f.id);
    (ResponseStep::Act(ResponseAction::Forward(sent)), Some(TrafficEvent::FlowComplete { flow_id: id, flow: f }))
}

/// Applies the user's decision on a response held at a breakpoint: `Continue` completes
/// the flow with the (possibly edited) response at time `now` and sends it; `Abort`
/// completes the flow with the abort response and sends that; `DropConnection` marks the
/// flow failed and sends the abort response.
pub fn resolve_response_breakpoint(
    store: &mut FlowStore,
    flow_id: &str,
    res: HttpMessage,
    decision: InterceptDecision,
    now: i64,
) -> (r: (ResponseAction, Option<TrafficEvent>))
    ensures
        final(store).max() == old(store).max(),
        match decision {
            InterceptDecision::Continue { edited } => final(store)@ == store_apply(
                old(store)@,
                old(store).max(),
                flow_id@,
                UpdateView::ResumeResponse(decision_request(decision, res@), now),
            ) && opt_event(r.1) == complete_event(
                updated_flow(old(store)@, flow_id@, UpdateView::ResumeResponse(decision_request(decision, res@), now)),
                flow_id@,
            ) && r.0@ == crate::message::ActionView::Forward(decision_request(decision, res@)),
            InterceptDecision::Abort => final(store)@ == store_apply(
                old(store)@,
                old(store).max(),
                flow_id@,
                UpdateView::Abort,
            ) && opt_event(r.1) == complete_event(
                updated_flow(old(store)@, flow_id@, UpdateView::Abort),
                flow_id@,
            ) && r.0@ == crate::message::ActionView::Forward(abort_response_spec()),
            InterceptDecision::DropConnection => final(store)@ == store_apply(
                old(store)@,
                old(store).max(),
                flow_id@,
                UpdateView::Drop,
            ) && (get_spec(old(store)@, flow_id@) is Some ==> opt_event(r.1) == Some(
                EventView::FlowError(flow_id@, dropped_text()),
            )) && (get_spec(old(store)@, flow_id@) is None ==> r.1 is None) && r.0@
                == crate::message::ActionView::Forward(abort_response_spec()),
        },
{
    match decision {
        InterceptDecision::Continue { edited } => {
            let final_res = match edited {
                Some(m) => m,
                None => res,
            };
            let ev = match update_stored_flow(
                store,
                flow_id,
                FlowUpdate::ResumeResponse(copy_message(&final_res), now),
            ) {
                Some(flow) => Some(TrafficEvent::FlowComplete { flow_id: string_from_str(flow_id), flow }),
                None => None,
            };
            (ResponseAction::Forward(final_res), ev)
        },
        InterceptDecision::Abort => {
            let ev = match update_stored_flow(store, flow_id, FlowUpdate::Abort) {
                Some(flow) => Some(TrafficEvent::FlowComplete { flow_id: string_from_str(flow_id), flow }),
                None => None,
            };
            (ResponseAction::Forward(build_abort_response()), ev)
        },
        InterceptDecision::DropConnection => {
            let ev = match update_stored_flow(store, flow_id, FlowUpdate::Drop) {
                Some(_) => Some(
                    TrafficEvent::FlowError {
                        flow_id: string_from_str(flow_id),
                        error: string_from_str("connection dropped by user"),
                    },
                ),
                None => None,
            };
            (ResponseAction::Forward(build_abort_response()), ev)
        },
    }
}

// ───────────────────────── Laws of the handler ─────────────────────────

/// A recorded body keeps at most `MAX_BODY_SIZE` bytes, a prefix of the original; the
/// recorded size is the original size, and the message is marked truncated exactly when
/// bytes were cut.
pub proof fn lemma_recorded_body(m: MsgView, is_response: bool)
    requires
        m.body.len() <= usize::MAX,
    ensures
        flow_message_spec(m, is_response).body.len() <= MAX_BODY_SIZE,
        flow_message_spec(m, is_response).body.len() <= m.body.len(),
        m.body.take(flow_message_spec(m, is_response).body.len() as int) == flow_message_spec(
            m,
            is_response,
        ).body,
        flow_message_spec(m, is_response).body_size == m.body.len(),
        flow_message_spec(m, is_response).body_truncated <==> m.body.len() > MAX_BODY_SIZE,
{
    let b = flow_message_spec(m, is_response).body;
    assert(m.body.take(b.len() as int) =~= b);
}

/// Changing a stored flow never changes its id, and looking the id up afterwards gives
/// the changed flow.
pub proof fn lemma_update_then_get(s: Seq<FlowView>, max: usize, id: Seq<char>, u: UpdateView)
    requires
        get_spec(s, id) is Some,
    ensures
        updated_flow(s, id, u) matches Some(g) && g.id == id,
        get_spec(store_apply(s, max, id, u), id) == updated_flow(s, id, u),
{
    let f = get_spec(s, id)->0;
    let i = crate::store::last_with_id(s, id)->0;
    assert(crate::store::is_last_with_id(s, id, i));
    crate::store::lemma_upsert_then_get(s, max, apply_update(f, u));
}

/// Where a change leaves a flow: a completed exchange (answered, aborted, its response
/// recorded or let go) is `Complete`, a dropped one is `Error`, a held one is
/// `Intercepted`, and a request let go from a breakpoint is `Pending` again.
pub proof fn lemma_update_status(f: FlowView, u: UpdateView)
    ensures
        (u is Complete || u is Abort || u is ResponseDone || u is ResumeResponse) ==> apply_update(f, u).status
            == FlowStatus::Complete,
        u is Drop ==> apply_update(f, u).status == FlowStatus::Error,
        u is Pause ==> apply_update(f, u).status == FlowStatus::Intercepted,
        u is ResumeRequest ==> apply_update(f, u).status == FlowStatus::Pending,
        u is RewriteRequest ==> apply_update(f, u).status == f.status,
{
}

} // verus!
