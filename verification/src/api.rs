//! The local API server's decisions: bearer-token authentication and the flow
//! endpoints (listing, detail, body).
use vstd::prelude::*;
use crate::ca::base64_spec;
use crate::error::ServiceError;
use crate::flow::{
    Flow, FlowBodyResponse, FlowListResponse, FlowMsgView, FlowView, flows_view, opt_str,
};
use crate::message::{header_lookup, rest_chars};
use crate::store::{FlowStore, get_spec, newest_matching, page};
use crate::text::{
    chars_of, push_str, starts_with, starts_with_exec, str_eq, string_from_str,
    string_from_utf8, string_of,
};
use crate::rules::copy_bytes;
use base64::Engine;

verus! {

// ───────────────────────── Authentication ─────────────────────────

/// Byte comparison whose running time does not depend on where the inputs differ.
pub fn constant_time_eq(a: &[u8], b: &[u8]) -> (r: bool)
    ensures
        r == (a@ == b@),
{
    if a.len() != b.len() {
        return false;
    }
    let mut diff: u8 = 0;
    let mut i: usize = 0;
    while i < a.len()
        invariant
            i <= a@.len(),
            a@.len() == b@.len(),
            (diff == 0) <==> (forall|j: int| 0 <= j < i ==> a@[j] == b@[j]),
        decreases a.len() - i,
    {
        let x = a[i];
        let y = b[i];
        let d0 = diff;
        diff = diff | (x ^ y);
        assert((d0 | (x ^ y)) == 0 <==> (d0 == 0 && x == y)) by (bit_vector);
        i += 1;
    }
    assert(a@ =~= b@ <==> forall|j: int| 0 <= j < a@.len() ==> a@[j] == b@[j]);
    diff == 0
}

/// The only route that also accepts the token as a `?token=` query parameter (browser
/// event streams cannot set headers).
pub open spec fn query_token_path() -> Seq<char> {
    "/api/flows/stream"@
}

/// The token a request presents: the text after `Bearer ` in its `Authorization`
/// header; failing that, on the event-stream route only, its `token` query parameter.
pub open spec fn presented_token(
    authorization: Option<Seq<char>>,
    path: Seq<char>,
    query_token: Option<Seq<char>>,
) -> Option<Seq<char>> {
    let from_header = match authorization {
        Some(h) => if starts_with(h, "Bearer "@) {
            Some(h.skip(7))
        } else {
            None
        },
        None => None,
    };
    match from_header {
        Some(t) => Some(t),
        None => if path == query_token_path() {
            query_token
        } else {
            None
        },
    }
}

/// The query parameters the authentication looks at.
#[derive(Debug, Clone)]
pub struct TokenQuery {
    pub token: Option<String>,
}

/// Whether a request may pass: it presents exactly the server's token.
pub fn authorize(authorization: Option<&str>, path: &str, query: &TokenQuery, token: &str) -> (r: bool)
    ensures
        r == (presented_token(
            match authorization {
                Some(h) => Some(h@),
                None => None,
            },
            path@,
            crate::flow::opt_str(query.token),
        ) == Some(token@)),
{
    proof {
        reveal_strlit("Bearer ");
    }
    let from_header: Option<String> = match authorization {
        Some(h) => {
            let v = chars_of(h);
            if starts_with_exec(&v, "Bearer ") {
                let rest = rest_chars(&v, 7);
                Some(string_of(&rest))
            } else {
                None
            }
        },
        None => None,
    };
    let provided: Option<String> = match from_header {
        Some(t) => Some(t),
        None => if str_eq(path, "/api/flows/stream") {
            match &query.token {
                Some(q) => Some(string_from_str(q.as_str())),
                None => None,
            }
        } else {
            None
        },
    };
    match provided {
        Some(t) => {
            let tb = crate::http1::utf8_bytes_then(&t, None);
            let kb = string_from_str(token);
            let kbytes = crate::http1::utf8_bytes_then(&kb, None);
            let r = constant_time_eq(tb.as_slice(), kbytes.as_slice());
            proof {
                vstd::utf8::encode_utf8_decode_utf8(t@);
                vstd::utf8::encode_utf8_decode_utf8(token@);
            }
            r
        },
        None => false,
    }
}

// ───────────────────────── Flow endpoints ─────────────────────────

/// Page size of a listing: 100 by default, at most 500.
pub open spec fn list_limit(limit: Option<usize>) -> usize {
    let l = match limit {
        Some(n) => n,
        None => 100usize,
    };
    if l < 500 {
        l
    } else {
        500usize
    }
}

/// `GET /api/flows`: a page of the newest flows (those whose host contains `host`, when
/// given) and the number of flows stored.
pub fn list_flows(store: &FlowStore, limit: Option<usize>, offset: Option<usize>, host: Option<&str>) -> (r:
    FlowListResponse)
    ensures
        r.total == store@.len(),
        flows_view(r.flows@) == match host {
            Some(h) => page(
                newest_matching(store@, h@),
                list_limit(limit) as nat,
                (match offset {
                    Some(o) => o,
                    None => 0usize,
                }) as nat,
            ),
            None => page(
                store@.reverse(),
                list_limit(limit) as nat,
                (match offset {
                    Some(o) => o,
                    None => 0usize,
                }) as nat,
            ),
        },
{
    let l = match limit {
        Some(n) => n,
        None => 100,
    };
    let l = if l < 500 {
        l
    } else {
        500
    };
    let o = match offset {
        Some(n) => n,
        None => 0,
    };
    let flows = match host {
        Some(h) => store.query_by_host(h, l, o),
        None => store.query_recent(l, o),
    };
    FlowListResponse { flows, total: store.len() }
}

/// `GET /api/flows/{id}`: the flow, or `NotFound` with `flow not found: {id}`.
pub fn get_flow(store: &FlowStore, id: &str) -> (r: Result<Flow, ServiceError>)
    ensures
        match get_spec(store@, id@) {
            Some(f) => r matches Ok(g) && g@ == f,
            None => r matches Err(ServiceError::NotFound(m)) && m@ == "flow not found: "@ + id@,
        },
{
    match store.get(id) {
        Some(f) => Ok(f),
        None => {
            let mut m = string_from_str("flow not found: ");
            push_str(&mut m, id);
            Err(ServiceError::NotFound(m))
        },
    }
}

/// A body is small enough for its base64 length to be computed.
pub open spec fn encodable(n: nat) -> bool {
    n / 3 * 4 + 4 <= usize::MAX
}

/// `base64::engine::general_purpose::STANDARD.encode`: standard alphabet with `=`
/// padding, as the crate documents (RFC 4648). It panics when the encoded length
/// overflows `usize`, which `requires` rules out.
#[verifier::external_body]
fn base64_standard_encode(data: &[u8]) -> (r: String)
    requires
        encodable(data@.len()),
    ensures
        r@ == base64_spec(data@),
{
    base64::engine::general_purpose::STANDARD.encode(data)
}

/// The body text of a recorded message: UTF-8 as it is, otherwise base64 and marked binary.
pub open spec fn body_text(b: Seq<u8>) -> (Seq<char>, bool) {
    if vstd::utf8::valid_utf8(b) {
        (vstd::utf8::decode_utf8(b), false)
    } else {
        (base64_spec(b), true)
    }
}

/// Every recorded body in the store can be encoded.
pub open spec fn store_encodable(s: Seq<FlowView>) -> bool {
    forall|i: int| 0 <= i < s.len() ==> {
        &&& encodable((#[trigger] s[i]).request.body.len())
        &&& match s[i].response {
            Some(m) => encodable(m.body.len()),
            None => true,
        }
    }
}

/// What `GET /api/flows/{id}/body?part=...` answers about a recorded message.
pub open spec fn body_response_ok(r: FlowBodyResponse, m: FlowMsgView) -> bool {
    &&& r.body@ == body_text(m.body).0
    &&& r.binary == body_text(m.body).1
    &&& r.body_size == m.body_size
    &&& r.body_truncated == m.body_truncated
    &&& opt_str(r.content_type) == header_lookup(m.headers, "content-type"@)
}

fn body_response(m: &crate::flow::HttpMessage) -> (r: FlowBodyResponse)
    requires
        encodable(m.body@.len()),
    ensures
        body_response_ok(r, m@),
{
    let (body, binary) = match string_from_utf8(copy_bytes(&m.body)) {
        Some(text) => (text, false),
        None => (base64_standard_encode(m.body.as_slice()), true),
    };
    let content_type = match m.header("content-type") {
        Some(c) => Some(string_from_str(c)),
        None => None,
    };
    FlowBodyResponse {
        body,
        body_size: m.body_size,
        body_truncated: m.body_truncated,
        content_type,
        binary,
    }
}

/// `GET /api/flows/{id}/body?part=request|response`: the recorded body of the request or
/// the response. Errors: `NotFound` (`flow not found: {id}`) for an unknown flow,
/// `NotFound` (`response not available`) when there is no response yet, and `BadRequest`
/// (`invalid part '{part}', expected 'request' or 'response'`) for another part.
pub fn flow_body(store: &FlowStore, id: &str, part: &str) -> (r: Result<FlowBodyResponse, ServiceError>)
    requires
        store_encodable(store@),
    ensures
        match get_spec(store@, id@) {
            None => r matches Err(ServiceError::NotFound(m)) && m@ == "flow not found: "@ + id@,
            Some(f) => if part@ == "request"@ {
                r matches Ok(b) && body_response_ok(b, f.request)
            } else if part@ == "response"@ {
                match f.response {
                    Some(m) => r matches Ok(b) && body_response_ok(b, m),
                    None => r matches Err(ServiceError::NotFound(e)) && e@ == "response not available"@,
                }
            } else {
                r matches Err(ServiceError::BadRequest(e)) && e@ == "invalid part '"@ + part@
                    + "', expected 'request' or 'response'"@
            },
        },
{
    let flow = match store.get(id) {
        Some(f) => f,
        None => {
            let mut m = string_from_str("flow not found: ");
            push_str(&mut m, id);
            return Err(ServiceError::NotFound(m));
        },
    };
    if str_eq(part, "request") {
        Ok(body_response(&flow.request))
    } else if str_eq(part, "response") {
        match &flow.response {
            Some(m) => Ok(body_response(m)),
            None => Err(ServiceError::NotFound(string_from_str("response not available"))),
        }
    } else {
        let mut e = string_from_str("invalid part '");
        push_str(&mut e, part);
        push_str(&mut e, "', expected 'request' or 'response'");
        Err(ServiceError::BadRequest(e))
    }
}


// ───────────────────────── The flow event stream ─────────────────────────

/// What the subscription to the batch channel gave.
#[derive(Debug, Clone, Copy, PartialEq, Eq)]
pub enum StreamInput {
    /// A batch of events.
    Batch,
    /// The subscriber fell behind and this many batches were lost.
    Lagged(u64),
    /// The channel is closed.
    Closed,
}

/// What the event stream does next.
#[derive(Debug, Clone, Copy, PartialEq, Eq)]
pub enum StreamStep {
    /// Send the batch as a `flow.batch` event.
    SendBatch,
    /// Skip what was lost and wait for the next batch.
    Skip,
    /// Send the `flow.end` event: the channel is closed.
    SendEnd,
    /// End the stream.
    Finish,
}

/// Name of the event that carries a batch.
pub const BATCH_EVENT: &'static str = "flow.batch";

/// Name of the event sent once the channel is closed.
pub const END_EVENT: &'static str = "flow.end";

/// Data of the `flow.end` event.
pub const END_DATA: &'static str = "{\"reason\":\"aggregator closed\"}";

/// One step of the stream and whether it has ended afterwards: once ended it only
/// finishes; otherwise a batch is sent, a lag skipped, and a closed channel announced
/// with `flow.end`, which ends it.
pub open spec fn stream_step(ended: bool, input: StreamInput) -> (StreamStep, bool) {
    if ended {
        (StreamStep::Finish, true)
    } else {
        match input {
            StreamInput::Batch => (StreamStep::SendBatch, false),
            StreamInput::Lagged(_) => (StreamStep::Skip, false),
            StreamInput::Closed => (StreamStep::SendEnd, true),
        }
    }
}

/// The state of one subscriber's event stream: whether `flow.end` has been sent.
pub struct FlowStream {
    ended: bool,
}

impl FlowStream {
    pub closed spec fn has_ended(&self) -> bool {
        self.ended
    }

    pub fn new() -> (r: Self)
        ensures
            !r.has_ended(),
    {
        FlowStream { ended: false }
    }

    /// Whether the stream is over (`flow.end` was sent), so that nothing more is received.
    pub fn is_over(&self) -> (r: bool)
        ensures
            r == self.has_ended(),
    {
        self.ended
    }

    /// The step for what the subscription gave: a batch is sent, a lag is skipped, and
    /// a closed channel is announced once with `flow.end`; after that the stream ends.
    pub fn step(&mut self, input: StreamInput) -> (r: StreamStep)
        ensures
            (r, final(self).has_ended()) == stream_step(old(self).has_ended(), input),
    {
        if self.ended {
            return StreamStep::Finish;
        }
        match input {
            StreamInput::Batch => StreamStep::SendBatch,
            StreamInput::Lagged(_) => StreamStep::Skip,
            StreamInput::Closed => {
                self.ended = true;
                StreamStep::SendEnd
            },
        }
    }
}

/// The stream's answer to a run of inputs, from a state that has or has not ended.
pub open spec fn stream_steps(ended: bool, inputs: Seq<StreamInput>) -> Seq<StreamStep>
    decreases inputs.len(),
{
    if inputs.len() == 0 {
        Seq::empty()
    } else {
        let (first, next) = stream_step(ended, inputs[0]);
        seq![first] + stream_steps(next, inputs.drop_first())
    }
}

/// `flow.end` is sent at most once, and after it the stream only finishes: whatever the
/// channel gives, no step after a `SendEnd` sends anything.
pub proof fn lemma_end_sent_once(ended: bool, inputs: Seq<StreamInput>)
    ensures
        forall|i: int, j: int|
            #![trigger stream_steps(ended, inputs)[i], stream_steps(ended, inputs)[j]]
            0 <= i < j < inputs.len() && stream_steps(ended, inputs)[i] == StreamStep::SendEnd
                ==> stream_steps(ended, inputs)[j] == StreamStep::Finish,
        ended ==> forall|i: int| 0 <= i < inputs.len() ==> #[trigger] stream_steps(ended, inputs)[i]
            == StreamStep::Finish,
        stream_steps(ended, inputs).len() == inputs.len(),
    decreases inputs.len(),
{
    if inputs.len() > 0 {
        let rest = inputs.drop_first();
        lemma_end_sent_once(true, rest);
        lemma_end_sent_once(false, rest);
        let s = stream_steps(ended, inputs);
        let next_ended = ended || inputs[0] == StreamInput::Closed;
        assert(s == seq![s[0]] + stream_steps(next_ended, rest));
        assert forall|i: int, j: int|
            #![trigger s[i], s[j]]
            0 <= i < j < inputs.len() && s[i] == StreamStep::SendEnd implies s[j]
            == StreamStep::Finish by {
            assert(s[j] == stream_steps(next_ended, rest)[j - 1]);
            if i == 0 {
                assert(next_ended);
            } else {
                assert(s[i] == stream_steps(next_ended, rest)[i - 1]);
            }
        }
        if ended {
            assert forall|i: int| 0 <= i < inputs.len() implies #[trigger] s[i] == StreamStep::Finish by {
                if i > 0 {
                    assert(s[i] == stream_steps(true, rest)[i - 1]);
                }
            }
        }
    }
}

/// Only the event-stream route accepts the token as a query parameter; a bearer header
/// is taken on every route.
pub proof fn lemma_query_token_only_on_stream(path: Seq<char>, q: Option<Seq<char>>, h: Seq<char>)
    ensures
        path != query_token_path() ==> presented_token(None, path, q) is None,
        starts_with(h, "Bearer "@) ==> presented_token(Some(h), path, q) == Some(h.skip(7)),
{
}

} // verus!
