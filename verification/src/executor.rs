//! Sending API requests: how a request definition becomes the sequence of steps applied
//! to an HTTP request builder, and how the outcome is reported. The HTTP client itself
//! runs the steps.
use vstd::prelude::*;
use std::collections::HashMap;
use crate::dto::{
    AuthConfig, ExecuteRequestInput, ExecutionResult, HeaderEntry, KeyValueEntry, RequestBody,
};
use crate::error::ServiceError;
use crate::store::contains_text;
use crate::text::{
    chars_of, copy_string, eq_ic, eq_ignore_ascii_case, from_utf8_lossy, push_str, starts_with, starts_with_exec, str_eq,
    string_from_str, utf8_lossy,
};

verus! {

/// Whether `serde_json` accepts the text as a JSON value.
pub uninterp spec fn json_text_valid(text: Seq<char>) -> bool;

/// The bytes `serde_json::to_vec` writes for the value `serde_json::from_str` reads
/// from the text (the JSON body the HTTP client sends for it).
pub uninterp spec fn json_body_bytes(text: Seq<char>) -> Seq<u8>;

/// `serde_json::from_str::<serde_json::Value>` followed by `serde_json::to_vec` of the
/// value: the re-serialised JSON, or `None` when the text is not JSON. Serialising a
/// `Value` into a vector cannot fail.
#[verifier::external_body]
fn reserialize_json(text: &str) -> (r: Option<Vec<u8>>)
    ensures
        r is Some <==> json_text_valid(text@),
        r matches Some(b) ==> b@ == json_body_bytes(text@),
{
    match serde_json::from_str::<serde_json::Value>(text) {
        Ok(v) => Some(serde_json::to_vec(&v).unwrap_or_default()),
        Err(_) => None,
    }
}

#[verifier::external_type_specification]
#[verifier::external_body]
pub struct ExMethod(reqwest::Method);

/// A token character of an HTTP method (RFC 9110 `tchar`): an ASCII letter or digit or
/// one of ``!#$%&'*+-.^_`|~``.
pub open spec fn is_tchar(c: char) -> bool {
    ||| ('0' <= c && c <= '9')
    ||| ('A' <= c && c <= 'Z')
    ||| ('a' <= c && c <= 'z')
    ||| c == '!' || c == '#' || c == '$' || c == '%' || c == '&' || c == '\''
    ||| c == '*' || c == '+' || c == '-' || c == '.' || c == '^' || c == '_'
    ||| c == '`' || c == '|' || c == '~'
}

/// A method name that `http` accepts: one token character or more.
pub open spec fn method_token(t: Seq<char>) -> bool {
    t.len() > 0 && forall|i: int| 0 <= i < t.len() ==> #[trigger] is_tchar(t[i])
}

/// `Method::from_bytes` on the text's UTF-8 bytes: a method exactly for a non-empty text
/// of token characters (a character outside ASCII encodes to bytes the method table
/// refuses), else the `InvalidMethod` error, whose text is `invalid HTTP method`. The
/// method type is opaque here, so which method comes back is not stated.
#[verifier::external_body]
fn method_from_text(text: &str) -> (r: Result<reqwest::Method, String>)
    ensures
        r is Ok <==> method_token(text@),
        r matches Err(m) ==> m@ == "invalid HTTP method"@,
{
    match reqwest::Method::from_bytes(text.as_bytes()) {
        Ok(m) => Ok(m),
        Err(e) => Err(e.to_string()),
    }
}

/// The method of a request definition, or `BadRequest("invalid method: invalid HTTP
/// method")` when its text is not a method token.
pub fn request_method(input: &ExecuteRequestInput) -> (r: Result<reqwest::Method, ServiceError>)
    ensures
        r is Ok <==> method_token(input.method@),
        !method_token(input.method@) ==> (r matches Err(ServiceError::BadRequest(m)) && m@
            == "invalid method: invalid HTTP method"@),
{
    match method_from_text(input.method.as_str()) {
        Ok(m) => Ok(m),
        Err(e) => {
            let mut m = string_from_str("invalid method: ");
            push_str(&mut m, e.as_str());
            proof {
                reveal_strlit("invalid method: ");
                reveal_strlit("invalid HTTP method");
                reveal_strlit("invalid method: invalid HTTP method");
            }
            assert(m@ =~= "invalid method: invalid HTTP method"@);
            Err(ServiceError::BadRequest(m))
        },
    }
}

/// One step applied to the request builder.
pub enum BuilderStep {
    /// Append these query parameters.
    Query(Vec<(String, String)>),
    /// Add a header.
    Header(String, String),
    /// HTTP basic authentication with user and password.
    BasicAuth(String, Option<String>),
    /// Bearer authentication.
    BearerAuth(String),
    /// A JSON body: these bytes (its content type is a header step of its own).
    Json(Vec<u8>),
    /// A text body.
    Body(String),
}

pub enum StepView {
    Query(Seq<(Seq<char>, Seq<char>)>),
    Header(Seq<char>, Seq<char>),
    BasicAuth(Seq<char>, Option<Seq<char>>),
    BearerAuth(Seq<char>),
    Json(Seq<u8>),
    Body(Seq<char>),
}

impl View for BuilderStep {
    type V = StepView;

    open spec fn view(&self) -> StepView {
        match self {
            BuilderStep::Query(q) => StepView::Query(Seq::new(q@.len(), |i: int| (q@[i].0@, q@[i].1@))),
            BuilderStep::Header(k, v) => StepView::Header(k@, v@),
            BuilderStep::BasicAuth(u, p) => StepView::BasicAuth(u@, crate::flow::opt_str(*p)),
            BuilderStep::BearerAuth(t) => StepView::BearerAuth(t@),
            BuilderStep::Json(b) => StepView::Json(b@),
            BuilderStep::Body(b) => StepView::Body(b@),
        }
    }
}

pub open spec fn steps_view(s: Seq<BuilderStep>) -> Seq<StepView> {
    Seq::new(s.len(), |i: int| s[i]@)
}

/// The enabled query parameters, in order.
pub open spec fn enabled_params(q: Seq<KeyValueEntry>) -> Seq<(Seq<char>, Seq<char>)>
    decreases q.len(),
{
    if q.len() == 0 {
        Seq::empty()
    } else {
        let rest = enabled_params(q.drop_last());
        if q.last().enabled {
            rest.push((q.last().key@, q.last().value@))
        } else {
            rest
        }
    }
}

/// A header step for each enabled header, in order.
pub open spec fn header_steps(h: Seq<HeaderEntry>) -> Seq<StepView>
    decreases h.len(),
{
    if h.len() == 0 {
        Seq::empty()
    } else {
        let rest = header_steps(h.drop_last());
        if h.last().enabled {
            rest.push(StepView::Header(h.last().name@, h.last().value@))
        } else {
            rest
        }
    }
}

/// The steps of the authentication: basic and bearer authentication as such; an API key
/// as a query parameter when `add_to` is `query`, else as a header.
pub open spec fn auth_steps(a: AuthConfig) -> Seq<StepView> {
    match a {
        AuthConfig::NoAuth => Seq::empty(),
        AuthConfig::Basic { username, password } => seq![StepView::BasicAuth(username@, Some(password@))],
        AuthConfig::Bearer { token } => seq![StepView::BearerAuth(token@)],
        AuthConfig::ApiKey { key_name, key_value, add_to } => if add_to@ == "query"@ {
            seq![StepView::Query(seq![(key_name@, key_value@)])]
        } else {
            seq![StepView::Header(key_name@, key_value@)]
        },
    }
}

/// A header step whose name is `Content-Type` in any case.
pub open spec fn is_content_type_step(v: StepView) -> bool {
    v matches StepView::Header(n, _) && eq_ic(n, "content-type"@)
}

/// Whether some step sets the content type.
pub open spec fn sets_content_type(steps: Seq<StepView>) -> bool {
    exists|i: int| 0 <= i < steps.len() && #[trigger] is_content_type_step(steps[i])
}

/// The steps of the body: none for no body or empty text; a JSON body when the content
/// type mentions `json` and the text is JSON (sent re-serialised), with the content
/// type `application/json` unless an earlier step (`ct_set`) sets one; otherwise the
/// text with its content type.
pub open spec fn body_steps(b: RequestBody, ct_set: bool) -> Seq<StepView> {
    match b {
        RequestBody::NoBody => Seq::empty(),
        RequestBody::Raw { content_type, text } => if text@.len() == 0 {
            Seq::empty()
        } else if contains_text(content_type@, "json"@) && json_text_valid(text@) {
            if ct_set {
                seq![StepView::Json(json_body_bytes(text@))]
            } else {
                seq![
                    StepView::Json(json_body_bytes(text@)),
                    StepView::Header("Content-Type"@, "application/json"@),
                ]
            }
        } else {
            seq![StepView::Body(text@), StepView::Header("Content-Type"@, content_type@)]
        },
    }
}

/// The steps before the body: query parameters, headers, authentication.
pub open spec fn head_steps(input: ExecuteRequestInput) -> Seq<StepView> {
    let q = enabled_params(input.query_params@);
    (if q.len() > 0 { seq![StepView::Query(q)] } else { Seq::empty() }) + header_steps(input.headers@)
        + auth_steps(input.auth)
}

/// All steps for a request: query parameters, headers, authentication, body.
pub open spec fn request_steps(input: ExecuteRequestInput) -> Seq<StepView> {
    head_steps(input) + body_steps(input.body, sets_content_type(head_steps(input)))
}

/// Whether one of the steps sets the content type.
fn has_content_type_step(steps: &Vec<BuilderStep>) -> (r: bool)
    ensures
        r == sets_content_type(steps_view(steps@)),
{
    let mut i: usize = 0;
    while i < steps.len()
        invariant
            i <= steps@.len(),
            forall|k: int| 0 <= k < i ==> !#[trigger] is_content_type_step(steps_view(steps@)[k]),
        decreases steps.len() - i,
    {
        let found = match &steps[i] {
            BuilderStep::Header(n, _) => eq_ignore_ascii_case(n.as_str(), "content-type"),
            _ => false,
        };
        assert(found == is_content_type_step(steps_view(steps@)[i as int]));
        if found {
            return true;
        }
        i += 1;
    }
    false
}

fn contains_str(s: &str, p: &str) -> (r: bool)
    ensures
        r == contains_text(s@, p@),
{
    let sv = chars_of(s);
    let pv = chars_of(p);
    if pv.len() > sv.len() {
        return false;
    }
    let last = sv.len() - pv.len();
    let mut i: usize = 0;
    while i < last
        invariant
            pv@.len() <= sv@.len(),
            last == sv@.len() - pv@.len(),
            i <= last,
            sv@ == s@,
            pv@ == p@,
            forall|j: int| 0 <= j < i ==> !#[trigger] crate::text::matches_at(s@, p@, j),
        decreases last - i,
    {
        if crate::text::matches_at_exec(&sv, &pv, i) {
            return true;
        }
        i += 1;
    }
    crate::text::matches_at_exec(&sv, &pv, last)
}

/// The builder steps for a request.
pub fn plan_request(input: &ExecuteRequestInput) -> (r: Vec<BuilderStep>)
    ensures
        steps_view(r@) == request_steps(*input),
{
    let mut steps: Vec<BuilderStep> = Vec::new();
    // Query parameters.
    let mut params: Vec<(String, String)> = Vec::new();
    let mut i: usize = 0;
    while i < input.query_params.len()
        invariant
            i <= input.query_params@.len(),
            Seq::new(params@.len(), |k: int| (params@[k].0@, params@[k].1@)) == enabled_params(
                input.query_params@.take(i as int),
            ),
        decreases input.query_params.len() - i,
    {
        let kv = &input.query_params[i];
        let ghost before = Seq::new(params@.len(), |k: int| (params@[k].0@, params@[k].1@));
        assert(input.query_params@.take(i + 1).drop_last() =~= input.query_params@.take(i as int));
        if kv.enabled {
            params.push((copy_string(&kv.key), copy_string(&kv.value)));
            assert(Seq::new(params@.len(), |k: int| (params@[k].0@, params@[k].1@)) =~= before.push(
                (kv.key@, kv.value@),
            ));
        }
        i += 1;
    }
    assert(input.query_params@.take(input.query_params@.len() as int) =~= input.query_params@);
    if params.len() > 0 {
        steps.push(BuilderStep::Query(params));
    }
    let ghost after_query = steps_view(steps@);
    // Headers.
    let mut j: usize = 0;
    while j < input.headers.len()
        invariant
            j <= input.headers@.len(),
            steps_view(steps@) == after_query + header_steps(input.headers@.take(j as int)),
        decreases input.headers.len() - j,
    {
        let h = &input.headers[j];
        let ghost before = steps_view(steps@);
        assert(input.headers@.take(j + 1).drop_last() =~= input.headers@.take(j as int));
        if h.enabled {
            steps.push(BuilderStep::Header(copy_string(&h.name), copy_string(&h.value)));
            assert(steps_view(steps@) =~= before.push(StepView::Header(h.name@, h.value@)));
        }
        j += 1;
    }
    assert(input.headers@.take(input.headers@.len() as int) =~= input.headers@);
    let ghost after_headers = steps_view(steps@);
    // Authentication.
    match &input.auth {
        AuthConfig::NoAuth => {},
        AuthConfig::Basic { username, password } => {
            steps.push(BuilderStep::BasicAuth(copy_string(username), Some(copy_string(password))));
        },
        AuthConfig::Bearer { token } => {
            steps.push(BuilderStep::BearerAuth(copy_string(token)));
        },
        AuthConfig::ApiKey { key_name, key_value, add_to } => {
            if str_eq(add_to.as_str(), "query") {
                let mut q: Vec<(String, String)> = Vec::new();
                q.push((copy_string(key_name), copy_string(key_value)));
                assert(Seq::new(q@.len(), |i: int| (q@[i].0@, q@[i].1@)) =~= seq![(key_name@, key_value@)]);
                steps.push(BuilderStep::Query(q));
                assert(steps_view(steps@).last() == StepView::Query(seq![(key_name@, key_value@)]));
            } else {
                steps.push(BuilderStep::Header(copy_string(key_name), copy_string(key_value)));
            }
        },
    }
    assert(steps_view(steps@) =~= after_headers + auth_steps(input.auth));
    let ghost after_auth = steps_view(steps@);
    assert(after_auth == head_steps(*input));
    let ct_set = has_content_type_step(&steps);
    // Body.
    match &input.body {
        RequestBody::NoBody => {},
        RequestBody::Raw { content_type, text } => {
            let tv = chars_of(text.as_str());
            if tv.len() > 0 {
                let json = if contains_str(content_type.as_str(), "json") {
                    reserialize_json(text.as_str())
                } else {
                    None
                };
                match json {
                    Some(v) => {
                        steps.push(BuilderStep::Json(v));
                        if !ct_set {
                            steps.push(
                                BuilderStep::Header(
                                    string_from_str("Content-Type"),
                                    string_from_str("application/json"),
                                ),
                            );
                        }
                    },
                    None => {
                        steps.push(BuilderStep::Body(copy_string(text)));
                        steps.push(BuilderStep::Header(string_from_str("Content-Type"), copy_string(content_type)));
                    },
                }
            }
        },
    }
    assert(steps_view(steps@) =~= after_auth + body_steps(input.body, ct_set));
    steps
}

/// The address of a proxy as a URL: an `http://` address as it is, anything else with
/// `http://` put in front.
pub open spec fn proxy_url_spec(addr: Seq<char>) -> Seq<char> {
    if starts_with(addr, "http://"@) {
        addr
    } else {
        "http://"@ + addr
    }
}

pub fn proxy_url(proxy_addr: &str) -> (r: String)
    ensures
        r@ == proxy_url_spec(proxy_addr@),
{
    let v = chars_of(proxy_addr);
    if starts_with_exec(&v, "http://") {
        string_from_str(proxy_addr)
    } else {
        let mut s = string_from_str("http://");
        push_str(&mut s, proxy_addr);
        s
    }
}

/// The result reported when a request could not be sent.
pub fn failed_result(total_time_ms: u64, error: String) -> (r: ExecutionResult)
    ensures
        r.status == 0,
        r.status_text@ == "Request Failed"@,
        r.headers@ == Map::<String, String>::empty(),
        r.body@ == Seq::<char>::empty(),
        r.body_size == 0,
        r.content_type is None,
        r.total_time_ms == total_time_ms,
        !r.success,
        r.error == Some(error),
{
    ExecutionResult {
        status: 0,
        status_text: string_from_str("Request Failed"),
        headers: HashMap::new(),
        body: String::new(),
        body_size: 0,
        content_type: None,
        total_time_ms,
        success: false,
        error: Some(error),
    }
}

/// The result of an answered request: the status with its reason phrase (empty when
/// unknown), the body decoded leniently, and success for a 2xx status.
pub fn completed_result(
    status: u16,
    reason: Option<&str>,
    headers: HashMap<String, String>,
    content_type: Option<String>,
    body: &[u8],
    total_time_ms: u64,
) -> (r: ExecutionResult)
    ensures
        r.status == status,
        r.status_text@ == match reason {
            Some(t) => t@,
            None => Seq::<char>::empty(),
        },
        r.headers == headers,
        r.body@ == utf8_lossy(body@),
        r.body_size == body@.len(),
        r.content_type == content_type,
        r.total_time_ms == total_time_ms,
        r.success == (200 <= status && status < 300),
        r.error is None,
{
    let status_text = match reason {
        Some(t) => string_from_str(t),
        None => String::new(),
    };
    ExecutionResult {
        status,
        status_text,
        headers,
        body: from_utf8_lossy(body),
        body_size: body.len(),
        content_type,
        total_time_ms,
        success: 200 <= status && status < 300,
        error: None,
    }
}

} // verus!
