//! Interception rules (breakpoint, map local, map remote, rewrite, block, throttle) and the
//! rule engine that matches them in order of their sort key.
use vstd::prelude::*;
use std::collections::hash_map::RandomState;
use std::time::Duration;
use dashmap::DashMap;
use vstd::utf8::encode_utf8;
use crate::message::{
    HeaderSeq, HttpMessage, MsgView, header_lookup, headers_view, msg_host, prefix_chars, rest_chars,
};
use crate::text::{
    chars_of, dec_str, decimal_string, eq_ic, eq_ignore_ascii_case, eq_ignore_case_chars,
    find_char_from, first_from, from_utf8_lossy, is_first_from, push_char, push_str, starts_with,
    starts_with_exec, string_from_str, string_of, unicode_lower, unicode_lowercase, utf8_lossy,
};

verus! {

// ───────────────────────── Regular expressions (regex crate) ─────────────────────────

#[verifier::external_type_specification]
#[verifier::external_body]
pub struct ExRegex(regex::Regex);

#[verifier::external_type_specification]
#[verifier::external_body]
pub struct ExRegexError(regex::Error);

/// Whether `regex::Regex::new` accepts the pattern.
pub uninterp spec fn regex_compiles(pattern: Seq<char>) -> bool;

/// Result of `regex::Regex::is_match` for a regex built from `pattern`.
pub uninterp spec fn regex_is_match(pattern: Seq<char>, text: Seq<char>) -> bool;

/// Result of `regex::Regex::replace_all` (with `$n` expansion) for a regex built from `pattern`.
pub uninterp spec fn regex_replace_all(pattern: Seq<char>, text: Seq<char>, rep: Seq<char>) -> Seq<
    char,
>;

/// A compiled regular expression together with the pattern it was built from.
pub struct CompiledRegex {
    re: regex::Regex,
    source: Ghost<Seq<char>>,
}

impl View for CompiledRegex {
    type V = Seq<char>;

    closed spec fn view(&self) -> Seq<char> {
        self.source@
    }
}

/// `regex::Regex::new`: compiles `pattern`; fails exactly when the pattern is rejected.
#[verifier::external_body]
fn regex_new(pattern: &str) -> (r: Result<CompiledRegex, regex::Error>)
    ensures
        r is Ok <==> regex_compiles(pattern@),
        r matches Ok(c) ==> c@ == pattern@,
{
    match regex::Regex::new(pattern) {
        Ok(re) => Ok(CompiledRegex { re, source: Ghost(pattern@) }),
        Err(e) => Err(e),
    }
}

/// `regex::Regex::is_match` on a regex compiled by [`regex_new`].
#[verifier::external_body]
fn regex_match(re: &CompiledRegex, text: &str) -> (r: bool)
    ensures
        r == regex_is_match(re@, text@),
{
    re.re.is_match(text)
}

/// `regex::Regex::replace_all` on a regex compiled by [`regex_new`].
#[verifier::external_body]
fn regex_replace(re: &CompiledRegex, text: &str, rep: &str) -> (r: String)
    ensures
        r@ == regex_replace_all(re@, text@, rep@),
{
    re.re.replace_all(text, rep).into_owned()
}

/// Characters that are escaped when a glob is turned into a regex.
pub open spec fn is_regex_meta(c: char) -> bool {
    c == '.' || c == '^' || c == '$' || c == '{' || c == '}' || c == '(' || c == ')' || c == '+'
        || c == '|' || c == '[' || c == ']' || c == '\\'
}

pub open spec fn glob_char_regex(c: char) -> Seq<char> {
    if c == '*' {
        seq!['.', '*']
    } else if c == '?' {
        seq!['.']
    } else if is_regex_meta(c) {
        seq!['\\', c]
    } else {
        seq![c]
    }
}

pub open spec fn glob_body_regex(p: Seq<char>) -> Seq<char>
    decreases p.len(),
{
    if p.len() == 0 {
        Seq::empty()
    } else {
        glob_body_regex(p.drop_last()) + glob_char_regex(p.last())
    }
}

/// The anchored, case-insensitive regex for a glob: `*` any sequence, `?` one character.
pub open spec fn glob_regex(p: Seq<char>) -> Seq<char> {
    seq!['(', '?', 'i', ')', '^'] + glob_body_regex(p) + seq!['$']
}

/// Glob matching as the proxy does it: both sides lowercased, then the glob's regex.
pub open spec fn glob_spec(pattern: Seq<char>, text: Seq<char>) -> bool {
    let re = glob_regex(unicode_lower(pattern));
    regex_compiles(re) && regex_is_match(re, unicode_lower(text))
}

pub fn glob_to_regex(p: &str) -> (r: String)
    ensures
        r@ == glob_regex(p@),
{
    let v = chars_of(p);
    let mut out: Vec<char> = Vec::new();
    out.push('(');
    out.push('?');
    out.push('i');
    out.push(')');
    out.push('^');
    let ghost pre = out@;
    assert(pre =~= seq!['(', '?', 'i', ')', '^']);
    let mut i: usize = 0;
    while i < v.len()
        invariant
            i <= v.len(),
            pre == seq!['(', '?', 'i', ')', '^'],
            out@ == pre + glob_body_regex(v@.take(i as int)),
        decreases v.len() - i,
    {
        let c = v[i];
        let ghost before = out@;
        if c == '*' {
            out.push('.');
            out.push('*');
        } else if c == '?' {
            out.push('.');
        } else if c == '.' || c == '^' || c == '$' || c == '{' || c == '}' || c == '(' || c == ')'
            || c == '+' || c == '|' || c == '[' || c == ']' || c == '\\' {
            out.push('\\');
            out.push(c);
        } else {
            out.push(c);
        }
        assert(out@ =~= before + glob_char_regex(c));
        assert(v@.take(i + 1).drop_last() =~= v@.take(i as int));
        i += 1;
    }
    out.push('$');
    assert(v@.take(v.len() as int) =~= v@);
    assert(out@ =~= glob_regex(p@));
    string_of(&out)
}

/// Case-insensitive glob match (`*` matches any sequence, `?` one character).
pub fn glob_match(pattern: &str, text: &str) -> (r: bool)
    ensures
        r == glob_spec(pattern@, text@),
{
    let p = unicode_lowercase(pattern);
    let t = unicode_lowercase(text);
    let source = glob_to_regex(p.as_str());
    match regex_new(source.as_str()) {
        Ok(re) => regex_match(&re, t.as_str()),
        Err(_) => false,
    }
}

// ───────────────────────── URI helpers ─────────────────────────

pub open spec fn has_http_scheme(u: Seq<char>) -> bool {
    starts_with(u, "http://"@) || starts_with(u, "https://"@)
}

/// Path of a URI: for `http(s)://` URIs everything from the first `/` after the scheme
/// and the character that follows it (offset 8), or `/` when there is none (also when
/// nothing follows the scheme); otherwise the URI itself.
pub open spec fn extract_path_spec(u: Seq<char>) -> Seq<char> {
    if has_http_scheme(u) {
        match first_from(u, 8, '/') {
            Some(k) => u.skip(k),
            None => seq!['/'],
        }
    } else {
        u
    }
}

pub proof fn lemma_literal_prefixes()
    ensures
        "http://"@ == seq!['h', 't', 't', 'p', ':', '/', '/'],
        "https://"@ == seq!['h', 't', 't', 'p', 's', ':', '/', '/'],
{
    reveal_strlit("http://");
    reveal_strlit("https://");
}

/// Path (and query) of a URI.
pub fn extract_path(uri: &str) -> (r: String)
    ensures
        r@ == extract_path_spec(uri@),
{
    let v = chars_of(uri);
    proof {
        lemma_literal_prefixes();
    }
    if starts_with_exec(&v, "http://") || starts_with_exec(&v, "https://") {
        if v.len() < 8 {
            proof {
                assert(!exists|i: int| #[trigger] is_first_from(v@, 8, '/', i));
            }
            let mut s = String::new();
            push_char(&mut s, '/');
            assert(s@ =~= seq!['/']);
            return s;
        }
        match find_char_from(&v, 8, '/') {
            Some(k) => {
                let rest = rest_chars(&v, k);
                string_of(&rest)
            },
            None => {
                let mut s = String::new();
                push_char(&mut s, '/');
                assert(s@ =~= seq!['/']);
                s
            },
        }
    } else {
        string_of(&v)
    }
}

/// MapRemote target: `target_url` (one trailing `/` removed) followed by the path of `uri`.
pub open spec fn replace_url_prefix_spec(uri: Seq<char>, target: Seq<char>) -> Seq<char> {
    let base = if target.len() > 0 && target.last() == '/' {
        target.drop_last()
    } else {
        target
    };
    base + extract_path_spec(uri)
}

pub fn replace_url_prefix(original_uri: &str, target_url: &str) -> (r: String)
    ensures
        r@ == replace_url_prefix_spec(original_uri@, target_url@),
{
    let path = extract_path(original_uri);
    let tv = chars_of(target_url);
    let end = if tv.len() > 0 && tv[tv.len() - 1] == '/' {
        tv.len() - 1
    } else {
        tv.len()
    };
    let base = prefix_chars(&tv, end);
    let mut s = string_of(&base);
    push_str(&mut s, path.as_str());
    proof {
        if tv@.len() > 0 && tv@.last() == '/' {
            assert(tv@.take(end as int) =~= tv@.drop_last());
        } else {
            assert(tv@.take(end as int) =~= tv@);
        }
    }
    s
}

// ───────────────────────── Header helpers ─────────────────────────

/// The headers without those named `name` (ASCII case-insensitive).
pub open spec fn remove_named(hs: HeaderSeq, name: Seq<char>) -> HeaderSeq
    decreases hs.len(),
{
    if hs.len() == 0 {
        Seq::empty()
    } else if eq_ic(hs.last().0, name) {
        remove_named(hs.drop_last(), name)
    } else {
        remove_named(hs.drop_last(), name).push(hs.last())
    }
}

/// Setting a header removes every header of that name and appends the new one.
pub open spec fn set_header_spec(hs: HeaderSeq, name: Seq<char>, value: Seq<char>) -> HeaderSeq {
    remove_named(hs, name).push((name, value))
}

pub fn copy_headers(h: &Vec<(String, String)>) -> (r: Vec<(String, String)>)
    ensures
        headers_view(r@) == headers_view(h@),
{
    let mut r: Vec<(String, String)> = Vec::new();
    let mut i: usize = 0;
    while i < h.len()
        invariant
            i <= h.len(),
            headers_view(r@) == headers_view(h@).take(i as int),
        decreases h.len() - i,
    {
        let a = h[i].0.clone();
        let b = h[i].1.clone();
        let ghost prev = r@;
        r.push((a, b));
        assert(headers_view(r@) =~= headers_view(prev).push((h@[i as int].0@, h@[i as int].1@)));
        i += 1;
        assert(headers_view(r@) =~= headers_view(h@).take(i as int));
    }
    assert(headers_view(h@).take(h.len() as int) =~= headers_view(h@));
    r
}

pub fn copy_bytes(b: &Vec<u8>) -> (r: Vec<u8>)
    ensures
        r@ == b@,
{
    let mut r: Vec<u8> = Vec::new();
    let mut i: usize = 0;
    while i < b.len()
        invariant
            i <= b.len(),
            r@ == b@.take(i as int),
        decreases b.len() - i,
    {
        r.push(b[i]);
        i += 1;
        assert(r@ =~= b@.take(i as int));
    }
    assert(b@.take(b.len() as int) =~= b@);
    r
}

/// A copy of a message with the same model.
pub fn copy_message(m: &HttpMessage) -> (r: HttpMessage)
    ensures
        r@ == m@,
{
    HttpMessage {
        method: m.method.clone(),
        uri: m.uri.clone(),
        version: m.version.clone(),
        headers: copy_headers(&m.headers),
        body: copy_bytes(&m.body),
    }
}

/// Removes every header named `name` (ASCII case-insensitive).
pub fn remove_header(msg: &mut HttpMessage, name: &str)
    ensures
        final(msg)@ == (MsgView { headers: remove_named(old(msg)@.headers, name@), ..old(msg)@ }),
{
    let ghost hs = old(msg)@.headers;
    let nv = chars_of(name);
    let mut kept: Vec<(String, String)> = Vec::new();
    let mut i: usize = 0;
    assert(hs.take(0) =~= Seq::<(Seq<char>, Seq<char>)>::empty());
    while i < msg.headers.len()
        invariant
            i <= msg.headers.len(),
            hs == headers_view(msg.headers@),
            msg@ == old(msg)@,
            nv@ == name@,
            headers_view(kept@) == remove_named(hs.take(i as int), name@),
        decreases msg.headers.len() - i,
    {
        let kv = chars_of(msg.headers[i].0.as_str());
        assert(hs.take(i + 1).drop_last() =~= hs.take(i as int));
        assert(hs.take(i + 1).last() == hs[i as int]);
        if !eq_ignore_case_chars(&kv, &nv) {
            let a = msg.headers[i].0.clone();
            let b = msg.headers[i].1.clone();
            let ghost prev = kept@;
            kept.push((a, b));
            assert(headers_view(kept@) =~= headers_view(prev).push(hs[i as int]));
        }
        i += 1;
    }
    assert(hs.take(msg.headers.len() as int) =~= hs);
    msg.headers = kept;
}

/// Sets (adds or replaces) a header: every header of that name is removed and the new
/// one is appended.
pub fn set_header(msg: &mut HttpMessage, name: &str, value: &str)
    ensures
        final(msg)@ == (MsgView {
            headers: set_header_spec(old(msg)@.headers, name@, value@),
            ..old(msg)@
        }),
{
    remove_header(msg, name);
    let ghost prev = msg.headers@;
    msg.headers.push((string_from_str(name), string_from_str(value)));
    assert(headers_view(msg.headers@) =~= headers_view(prev).push((name@, value@)));
}

// ───────────────────────── Rule model ─────────────────────────

/// Match condition of a rule; `None` fields match anything.
#[derive(Debug, Clone)]
pub struct RuleMatcher {
    /// Glob on the host, such as `*.example.com`.
    pub host_pattern: Option<String>,
    /// Glob on the path, such as `/api/v1/*`.
    pub path_pattern: Option<String>,
    /// HTTP method, compared ignoring ASCII case.
    pub method: Option<String>,
    /// Disabled matchers match nothing.
    pub enabled: bool,
}

impl Default for RuleMatcher {
    fn default() -> (r: Self)
        ensures
            r.host_pattern is None,
            r.path_pattern is None,
            r.method is None,
            r.enabled,
    {
        RuleMatcher { host_pattern: None, path_pattern: None, method: None, enabled: true }
    }
}

/// One rewrite operation.
#[derive(Debug, Clone)]
pub enum RewriteOp {
    /// Adds or replaces a header.
    SetHeader { name: String, value: String },
    /// Removes every header of that name.
    RemoveHeader { name: String },
    /// Regex replacement on the body text (`$1`... back references allowed).
    ReplaceBody { pattern: String, replacement: String },
    /// Replaces the whole body.
    SetBody { content: String },
}

/// An interception rule.
#[derive(Debug, Clone)]
pub enum InterceptRule {
    /// Pause the flow for a decision.
    Breakpoint { match_: RuleMatcher, on_request: bool, on_response: bool },
    /// Answer locally with the given body.
    MapLocal {
        match_: RuleMatcher,
        local_body: String,
        content_type: Option<String>,
        status_code: Option<u16>,
    },
    /// Send the request to another URL prefix.
    MapRemote { match_: RuleMatcher, target_url: String },
    /// Rewrite headers or body.
    Rewrite { match_: RuleMatcher, operations: Vec<RewriteOp> },
    /// Answer with an error status (403 by default).
    Block { match_: RuleMatcher, status_code: Option<u16> },
    /// Delay the request.
    ThrottleOrDelay { match_: RuleMatcher, delay_ms: u64, throughput_kbps: Option<u32> },
}

/// Result of running the rule chain.
#[derive(Debug, Clone)]
pub enum RuleOutcome {
    /// No rule applied.
    Unchanged,
    /// Answer the client with this response (Block, MapLocal).
    ShortCircuit(HttpMessage),
    /// Continue with this rewritten message (Rewrite, MapRemote).
    Rewritten(HttpMessage),
    /// A breakpoint hit: `(flow_id, stage)`.
    Pause(String, String),
}

pub enum OutcomeView {
    Unchanged,
    ShortCircuit(MsgView),
    Rewritten(MsgView),
    Pause(Seq<char>, Seq<char>),
}

impl View for RuleOutcome {
    type V = OutcomeView;

    open spec fn view(&self) -> OutcomeView {
        match self {
            RuleOutcome::Unchanged => OutcomeView::Unchanged,
            RuleOutcome::ShortCircuit(m) => OutcomeView::ShortCircuit(m@),
            RuleOutcome::Rewritten(m) => OutcomeView::Rewritten(m@),
            RuleOutcome::Pause(a, b) => OutcomeView::Pause(a@, b@),
        }
    }
}

/// A rule with its identity, name and ordering key (smaller keys are matched first).
#[derive(Debug, Clone)]
pub struct RuleEntry {
    pub id: String,
    pub name: String,
    pub rule: InterceptRule,
    pub sort_key: i64,
}

// ───────────────────────── Matching ─────────────────────────

pub open spec fn host_or_empty(req: MsgView) -> Seq<char> {
    match msg_host(req) {
        Some(h) => h,
        None => Seq::empty(),
    }
}

/// Whether a matcher applies to a request.
pub open spec fn matcher_matches(m: RuleMatcher, req: MsgView) -> bool {
    &&& m.enabled
    &&& (m.method matches Some(x) ==> eq_ic(req.method, x@))
    &&& (m.host_pattern matches Some(h) ==> glob_spec(h@, host_or_empty(req)))
    &&& (m.path_pattern matches Some(p) ==> glob_spec(p@, extract_path_spec(req.uri)))
}

impl RuleMatcher {
    /// Tests a request against this matcher (method, then host glob, then path glob).
    pub fn matches(&self, req: &HttpMessage) -> (r: bool)
        ensures
            r == matcher_matches(*self, req@),
    {
        if !self.enabled {
            return false;
        }
        match &self.method {
            Some(method) => {
                if !eq_ignore_ascii_case(req.method.as_str(), method.as_str()) {
                    return false;
                }
            },
            None => {},
        }
        match &self.host_pattern {
            Some(host_pattern) => {
                let host: &str = match req.host() {
                    Some(h) => h,
                    None => "",
                };
                proof {
                    reveal_strlit("");
                    assert(""@ =~= Seq::<char>::empty());
                    assert(host@ == host_or_empty(req@));
                }
                if !glob_match(host_pattern.as_str(), host) {
                    return false;
                }
            },
            None => {},
        }
        match &self.path_pattern {
            Some(path_pattern) => {
                let path = extract_path(req.uri.as_str());
                if !glob_match(path_pattern.as_str(), path.as_str()) {
                    return false;
                }
            },
            None => {},
        }
        true
    }
}

// ───────────────────────── Responses and rewrites ─────────────────────────

pub open spec fn reason_phrase(status: u16) -> Seq<char> {
    if status == 200 {
        "OK"@
    } else if status == 403 {
        "Forbidden"@
    } else if status == 404 {
        "Not Found"@
    } else if status == 500 {
        "Internal Server Error"@
    } else {
        "OK"@
    }
}

/// A bodiless response with the given status (`Content-Length: 0`).
pub open spec fn status_response_spec(status: u16) -> MsgView {
    MsgView {
        method: Seq::empty(),
        uri: Seq::empty(),
        version: "HTTP/1.1"@,
        headers: seq![
            (":status"@, dec_str(status as nat) + " "@ + reason_phrase(status)),
            ("Content-Length"@, "0"@),
        ],
        body: Seq::empty(),
    }
}

/// Builds a simple status response.
pub fn build_status_response(status: u16) -> (r: HttpMessage)
    ensures
        r@ == status_response_spec(status),
{
    let reason: &str = if status == 200 {
        "OK"
    } else if status == 403 {
        "Forbidden"
    } else if status == 404 {
        "Not Found"
    } else if status == 500 {
        "Internal Server Error"
    } else {
        "OK"
    };
    let mut line = decimal_string(status as u64);
    push_str(&mut line, " ");
    push_str(&mut line, reason);
    let mut headers: Vec<(String, String)> = Vec::new();
    headers.push((string_from_str(":status"), line));
    headers.push((string_from_str("Content-Length"), string_from_str("0")));
    let r = HttpMessage {
        method: String::new(),
        uri: String::new(),
        version: string_from_str("HTTP/1.1"),
        headers,
        body: Vec::new(),
    };
    assert(r@.headers =~= status_response_spec(status).headers);
    assert(r@.body =~= Seq::<u8>::empty());
    r
}

/// Effect of one rewrite operation on a message.
pub open spec fn rewrite_spec(m: MsgView, op: RewriteOp) -> MsgView {
    match op {
        RewriteOp::SetHeader { name, value } => MsgView {
            headers: set_header_spec(m.headers, name@, value@),
            ..m
        },
        RewriteOp::RemoveHeader { name } => MsgView { headers: remove_named(m.headers, name@), ..m },
        RewriteOp::ReplaceBody { pattern, replacement } => {
            if regex_compiles(pattern@) {
                let nb = encode_utf8(
                    regex_replace_all(pattern@, utf8_lossy(m.body), replacement@),
                );
                MsgView {
                    body: nb,
                    headers: set_header_spec(m.headers, "Content-Length"@, dec_str(nb.len())),
                    ..m
                }
            } else {
                m
            }
        },
        RewriteOp::SetBody { content } => {
            let nb = encode_utf8(content@);
            MsgView {
                body: nb,
                headers: set_header_spec(m.headers, "Content-Length"@, dec_str(nb.len())),
                ..m
            }
        },
    }
}

/// Effect of a sequence of rewrite operations, applied in order.
pub open spec fn rewrite_all_spec(m: MsgView, ops: Seq<RewriteOp>) -> MsgView
    decreases ops.len(),
{
    if ops.len() == 0 {
        m
    } else {
        rewrite_spec(rewrite_all_spec(m, ops.drop_last()), ops.last())
    }
}

/// Whether a header is not named `name` (ignoring ASCII case).
pub open spec fn not_named(name: Seq<char>) -> spec_fn((Seq<char>, Seq<char>)) -> bool {
    |h: (Seq<char>, Seq<char>)| !eq_ic(h.0, name)
}

/// The headers left after removing those named `name` are exactly the others, in their
/// order, and none of them is named `name` (ignoring ASCII case).
pub proof fn lemma_remove_named_keeps_others(hs: HeaderSeq, name: Seq<char>)
    ensures
        remove_named(hs, name) == hs.filter(not_named(name)),
        forall|i: int|
            0 <= i < remove_named(hs, name).len() ==> !eq_ic(#[trigger] remove_named(hs, name)[i].0, name),
        header_lookup(remove_named(hs, name), name) is None,
    decreases hs.len(),
{
    if hs.len() == 0 {
        reveal(Seq::filter);
    } else {
        lemma_remove_named_keeps_others(hs.drop_last(), name);
        reveal(Seq::filter);
        assert(hs.filter(not_named(name)) == if not_named(name)(hs.last()) {
            hs.drop_last().filter(not_named(name)).push(hs.last())
        } else {
            hs.drop_last().filter(not_named(name))
        });
    }
    let r = remove_named(hs, name);
    assert(!exists|i: int| #[trigger] crate::message::is_header_index(r, name, i));
}

/// A `RemoveHeader` rewrite leaves no header of that name (ignoring ASCII case), so that
/// looking the name up finds nothing; every other header stays, in its order; method,
/// URI, version and body are unchanged.
pub proof fn lemma_remove_header_rewrite(m: MsgView, name: String)
    ensures
        header_lookup(rewrite_spec(m, RewriteOp::RemoveHeader { name }).headers, name@) is None,
        forall|i: int|
            0 <= i < rewrite_spec(m, RewriteOp::RemoveHeader { name }).headers.len() ==> !eq_ic(
                #[trigger] rewrite_spec(m, RewriteOp::RemoveHeader { name }).headers[i].0,
                name@,
            ),
        rewrite_spec(m, RewriteOp::RemoveHeader { name }).headers == m.headers.filter(not_named(name@)),
        rewrite_spec(m, RewriteOp::RemoveHeader { name }).method == m.method,
        rewrite_spec(m, RewriteOp::RemoveHeader { name }).uri == m.uri,
        rewrite_spec(m, RewriteOp::RemoveHeader { name }).version == m.version,
        rewrite_spec(m, RewriteOp::RemoveHeader { name }).body == m.body,
{
    lemma_remove_named_keeps_others(m.headers, name@);
}

/// Sets the body to UTF-8 bytes of `text` and the matching `Content-Length`.
fn set_text_body(msg: &mut HttpMessage, text: &String)
    ensures
        final(msg)@ == (MsgView {
            body: encode_utf8(text@),
            headers: set_header_spec(
                old(msg)@.headers,
                "Content-Length"@,
                dec_str(encode_utf8(text@).len()),
            ),
            ..old(msg)@
        }),
{
    let b = crate::http1::utf8_bytes_then(text, None);
    let n = decimal_string(b.len() as u64);
    msg.body = b;
    set_header(msg, "Content-Length", n.as_str());
}

/// Applies one rewrite operation.
pub fn apply_rewrite_op(msg: &mut HttpMessage, op: &RewriteOp)
    ensures
        final(msg)@ == rewrite_spec(old(msg)@, *op),
{
    match op {
        RewriteOp::SetHeader { name, value } => {
            set_header(msg, name.as_str(), value.as_str());
        },
        RewriteOp::RemoveHeader { name } => {
            remove_header(msg, name.as_str());
        },
        RewriteOp::ReplaceBody { pattern, replacement } => {
            let body_str = from_utf8_lossy(msg.body.as_slice());
            match regex_new(pattern.as_str()) {
                Ok(re) => {
                    let new_body = regex_replace(&re, body_str.as_str(), replacement.as_str());
                    set_text_body(msg, &new_body);
                },
                Err(_) => {},
            }
        },
        RewriteOp::SetBody { content } => {
            set_text_body(msg, content);
        },
    }
}

/// Applies rewrite operations in order.
pub fn apply_rewrite_ops(msg: &mut HttpMessage, ops: &Vec<RewriteOp>)
    ensures
        final(msg)@ == rewrite_all_spec(old(msg)@, ops@),
{
    let ghost start = msg@;
    let mut i: usize = 0;
    while i < ops.len()
        invariant
            i <= ops.len(),
            msg@ == rewrite_all_spec(start, ops@.take(i as int)),
        decreases ops.len() - i,
    {
        apply_rewrite_op(msg, &ops[i]);
        assert(ops@.take(i + 1).drop_last() =~= ops@.take(i as int));
        i += 1;
    }
    assert(ops@.take(ops.len() as int) =~= ops@);
}

/// The MapLocal response: the status (200 by default), the body, the optional
/// `Content-Type`, and the body's `Content-Length` when the body is not empty.
pub open spec fn map_local_spec(
    local_body: Seq<char>,
    content_type: Option<String>,
    status_code: Option<u16>,
) -> MsgView {
    let status = match status_code {
        Some(s) => s,
        None => 200u16,
    };
    let base = MsgView { body: encode_utf8(local_body), ..status_response_spec(status) };
    let with_ct = match content_type {
        Some(ct) => MsgView {
            headers: set_header_spec(base.headers, "Content-Type"@, ct@),
            ..base
        },
        None => base,
    };
    if local_body.len() > 0 {
        MsgView {
            headers: set_header_spec(
                with_ct.headers,
                "Content-Length"@,
                dec_str(encode_utf8(local_body).len()),
            ),
            ..with_ct
        }
    } else {
        with_ct
    }
}

fn build_map_local(local_body: &String, content_type: &Option<String>, status_code: Option<u16>) -> (r:
    HttpMessage)
    ensures
        r@ == map_local_spec(local_body@, *content_type, status_code),
{
    let status = match status_code {
        Some(s) => s,
        None => 200u16,
    };
    let mut resp = build_status_response(status);
    let bytes = crate::http1::utf8_bytes_then(local_body, None);
    let n = bytes.len();
    resp.body = bytes;
    match content_type {
        Some(ct) => set_header(&mut resp, "Content-Type", ct.as_str()),
        None => {},
    }
    let lv = chars_of(local_body.as_str());
    if lv.len() > 0 {
        let d = decimal_string(n as u64);
        set_header(&mut resp, "Content-Length", d.as_str());
    }
    resp
}

// ───────────────────────── Rule chains ─────────────────────────

/// The decision of one rule on a request, or `None` when it does not decide.
pub open spec fn request_step(rule: InterceptRule, req: MsgView) -> Option<OutcomeView> {
    match rule {
        InterceptRule::Block { match_, status_code } => if matcher_matches(match_, req) {
            Some(
                OutcomeView::ShortCircuit(
                    status_response_spec(
                        match status_code {
                            Some(s) => s,
                            None => 403u16,
                        },
                    ),
                ),
            )
        } else {
            None
        },
        InterceptRule::MapLocal { match_, local_body, content_type, status_code } => if matcher_matches(
            match_,
            req,
        ) {
            Some(OutcomeView::ShortCircuit(map_local_spec(local_body@, content_type, status_code)))
        } else {
            None
        },
        InterceptRule::MapRemote { match_, target_url } => if matcher_matches(match_, req) {
            Some(
                OutcomeView::Rewritten(
                    MsgView { uri: replace_url_prefix_spec(req.uri, target_url@), ..req },
                ),
            )
        } else {
            None
        },
        InterceptRule::Rewrite { match_, operations } => if matcher_matches(match_, req) {
            Some(OutcomeView::Rewritten(rewrite_all_spec(req, operations@)))
        } else {
            None
        },
        InterceptRule::Breakpoint { match_, on_request, on_response } => if on_request
            && matcher_matches(match_, req) {
            Some(OutcomeView::Pause(Seq::empty(), "request"@))
        } else {
            None
        },
        InterceptRule::ThrottleOrDelay { .. } => None,
    }
}

/// The outcome of a rule chain on a request: the decision of the first rule that decides.
pub open spec fn request_outcome(rules: Seq<RuleEntry>, req: MsgView) -> OutcomeView
    decreases rules.len(),
{
    if rules.len() == 0 {
        OutcomeView::Unchanged
    } else {
        match request_step(rules[0].rule, req) {
            Some(o) => o,
            None => request_outcome(rules.drop_first(), req),
        }
    }
}

/// The decision of one rule on a response to `req`.
pub open spec fn response_step(rule: InterceptRule, res: MsgView, req: MsgView) -> Option<
    OutcomeView,
> {
    match rule {
        InterceptRule::Rewrite { match_, operations } => if matcher_matches(match_, req) {
            Some(OutcomeView::Rewritten(rewrite_all_spec(res, operations@)))
        } else {
            None
        },
        InterceptRule::Breakpoint { match_, on_request, on_response } => if on_response
            && matcher_matches(match_, req) {
            Some(OutcomeView::Pause(Seq::empty(), "response"@))
        } else {
            None
        },
        _ => None,
    }
}

pub open spec fn response_outcome(rules: Seq<RuleEntry>, res: MsgView, req: MsgView) -> OutcomeView
    decreases rules.len(),
{
    if rules.len() == 0 {
        OutcomeView::Unchanged
    } else {
        match response_step(rules[0].rule, res, req) {
            Some(o) => o,
            None => response_outcome(rules.drop_first(), res, req),
        }
    }
}

/// Milliseconds of delay a rule adds to a request.
pub open spec fn delay_of(rule: InterceptRule, req: MsgView) -> nat {
    match rule {
        InterceptRule::ThrottleOrDelay { match_, delay_ms, .. } => if matcher_matches(match_, req) {
            delay_ms as nat
        } else {
            0
        },
        _ => 0,
    }
}

/// Total delay of the matching throttle rules.
pub open spec fn delay_total(rules: Seq<RuleEntry>, req: MsgView) -> nat
    decreases rules.len(),
{
    if rules.len() == 0 {
        0
    } else {
        delay_total(rules.drop_last(), req) + delay_of(rules.last().rule, req)
    }
}

pub open spec fn rule_matcher(rule: InterceptRule) -> RuleMatcher {
    match rule {
        InterceptRule::Breakpoint { match_, .. } => match_,
        InterceptRule::MapLocal { match_, .. } => match_,
        InterceptRule::MapRemote { match_, .. } => match_,
        InterceptRule::Rewrite { match_, .. } => match_,
        InterceptRule::Block { match_, .. } => match_,
        InterceptRule::ThrottleOrDelay { match_, .. } => match_,
    }
}

/// Runs one rule against a request.
pub fn request_step_exec(rule: &InterceptRule, req: &HttpMessage) -> (r: Option<RuleOutcome>)
    ensures
        r matches Some(o) ==> request_step(*rule, req@) == Some(o@),
        r is None ==> request_step(*rule, req@) is None,
{
    match rule {
        InterceptRule::Block { match_, status_code } => {
            if match_.matches(req) {
                let status = match status_code {
                    Some(s) => *s,
                    None => 403u16,
                };
                Some(RuleOutcome::ShortCircuit(build_status_response(status)))
            } else {
                None
            }
        },
        InterceptRule::MapLocal { match_, local_body, content_type, status_code } => {
            if match_.matches(req) {
                Some(RuleOutcome::ShortCircuit(build_map_local(local_body, content_type, *status_code)))
            } else {
                None
            }
        },
        InterceptRule::MapRemote { match_, target_url } => {
            if match_.matches(req) {
                let mut rewritten = copy_message(req);
                rewritten.uri = replace_url_prefix(req.uri.as_str(), target_url.as_str());
                Some(RuleOutcome::Rewritten(rewritten))
            } else {
                None
            }
        },
        InterceptRule::Rewrite { match_, operations } => {
            if match_.matches(req) {
                let mut rewritten = copy_message(req);
                apply_rewrite_ops(&mut rewritten, operations);
                Some(RuleOutcome::Rewritten(rewritten))
            } else {
                None
            }
        },
        InterceptRule::Breakpoint { match_, on_request, on_response: _ } => {
            if *on_request && match_.matches(req) {
                Some(RuleOutcome::Pause(String::new(), string_from_str("request")))
            } else {
                None
            }
        },
        InterceptRule::ThrottleOrDelay { .. } => None,
    }
}

/// Runs a rule chain, in the given order, against a request.
pub fn apply_request_rules_to(rules: &Vec<RuleEntry>, req: &HttpMessage) -> (r: RuleOutcome)
    ensures
        r@ == request_outcome(rules@, req@),
{
    let mut i: usize = 0;
    assert(rules@.skip(0) =~= rules@);
    while i < rules.len()
        invariant
            i <= rules.len(),
            request_outcome(rules@, req@) == request_outcome(rules@.skip(i as int), req@),
        decreases rules.len() - i,
    {
        assert(rules@.skip(i as int)[0] == rules@[i as int]);
        assert(rules@.skip(i as int).drop_first() =~= rules@.skip(i + 1));
        match request_step_exec(&rules[i].rule, req) {
            Some(o) => {
                return o;
            },
            None => {},
        }
        i += 1;
    }
    RuleOutcome::Unchanged
}

/// Runs a rule chain, in the given order, against a response to `original_req`.
pub fn apply_response_rules_to(
    rules: &Vec<RuleEntry>,
    res: &HttpMessage,
    original_req: &HttpMessage,
) -> (r: RuleOutcome)
    ensures
        r@ == response_outcome(rules@, res@, original_req@),
{
    let mut i: usize = 0;
    assert(rules@.skip(0) =~= rules@);
    while i < rules.len()
        invariant
            i <= rules.len(),
            response_outcome(rules@, res@, original_req@) == response_outcome(
                rules@.skip(i as int),
                res@,
                original_req@,
            ),
        decreases rules.len() - i,
    {
        assert(rules@.skip(i as int)[0] == rules@[i as int]);
        assert(rules@.skip(i as int).drop_first() =~= rules@.skip(i + 1));
        match &rules[i].rule {
            InterceptRule::Rewrite { match_, operations } => {
                if match_.matches(original_req) {
                    let mut rewritten = copy_message(res);
                    apply_rewrite_ops(&mut rewritten, operations);
                    return RuleOutcome::Rewritten(rewritten);
                }
            },
            InterceptRule::Breakpoint { match_, on_response, .. } => {
                if *on_response && match_.matches(original_req) {
                    return RuleOutcome::Pause(String::new(), string_from_str("response"));
                }
            },
            _ => {},
        }
        i += 1;
    }
    RuleOutcome::Unchanged
}

/// Total delay of the matching throttle rules, in the given order; `None` when it does
/// not fit in `u64`.
pub fn request_delay_of(rules: &Vec<RuleEntry>, req: &HttpMessage) -> (r: Option<u64>)
    ensures
        r matches Some(t) ==> t as nat == delay_total(rules@, req@),
        r is None <==> delay_total(rules@, req@) > u64::MAX,
{
    let mut total: u64 = 0;
    let mut i: usize = 0;
    while i < rules.len()
        invariant
            i <= rules.len(),
            total as nat == delay_total(rules@.take(i as int), req@),
        decreases rules.len() - i,
    {
        assert(rules@.take(i + 1).drop_last() =~= rules@.take(i as int));
        assert(rules@.take(i + 1).last() == rules@[i as int]);
        match &rules[i].rule {
            InterceptRule::ThrottleOrDelay { match_, delay_ms, .. } => {
                if match_.matches(req) {
                    match total.checked_add(*delay_ms) {
                        Some(t) => {
                            total = t;
                        },
                        None => {
                            proof {
                                assert(rules@ =~= rules@.take(i + 1) + rules@.skip(i + 1));
                                lemma_delay_total_append(rules@.take(i + 1), rules@.skip(i + 1), req@);
                            }
                            return None;
                        },
                    }
                }
            },
            _ => {},
        }
        i += 1;
    }
    assert(rules@.take(rules.len() as int) =~= rules@);
    Some(total)
}

// ───────────────────────── The rule store (dashmap) ─────────────────────────

#[verifier::external_type_specification]
#[verifier::external_body]
#[verifier::reject_recursive_types(K)]
#[verifier::reject_recursive_types(V)]
#[verifier::reject_recursive_types(S)]
pub struct ExDashMap<K, V, S>(DashMap<K, V, S>);

pub type RuleMap = DashMap<String, RuleEntry, RandomState>;

/// The entries of a rule map, keyed by the view of their key.
pub uninterp spec fn rule_map_contents(m: RuleMap) -> Map<Seq<char>, RuleEntry>;

/// `DashMap::new`: an empty map.
#[verifier::external_body]
fn rule_map_new() -> (m: RuleMap)
    ensures
        rule_map_contents(m) =~= Map::empty(),
{
    DashMap::new()
}

/// `DashMap::insert`: sets the key's value and returns the previous one.
#[verifier::external_body]
fn rule_map_insert(m: &mut RuleMap, k: String, v: RuleEntry) -> (r: Option<RuleEntry>)
    ensures
        rule_map_contents(*final(m)) == rule_map_contents(*old(m)).insert(k@, v),
        rule_map_contents(*old(m)).dom().contains(k@) ==> r == Some(rule_map_contents(*old(m))[k@]),
        !rule_map_contents(*old(m)).dom().contains(k@) ==> r is None,
{
    m.insert(k, v)
}

/// `DashMap::remove`: removes the key and returns its value.
#[verifier::external_body]
fn rule_map_remove(m: &mut RuleMap, k: &str) -> (r: Option<RuleEntry>)
    ensures
        rule_map_contents(*final(m)) == rule_map_contents(*old(m)).remove(k@),
        rule_map_contents(*old(m)).dom().contains(k@) ==> r == Some(rule_map_contents(*old(m))[k@]),
        !rule_map_contents(*old(m)).dom().contains(k@) ==> r is None,
{
    m.remove(k).map(|(_, v)| v)
}

/// `DashMap::get`, the value cloned.
#[verifier::external_body]
fn rule_map_get(m: &RuleMap, k: &str) -> (r: Option<RuleEntry>)
    ensures
        rule_map_contents(*m).dom().contains(k@) ==> r == Some(rule_map_contents(*m)[k@]),
        !rule_map_contents(*m).dom().contains(k@) ==> r is None,
{
    m.get(k).map(|e| e.value().clone())
}

/// `DashMap::iter`: every entry once, in an unspecified order, key and value cloned.
#[verifier::external_body]
fn rule_map_entries(m: &RuleMap) -> (r: Vec<(String, RuleEntry)>)
    ensures
        r@.len() == rule_map_contents(*m).dom().len(),
        forall|i: int| 0 <= i < r@.len() ==> rule_map_contents(*m).dom().contains(#[trigger] r@[i].0@),
        forall|i: int| 0 <= i < r@.len() ==> rule_map_contents(*m)[#[trigger] r@[i].0@] == r@[i].1,
        forall|i: int, j: int| 0 <= i < j < r@.len() ==> r@[i].0@ != r@[j].0@,
{
    m.iter().map(|e| (e.key().clone(), e.value().clone())).collect()
}

/// `DashMap::clear`: removes every entry.
#[verifier::external_body]
fn rule_map_clear(m: &mut RuleMap)
    ensures
        rule_map_contents(*final(m)) =~= Map::empty(),
{
    m.clear()
}

// ───────────────────────── RuleEngine ─────────────────────────

/// The ordered rule chain: rules keyed by id, matched in ascending `sort_key` order.
pub struct RuleEngine {
    rules: RuleMap,
}

/// A listing of the rules: each rule once, sorted by ascending `sort_key`.
pub open spec fn is_listing(m: Map<Seq<char>, RuleEntry>, rs: Seq<RuleEntry>) -> bool {
    &&& rs.len() == m.dom().len()
    &&& forall|i: int| 0 <= i < rs.len() ==> m.dom().contains(#[trigger] rs[i].id@)
    &&& forall|i: int| 0 <= i < rs.len() ==> m[#[trigger] rs[i].id@] == rs[i]
    &&& forall|i: int, j: int| 0 <= i < j < rs.len() ==> rs[i].id@ != rs[j].id@
    &&& forall|i: int, j: int| 0 <= i <= j < rs.len() ==> rs[i].sort_key <= rs[j].sort_key
}

/// Lookup of a rule by id in the model of the engine.
pub open spec fn lookup_rule(m: Map<Seq<char>, RuleEntry>, id: Seq<char>) -> Option<RuleEntry> {
    if m.dom().contains(id) {
        Some(m[id])
    } else {
        None
    }
}

impl View for RuleEngine {
    type V = Map<Seq<char>, RuleEntry>;

    closed spec fn view(&self) -> Map<Seq<char>, RuleEntry> {
        rule_map_contents(self.rules)
    }
}

impl RuleEngine {
    /// Every rule is stored under its own id.
    #[verifier::type_invariant]
    closed spec fn keyed_by_id(self) -> bool {
        &&& rule_map_contents(self.rules).dom().finite()
        &&& forall|k: Seq<char>| #[trigger] rule_map_contents(self.rules).dom().contains(k)
            ==> rule_map_contents(self.rules)[k].id@ == k
    }

    pub fn new() -> (r: Self)
        ensures
            r@ =~= Map::<Seq<char>, RuleEntry>::empty(),
    {
        RuleEngine { rules: rule_map_new() }
    }

    /// Adds a rule, or replaces the rule with the same id.
    pub fn upsert(&mut self, entry: RuleEntry)
        ensures
            final(self)@ == old(self)@.insert(entry.id@, entry),
    {
        proof {
            use_type_invariant(&*self);
        }
        let key = entry.id.clone();
        let mut rules = rule_map_new();
        std::mem::swap(&mut rules, &mut self.rules);
        let _ = rule_map_insert(&mut rules, key, entry);
        self.rules = rules;
    }

    /// Removes a rule, returning it.
    pub fn remove(&mut self, id: &str) -> (r: Option<RuleEntry>)
        ensures
            final(self)@ == old(self)@.remove(id@),
            r == lookup_rule(old(self)@, id@),
    {
        proof {
            use_type_invariant(&*self);
        }
        let mut rules = rule_map_new();
        std::mem::swap(&mut rules, &mut self.rules);
        let r = rule_map_remove(&mut rules, id);
        self.rules = rules;
        r
    }

    /// The rule with the given id.
    pub fn get(&self, id: &str) -> (r: Option<RuleEntry>)
        ensures
            r == lookup_rule(self@, id@),
    {
        rule_map_get(&self.rules, id)
    }

    /// Removes every rule.
    pub fn clear(&mut self)
        ensures
            final(self)@ =~= Map::<Seq<char>, RuleEntry>::empty(),
    {
        let mut rules = rule_map_new();
        std::mem::swap(&mut rules, &mut self.rules);
        rule_map_clear(&mut rules);
        self.rules = rules;
    }

    /// All rules, sorted by ascending `sort_key` (rules with equal keys in map order).
    pub fn list(&self) -> (r: Vec<RuleEntry>)
        ensures
            is_listing(self@, r@),
    {
        proof {
            use_type_invariant(self);
        }
        let mut entries = rule_map_entries(&self.rules);
        let ghost orig = entries@;
        let ghost m = self@;
        let mut out: Vec<RuleEntry> = Vec::new();
        while entries.len() > 0
            invariant
                m == self@,
                orig.len() == m.dom().len(),
                forall|k: int| 0 <= k < orig.len() ==> m.dom().contains(#[trigger] orig[k].0@),
                forall|k: int| 0 <= k < orig.len() ==> m[#[trigger] orig[k].0@] == orig[k].1,
                forall|a: int, b: int| 0 <= a < b < orig.len() ==> orig[a].0@ != orig[b].0@,
                forall|k: Seq<char>| #[trigger] m.dom().contains(k) ==> m[k].id@ == k,
                entries@ == orig.take(entries@.len() as int),
                entries@.len() <= orig.len(),
                out@.len() + entries@.len() == orig.len(),
                forall|j: int| 0 <= j < out@.len() ==> exists|k: int|
                    entries@.len() <= k < orig.len() && #[trigger] out@[j] == orig[k].1,
                forall|a: int, b: int| 0 <= a < b < out@.len() ==> out@[a].id@ != out@[b].id@,
                forall|a: int, b: int| 0 <= a <= b < out@.len() ==> out@[a].sort_key <= out@[b].sort_key,
            decreases entries.len(),
        {
            let ghost n = entries@.len() - 1;
            let (_k, e) = entries.pop().unwrap();
            assert(e == orig[n].1);
            assert(entries@ =~= orig.take(n));
            let key = e.sort_key;
            let mut p: usize = 0;
            while p < out.len() && out[p].sort_key <= key
                invariant
                    p <= out@.len(),
                    forall|j: int| 0 <= j < p ==> out@[j].sort_key <= key,
                decreases out.len() - p,
            {
                p += 1;
            }
            let ghost prev = out@;
            proof {
                assert(e.id@ == orig[n].0@);
                assert forall|j: int| 0 <= j < prev.len() implies prev[j].id@ != e.id@ by {
                    let k = choose|k: int| n + 1 <= k < orig.len() && #[trigger] prev[j] == orig[k].1;
                    assert(prev[j].id@ == orig[k].0@);
                }
                assert forall|j: int| p <= j < prev.len() implies prev[j].sort_key > key by {
                    assert(prev[p as int].sort_key <= prev[j].sort_key);
                }
            }
            out.insert(p, e);
            proof {
                assert(out@ == prev.insert(p as int, e));
                assert forall|j: int| 0 <= j < out@.len() implies exists|k: int|
                    entries@.len() <= k < orig.len() && #[trigger] out@[j] == orig[k].1 by {
                    if j < p {
                        assert(out@[j] == prev[j]);
                        let k = choose|k: int| n + 1 <= k < orig.len() && #[trigger] prev[j] == orig[k].1;
                        assert(out@[j] == orig[k].1);
                    } else if j == p {
                        assert(out@[j] == orig[n].1);
                    } else {
                        assert(out@[j] == prev[j - 1]);
                        let k = choose|k: int| n + 1 <= k < orig.len() && #[trigger] prev[j - 1] == orig[k].1;
                        assert(out@[j] == orig[k].1);
                    }
                }
                assert forall|a: int, b: int| 0 <= a < b < out@.len() implies out@[a].id@ != out@[b].id@ by {
                    if a < p && b < p {
                        assert(out@[a] == prev[a] && out@[b] == prev[b]);
                    } else if a < p && b == p {
                        assert(out@[a] == prev[a]);
                    } else if a < p {
                        assert(out@[a] == prev[a] && out@[b] == prev[b - 1]);
                    } else if a == p {
                        assert(out@[b] == prev[b - 1]);
                    } else {
                        assert(out@[a] == prev[a - 1] && out@[b] == prev[b - 1]);
                    }
                }
                assert forall|a: int, b: int| 0 <= a <= b < out@.len() implies out@[a].sort_key <= out@[b].sort_key by {
                    if a < p && b < p {
                        assert(out@[a] == prev[a] && out@[b] == prev[b]);
                    } else if a < p && b == p {
                        assert(out@[a] == prev[a]);
                    } else if a < p {
                        assert(out@[a] == prev[a] && out@[b] == prev[b - 1]);
                    } else if a == p && b > p {
                        assert(out@[b] == prev[b - 1]);
                    } else if a > p {
                        assert(out@[a] == prev[a - 1] && out@[b] == prev[b - 1]);
                    }
                }
            }
        }
        proof {
            assert forall|i: int| 0 <= i < out@.len() implies m.dom().contains(#[trigger] out@[i].id@)
                && m[out@[i].id@] == out@[i] by {
                let k = choose|k: int| 0 <= k < orig.len() && #[trigger] out@[i] == orig[k].1;
                assert(out@[i].id@ == orig[k].0@);
            }
        }
        out
    }

    /// Runs the request through the rule chain in `sort_key` order: the first rule that
    /// decides wins; with no decision the request passes `Unchanged`. Delay rules never
    /// decide (their delay is computed by `compute_request_delay`).
    pub fn apply_request_rules(&self, req: &HttpMessage) -> (r: RuleOutcome)
        ensures
            exists|rs: Seq<RuleEntry>| is_listing(self@, rs) && r@ == request_outcome(rs, req@),
    {
        let rules = self.list();
        let r = apply_request_rules_to(&rules, req);
        assert(is_listing(self@, rules@) && r@ == request_outcome(rules@, req@));
        r
    }

    /// Whether the delays of the throttle rules that match the request add up to at most
    /// `u64::MAX` milliseconds (the sum does not depend on the order of the rules).
    pub fn request_delay_fits(&self, req: &HttpMessage) -> (r: bool)
        ensures
            r == delay_fits(self@, req@),
    {
        proof {
            use_type_invariant(self);
        }
        let rules = self.list();
        let r = request_delay_of(&rules, req).is_some();
        proof {
            assert forall|rs: Seq<RuleEntry>| is_listing(self@, rs) implies delay_total(rs, req@)
                == delay_total(rules@, req@) by {
                lemma_listings_same_delay(self@, rs, rules@, req@);
            }
        }
        r
    }

    /// Sum of the delays of every throttle rule that matches the request. The sum must
    /// fit in `u64` (see `request_delay_fits`).
    pub fn compute_request_delay(&self, req: &HttpMessage) -> (r: Duration)
        requires
            delay_fits(self@, req@),
        ensures
            exists|rs: Seq<RuleEntry>|
                is_listing(self@, rs) && r == duration_of_millis(delay_total(rs, req@) as u64),
    {
        let rules = self.list();
        let ms: u64 = match request_delay_of(&rules, req) {
            Some(t) => t,
            None => 0,
        };
        let r = duration_from_millis(ms);
        assert(is_listing(self@, rules@) && r == duration_of_millis(delay_total(rules@, req@) as u64));
        r
    }

    /// Runs a response through the rule chain, matching the rules against the request
    /// that produced it: the first rewrite or response breakpoint that matches decides.
    pub fn apply_response_rules(&self, res: &HttpMessage, original_req: &HttpMessage) -> (r:
        RuleOutcome)
        ensures
            exists|rs: Seq<RuleEntry>|
                is_listing(self@, rs) && r@ == response_outcome(rs, res@, original_req@),
    {
        let rules = self.list();
        let r = apply_response_rules_to(&rules, res, original_req);
        assert(is_listing(self@, rules@) && r@ == response_outcome(rules@, res@, original_req@));
        r
    }
}

impl Default for RuleEngine {
    fn default() -> (r: Self)
        ensures
            r@ =~= Map::<Seq<char>, RuleEntry>::empty(),
    {
        RuleEngine::new()
    }
}

/// The duration of `ms` milliseconds, as `Duration::from_millis` builds it.
pub uninterp spec fn duration_of_millis(ms: u64) -> Duration;

/// `std::time::Duration::from_millis`.
#[verifier::external_body]
fn duration_from_millis(ms: u64) -> (d: Duration)
    ensures
        d == duration_of_millis(ms),
{
    Duration::from_millis(ms)
}

// ───────────────────────── Laws of the rule engine ─────────────────────────

/// After `upsert(e)`, `get(e.id)` gives `e`, and every other id keeps its rule.
pub proof fn lemma_upsert_then_get(m: Map<Seq<char>, RuleEntry>, e: RuleEntry, other: Seq<char>)
    ensures
        lookup_rule(m.insert(e.id@, e), e.id@) == Some(e),
        other != e.id@ ==> lookup_rule(m.insert(e.id@, e), other) == lookup_rule(m, other),
{
}

/// After `remove(id)`, `get(id)` gives nothing, and every other id keeps its rule.
pub proof fn lemma_remove_then_get(m: Map<Seq<char>, RuleEntry>, id: Seq<char>, other: Seq<char>)
    ensures
        lookup_rule(m.remove(id), id) is None,
        other != id ==> lookup_rule(m.remove(id), other) == lookup_rule(m, other),
{
}

/// The request chain returns the decision of the first rule that decides; when no rule
/// decides the request passes unchanged.
pub proof fn lemma_first_decision_wins(rules: Seq<RuleEntry>, req: MsgView, k: int)
    requires
        0 <= k <= rules.len(),
        forall|j: int| 0 <= j < k ==> (#[trigger] request_step(rules[j].rule, req)) is None,
        k < rules.len() ==> request_step(rules[k].rule, req) is Some,
    ensures
        k < rules.len() ==> request_outcome(rules, req) == request_step(rules[k].rule, req)->0,
        k == rules.len() ==> request_outcome(rules, req) == OutcomeView::Unchanged,
    decreases k,
{
    if k > 0 {
        let tail = rules.drop_first();
        assert forall|j: int| 0 <= j < k - 1 implies (#[trigger] request_step(tail[j].rule, req)) is None by {
            assert(tail[j] == rules[j + 1]);
            assert(request_step(rules[j + 1].rule, req) is None);
        }
        if k < rules.len() {
            assert(tail[k - 1] == rules[k]);
        }
        lemma_first_decision_wins(tail, req, k - 1);
        assert(request_step(rules[0].rule, req) is None);
    }
}

/// A delay rule never decides a request or a response: putting one in front of a chain
/// does not change the chain's decision.
pub proof fn lemma_delay_rule_falls_through(d: RuleEntry, rules: Seq<RuleEntry>, req: MsgView, res: MsgView)
    requires
        d.rule is ThrottleOrDelay,
    ensures
        request_outcome(seq![d] + rules, req) == request_outcome(rules, req),
        response_outcome(seq![d] + rules, res, req) == response_outcome(rules, res, req),
{
    assert((seq![d] + rules).drop_first() =~= rules);
}

/// Delays add up: the delay of a chain is the delay of its first part plus that of the rest.
pub proof fn lemma_delay_total_append(a: Seq<RuleEntry>, b: Seq<RuleEntry>, req: MsgView)
    ensures
        delay_total(a + b, req) == delay_total(a, req) + delay_total(b, req),
    decreases b.len(),
{
    if b.len() == 0 {
        assert(a + b =~= a);
    } else {
        assert((a + b).drop_last() =~= a + b.drop_last());
        lemma_delay_total_append(a, b.drop_last(), req);
    }
}

/// The delays of a chain fit in `u64`, whatever the order of the rules.
pub open spec fn delay_fits(m: Map<Seq<char>, RuleEntry>, req: MsgView) -> bool {
    forall|rs: Seq<RuleEntry>| is_listing(m, rs) ==> delay_total(rs, req) <= u64::MAX
}

proof fn lemma_delay_total_remove(s: Seq<RuleEntry>, j: int, req: MsgView)
    requires
        0 <= j < s.len(),
    ensures
        delay_total(s, req) == delay_total(s.remove(j), req) + delay_of(s[j].rule, req),
    decreases s.len(),
{
    if j == s.len() - 1 {
        assert(s.remove(j) =~= s.drop_last());
    } else {
        lemma_delay_total_remove(s.drop_last(), j, req);
        assert(s.remove(j).drop_last() =~= s.drop_last().remove(j));
        assert(s.remove(j).last() == s.last());
    }
}

pub open spec fn occurs_in(b: Seq<RuleEntry>, e: RuleEntry) -> bool {
    exists|j: int| 0 <= j < b.len() && b[j] == e
}

proof fn lemma_delay_total_rearranged(a: Seq<RuleEntry>, b: Seq<RuleEntry>, req: MsgView)
    requires
        a.len() == b.len(),
        forall|i: int, j: int| 0 <= i < j < a.len() ==> a[i].id@ != a[j].id@,
        forall|i: int| 0 <= i < a.len() ==> occurs_in(b, #[trigger] a[i]),
    ensures
        delay_total(a, req) == delay_total(b, req),
    decreases a.len(),
{
    if a.len() > 0 {
        let n = a.len() - 1;
        let x = a[n];
        assert(occurs_in(b, a[n]));
        let j = choose|j: int| 0 <= j < b.len() && b[j] == x;
        let a2 = a.drop_last();
        let b2 = b.remove(j);
        assert forall|i: int| 0 <= i < a2.len() implies occurs_in(b2, #[trigger] a2[i]) by {
            assert(a2[i] == a[i]);
            assert(occurs_in(b, a[i]));
            let k = choose|k: int| 0 <= k < b.len() && b[k] == a[i];
            assert(a[i].id@ != x.id@);
            if k < j {
                assert(b2[k] == b[k]);
            } else {
                assert(k > j);
                assert(b2[k - 1] == b[k]);
            }
        }
        lemma_delay_total_rearranged(a2, b2, req);
        lemma_delay_total_remove(b, j, req);
    }
}

/// Every listing of a finite rule map holds each rule of the map.
proof fn lemma_listing_covers(m: Map<Seq<char>, RuleEntry>, b: Seq<RuleEntry>, k: Seq<char>)
    requires
        m.dom().finite(),
        is_listing(m, b),
        m.dom().contains(k),
    ensures
        occurs_in(b, m[k]),
{
    let ids = b.map_values(|e: RuleEntry| e.id@);
    assert(ids.no_duplicates()) by {
        assert forall|i: int, j: int| 0 <= i < ids.len() && 0 <= j < ids.len() && i != j implies ids[i]
            != ids[j] by {
            if i < j {
                assert(b[i].id@ != b[j].id@);
            } else {
                assert(b[j].id@ != b[i].id@);
            }
        }
    }
    ids.unique_seq_to_set();
    assert(ids.to_set().subset_of(m.dom())) by {
        assert forall|x: Seq<char>| ids.to_set().contains(x) implies m.dom().contains(x) by {
            assert(ids.contains(x));
            let i = choose|i: int| 0 <= i < ids.len() && ids[i] == x;
            assert(m.dom().contains(b[i].id@));
        }
    }
    vstd::seq_lib::seq_to_set_is_finite(ids);
    vstd::set_lib::lemma_subset_equality(ids.to_set(), m.dom());
    assert(ids.to_set().contains(k));
    assert(ids.contains(k));
    let i = choose|i: int| 0 <= i < ids.len() && ids[i] == k;
    assert(b[i].id@ == k);
    assert(b[i] == m[k]);
}

/// Two listings of the same rules have the same total delay: the sum does not depend on
/// the order in which rules with equal sort keys come.
pub proof fn lemma_listings_same_delay(
    m: Map<Seq<char>, RuleEntry>,
    a: Seq<RuleEntry>,
    b: Seq<RuleEntry>,
    req: MsgView,
)
    requires
        m.dom().finite(),
        is_listing(m, a),
        is_listing(m, b),
    ensures
        delay_total(a, req) == delay_total(b, req),
{
    assert forall|i: int| 0 <= i < a.len() implies occurs_in(b, #[trigger] a[i]) by {
        lemma_listing_covers(m, b, a[i].id@);
    }
    lemma_delay_total_rearranged(a, b, req);
}

/// No header left by `remove_named` has the removed name.
proof fn lemma_remove_named_excludes(hs: HeaderSeq, name: Seq<char>)
    ensures
        forall|i: int| 0 <= i < remove_named(hs, name).len() ==> !eq_ic(#[trigger] remove_named(hs, name)[i].0, name),
    decreases hs.len(),
{
    if hs.len() > 0 {
        let prev = remove_named(hs.drop_last(), name);
        lemma_remove_named_excludes(hs.drop_last(), name);
        if !eq_ic(hs.last().0, name) {
            let r = prev.push(hs.last());
            assert forall|i: int| 0 <= i < r.len() implies !eq_ic(#[trigger] r[i].0, name) by {
                if i < prev.len() {
                    assert(r[i] == prev[i]);
                }
            }
        }
    }
}

/// After removing a header, looking it up finds nothing.
pub proof fn lemma_remove_then_lookup(hs: HeaderSeq, name: Seq<char>)
    ensures
        header_lookup(remove_named(hs, name), name) is None,
{
    let r = remove_named(hs, name);
    lemma_remove_named_excludes(hs, name);
    assert(!exists|k: int| #[trigger] crate::message::is_header_index(r, name, k));
}

/// After setting a header, looking it up (in any ASCII case) gives the value set.
pub proof fn lemma_set_then_lookup(hs: HeaderSeq, name: Seq<char>, value: Seq<char>)
    ensures
        header_lookup(set_header_spec(hs, name, value), name) == Some(value),
{
    let r = remove_named(hs, name);
    let t = set_header_spec(hs, name, value);
    lemma_remove_named_excludes(hs, name);
    assert(t[r.len() as int] == (name, value));
    assert(eq_ic(name, name));
    assert forall|j: int| 0 <= j < r.len() implies !eq_ic(#[trigger] t[j].0, name) by {
        assert(t[j] == r[j]);
    }
    assert(crate::message::is_header_index(t, name, r.len() as int));
    let k = choose|k: int| #[trigger] crate::message::is_header_index(t, name, k);
    if k < r.len() {
        assert(t[k] == r[k]);
    }
    assert(k == r.len());
}

} // verus!
