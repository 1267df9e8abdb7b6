//! Routing of proxied connections: what the first request line asks for, where a
//! request goes upstream, and how the `Host` header follows a rewritten target.
use vstd::prelude::*;
use crate::message::{
    FlowContext, HeaderSeq, HttpMessage, MsgView, header_lookup, headers_view, rest_chars,
    prefix_chars,
};
use crate::rules::{copy_message, has_http_scheme, lemma_literal_prefixes};
use crate::text::{
    chars_of, copy_string, dec_str, lower_char, decimal_string, eq_ic, eq_ignore_ascii_case,
    from_utf8_lossy, last_of, lemma_skip_ws_bounds, lemma_word_end_bounds, parse_unsigned,
    parse_unsigned_chars, push_char, push_str, rfind_char, skip_ws_exec, starts_with,
    starts_with_exec, string_from_str, string_of, string_of_range, utf8_lossy, word_end_exec,
    words, words_from,
};
use vstd::slice::slice_subrange;

verus! {

// ───────────────────────── Host and port text ─────────────────────────

/// First index at or after `i` holding `/` (or, when `query` is set, `?`), or the end.
pub open spec fn stop_index(s: Seq<char>, i: int, query: bool) -> int
    decreases s.len() - i,
{
    if 0 <= i < s.len() && s[i] != '/' && !(query && s[i] == '?') {
        stop_index(s, i + 1, query)
    } else {
        i
    }
}

/// A port number, or `default` when the text is not one.
pub open spec fn port_or(p: Seq<char>, default: u16) -> u16 {
    match parse_unsigned(p, u16::MAX as nat) {
        Some(n) => n as u16,
        None => default,
    }
}

/// Length of the scheme prefix of an `http://` or `https://` URI.
pub open spec fn scheme_prefix_len(u: Seq<char>) -> int {
    if starts_with(u, "https://"@) {
        8
    } else {
        7
    }
}

/// `host:port` split at the last `:`; a missing or invalid port gives `default`.
pub open spec fn split_host_port(hp: Seq<char>, default: u16) -> (Seq<char>, u16) {
    match last_of(hp, ':') {
        Some(c) => (hp.take(c), port_or(hp.skip(c + 1), default)),
        None => (hp, default),
    }
}

fn stop_index_exec(v: &Vec<char>, query: bool) -> (r: usize)
    ensures
        r == stop_index(v@, 0, query),
        r <= v.len(),
{
    let mut j: usize = 0;
    while j < v.len() && v[j] != '/' && !(query && v[j] == '?')
        invariant
            j <= v.len(),
            stop_index(v@, j as int, query) == stop_index(v@, 0, query),
        decreases v.len() - j,
    {
        j += 1;
    }
    j
}

fn parse_port_text(v: &Vec<char>, from: usize) -> (r: Option<u16>)
    requires
        from <= v.len(),
    ensures
        r matches Some(p) ==> parse_unsigned(v@.skip(from as int), u16::MAX as nat) == Some(p as nat),
        r is None ==> parse_unsigned(v@.skip(from as int), u16::MAX as nat) is None,
{
    let t = rest_chars(v, from);
    match parse_unsigned_chars(&t, 65535) {
        Some(x) => Some(x as u16),
        None => None,
    }
}

fn split_host_port_exec(hp: &Vec<char>, default: u16) -> (r: (String, u16))
    ensures
        (r.0@, r.1) == split_host_port(hp@, default),
{
    match rfind_char(hp, ':') {
        Some(c) => {
            let n = hp.len();
            assert(c < n);
            let host = string_of_range(hp, 0, c);
            let port = match parse_port_text(hp, c + 1) {
                Some(p) => p,
                None => default,
            };
            assert(hp@.subrange(0, c as int) =~= hp@.take(c as int));
            (host, port)
        },
        None => (string_of(hp), default),
    }
}

// ───────────────────────── The first request line ─────────────────────────

/// Target of an explicit-proxy request line `METHOD http://host[:port]/path VERSION`:
/// the authority of an absolute URI, port 80 when absent or invalid; `None` for a
/// relative URI or a line with fewer than two words.
pub open spec fn request_line_target(line: Seq<char>) -> Option<(Seq<char>, u16)> {
    let ws = words(line);
    if ws.len() < 2 || !has_http_scheme(ws[1]) {
        None
    } else {
        let rest = ws[1].skip(scheme_prefix_len(ws[1]));
        Some(split_host_port(rest.take(stop_index(rest, 0, false)), 80))
    }
}

/// The second word of a line and whether it exists.
fn second_word(v: &Vec<char>) -> (r: Option<Vec<char>>)
    ensures
        words(v@).len() >= 2 ==> (r matches Some(w) && w@ == words(v@)[1]),
        words(v@).len() < 2 ==> r is None,
{
    let ghost s = v@;
    let a0 = skip_ws_exec(v, 0);
    proof {
        lemma_skip_ws_bounds(s, 0);
    }
    if a0 >= v.len() {
        assert(words_from(s, 0) == Seq::<Seq<char>>::empty());
        return None;
    }
    let b0 = word_end_exec(v, a0);
    let a1 = skip_ws_exec(v, b0);
    proof {
        lemma_word_end_bounds(s, a0 as int);
        lemma_skip_ws_bounds(s, b0 as int);
        assert(words_from(s, 0) == seq![s.subrange(a0 as int, b0 as int)] + words_from(s, b0 as int));
    }
    if a1 >= v.len() {
        assert(words_from(s, b0 as int) == Seq::<Seq<char>>::empty());
        return None;
    }
    let b1 = word_end_exec(v, a1);
    proof {
        lemma_word_end_bounds(s, a1 as int);
        assert(words_from(s, b0 as int) == seq![s.subrange(a1 as int, b1 as int)] + words_from(s, b1 as int));
    }
    let mut w: Vec<char> = Vec::new();
    let mut i = a1;
    while i < b1
        invariant
            a1 <= i <= b1 <= v.len(),
            w@ == v@.subrange(a1 as int, i as int),
        decreases b1 - i,
    {
        w.push(v[i]);
        i += 1;
        assert(w@ =~= v@.subrange(a1 as int, i as int));
    }
    Some(w)
}

/// Target host and port of an explicit-proxy request line.
pub fn parse_host_from_request(request_line: &str) -> (r: Option<(String, u16)>)
    ensures
        match request_line_target(request_line@) {
            Some((h, p)) => r matches Some((hs, pp)) && hs@ == h && pp == p,
            None => r is None,
        },
{
    let v = chars_of(request_line);
    let uri = match second_word(&v) {
        Some(w) => w,
        None => return None,
    };
    proof {
        lemma_literal_prefixes();
    }
    let https = starts_with_exec(&uri, "https://");
    if !https && !starts_with_exec(&uri, "http://") {
        return None;
    }
    let skip: usize = if https {
        8
    } else {
        7
    };
    let rest = rest_chars(&uri, skip);
    let end = stop_index_exec(&rest, false);
    let hp = prefix_chars(&rest, end);
    Some(split_host_port_exec(&hp, 80))
}

/// Where a new connection goes, from its first line.
pub enum ConnectionRoute {
    /// A `CONNECT` tunnel request.
    Connect,
    /// A plain proxied request to this host and port.
    Plain(String, u16),
}

/// Routing of a connection's first line: `CONNECT ` opens a tunnel; anything else is a
/// plain request to the target of the line, `localhost:80` when it names none.
pub fn route_first_line(first_line: &str) -> (r: ConnectionRoute)
    ensures
        starts_with(first_line@, "CONNECT "@) ==> r is Connect,
        !starts_with(first_line@, "CONNECT "@) ==> match request_line_target(first_line@) {
            Some((h, p)) => r matches ConnectionRoute::Plain(hs, pp) && hs@ == h && pp == p,
            None => r matches ConnectionRoute::Plain(hs, pp) && hs@ == "localhost"@ && pp == 80,
        },
{
    let v = chars_of(first_line);
    if starts_with_exec(&v, "CONNECT ") {
        return ConnectionRoute::Connect;
    }
    match parse_host_from_request(first_line) {
        Some((h, p)) => ConnectionRoute::Plain(h, p),
        None => ConnectionRoute::Plain(string_from_str("localhost"), 80),
    }
}

/// End of the first line of peeked bytes: the index of the first CR LF, or the end.
pub open spec fn line_end_from(d: Seq<u8>, i: int) -> int
    decreases d.len() - i,
{
    if i < 0 || i + 1 >= d.len() {
        d.len() as int
    } else if d[i] == 13 && d[i + 1] == 10 {
        i
    } else {
        line_end_from(d, i + 1)
    }
}

/// The first line of peeked bytes (up to the first CR LF, or all of them), decoded
/// leniently.
fn line_end_exec(data: &[u8]) -> (r: usize)
    ensures
        r == line_end_from(data@, 0),
        r <= data@.len(),
{
    let mut i: usize = 0;
    while i < data.len() && data.len() - i >= 2
        invariant
            i <= data@.len(),
            line_end_from(data@, i as int) == line_end_from(data@, 0),
        decreases data.len() - i,
    {
        if data[i] == 13 && data[i + 1] == 10 {
            return i;
        }
        i += 1;
    }
    data.len()
}

/// The first line of peeked bytes (up to the first CR LF, or all of them), decoded
/// leniently.
pub fn first_line_of(data: &[u8]) -> (r: String)
    ensures
        r@ == utf8_lossy(data@.take(line_end_from(data@, 0))),
{
    let end = line_end_exec(data);
    let head = slice_subrange(data, 0, end);
    assert(head@ =~= data@.take(line_end_from(data@, 0)));
    from_utf8_lossy(head)
}

// ───────────────────────── Upstream targets ─────────────────────────

/// Upstream of an absolute URI: host, port (the scheme's default when absent or
/// invalid) and whether it is `https`; `None` for a relative URI or an empty authority.
pub open spec fn upstream_target(uri: Seq<char>) -> Option<(Seq<char>, u16, bool)> {
    let https = starts_with(uri, "https://"@);
    if !https && !starts_with(uri, "http://"@) {
        None
    } else {
        let rest = uri.skip(scheme_prefix_len(uri));
        let hp = rest.take(stop_index(rest, 0, true));
        if hp.len() == 0 {
            None
        } else {
            let (h, p) = split_host_port(hp, if https { 443u16 } else { 80u16 });
            Some((h, p, https))
        }
    }
}

/// Upstream target of an absolute URI, as rewritten by a map-remote rule.
pub fn upstream_from_uri(uri: &str) -> (r: Option<(String, u16, bool)>)
    ensures
        match upstream_target(uri@) {
            Some((h, p, t)) => r matches Some((hs, pp, tt)) && hs@ == h && pp == p && tt == t,
            None => r is None,
        },
{
    let v = chars_of(uri);
    proof {
        lemma_literal_prefixes();
    }
    let https = starts_with_exec(&v, "https://");
    if !https && !starts_with_exec(&v, "http://") {
        return None;
    }
    let skip: usize = if https {
        8
    } else {
        7
    };
    let rest = rest_chars(&v, skip);
    let end = stop_index_exec(&rest, true);
    if end == 0 {
        return None;
    }
    let hp = prefix_chars(&rest, end);
    let default: u16 = if https {
        443
    } else {
        80
    };
    let (h, p) = split_host_port_exec(&hp, default);
    Some((h, p, https))
}

/// Target named by a `Host` header value: `host:port` with a valid port, or a bare
/// host on port 80; `None` when the text after the last `:` is not a port.
pub open spec fn host_header_target(host: Seq<char>) -> Option<(Seq<char>, u16)> {
    match last_of(host, ':') {
        Some(c) => match parse_unsigned(host.skip(c + 1), u16::MAX as nat) {
            Some(p) => Some((host.take(c), p as u16)),
            None => None,
        },
        None => Some((host, 80u16)),
    }
}

/// The target a request names: the authority of an absolute URI, else its `Host` header.
pub open spec fn request_target(req: MsgView) -> Option<(Seq<char>, u16)> {
    if has_http_scheme(req.uri) {
        match upstream_target(req.uri) {
            Some((h, p, _)) => Some((h, p)),
            None => None,
        }
    } else {
        match header_lookup(req.headers, seq!['h', 'o', 's', 't']) {
            Some(h) => host_header_target(h),
            None => None,
        }
    }
}

/// A request whose URI has no `http(s)://` scheme goes where its `Host` header points: a
/// value without `:` is a host name on port 80, the plain-HTTP port.
pub proof fn lemma_host_header_default_port(req: MsgView, host: Seq<char>)
    requires
        !has_http_scheme(req.uri),
        header_lookup(req.headers, "host"@) == Some(host),
        forall|i: int| 0 <= i < host.len() ==> host[i] != ':',
    ensures
        host_header_target(host) == Some((host, 80u16)),
        request_target(req) == Some((host, 80u16)),
{
    reveal_strlit("host");
    assert("host"@ =~= seq!['h', 'o', 's', 't']);
    assert(!exists|i: int| #[trigger] crate::text::is_last(host, ':', i));
}

fn host_header_target_exec(host: &str) -> (r: Option<(String, u16)>)
    ensures
        match host_header_target(host@) {
            Some((h, p)) => r matches Some((hs, pp)) && hs@ == h && pp == p,
            None => r is None,
        },
{
    let v = chars_of(host);
    match rfind_char(&v, ':') {
        Some(c) => match parse_port_text(&v, c + 1) {
            Some(p) => {
                let h = string_of_range(&v, 0, c);
                assert(v@.subrange(0, c as int) =~= v@.take(c as int));
                Some((h, p))
            },
            None => None,
        },
        None => Some((string_of(&v), 80)),
    }
}

/// The target of a request: the absolute URI first, else the `Host` header, else the
/// fallback. When the request names a target, the context is pointed at it.
pub fn resolve_target_from_req(
    req: &HttpMessage,
    fallback_host: &str,
    fallback_port: u16,
    ctx: &mut FlowContext,
) -> (r: (String, u16))
    ensures
        match request_target(req@) {
            Some((h, p)) => r.0@ == h && r.1 == p && final(ctx).target_host@ == h
                && final(ctx).target_port == p && final(ctx).sni == old(ctx).sni
                && final(ctx).flow_id == old(ctx).flow_id,
            None => r.0@ == fallback_host@ && r.1 == fallback_port && *final(ctx) == *old(ctx),
        },
{
    let v = chars_of(req.uri.as_str());
    proof {
        lemma_literal_prefixes();
    }
    let resolved = if starts_with_exec(&v, "http://") || starts_with_exec(&v, "https://") {
        match upstream_from_uri(req.uri.as_str()) {
            Some((h, p, _)) => Some((h, p)),
            None => None,
        }
    } else {
        proof {
            reveal_strlit("host");
            assert("host"@ =~= seq!['h', 'o', 's', 't']);
        }
        match req.header("host") {
            Some(host) => host_header_target_exec(host),
            None => None,
        }
    };
    match resolved {
        Some((h, p)) => {
            ctx.target_host = h.clone();
            ctx.target_port = p;
            (h, p)
        },
        None => (fallback_host.to_string(), fallback_port),
    }
}

/// Where a request is forwarded: the upstream of its absolute URI, else the context's
/// target (over TLS exactly when that port is 443).
pub fn resolve_upstream(req: &HttpMessage, ctx_host: &str, ctx_port: u16) -> (r: (String, u16, bool))
    ensures
        match upstream_target(req@.uri) {
            Some((h, p, t)) => r.0@ == h && r.1 == p && r.2 == t,
            None => r.0@ == ctx_host@ && r.1 == ctx_port && r.2 == (ctx_port == 443),
        },
{
    match upstream_from_uri(req.uri.as_str()) {
        Some((host, port, is_tls)) => (host, port, is_tls),
        None => (ctx_host.to_string(), ctx_port, ctx_port == 443),
    }
}

// ───────────────────────── Host header synchronisation ─────────────────────────

/// The `Host` value for an upstream: the bare host on the default ports 80 and 443,
/// `host:port` otherwise.
pub open spec fn host_value(host: Seq<char>, port: u16) -> Seq<char> {
    if port == 80 || port == 443 {
        host
    } else {
        host + seq![':'] + dec_str(port as nat)
    }
}

pub open spec fn is_host_name(n: Seq<char>) -> bool {
    eq_ic(n, seq!['h', 'o', 's', 't'])
}

/// Every `Host` header set to `value`; when there is none, one is appended.
pub open spec fn synced_host_headers(hs: HeaderSeq, value: Seq<char>) -> HeaderSeq {
    if exists|i: int| 0 <= i < hs.len() && is_host_name(#[trigger] hs[i].0) {
        Seq::new(hs.len(), |i: int| if is_host_name(hs[i].0) { (hs[i].0, value) } else { hs[i] })
    } else {
        hs.push((seq!['H', 'o', 's', 't'], value))
    }
}

/// Points the `Host` header at the upstream after its target was rewritten.
pub fn sync_host_header(req: &mut HttpMessage, host: &str, port: u16)
    ensures
        final(req)@ == (MsgView {
            headers: synced_host_headers(old(req)@.headers, host_value(host@, port)),
            ..old(req)@
        }),
{
    let mut value = string_from_str(host);
    if !(port == 80 || port == 443) {
        push_char(&mut value, ':');
        let d = decimal_string(port as u64);
        push_str(&mut value, d.as_str());
    }
    assert(value@ =~= host_value(host@, port));
    proof {
        reveal_strlit("host");
        assert("host"@ =~= seq!['h', 'o', 's', 't']);
    }
    let ghost hs0 = headers_view(req.headers@);
    let ghost value_v = value@;
    let mut headers: Vec<(String, String)> = Vec::new();
    std::mem::swap(&mut headers, &mut req.headers);
    let mut out: Vec<(String, String)> = Vec::new();
    let mut replaced = false;
    let mut i: usize = 0;
    while i < headers.len()
        invariant
            i <= headers.len(),
            hs0 == headers_view(headers@),
            value@ == value_v,
            out@.len() == i,
            forall|j: int| 0 <= j < i ==> (#[trigger] headers_view(out@)[j]) == (if is_host_name(hs0[j].0) {
                (hs0[j].0, value_v)
            } else {
                hs0[j]
            }),
            replaced <==> exists|j: int| 0 <= j < i && is_host_name(#[trigger] hs0[j].0),
            "host"@ == seq!['h', 'o', 's', 't'],
        decreases headers.len() - i,
    {
        let name = copy_string(&headers[i].0);
        let ghost hj = hs0[i as int];
        assert(headers_view(headers@)[i as int] == hj);
        let ghost prev = out@;
        if eq_ignore_ascii_case(name.as_str(), "host") {
            out.push((name, copy_string(&value)));
            replaced = true;
        } else {
            out.push((name, copy_string(&headers[i].1)));
        }
        proof {
            assert(out@ == prev.push(out@[i as int]));
            assert forall|j: int| 0 <= j < i + 1 implies (#[trigger] headers_view(out@)[j]) == (if is_host_name(hs0[j].0) {
                (hs0[j].0, value_v)
            } else {
                hs0[j]
            }) by {
                if j < i {
                    assert(headers_view(out@)[j] == headers_view(prev)[j]);
                }
            }
            if is_host_name(hj.0) {
                assert(is_host_name(hs0[i as int].0));
            }
        }
        i += 1;
    }
    if !replaced {
        let ghost prev = out@;
        assert forall|j: int| 0 <= j < hs0.len() implies headers_view(prev)[j] == hs0[j] by {
            if is_host_name(hs0[j].0) {
                assert(exists|k: int| 0 <= k < i && is_host_name(#[trigger] hs0[k].0));
            }
        }
        out.push((string_from_str("Host"), value));
        proof {
            reveal_strlit("Host");
            assert("Host"@ =~= seq!['H', 'o', 's', 't']);
            assert(forall|j: int| 0 <= j < hs0.len() ==> headers_view(out@)[j] == headers_view(prev)[j]);
            assert(headers_view(out@) =~= hs0.push((seq!['H', 'o', 's', 't'], value_v)));
        }
    } else {
        assert(headers_view(out@) =~= Seq::new(hs0.len(), |j: int| if is_host_name(hs0[j].0) {
            (hs0[j].0, value_v)
        } else {
            hs0[j]
        }));
    }
    req.headers = out;
}

// ───────────────────────── Requests inside an intercepted TLS tunnel ─────────────────────────

/// A request read inside a TLS tunnel to `host:port`, as sent upstream: an absolute URI
/// stays; a relative one becomes `scheme://host:port` + URI (`https` on port 443).
pub open spec fn tunnel_upstream_request(req: MsgView, host: Seq<char>, port: u16) -> MsgView {
    if has_http_scheme(req.uri) {
        req
    } else {
        let scheme = if port == 443 { "https"@ } else { "http"@ };
        MsgView {
            uri: scheme + "://"@ + host + seq![':'] + dec_str(port as nat) + req.uri,
            ..req
        }
    }
}

pub fn tunnel_upstream_request_exec(req: &HttpMessage, host: &str, port: u16) -> (r: HttpMessage)
    ensures
        r@ == tunnel_upstream_request(req@, host@, port),
{
    let v = chars_of(req.uri.as_str());
    proof {
        lemma_literal_prefixes();
    }
    let mut out = copy_message(req);
    if starts_with_exec(&v, "http://") || starts_with_exec(&v, "https://") {
        return out;
    }
    let mut uri = if port == 443 {
        string_from_str("https")
    } else {
        string_from_str("http")
    };
    push_str(&mut uri, "://");
    push_str(&mut uri, host);
    push_char(&mut uri, ':');
    let d = decimal_string(port as u64);
    push_str(&mut uri, d.as_str());
    push_str(&mut uri, req.uri.as_str());
    let ghost scheme = if port == 443 { "https"@ } else { "http"@ };
    assert(uri@ =~= scheme + "://"@ + host@ + seq![':'] + dec_str(port as nat) + req.uri@);
    out.uri = uri;
    assert(out@ == tunnel_upstream_request(req@, host@, port));
    out
}

/// After the `Host` header is synchronised, looking it up gives the new value.
pub proof fn lemma_sync_then_host(hs: HeaderSeq, value: Seq<char>)
    ensures
        header_lookup(synced_host_headers(hs, value), seq!['h', 'o', 's', 't']) == Some(value),
{
    let host = seq!['h', 'o', 's', 't'];
    let t = synced_host_headers(hs, value);
    if exists|i: int| 0 <= i < hs.len() && is_host_name(#[trigger] hs[i].0) {
        let w = choose|i: int| 0 <= i < hs.len() && is_host_name(#[trigger] hs[i].0);
        assert(crate::message::is_header_index(hs, host, w) || exists|k: int| #[trigger] crate::message::is_header_index(hs, host, k)) by {
            lemma_some_first_header(hs, host, w);
        }
        let i = choose|k: int| #[trigger] crate::message::is_header_index(hs, host, k);
        assert(crate::message::is_header_index(t, host, i)) by {
            assert forall|j: int| 0 <= j < i implies !eq_ic(#[trigger] t[j].0, host) by {
                assert(t[j].0 == hs[j].0);
                assert(!eq_ic(hs[j].0, host));
            }
            assert(t[i].0 == hs[i].0);
        }
        let k = choose|k: int| #[trigger] crate::message::is_header_index(t, host, k);
        if k < i {
            assert(t[k].0 == hs[k].0);
        } else if k > i {
            assert(!eq_ic(t[i].0, host));
        }
        assert(k == i);
        assert(t[i] == (hs[i].0, value));
    } else {
        assert(eq_ic(seq!['H', 'o', 's', 't'], host)) by {
            assert(lower_char('H') == 'h');
        }
        let n = hs.len() as int;
        assert(t[n] == (seq!['H', 'o', 's', 't'], value));
        assert forall|j: int| 0 <= j < n implies !eq_ic(#[trigger] t[j].0, host) by {
            assert(t[j] == hs[j]);
            assert(!is_host_name(hs[j].0));
        }
        assert(crate::message::is_header_index(t, host, n));
        let k = choose|k: int| #[trigger] crate::message::is_header_index(t, host, k);
        if k < n {
            assert(t[k] == hs[k]);
            assert(!is_host_name(hs[k].0));
        }
        assert(k == n);
    }
}

/// Some index holds the first header of a name that occurs.
proof fn lemma_some_first_header(hs: HeaderSeq, name: Seq<char>, w: int)
    requires
        0 <= w < hs.len(),
        eq_ic(hs[w].0, name),
    ensures
        exists|k: int| #[trigger] crate::message::is_header_index(hs, name, k),
    decreases w,
{
    if forall|j: int| 0 <= j < w ==> !eq_ic(#[trigger] hs[j].0, name) {
        assert(crate::message::is_header_index(hs, name, w));
    } else {
        let j = choose|j: int| 0 <= j < w && eq_ic(#[trigger] hs[j].0, name);
        lemma_some_first_header(hs, name, j);
    }
}

} // verus!
