//! HTTP/1.1 message framing: head scanning and parsing, body framing decisions,
//! chunked-encoding steps and normalized serialization.
//!
//! The stream I/O itself stays with the caller, which reads bytes and asks these
//! functions what to do next. Serialization always drops the original
//! `Content-Length`, `Transfer-Encoding` and `Proxy-Connection` headers and writes one
//! `Content-Length` equal to the real body length (none for bodiless statuses).
use vstd::prelude::*;
use vstd::utf8::encode_utf8;
use crate::error::ProxyError;
use crate::lines::{lines, split_lines, splitn3, splitn3_exec};
use crate::message::{
    HeaderSeq, HttpMessage, MsgView, header_lookup, header_name_index, headers_view,
};
use crate::text::{
    ascii_lowercase, chars_of, dec_str, decimal_string, ends_with, ends_with_exec, eq_ic, lower_char,
    eq_ignore_ascii_case, find_char_from, first_from, from_utf8_lossy, is_whitespace, is_ws, lead_ws, lower_seq,
    parse_unsigned, parse_usize, push_chars, push_str, str_eq, string_from_str, string_of,
    string_of_range, trim_bounds, trim_seq, trim_str, utf8_lossy,
};

verus! {

/// Size limit of the head section (start line and all headers).
pub const MAX_HEADER_BYTES: usize = 65536;

/// Size limit of a body (shared by `Content-Length` and chunked bodies).
pub const MAX_BODY_BYTES: usize = 67108864;

/// Size limit of a single chunk.
pub const MAX_CHUNK_BYTES: usize = 16777216;

// ───────────────────────── Transfer-Encoding ─────────────────────────

pub open spec fn header_is_chunked(h: (Seq<char>, Seq<char>)) -> bool {
    &&& eq_ic(h.0, "transfer-encoding"@)
    &&& ends_with(lower_seq(h.1), "chunked"@)
}

/// The body is chunked when some `Transfer-Encoding` value ends with `chunked`.
pub open spec fn spec_is_chunked(hs: HeaderSeq) -> bool {
    exists|i: int| 0 <= i < hs.len() && #[trigger] header_is_chunked(hs[i])
}

pub fn is_chunked(headers: &Vec<(String, String)>) -> (r: bool)
    ensures
        r == spec_is_chunked(headers_view(headers@)),
{
    let ghost hs = headers_view(headers@);
    let mut i: usize = 0;
    while i < headers.len()
        invariant
            i <= headers.len(),
            hs == headers_view(headers@),
            forall|j: int| 0 <= j < i ==> !header_is_chunked(#[trigger] hs[j]),
        decreases headers.len() - i,
    {
        let named = eq_ignore_ascii_case(headers[i].0.as_str(), "transfer-encoding");
        if named {
            let lower = ascii_lowercase(headers[i].1.as_str());
            let lv = chars_of(lower.as_str());
            let suffix = chars_of("chunked");
            if ends_with_exec(&lv, &suffix) {
                assert(header_is_chunked(hs[i as int]));
                return true;
            }
        }
        assert(!header_is_chunked(hs[i as int]));
        i += 1;
    }
    false
}

// ───────────────────────── Head scanning ─────────────────────────

/// What the reader should do after appending one byte to the head buffer.
#[derive(Debug, Clone, Copy, PartialEq, Eq)]
pub enum HeadScan {
    /// Keep reading.
    NeedMore,
    /// The buffer ends with `\r\n\r\n`: the head is complete.
    Complete,
    /// The buffer exceeds [`MAX_HEADER_BYTES`].
    TooLarge,
}

pub open spec fn ends_with_bytes(b: Seq<u8>, t: Seq<u8>) -> bool {
    t.len() <= b.len() && b.subrange(b.len() - t.len(), b.len() as int) == t
}

pub open spec fn crlf() -> Seq<u8> {
    seq![13u8, 10u8]
}

pub open spec fn crlfcrlf() -> Seq<u8> {
    seq![13u8, 10u8, 13u8, 10u8]
}

pub fn ends_with_bytes_exec(b: &Vec<u8>, t: &Vec<u8>) -> (r: bool)
    ensures
        r == ends_with_bytes(b@, t@),
{
    if t.len() > b.len() {
        return false;
    }
    let off = b.len() - t.len();
    let mut k: usize = 0;
    while k < t.len()
        invariant
            off + t.len() == b.len(),
            k <= t.len(),
            forall|j: int| 0 <= j < k ==> b@[off + j] == t@[j],
        decreases t.len() - k,
    {
        if b[off + k] != t[k] {
            assert(b@.subrange(off as int, b.len() as int)[k as int] != t@[k as int]);
            return false;
        }
        k += 1;
    }
    assert(b@.subrange(off as int, b.len() as int) =~= t@);
    true
}

/// The head scan decision after each byte (size limit first, then the terminator).
pub fn scan_head_buffer(buf: &Vec<u8>) -> (r: HeadScan)
    ensures
        buf@.len() > MAX_HEADER_BYTES ==> r == HeadScan::TooLarge,
        buf@.len() <= MAX_HEADER_BYTES && ends_with_bytes(buf@, crlfcrlf()) ==> r
            == HeadScan::Complete,
        buf@.len() <= MAX_HEADER_BYTES && !ends_with_bytes(buf@, crlfcrlf()) ==> r
            == HeadScan::NeedMore,
{
    if buf.len() > MAX_HEADER_BYTES {
        return HeadScan::TooLarge;
    }
    let t: Vec<u8> = vec![13u8, 10u8, 13u8, 10u8];
    assert(t@ =~= crlfcrlf());
    if ends_with_bytes_exec(buf, &t) {
        HeadScan::Complete
    } else {
        HeadScan::NeedMore
    }
}

// ───────────────────────── Head parsing ─────────────────────────

/// A header line: name and value around the first `:`, both trimmed; empty lines and
/// lines without `:` carry no header.
pub open spec fn header_of_line(l: Seq<char>) -> Option<(Seq<char>, Seq<char>)> {
    if l.len() == 0 {
        None
    } else {
        match first_from(l, 0, ':') {
            None => None,
            Some(p) => Some((trim_seq(l.take(p)), trim_seq(l.skip(p + 1)))),
        }
    }
}

pub open spec fn headers_of_lines(ls: Seq<Seq<char>>) -> HeaderSeq
    decreases ls.len(),
{
    if ls.len() == 0 {
        Seq::empty()
    } else {
        let rest = headers_of_lines(ls.drop_last());
        match header_of_line(ls.last()) {
            Some(h) => rest.push(h),
            None => rest,
        }
    }
}

/// Request model parsed from the head text (the body is read separately).
pub open spec fn request_of_head(text: Seq<char>) -> MsgView {
    let ls = lines(text);
    let parts = splitn3(ls[0]);
    MsgView {
        method: parts[0],
        uri: parts[1],
        version: parts[2],
        headers: headers_of_lines(ls.skip(1)),
        body: Seq::empty(),
    }
}

pub fn header_of_line_exec(l: &Vec<char>) -> (r: Option<(String, String)>)
    ensures
        r matches Some(h) ==> header_of_line(l@) == Some((h.0@, h.1@)),
        r is None ==> header_of_line(l@) is None,
{
    if l.len() == 0 {
        return None;
    }
    match find_char_from(l, 0, ':') {
        None => None,
        Some(p) => {
            let (a, b) = trim_bounds(l, 0, p);
            let (c, d) = trim_bounds(l, p + 1, l.len());
            let name = string_of_range(l, a, b);
            let value = string_of_range(l, c, d);
            assert(l@.subrange(0, p as int) =~= l@.take(p as int));
            assert(l@.subrange(p + 1, l.len() as int) =~= l@.skip(p + 1));
            Some((name, value))
        },
    }
}

/// Headers of lines `ls[from..]`.
pub fn headers_from_lines(ls: &Vec<Vec<char>>, from: usize) -> (r: Vec<(String, String)>)
    requires
        from <= ls@.len(),
    ensures
        headers_view(r@) == headers_of_lines(
            Seq::new(ls@.len() as nat, |i: int| ls@[i]@).skip(from as int),
        ),
{
    let ghost all = Seq::new(ls@.len() as nat, |i: int| ls@[i]@);
    let mut out: Vec<(String, String)> = Vec::new();
    let mut i = from;
    proof {
        assert(all.subrange(from as int, from as int) =~= Seq::<Seq<char>>::empty());
        assert(headers_view(out@) =~= headers_of_lines(all.subrange(from as int, from as int)));
    }
    while i < ls.len()
        invariant
            from <= i <= ls@.len(),
            all == Seq::new(ls@.len() as nat, |i: int| ls@[i]@),
            headers_view(out@) == headers_of_lines(all.subrange(from as int, i as int)),
        decreases ls.len() - i,
    {
        let h = header_of_line_exec(&ls[i]);
        let ghost prev = out@;
        proof {
            let sub = all.subrange(from as int, i + 1);
            assert(sub.drop_last() =~= all.subrange(from as int, i as int));
            assert(sub.last() == ls@[i as int]@);
        }
        match h {
            Some(kv) => {
                out.push(kv);
                assert(headers_view(out@) =~= headers_view(prev).push((out@.last().0@, out@.last().1@)));
            },
            None => {},
        }
        i += 1;
    }
    assert(all.subrange(from as int, ls@.len() as int) =~= all.skip(from as int));
    out
}

pub fn lines_view_exec(ls: &Vec<Vec<char>>) -> (r: Ghost<Seq<Seq<char>>>)
    ensures
        r@ == Seq::new(ls@.len() as nat, |i: int| ls@[i]@),
{
    Ghost(Seq::new(ls@.len() as nat, |i: int| ls@[i]@))
}

/// Parses the text of a request head (without the final blank line).
pub fn parse_request_head(text: &str) -> (r: Result<HttpMessage, ProxyError>)
    ensures
        lines(text@).len() == 0 ==> (r matches Err(ProxyError::HttpParse(m)) && m@
            == "empty request: no request-line"@),
        lines(text@).len() > 0 && splitn3(lines(text@)[0]).len() != 3 ==> (r matches Err(
            ProxyError::HttpParse(m),
        ) && m@ == "malformed request-line: "@ + lines(text@)[0]),
        lines(text@).len() > 0 && splitn3(lines(text@)[0]).len() == 3 ==> (r matches Ok(msg)
            && msg@ == request_of_head(text@)),
{
    let v = chars_of(text);
    let ls = split_lines(&v);
    let ghost lsv = Seq::new(ls@.len() as nat, |i: int| ls@[i]@);
    assert(lsv =~= lines(text@));
    if ls.len() == 0 {
        return Err(ProxyError::HttpParse(string_from_str("empty request: no request-line")));
    }
    let parts = splitn3_exec(&ls[0]);
    if parts.len() != 3 {
        let mut m = string_from_str("malformed request-line: ");
        push_chars(&mut m, &ls[0]);
        return Err(ProxyError::HttpParse(m));
    }
    let method = string_of(&parts[0]);
    let uri = string_of(&parts[1]);
    let version = string_of(&parts[2]);
    let headers = headers_from_lines(&ls, 1);
    let msg = HttpMessage { method, uri, version, headers, body: Vec::new() };
    assert(msg@.body =~= Seq::<u8>::empty());
    Ok(msg)
}

/// Response model parsed from the head text: the status line becomes the `:status`
/// pseudo header `"{code} {reason}"`.
pub open spec fn response_of_head(text: Seq<char>) -> MsgView {
    let ls = lines(text);
    let parts = splitn3(ls[0]);
    let reason = if parts.len() == 3 {
        parts[2]
    } else {
        Seq::empty()
    };
    MsgView {
        method: Seq::empty(),
        uri: Seq::empty(),
        version: parts[0],
        headers: seq![(":status"@, parts[1] + " "@ + reason)] + headers_of_lines(ls.skip(1)),
        body: Seq::empty(),
    }
}

/// Status code text of a response head.
pub open spec fn status_code_of_head(text: Seq<char>) -> Seq<char> {
    splitn3(lines(text)[0])[1]
}

/// Parses the text of a response head; also returns the status code text.
pub fn parse_response_head(text: &str) -> (r: Result<(HttpMessage, String), ProxyError>)
    ensures
        lines(text@).len() == 0 ==> (r matches Err(ProxyError::HttpParse(m)) && m@
            == "empty response: no status-line"@),
        lines(text@).len() > 0 && splitn3(lines(text@)[0]).len() < 2 ==> (r matches Err(
            ProxyError::HttpParse(m),
        ) && m@ == "malformed status-line: "@ + lines(text@)[0]),
        lines(text@).len() > 0 && splitn3(lines(text@)[0]).len() >= 2 ==> (r matches Ok(res)
            && res.0@ == response_of_head(text@) && res.1@ == status_code_of_head(text@)),
{
    let v = chars_of(text);
    let ls = split_lines(&v);
    let ghost lsv = Seq::new(ls@.len() as nat, |i: int| ls@[i]@);
    assert(lsv =~= lines(text@));
    if ls.len() == 0 {
        return Err(ProxyError::HttpParse(string_from_str("empty response: no status-line")));
    }
    let parts = splitn3_exec(&ls[0]);
    if parts.len() < 2 {
        let mut m = string_from_str("malformed status-line: ");
        push_chars(&mut m, &ls[0]);
        return Err(ProxyError::HttpParse(m));
    }
    let version = string_of(&parts[0]);
    let code = string_of(&parts[1]);
    let mut status = string_of(&parts[1]);
    push_str(&mut status, " ");
    if parts.len() == 3 {
        push_chars(&mut status, &parts[2]);
    }
    let ghost reason = if parts@.len() == 3 {
        parts@[2]@
    } else {
        Seq::<char>::empty()
    };
    assert(status@ =~= parts@[1]@ + " "@ + reason);
    let rest = headers_from_lines(&ls, 1);
    let ghost first = (":status"@, parts@[1]@ + " "@ + reason);
    let mut headers: Vec<(String, String)> = Vec::new();
    headers.push((string_from_str(":status"), status));
    assert(headers_view(headers@) =~= seq![first] + headers_view(rest@).take(0));
    let mut i: usize = 0;
    while i < rest.len()
        invariant
            i <= rest.len(),
            headers@.len() == i + 1,
            headers_view(headers@) == seq![first] + headers_view(rest@).take(i as int),
        decreases rest.len() - i,
    {
        let n = rest[i].0.clone();
        let val = rest[i].1.clone();
        let ghost prev = headers@;
        headers.push((n, val));
        assert(headers@ == prev.push((n, val)));
        assert(headers_view(headers@) =~= headers_view(prev).push((rest@[i as int].0@, rest@[i as int].1@)));
        i += 1;
        assert(headers_view(headers@) =~= seq![first] + headers_view(rest@).take(i as int));
    }
    assert(headers_view(rest@).take(rest.len() as int) =~= headers_view(rest@));
    let msg = HttpMessage {
        method: String::new(),
        uri: String::new(),
        version,
        headers,
        body: Vec::new(),
    };
    assert(msg@.body =~= Seq::<u8>::empty());
    assert(msg@ == response_of_head(text@)) by {
        assert(msg@.headers =~= response_of_head(text@).headers);
    }
    Ok((msg, code))
}

/// Parses a request head read as bytes: the bytes are decoded as UTF-8 with each
/// invalid sequence replaced by U+FFFD, then parsed as `parse_request_head` does.
pub fn parse_request_head_bytes(head: &[u8]) -> (r: Result<HttpMessage, ProxyError>)
    ensures
        lines(utf8_lossy(head@)).len() == 0 ==> (r matches Err(ProxyError::HttpParse(m)) && m@
            == "empty request: no request-line"@),
        lines(utf8_lossy(head@)).len() > 0 && splitn3(lines(utf8_lossy(head@))[0]).len() != 3 ==> (
        r matches Err(ProxyError::HttpParse(m)) && m@ == "malformed request-line: "@ + lines(
            utf8_lossy(head@),
        )[0]),
        lines(utf8_lossy(head@)).len() > 0 && splitn3(lines(utf8_lossy(head@))[0]).len() == 3 ==> (
        r matches Ok(msg) && msg@ == request_of_head(utf8_lossy(head@))),
{
    let text = from_utf8_lossy(head);
    parse_request_head(text.as_str())
}

/// Parses a response head read as bytes: the bytes are decoded as UTF-8 with each
/// invalid sequence replaced by U+FFFD, then parsed as `parse_response_head` does.
pub fn parse_response_head_bytes(head: &[u8]) -> (r: Result<(HttpMessage, String), ProxyError>)
    ensures
        lines(utf8_lossy(head@)).len() == 0 ==> (r matches Err(ProxyError::HttpParse(m)) && m@
            == "empty response: no status-line"@),
        lines(utf8_lossy(head@)).len() > 0 && splitn3(lines(utf8_lossy(head@))[0]).len() < 2 ==> (
        r matches Err(ProxyError::HttpParse(m)) && m@ == "malformed status-line: "@ + lines(
            utf8_lossy(head@),
        )[0]),
        lines(utf8_lossy(head@)).len() > 0 && splitn3(lines(utf8_lossy(head@))[0]).len() >= 2 ==> (
        r matches Ok(res) && res.0@ == response_of_head(utf8_lossy(head@)) && res.1@
            == status_code_of_head(utf8_lossy(head@))),
{
    let text = from_utf8_lossy(head);
    parse_response_head(text.as_str())
}

// ───────────────────────── Body framing ─────────────────────────

/// How the body following a head is delimited.
#[derive(Debug, Clone, Copy, PartialEq, Eq)]
pub enum BodyFraming {
    /// Chunked transfer encoding.
    Chunked,
    /// Exactly this many bytes follow (at most [`MAX_BODY_BYTES`], never 0).
    Length(usize),
    /// No body.
    Empty,
}

/// The value of the first `Content-Length` header, when it parses as a `usize`.
pub open spec fn content_length_of(hs: HeaderSeq) -> Option<nat> {
    match header_lookup(hs, "content-length"@) {
        Some(v) => parse_unsigned(v, usize::MAX as nat),
        None => None,
    }
}

/// The framing decided from the headers; `None` when the declared length is over the limit.
pub open spec fn spec_body_framing(hs: HeaderSeq) -> Option<BodyFraming> {
    if spec_is_chunked(hs) {
        Some(BodyFraming::Chunked)
    } else {
        match content_length_of(hs) {
            None => Some(BodyFraming::Empty),
            Some(n) => if n == 0 {
                Some(BodyFraming::Empty)
            } else if n > MAX_BODY_BYTES {
                None
            } else {
                Some(BodyFraming::Length(n as usize))
            },
        }
    }
}

/// Decides how the body is delimited, rejecting a `Content-Length` above the limit.
pub fn body_framing(headers: &Vec<(String, String)>) -> (r: Result<BodyFraming, ProxyError>)
    ensures
        spec_body_framing(headers_view(headers@)) matches Some(f) ==> r == Ok::<
            BodyFraming,
            ProxyError,
        >(f),
        spec_body_framing(headers_view(headers@)) is None ==> (r matches Err(
            ProxyError::HttpParse(m),
        ) && m@ == "content-length "@ + dec_str(content_length_of(headers_view(headers@))->0)
            + " exceeds 67108864 bytes limit"@),
{
    if is_chunked(headers) {
        return Ok(BodyFraming::Chunked);
    }
    let cl: Option<usize> = match header_name_index(headers, "content-length") {
        Some(i) => parse_usize(headers[i].1.as_str()),
        None => None,
    };
    match cl {
        None => Ok(BodyFraming::Empty),
        Some(len) => {
            if len == 0 {
                Ok(BodyFraming::Empty)
            } else if len > MAX_BODY_BYTES {
                let mut m = string_from_str("content-length ");
                let d = decimal_string(len as u64);
                push_str(&mut m, d.as_str());
                push_str(&mut m, " exceeds 67108864 bytes limit");
                Err(ProxyError::HttpParse(m))
            } else {
                Ok(BodyFraming::Length(len))
            }
        },
    }
}

/// Bodiless responses: to `HEAD`, and with status 204, 304 or 1xx.
pub open spec fn spec_response_has_no_body(method: Seq<char>, code: Seq<char>) -> bool {
    ||| eq_ic(method, "HEAD"@)
    ||| code == "204"@
    ||| code == "304"@
    ||| (code.len() > 0 && code[0] == '1')
}

pub fn response_has_no_body(request_method: &str, status_code: &str) -> (r: bool)
    ensures
        r == spec_response_has_no_body(request_method@, status_code@),
{
    let code = chars_of(status_code);
    eq_ignore_ascii_case(request_method, "HEAD") || str_eq(status_code, "204") || str_eq(
        status_code,
        "304",
    ) || (code.len() > 0 && code[0] == '1')
}

/// Which responses carry no body: every response with status 204 (No Content), 304 (Not
/// Modified) or 1xx (informational), whatever the request method, and every response to
/// a `HEAD` request, in any letter case; any other response is read with its body.
pub proof fn lemma_bodiless_responses(method: Seq<char>, code: Seq<char>)
    ensures
        spec_response_has_no_body(method, "204"@),
        spec_response_has_no_body(method, "304"@),
        code.len() > 0 && code[0] == '1' ==> spec_response_has_no_body(method, code),
        spec_response_has_no_body("HEAD"@, code),
        spec_response_has_no_body("head"@, code),
        !eq_ic(method, "HEAD"@) && code != "204"@ && code != "304"@ && !(code.len() > 0
            && code[0] == '1') ==> !spec_response_has_no_body(method, code),
        !spec_response_has_no_body("GET"@, "200"@),
        !spec_response_has_no_body("POST"@, "404"@),
{
    reveal_strlit("HEAD");
    reveal_strlit("head");
    reveal_strlit("GET");
    reveal_strlit("POST");
    reveal_strlit("200");
    reveal_strlit("204");
    reveal_strlit("304");
    reveal_strlit("404");
    assert(eq_ic("head"@, "HEAD"@));
    assert(!eq_ic("GET"@, "HEAD"@));
    assert(lower_char("POST"@[0]) != lower_char("HEAD"@[0]));
    assert(!eq_ic("POST"@, "HEAD"@));
    assert("200"@[2] != "204"@[2] && "200"@[0] != "304"@[0]);
    assert("404"@[0] != "204"@[0] && "404"@[0] != "304"@[0]);
}

// ───────────────────────── Chunked encoding ─────────────────────────

/// What the reader should do after appending one byte to a chunk-size line.
#[derive(Debug, Clone, Copy, PartialEq, Eq)]
pub enum LineScan {
    NeedMore,
    /// The line ends with `\r\n`.
    Complete,
    /// The line exceeds [`MAX_HEADER_BYTES`].
    TooLarge,
}

pub fn scan_chunk_line(line: &Vec<u8>) -> (r: LineScan)
    ensures
        line@.len() > MAX_HEADER_BYTES ==> r == LineScan::TooLarge,
        line@.len() <= MAX_HEADER_BYTES && ends_with_bytes(line@, crlf()) ==> r
            == LineScan::Complete,
        line@.len() <= MAX_HEADER_BYTES && !ends_with_bytes(line@, crlf()) ==> r
            == LineScan::NeedMore,
{
    if line.len() > MAX_HEADER_BYTES {
        return LineScan::TooLarge;
    }
    let t: Vec<u8> = vec![13u8, 10u8];
    assert(t@ =~= crlf());
    if ends_with_bytes_exec(line, &t) {
        LineScan::Complete
    } else {
        LineScan::NeedMore
    }
}

/// A trailer section ends at an empty line.
pub fn is_trailer_end(line: &Vec<u8>) -> (r: bool)
    ensures
        r == (line@ == crlf()),
{
    let r = line.len() == 2 && line[0] == 13u8 && line[1] == 10u8;
    proof {
        if r {
            assert(line@ =~= crlf());
        }
    }
    r
}

/// Kinds of `ParseIntError`.
#[derive(Debug, Clone, Copy, PartialEq, Eq)]
pub enum IntErrorKind {
    Empty,
    InvalidDigit,
    PosOverflow,
}

pub open spec fn hex_value(c: char) -> Option<nat> {
    if '0' <= c && c <= '9' {
        Some(((c as u32) - 48) as nat)
    } else if 'a' <= c && c <= 'f' {
        Some(((c as u32) - 87) as nat)
    } else if 'A' <= c && c <= 'F' {
        Some(((c as u32) - 55) as nat)
    } else {
        None
    }
}

/// Left-to-right accumulation of hexadecimal digits, failing at the first bad digit or
/// at the first digit that takes the value above `max`.
pub open spec fn hex_scan(d: Seq<char>, max: nat) -> Result<nat, IntErrorKind>
    decreases d.len(),
{
    if d.len() == 0 {
        Ok(0)
    } else {
        match hex_scan(d.drop_last(), max) {
            Err(e) => Err(e),
            Ok(acc) => match hex_value(d.last()) {
                None => Err(IntErrorKind::InvalidDigit),
                Some(x) => if acc * 16 + x > max {
                    Err(IntErrorKind::PosOverflow)
                } else {
                    Ok(acc * 16 + x)
                },
            },
        }
    }
}

/// `usize::from_str_radix(s, 16)`.
pub open spec fn parse_hex(s: Seq<char>, max: nat) -> Result<nat, IntErrorKind> {
    if s.len() == 0 {
        Err(IntErrorKind::Empty)
    } else if s.len() == 1 && (s[0] == '+' || s[0] == '-') {
        Err(IntErrorKind::InvalidDigit)
    } else if s[0] == '+' {
        hex_scan(s.drop_first(), max)
    } else {
        hex_scan(s, max)
    }
}

pub open spec fn int_error_text(k: IntErrorKind) -> Seq<char> {
    match k {
        IntErrorKind::Empty => "cannot parse integer from empty string"@,
        IntErrorKind::InvalidDigit => "invalid digit found in string"@,
        IntErrorKind::PosOverflow => "number too large to fit in target type"@,
    }
}

pub fn hex_digit(c: char) -> (r: Option<u64>)
    ensures
        r matches Some(x) ==> hex_value(c) == Some(x as nat),
        r is None ==> hex_value(c) is None,
{
    if '0' <= c && c <= '9' {
        Some((c as u32 - 48) as u64)
    } else if 'a' <= c && c <= 'f' {
        Some((c as u32 - 87) as u64)
    } else if 'A' <= c && c <= 'F' {
        Some((c as u32 - 55) as u64)
    } else {
        None
    }
}

/// `usize::from_str_radix(digits, 16)` on `v[from..]` after the sign handling.
fn hex_scan_exec(v: &Vec<char>, from: usize) -> (r: Result<usize, IntErrorKind>)
    requires
        from <= v.len(),
    ensures
        ({
            let d = v@.skip(from as int);
            &&& r matches Ok(x) ==> hex_scan(d, usize::MAX as nat) == Ok::<nat, IntErrorKind>(
                x as nat,
            )
            &&& r matches Err(e) ==> hex_scan(d, usize::MAX as nat) == Err::<nat, IntErrorKind>(
                e,
            )
        }),
{
    let ghost d = v@.skip(from as int);
    let mut acc: usize = 0;
    let mut i = from;
    assert(d.take(0) =~= Seq::<char>::empty());
    while i < v.len()
        invariant
            from <= i <= v.len(),
            d == v@.skip(from as int),
            hex_scan(d.take(i - from), usize::MAX as nat) == Ok::<nat, IntErrorKind>(acc as nat),
        decreases v.len() - i,
    {
        assert(d.take(i + 1 - from).drop_last() =~= d.take(i - from));
        assert(d.take(i + 1 - from).last() == v@[i as int]);
        match hex_digit(v[i]) {
            None => {
                proof {
                    lemma_hex_scan_err_prefix(d, i + 1 - from, IntErrorKind::InvalidDigit);
                }
                return Err(IntErrorKind::InvalidDigit);
            },
            Some(x) => {
                if acc > (usize::MAX - x as usize) / 16 {
                    assert(acc * 16 + x > usize::MAX) by (nonlinear_arith)
                        requires
                            acc > (usize::MAX - x) / 16,
                            x < 16,
                    ;
                    proof {
                        lemma_hex_scan_err_prefix(d, i + 1 - from, IntErrorKind::PosOverflow);
                    }
                    return Err(IntErrorKind::PosOverflow);
                }
                assert(acc * 16 + x <= usize::MAX) by (nonlinear_arith)
                    requires
                        acc <= (usize::MAX - x) / 16,
                        x < 16,
                ;
                acc = acc * 16 + x as usize;
            },
        }
        i += 1;
    }
    assert(d.take(v.len() - from) =~= d);
    Ok(acc)
}

/// An error on a prefix stays the error of the whole sequence.
pub proof fn lemma_hex_scan_err_prefix(d: Seq<char>, k: int, e: IntErrorKind)
    requires
        0 <= k <= d.len(),
        hex_scan(d.take(k), usize::MAX as nat) == Err::<nat, IntErrorKind>(e),
    ensures
        hex_scan(d, usize::MAX as nat) == Err::<nat, IntErrorKind>(e),
    decreases d.len() - k,
{
    if k == d.len() {
        assert(d.take(k) =~= d);
    } else {
        assert(d.take(k + 1).drop_last() =~= d.take(k));
        lemma_hex_scan_err_prefix(d, k + 1, e);
    }
}

/// `usize::from_str_radix(s, 16)`.
pub fn parse_hex_usize(v: &Vec<char>) -> (r: Result<usize, IntErrorKind>)
    ensures
        r matches Ok(x) ==> parse_hex(v@, usize::MAX as nat) == Ok::<nat, IntErrorKind>(x as nat),
        r matches Err(e) ==> parse_hex(v@, usize::MAX as nat) == Err::<nat, IntErrorKind>(e),
{
    if v.len() == 0 {
        return Err(IntErrorKind::Empty);
    }
    if v.len() == 1 && (v[0] == '+' || v[0] == '-') {
        return Err(IntErrorKind::InvalidDigit);
    }
    if v[0] == '+' {
        assert(v@.skip(1) =~= v@.drop_first());
        hex_scan_exec(v, 1)
    } else {
        assert(v@.skip(0) =~= v@);
        hex_scan_exec(v, 0)
    }
}

/// The size text of a chunk-size line: the line trimmed, cut at the first `;`
/// (chunk extensions), and trimmed again.
pub open spec fn chunk_size_text(line: Seq<char>) -> Seq<char> {
    let t = trim_seq(line);
    trim_seq(
        match first_from(t, 0, ';') {
            Some(k) => t.take(k),
            None => t,
        },
    )
}

/// Parses a chunk-size line (hexadecimal, extensions ignored).
pub fn parse_chunk_size(line: &str) -> (r: Result<usize, ProxyError>)
    ensures
        parse_hex(chunk_size_text(line@), usize::MAX as nat) matches Ok(n) ==> r == Ok::<
            usize,
            ProxyError,
        >(parse_hex(chunk_size_text(line@), usize::MAX as nat)->Ok_0 as usize),
        parse_hex(chunk_size_text(line@), usize::MAX as nat) matches Err(k) ==> (r matches Err(
            ProxyError::HttpParse(m),
        ) && m@ == "invalid chunk size '"@ + chunk_size_text(line@) + "': "@ + int_error_text(
            parse_hex(chunk_size_text(line@), usize::MAX as nat)->Err_0,
        )),
{
    let t = trim_str(line);
    let tv = chars_of(t.as_str());
    let first_end: usize = match find_char_from(&tv, 0, ';') {
        Some(k) => k,
        None => tv.len(),
    };
    let (a, b) = trim_bounds(&tv, 0, first_end);
    let size_str = string_of_range(&tv, a, b);
    assert(tv@.subrange(0, first_end as int) =~= match first_from(tv@, 0, ';') {
        Some(k) => tv@.take(k),
        None => tv@,
    });
    let sv = chars_of(size_str.as_str());
    match parse_hex_usize(&sv) {
        Ok(n) => Ok(n),
        Err(kind) => {
            let mut m = string_from_str("invalid chunk size '");
            push_str(&mut m, size_str.as_str());
            push_str(&mut m, "': ");
            match kind {
                IntErrorKind::Empty => push_str(&mut m, "cannot parse integer from empty string"),
                IntErrorKind::InvalidDigit => push_str(&mut m, "invalid digit found in string"),
                IntErrorKind::PosOverflow => push_str(
                    &mut m,
                    "number too large to fit in target type",
                ),
            }
            Err(ProxyError::HttpParse(m))
        },
    }
}

/// Limits on one more chunk of `chunk_size` bytes after `body_len` bytes.
pub fn check_chunk_limits(body_len: usize, chunk_size: usize) -> (r: Result<(), ProxyError>)
    requires
        body_len <= MAX_BODY_BYTES,
    ensures
        (chunk_size > MAX_CHUNK_BYTES || body_len + chunk_size > MAX_BODY_BYTES) ==> (r matches Err(
            ProxyError::HttpParse(m),
        ) && m@ == "chunked body exceeds 67108864 bytes limit"@),
        !(chunk_size > MAX_CHUNK_BYTES || body_len + chunk_size > MAX_BODY_BYTES) ==> r is Ok,
{
    if chunk_size > MAX_CHUNK_BYTES || body_len + chunk_size > MAX_BODY_BYTES {
        Err(ProxyError::HttpParse(string_from_str("chunked body exceeds 67108864 bytes limit")))
    } else {
        Ok(())
    }
}

// ───────────────────────── Serialization ─────────────────────────

/// Headers that serialization never copies: the `:status` pseudo header and the framing
/// headers `Content-Length`, `Transfer-Encoding` and the hop-by-hop `Proxy-Connection`.
pub open spec fn is_framing_name(n: Seq<char>) -> bool {
    let l = lower_seq(n);
    ||| l == ":status"@
    ||| l == "content-length"@
    ||| l == "transfer-encoding"@
    ||| l == "proxy-connection"@
}

/// The headers that serialization copies, in their original order.
pub open spec fn kept_headers(hs: HeaderSeq) -> HeaderSeq
    decreases hs.len(),
{
    if hs.len() == 0 {
        Seq::empty()
    } else if is_framing_name(hs.last().0) {
        kept_headers(hs.drop_last())
    } else {
        kept_headers(hs.drop_last()).push(hs.last())
    }
}

/// `name: value\r\n` for each header.
pub open spec fn header_block(hs: HeaderSeq) -> Seq<char>
    decreases hs.len(),
{
    if hs.len() == 0 {
        Seq::empty()
    } else {
        header_block(hs.drop_last()) + hs.last().0 + ": "@ + hs.last().1 + "\r\n"@
    }
}

/// The end of the head: the blank line, preceded by the single `Content-Length` unless omitted.
pub open spec fn head_end(body_len: nat, omit_length: bool) -> Seq<char> {
    if omit_length {
        "\r\n"@
    } else {
        "Content-Length: "@ + dec_str(body_len) + "\r\n\r\n"@
    }
}

pub open spec fn request_head_text(m: MsgView) -> Seq<char> {
    m.method + " "@ + m.uri + " "@ + m.version + "\r\n"@ + header_block(kept_headers(m.headers))
        + head_end(m.body.len(), false)
}

/// Bytes written for a request: the head in UTF-8, then the body.
pub open spec fn serialized_request(m: MsgView) -> Seq<u8> {
    encode_utf8(request_head_text(m)) + m.body
}

/// The status text of a response (`200 OK` when there is no `:status` header).
pub open spec fn status_text(m: MsgView) -> Seq<char> {
    match header_lookup(m.headers, ":status"@) {
        Some(s) => s,
        None => "200 OK"@,
    }
}

pub open spec fn is_first_ws(t: Seq<char>, i: int) -> bool {
    &&& 0 <= i < t.len()
    &&& is_ws(t[i])
    &&& forall|j: int| 0 <= j < i ==> !is_ws(t[j])
}

/// `s.split_whitespace().next().unwrap_or("")`.
pub open spec fn first_token(s: Seq<char>) -> Seq<char> {
    let t = s.skip(lead_ws(s));
    if exists|i: int| #[trigger] is_first_ws(t, i) {
        t.take(choose|i: int| #[trigger] is_first_ws(t, i))
    } else {
        t
    }
}

/// Statuses 204, 304 and 1xx carry neither a body nor a `Content-Length`.
pub open spec fn is_bodiless_status(code: Seq<char>) -> bool {
    ||| code == "204"@
    ||| code == "304"@
    ||| (code.len() > 0 && code[0] == '1')
}

pub open spec fn response_omits_body(m: MsgView) -> bool {
    is_bodiless_status(first_token(status_text(m)))
}

pub open spec fn response_head_text(m: MsgView) -> Seq<char> {
    "HTTP/1.1 "@ + status_text(m) + "\r\n"@ + header_block(kept_headers(m.headers)) + head_end(
        m.body.len(),
        response_omits_body(m),
    )
}

/// Bytes written for a response: the head in UTF-8, then the body unless the status is bodiless.
pub open spec fn serialized_response(m: MsgView) -> Seq<u8> {
    encode_utf8(response_head_text(m)) + if response_omits_body(m) {
        Seq::empty()
    } else {
        m.body
    }
}

/// A response is written as `HTTP/1.1 <status>`, its headers other than the framing
/// ones in order, then, unless the status is 204, 304 or 1xx, exactly one
/// `Content-Length` equal to the body's length and the body; a bodiless status gets
/// neither.
pub proof fn lemma_response_framing(m: MsgView)
    ensures
        !response_omits_body(m) ==> serialized_response(m) == encode_utf8(
            "HTTP/1.1 "@ + status_text(m) + "\r\n"@ + header_block(kept_headers(m.headers))
                + "Content-Length: "@ + dec_str(m.body.len()) + "\r\n\r\n"@,
        ) + m.body,
        response_omits_body(m) ==> serialized_response(m) == encode_utf8(
            "HTTP/1.1 "@ + status_text(m) + "\r\n"@ + header_block(kept_headers(m.headers))
                + "\r\n"@,
        ),
        forall|i: int|
            0 <= i < kept_headers(m.headers).len() ==> !is_framing_name(
                #[trigger] kept_headers(m.headers)[i].0,
            ),
{
    lemma_kept_headers_exclude_framing(m.headers);
    let pre = "HTTP/1.1 "@ + status_text(m) + "\r\n"@ + header_block(kept_headers(m.headers));
    assert(pre + ("Content-Length: "@ + dec_str(m.body.len()) + "\r\n\r\n"@) =~= "HTTP/1.1 "@
        + status_text(m) + "\r\n"@ + header_block(kept_headers(m.headers)) + "Content-Length: "@
        + dec_str(m.body.len()) + "\r\n\r\n"@);
    if response_omits_body(m) {
        assert(serialized_response(m) =~= encode_utf8(pre + "\r\n"@));
    }
}

pub fn is_framing_header(name: &str) -> (r: bool)
    ensures
        r == is_framing_name(name@),
{
    let lower = ascii_lowercase(name);
    str_eq(lower.as_str(), ":status") || str_eq(lower.as_str(), "content-length") || str_eq(
        lower.as_str(),
        "transfer-encoding",
    ) || str_eq(lower.as_str(), "proxy-connection")
}

/// Appends the kept headers and the head end to `out`.
pub fn push_headers_and_end(
    out: &mut String,
    headers: &Vec<(String, String)>,
    body_len: usize,
    omit_length: bool,
)
    ensures
        final(out)@ == old(out)@ + header_block(kept_headers(headers_view(headers@))) + head_end(
            body_len as nat,
            omit_length,
        ),
{
    let ghost start = out@;
    let ghost hs = headers_view(headers@);
    let mut i: usize = 0;
    assert(hs.take(0) =~= Seq::<(Seq<char>, Seq<char>)>::empty());
    assert(out@ =~= start + header_block(kept_headers(hs.take(0))));
    while i < headers.len()
        invariant
            i <= headers.len(),
            hs == headers_view(headers@),
            out@ == start + header_block(kept_headers(hs.take(i as int))),
        decreases headers.len() - i,
    {
        let ghost before = out@;
        assert(hs.take(i + 1).drop_last() =~= hs.take(i as int));
        assert(hs.take(i + 1).last() == (headers@[i as int].0@, headers@[i as int].1@));
        if !is_framing_header(headers[i].0.as_str()) {
            push_str(out, headers[i].0.as_str());
            push_str(out, ": ");
            push_str(out, headers[i].1.as_str());
            push_str(out, "\r\n");
            let ghost k = kept_headers(hs.take(i as int));
            assert(kept_headers(hs.take(i + 1)) == k.push(hs[i as int]));
            assert(k.push(hs[i as int]).drop_last() =~= k);
            assert(out@ =~= start + header_block(kept_headers(hs.take(i + 1))));
        }
        i += 1;
    }
    assert(hs.take(headers.len() as int) =~= hs);
    let ghost mid = out@;
    if omit_length {
        push_str(out, "\r\n");
    } else {
        push_str(out, "Content-Length: ");
        let d = decimal_string(body_len as u64);
        push_str(out, d.as_str());
        push_str(out, "\r\n\r\n");
    }
    assert(out@ =~= mid + head_end(body_len as nat, omit_length));
}

/// The UTF-8 bytes of `s`, followed by `tail` when given.
pub fn utf8_bytes_then(s: &String, tail: Option<&Vec<u8>>) -> (r: Vec<u8>)
    ensures
        tail matches Some(t) ==> r@ == encode_utf8(s@) + t@,
        tail is None ==> r@ == encode_utf8(s@),
{
    let b: &[u8] = s.as_str().as_bytes();
    let mut r: Vec<u8> = Vec::new();
    let mut i: usize = 0;
    while i < b.len()
        invariant
            i <= b@.len(),
            b@ == encode_utf8(s@),
            r@ == b@.take(i as int),
        decreases b.len() - i,
    {
        r.push(b[i]);
        i += 1;
        assert(r@ =~= b@.take(i as int));
    }
    assert(b@.take(b@.len() as int) =~= b@);
    match tail {
        None => {},
        Some(t) => {
            let ghost head = r@;
            let mut j: usize = 0;
            while j < t.len()
                invariant
                    j <= t@.len(),
                    r@ == head + t@.take(j as int),
                decreases t.len() - j,
            {
                r.push(t[j]);
                j += 1;
                assert(r@ =~= head + t@.take(j as int));
            }
            assert(t@.take(t@.len() as int) =~= t@);
        },
    }
    r
}

/// Serializes a request for the upstream connection with normalized framing headers.
pub fn serialize_request(req: &HttpMessage) -> (r: Vec<u8>)
    ensures
        r@ == serialized_request(req@),
{
    let mut head = String::new();
    push_str(&mut head, req.method.as_str());
    push_str(&mut head, " ");
    push_str(&mut head, req.uri.as_str());
    push_str(&mut head, " ");
    push_str(&mut head, req.version.as_str());
    push_str(&mut head, "\r\n");
    push_headers_and_end(&mut head, &req.headers, req.body.len(), false);
    assert(head@ =~= request_head_text(req@));
    utf8_bytes_then(&head, Some(&req.body))
}

/// `split_whitespace().next().unwrap_or("")`.
pub fn first_token_exec(s: &str) -> (r: String)
    ensures
        r@ == first_token(s@),
{
    let v = chars_of(s);
    let mut a: usize = 0;
    while a < v.len() && is_whitespace(v[a])
        invariant
            a <= v.len(),
            forall|j: int| 0 <= j < a ==> is_ws(#[trigger] v@[j]),
        decreases v.len() - a,
    {
        a += 1;
    }
    proof {
        crate::text::lemma_lead_ws(v@, a as int);
    }
    let ghost t = v@.skip(a as int);
    let mut b = a;
    while b < v.len() && !is_whitespace(v[b])
        invariant
            a <= b <= v.len(),
            forall|j: int| a <= j < b ==> !is_ws(#[trigger] v@[j]),
        decreases v.len() - b,
    {
        b += 1;
    }
    proof {
        if b < v.len() {
            assert(is_first_ws(t, b - a)) by {
                assert(t[b - a] == v@[b as int]);
                assert forall|j: int| 0 <= j < b - a implies !is_ws(t[j]) by {
                    assert(t[j] == v@[a + j]);
                }
            }
            let k = choose|k: int| #[trigger] is_first_ws(t, k);
            assert(k == b - a);
            assert(v@.subrange(a as int, b as int) =~= t.take(b - a));
        } else {
            assert forall|k: int| !is_first_ws(t, k) by {
                if 0 <= k < t.len() {
                    assert(t[k] == v@[a + k]);
                }
            }
            assert(v@.subrange(a as int, b as int) =~= t);
        }
    }
    string_of_range(&v, a, b)
}

pub fn is_bodiless_status_exec(code: &str) -> (r: bool)
    ensures
        r == is_bodiless_status(code@),
{
    let cv = chars_of(code);
    str_eq(code, "204") || str_eq(code, "304") || (cv.len() > 0 && cv[0] == '1')
}

/// Serializes a response for the client with normalized framing headers.
pub fn serialize_response(res: &HttpMessage) -> (r: Vec<u8>)
    ensures
        r@ == serialized_response(res@),
{
    let status: String = match res.header(":status") {
        Some(s) => string_from_str(s),
        None => string_from_str("200 OK"),
    };
    assert(status@ == status_text(res@));
    let code = first_token_exec(status.as_str());
    let no_body = is_bodiless_status_exec(code.as_str());
    let mut head = String::new();
    push_str(&mut head, "HTTP/1.1 ");
    push_str(&mut head, status.as_str());
    push_str(&mut head, "\r\n");
    push_headers_and_end(&mut head, &res.headers, res.body.len(), no_body);
    assert(head@ =~= response_head_text(res@));
    if no_body {
        let r = utf8_bytes_then(&head, None);
        assert(r@ =~= serialized_response(res@));
        r
    } else {
        utf8_bytes_then(&head, Some(&res.body))
    }
}

// ───────────────────────── Laws of serialization ─────────────────────────

/// Serialization copies no framing header: every copied header has a name other than
/// `:status`, `Content-Length`, `Transfer-Encoding` and `Proxy-Connection` (ignoring
/// ASCII case), and every copied header comes from the message.
pub proof fn lemma_kept_headers_exclude_framing(hs: HeaderSeq)
    ensures
        forall|i: int| 0 <= i < kept_headers(hs).len() ==> !is_framing_name(
            #[trigger] kept_headers(hs)[i].0,
        ),
        forall|i: int| 0 <= i < kept_headers(hs).len() ==> hs.contains(
            #[trigger] kept_headers(hs)[i],
        ),
        kept_headers(hs).len() <= hs.len(),
    decreases hs.len(),
{
    if hs.len() > 0 {
        lemma_kept_headers_exclude_framing(hs.drop_last());
        let k = kept_headers(hs.drop_last());
        assert forall|i: int| 0 <= i < k.len() implies hs.contains(#[trigger] k[i]) by {
            let j = choose|j: int| 0 <= j < hs.drop_last().len() && hs.drop_last()[j] == k[i];
            assert(hs[j] == k[i]);
        }
        if !is_framing_name(hs.last().0) {
            assert forall|i: int| 0 <= i < kept_headers(hs).len() implies hs.contains(
                #[trigger] kept_headers(hs)[i],
            ) by {
                if i == k.len() {
                    assert(hs[hs.len() - 1] == hs.last());
                } else {
                    assert(kept_headers(hs)[i] == k[i]);
                }
            }
        }
    }
}

/// Non-framing headers are all kept, in order: a message without framing headers keeps
/// its header list unchanged.
pub proof fn lemma_kept_headers_identity(hs: HeaderSeq)
    requires
        forall|i: int| 0 <= i < hs.len() ==> !is_framing_name(#[trigger] hs[i].0),
    ensures
        kept_headers(hs) == hs,
    decreases hs.len(),
{
    if hs.len() > 0 {
        lemma_kept_headers_identity(hs.drop_last());
        assert(hs.drop_last().push(hs.last()) =~= hs);
    }
}

} // verus!
