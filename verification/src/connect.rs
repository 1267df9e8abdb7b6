//! The CONNECT method: parsing the tunnel target and telling what the client speaks
//! inside the tunnel.
use vstd::prelude::*;
use crate::error::ProxyError;
use crate::text::{
    chars_of, eq_ic, eq_ignore_case_chars, last_of, parse_u16, parse_unsigned, push_str,
    rfind_char, skip_ws_exec, string_from_str, string_of_range, word_end, word_end_exec, words,
    words_from, skip_ws, lemma_skip_ws_bounds, lemma_word_end_bounds,
};

verus! {

/// Index of the first character at or after `i` that differs from `c` (or the end).
pub open spec fn skip_char(s: Seq<char>, c: char, i: int) -> int
    decreases s.len() - i,
{
    if 0 <= i < s.len() && s[i] == c {
        skip_char(s, c, i + 1)
    } else {
        i
    }
}

/// End of `s[..j]` once the trailing run of `c` is cut off.
pub open spec fn cut_char(s: Seq<char>, c: char, j: int) -> int
    decreases j,
{
    if 0 < j <= s.len() && s[j - 1] == c {
        cut_char(s, c, j - 1)
    } else {
        j
    }
}

/// `trim_start_matches('[')` then `trim_end_matches(']')`: the host of a bracketed
/// IPv6 target without its brackets.
pub open spec fn strip_brackets(h: Seq<char>) -> Seq<char> {
    let rest = h.skip(skip_char(h, '[', 0));
    rest.take(cut_char(rest, ']', rest.len() as int))
}

/// What parsing a CONNECT line gives: the target host and port (443 when the target has
/// no `:`), or the message of the `ConnectParseFailed` error.
pub open spec fn connect_target_spec(line: Seq<char>) -> Result<(Seq<char>, u16), Seq<char>> {
    let ws = words(line);
    if ws.len() < 2 || !eq_ic(ws[0], "CONNECT"@) {
        Err("not a CONNECT request: "@ + line)
    } else {
        let t = ws[1];
        match last_of(t, ':') {
            Some(c) => match parse_unsigned(t.subrange(c + 1, t.len() as int), u16::MAX as nat) {
                Some(p) => Ok((strip_brackets(t.subrange(0, c)), p as u16)),
                None => Err("invalid port in CONNECT target: "@ + t),
            },
            None => Ok((t, 443u16)),
        }
    }
}

fn skip_char_exec(v: &Vec<char>, c: char, i: usize) -> (r: usize)
    requires
        i <= v.len(),
    ensures
        r == skip_char(v@, c, i as int),
        i <= r <= v.len(),
{
    let mut j = i;
    while j < v.len() && v[j] == c
        invariant
            i <= j <= v.len(),
            skip_char(v@, c, j as int) == skip_char(v@, c, i as int),
        decreases v.len() - j,
    {
        j += 1;
    }
    j
}

fn cut_char_exec(v: &Vec<char>, c: char, from: usize, to: usize) -> (r: usize)
    requires
        from <= to <= v.len(),
    ensures
        r == from + cut_char(v@.subrange(from as int, to as int), c, (to - from) as int),
        from <= r <= to,
{
    let ghost s = v@.subrange(from as int, to as int);
    let mut j = to;
    while j > from && v[j - 1] == c
        invariant
            from <= j <= to <= v.len(),
            s == v@.subrange(from as int, to as int),
            cut_char(s, c, j - from) == cut_char(s, c, to - from),
        decreases j,
    {
        assert(s[j - from - 1] == v@[j - 1]);
        j -= 1;
    }
    proof {
        if j > from {
            assert(s[j - from - 1] == v@[j - 1]);
        }
    }
    j
}

/// Parses `CONNECT host:port HTTP/1.1` into the target host and port. A target without
/// `:` gets port 443; the brackets of an IPv6 host are removed.
pub fn parse_connect_target(connect_line: &str) -> (r: Result<(String, u16), ProxyError>)
    ensures
        match connect_target_spec(connect_line@) {
            Ok((h, p)) => r matches Ok((hs, pp)) && hs@ == h && pp == p,
            Err(msg) => r matches Err(ProxyError::ConnectParseFailed(m)) && m@ == msg,
        },
{
    let v = chars_of(connect_line);
    let ghost s = v@;
    let a0 = skip_ws_exec(&v, 0);
    let mut second: Option<(usize, usize)> = None;
    let mut b0: usize = a0;
    if a0 < v.len() {
        b0 = word_end_exec(&v, a0);
        let a1 = skip_ws_exec(&v, b0);
        if a1 < v.len() {
            let b1 = word_end_exec(&v, a1);
            second = Some((a1, b1));
        }
    }
    proof {
        lemma_skip_ws_bounds(s, 0);
        if a0 < s.len() {
            lemma_word_end_bounds(s, a0 as int);
            lemma_skip_ws_bounds(s, b0 as int);
            assert(words_from(s, 0) == seq![s.subrange(a0 as int, b0 as int)] + words_from(s, b0 as int));
            let a1 = skip_ws(s, b0 as int);
            if a1 < s.len() {
                lemma_word_end_bounds(s, a1);
                assert(words_from(s, b0 as int) == seq![s.subrange(a1, word_end(s, a1))] + words_from(
                    s,
                    word_end(s, a1),
                ));
            } else {
                assert(words_from(s, b0 as int) == Seq::<Seq<char>>::empty());
            }
        } else {
            assert(words_from(s, 0) == Seq::<Seq<char>>::empty());
        }
    }
    let (a1, b1) = match second {
        Some(p) => p,
        None => {
            let mut m = string_from_str("not a CONNECT request: ");
            push_str(&mut m, connect_line);
            proof {
                reveal_strlit("not a CONNECT request: ");
            }
            return Err(ProxyError::ConnectParseFailed(m));
        },
    };
    let first = string_of_range(&v, a0, b0);
    let kw = chars_of("CONNECT");
    let fv = chars_of(first.as_str());
    if !eq_ignore_case_chars(&fv, &kw) {
        let mut m = string_from_str("not a CONNECT request: ");
        push_str(&mut m, connect_line);
        proof {
            reveal_strlit("not a CONNECT request: ");
        }
        return Err(ProxyError::ConnectParseFailed(m));
    }
    let target = string_of_range(&v, a1, b1);
    let tv = chars_of(target.as_str());
    let ghost t = tv@;
    assert(t == words(s)[1]);
    match rfind_char(&tv, ':') {
        Some(c) => {
            let port_str = string_of_range(&tv, c + 1, tv.len());
            match parse_u16(port_str.as_str()) {
                Some(port) => {
                    let lead = skip_char_exec(&tv, '[', 0);
                    proof {
                        lemma_skip_char_prefix(t, c as int, '[', 0);
                    }
                    let end = cut_char_exec(&tv, ']', lead, c);
                    let host = string_of_range(&tv, lead, end);
                    proof {
                        let h = t.subrange(0, c as int);
                        assert(skip_char(h, '[', 0) == skip_char(t, '[', 0)) by {
                            lemma_skip_char_prefix(t, c as int, '[', 0);
                            assert(t[c as int] == ':');
                        }
                        let rest = h.skip(lead as int);
                        assert(rest =~= t.subrange(lead as int, c as int));
                        assert(host@ =~= strip_brackets(h));
                    }
                    Ok((host, port))
                },
                None => {
                    let mut m = string_from_str("invalid port in CONNECT target: ");
                    push_str(&mut m, target.as_str());
                    proof {
                        reveal_strlit("invalid port in CONNECT target: ");
                    }
                    Err(ProxyError::ConnectParseFailed(m))
                },
            }
        },
        None => Ok((target, 443)),
    }
}

/// A run that stops before `s[n]` stops at the same place in the prefix `s[..n]`.
proof fn lemma_skip_char_prefix(s: Seq<char>, n: int, c: char, i: int)
    requires
        0 <= i <= n < s.len(),
        s[n] != c,
    ensures
        skip_char(s.subrange(0, n), c, i) == skip_char(s, c, i),
        skip_char(s, c, i) <= n,
    decreases n - i,
{
    if i < n && s[i] == c {
        lemma_skip_char_prefix(s, n, c, i + 1);
    }
}

/// What the client speaks inside an established CONNECT tunnel.
#[derive(Debug, Clone, Copy, PartialEq, Eq, Structural)]
pub enum TunnelProtocol {
    /// A TLS record header: terminate TLS.
    Tls,
    /// A plain HTTP request line: parse it.
    PlainHttp,
    /// Anything else, or too few bytes: relay the bytes untouched.
    Passthrough,
}

/// The bytes start with the ASCII spelling of `m`.
pub open spec fn starts_with_ascii(p: Seq<u8>, m: Seq<char>) -> bool {
    p.len() >= m.len() && forall|i: int| 0 <= i < m.len() ==> p[i] as int == #[trigger] m[i] as int
}

/// The request methods recognised at the start of a tunnel.
pub open spec fn known_methods() -> Seq<Seq<char>> {
    seq!["GET"@, "POST"@, "PUT"@, "HEAD"@, "PATCH"@, "DELETE"@, "OPTIONS"@]
}

/// The protocol of a tunnel from its first bytes: `0x16 0x03` is TLS; with at least three
/// bytes, a known method name is HTTP and anything else is relayed; fewer bytes are relayed.
pub open spec fn tunnel_protocol(p: Seq<u8>) -> TunnelProtocol {
    if p.len() >= 2 && p[0] == 0x16 && p[1] == 0x03 {
        TunnelProtocol::Tls
    } else if p.len() >= 3 {
        if exists|k: int| 0 <= k < known_methods().len() && starts_with_ascii(p, #[trigger] known_methods()[k]) {
            TunnelProtocol::PlainHttp
        } else {
            TunnelProtocol::Passthrough
        }
    } else {
        TunnelProtocol::Passthrough
    }
}

fn starts_with_ascii_exec(p: &[u8], m: &str) -> (r: bool)
    ensures
        r == starts_with_ascii(p@, m@),
{
    let mv = chars_of(m);
    if p.len() < mv.len() {
        return false;
    }
    let mut i: usize = 0;
    while i < mv.len()
        invariant
            i <= mv.len() <= p@.len(),
            mv@ == m@,
            forall|j: int| 0 <= j < i ==> p@[j] as int == #[trigger] mv@[j] as int,
        decreases mv.len() - i,
    {
        let b = p[i] as char;
        assert(b as int == p@[i as int] as int);
        if b != mv[i] {
            assert(p@[i as int] as int != mv@[i as int] as int);
            return false;
        }
        i += 1;
    }
    true
}

/// Tells what the client speaks from the first bytes peeked inside a tunnel.
pub fn classify_tunnel(prefix: &[u8]) -> (r: TunnelProtocol)
    ensures
        r == tunnel_protocol(prefix@),
{
    let n = prefix.len();
    if n >= 2 && prefix[0] == 0x16 && prefix[1] == 0x03 {
        return TunnelProtocol::Tls;
    }
    if n < 3 {
        return TunnelProtocol::Passthrough;
    }
    let names: [&str; 7] = ["GET", "POST", "PUT", "HEAD", "PATCH", "DELETE", "OPTIONS"];
    proof {
        assert(names@ =~= seq!["GET", "POST", "PUT", "HEAD", "PATCH", "DELETE", "OPTIONS"]);
    }
    let mut k: usize = 0;
    while k < 7
        invariant
            k <= 7,
            names@.len() == 7,
            prefix@.len() >= 3,
            !(prefix@[0] == 0x16 && prefix@[1] == 0x03),
            forall|j: int| 0 <= j < 7 ==> (#[trigger] names@[j])@ == known_methods()[j],
            forall|j: int| 0 <= j < k ==> !starts_with_ascii(prefix@, #[trigger] known_methods()[j]),
        decreases 7 - k,
    {
        if starts_with_ascii_exec(prefix, names[k]) {
            assert(names@[k as int]@ == known_methods()[k as int]);
            assert(starts_with_ascii(prefix@, known_methods()[k as int]));
            return TunnelProtocol::PlainHttp;
        }
        k += 1;
    }
    TunnelProtocol::Passthrough
}

} // verus!
