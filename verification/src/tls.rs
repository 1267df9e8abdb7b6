//! Reading the server name (SNI) out of a raw TLS ClientHello, before any handshake,
//! so that the proxy can decide whether to intercept the connection.
use vstd::prelude::*;
use vstd::slice::slice_subrange;
use crate::text::{from_utf8_lossy, utf8_lossy};

verus! {

/// A big-endian 16-bit number.
pub open spec fn be16(hi: u8, lo: u8) -> nat {
    hi as nat * 256 + lo as nat
}

/// `start + len`, cut at `total`.
pub open spec fn clamp_end(start: int, len: int, total: int) -> int {
    if start + len <= total {
        start + len
    } else {
        total
    }
}

/// The ClientHello message inside the first TLS record of `data`: the record must be a
/// handshake record (type 0x16) holding a ClientHello (type 0x01); the declared record
/// and message lengths are cut to what has arrived.
pub open spec fn client_hello_message(data: Seq<u8>) -> Option<Seq<u8>> {
    if data.len() < 5 || data[0] != 0x16 {
        None
    } else {
        let body = data.subrange(5, clamp_end(5, be16(data[3], data[4]) as int, data.len() as int));
        if body.len() < 4 || body[0] != 0x01 {
            None
        } else {
            let hs_len = body[1] as int * 65536 + body[2] as int * 256 + body[3] as int;
            Some(body.subrange(4, clamp_end(4, hs_len, body.len() as int)))
        }
    }
}

/// The extensions block of a ClientHello: after version (2), random (32), session id
/// (1 + n), cipher suites (2 + n) and compression methods (1 + n) comes the extensions
/// length (2) and the extensions; `None` when the message is too short for any of them.
pub open spec fn hello_extensions(ch: Seq<u8>) -> Option<Seq<u8>> {
    if ch.len() < 35 {
        None
    } else {
        let i1 = 35 + ch[34] as int;
        if ch.len() < i1 + 2 {
            None
        } else {
            let i2 = i1 + 2 + be16(ch[i1], ch[i1 + 1]);
            if ch.len() < i2 + 1 {
                None
            } else {
                let i3 = i2 + 1 + ch[i2] as int;
                if ch.len() < i3 + 2 {
                    None
                } else {
                    let end = i3 + 2 + be16(ch[i3], ch[i3 + 1]);
                    if ch.len() < end {
                        None
                    } else {
                        Some(ch.subrange(i3 + 2, end))
                    }
                }
            }
        }
    }
}

/// The host name of the first well-formed `server_name` extension (type 0) at or after
/// offset `j`: each extension is type (2), length (2), data; the walk stops at an
/// extension that overruns the block. A `server_name` extension is list length (2),
/// name type (1, must be 0), name length (2), name.
pub open spec fn sni_in_extensions(exts: Seq<u8>, j: int) -> Option<Seq<u8>>
    decreases exts.len() - j,
{
    if j < 0 || j + 4 > exts.len() {
        None
    } else {
        let t = be16(exts[j], exts[j + 1]);
        let l = be16(exts[j + 2], exts[j + 3]) as int;
        let k = j + 4;
        if exts.len() < k + l {
            None
        } else {
            let ext = exts.subrange(k, k + l);
            if t == 0 && ext.len() >= 5 && ext[2] == 0 && ext.len() >= 5 + be16(ext[3], ext[4]) {
                Some(ext.subrange(5, 5 + be16(ext[3], ext[4]) as int))
            } else {
                sni_in_extensions(exts, k + l)
            }
        }
    }
}

/// The raw bytes of the server name announced by a ClientHello, if it can be found.
pub open spec fn sni_bytes(data: Seq<u8>) -> Option<Seq<u8>> {
    match client_hello_message(data) {
        None => None,
        Some(ch) => match hello_extensions(ch) {
            None => None,
            Some(exts) => sni_in_extensions(exts, 0),
        },
    }
}

// ───────────────────────── How a ClientHello is laid out ─────────────────────────

/// A big-endian 16-bit field holding `n`.
pub open spec fn be16_field(n: nat) -> Seq<u8> {
    seq![(n / 256) as u8, (n % 256) as u8]
}

/// One extension: its type, the length of its data, its data.
pub open spec fn extension_field(t: u16, data: Seq<u8>) -> Seq<u8> {
    be16_field(t as nat) + be16_field(data.len()) + data
}

/// Extensions one after the other.
pub open spec fn extension_fields(exts: Seq<(u16, Seq<u8>)>) -> Seq<u8>
    decreases exts.len(),
{
    if exts.len() == 0 {
        Seq::empty()
    } else {
        extension_field(exts[0].0, exts[0].1) + extension_fields(exts.drop_first())
    }
}

/// The `server_name` extension (type 0) announcing `host`: a server name list (its
/// length, then one entry) whose entry is a host name (name type 0, length, name).
pub open spec fn server_name_extension(host: Seq<u8>) -> Seq<u8> {
    extension_field(0, be16_field((host.len() + 3) as nat) + seq![0u8] + be16_field(host.len()) + host)
}

/// The body of a ClientHello message: legacy version 3.3, the 32-byte random, the
/// session id (length byte first), the cipher suites (16-bit length first), the
/// compression methods (length byte first) and the extensions (16-bit length first).
pub open spec fn client_hello_body(
    random: Seq<u8>,
    session_id: Seq<u8>,
    suites: Seq<u8>,
    compressions: Seq<u8>,
    extensions: Seq<u8>,
) -> Seq<u8> {
    seq![3u8, 3u8] + random + seq![session_id.len() as u8] + session_id + be16_field(suites.len())
        + suites + seq![compressions.len() as u8] + compressions + be16_field(extensions.len())
        + extensions
}

/// A handshake record (type 0x16, version 3.1, 16-bit length) holding one ClientHello
/// handshake message (type 1, 24-bit length) with the given body.
pub open spec fn client_hello_record(body: Seq<u8>) -> Seq<u8> {
    seq![0x16u8, 3u8, 1u8] + be16_field((body.len() + 4) as nat) + seq![1u8, 0u8] + be16_field(
        body.len(),
    ) + body
}

proof fn lemma_be16_field(n: nat)
    requires
        n < 65536,
    ensures
        be16_field(n).len() == 2,
        be16(be16_field(n)[0], be16_field(n)[1]) == n,
{
    assert(n / 256 < 256);
    assert((n / 256) * 256 + n % 256 == n);
}

proof fn lemma_record_holds_hello(body: Seq<u8>)
    requires
        body.len() + 4 < 65536,
    ensures
        client_hello_message(client_hello_record(body)) == Some(body),
{
    lemma_be16_field((body.len() + 4) as nat);
    lemma_be16_field(body.len());
    let data = client_hello_record(body);
    let head = seq![0x16u8, 3u8, 1u8] + be16_field((body.len() + 4) as nat);
    let hs = seq![1u8, 0u8] + be16_field(body.len()) + body;
    assert(data =~= head + hs);
    assert(data[3] == head[3] && data[4] == head[4]);
    assert(data.subrange(5, data.len() as int) =~= hs);
    assert(hs[1] == 0 && hs[2] == be16_field(body.len())[0] && hs[3] == be16_field(body.len())[1]);
    assert(hs.subrange(4, hs.len() as int) =~= body);
}

proof fn lemma_hello_extensions_of_body(
    random: Seq<u8>,
    session_id: Seq<u8>,
    suites: Seq<u8>,
    compressions: Seq<u8>,
    extensions: Seq<u8>,
)
    requires
        random.len() == 32,
        session_id.len() <= 32,
        suites.len() < 65536,
        compressions.len() < 256,
        extensions.len() < 65536,
    ensures
        hello_extensions(client_hello_body(random, session_id, suites, compressions, extensions))
            == Some(extensions),
{
    lemma_be16_field(suites.len());
    lemma_be16_field(extensions.len());
    let n = session_id.len() as int;
    let p1 = seq![3u8, 3u8] + random;
    let p2 = p1 + seq![session_id.len() as u8];
    let p3 = p2 + session_id;
    let p4 = p3 + be16_field(suites.len());
    let p5 = p4 + suites;
    let p6 = p5 + seq![compressions.len() as u8];
    let p7 = p6 + compressions;
    let p8 = p7 + be16_field(extensions.len());
    let ch = p8 + extensions;
    assert(ch == client_hello_body(random, session_id, suites, compressions, extensions));
    let i1 = 35 + n;
    let i2 = i1 + 2 + suites.len();
    let i3 = i2 + 1 + compressions.len();
    assert(p2.len() == 35 && p4.len() == i1 + 2 && p6.len() == i2 + 1 && p8.len() == i3 + 2);
    assert(ch[34] == p8[34] && p8[34] == p7[34] && p7[34] == p6[34] && p6[34] == p5[34]);
    assert(p5[34] == p4[34] && p4[34] == p3[34] && p3[34] == p2[34]);
    assert(ch[i1] == p4[i1] && ch[i1 + 1] == p4[i1 + 1]);
    assert(ch[i2] == p6[i2]);
    assert(ch[i3] == p8[i3] && ch[i3 + 1] == p8[i3 + 1]);
    assert(ch.subrange(i3 + 2, ch.len() as int) =~= extensions);
}

proof fn lemma_sni_walk_shift(p: Seq<u8>, r: Seq<u8>, j: int)
    requires
        0 <= j,
    ensures
        sni_in_extensions(p + r, p.len() + j) == sni_in_extensions(r, j),
    decreases r.len() - j,
{
    let x = p + r;
    let o = p.len() as int;
    if j + 4 <= r.len() {
        assert(x[o + j] == r[j] && x[o + j + 1] == r[j + 1]);
        assert(x[o + j + 2] == r[j + 2] && x[o + j + 3] == r[j + 3]);
        let l = be16(r[j + 2], r[j + 3]) as int;
        let k = j + 4;
        if r.len() >= k + l {
            assert(x.subrange(o + k, o + k + l) =~= r.subrange(k, k + l));
            lemma_sni_walk_shift(p, r, k + l);
        }
    }
}

proof fn lemma_sni_walk_skips(exts: Seq<(u16, Seq<u8>)>, rest: Seq<u8>)
    requires
        forall|i: int| 0 <= i < exts.len() ==> (#[trigger] exts[i]).0 != 0 && exts[i].1.len() < 65536,
    ensures
        sni_in_extensions(extension_fields(exts) + rest, 0) == sni_in_extensions(rest, 0),
    decreases exts.len(),
{
    if exts.len() == 0 {
        assert(extension_fields(exts) + rest =~= rest);
    } else {
        let t = exts[0].0;
        let d = exts[0].1;
        let e = extension_field(t, d);
        let tail = exts.drop_first();
        let y = extension_fields(tail) + rest;
        assert(extension_fields(exts) + rest =~= e + y);
        lemma_be16_field(t as nat);
        lemma_be16_field(d.len());
        let x = e + y;
        assert(x[0] == e[0] && x[1] == e[1] && x[2] == e[2] && x[3] == e[3]);
        assert(sni_in_extensions(x, 0) == sni_in_extensions(x, 4 + d.len() as int));
        lemma_sni_walk_shift(e, y, 0);
        assert forall|i: int| 0 <= i < tail.len() implies (#[trigger] tail[i]).0 != 0 && tail[i].1.len()
            < 65536 by {
            assert(tail[i] == exts[i + 1]);
        }
        lemma_sni_walk_skips(tail, rest);
    }
}

proof fn lemma_sni_walk_finds_name(host: Seq<u8>, after: Seq<u8>)
    requires
        host.len() + 5 < 65536,
    ensures
        sni_in_extensions(server_name_extension(host) + after, 0) == Some(host),
{
    let inner = be16_field((host.len() + 3) as nat) + seq![0u8] + be16_field(host.len()) + host;
    lemma_be16_field(0);
    lemma_be16_field((host.len() + 3) as nat);
    lemma_be16_field(host.len());
    lemma_be16_field(inner.len());
    let e = server_name_extension(host);
    let x = e + after;
    assert(x[0] == e[0] && x[1] == e[1] && x[2] == e[2] && x[3] == e[3]);
    assert(x.subrange(4, 4 + inner.len() as int) =~= inner);
    assert(inner[2] == 0 && inner[3] == be16_field(host.len())[0] && inner[4] == be16_field(host.len())[1]);
    assert(inner.subrange(5, 5 + host.len() as int) =~= host);
}

proof fn lemma_client_hello_body_len(
    random: Seq<u8>,
    session_id: Seq<u8>,
    suites: Seq<u8>,
    compressions: Seq<u8>,
    extensions: Seq<u8>,
)
    ensures
        client_hello_body(random, session_id, suites, compressions, extensions).len() == 8
            + random.len() + session_id.len() + suites.len() + compressions.len()
            + extensions.len(),
{
}

proof fn lemma_sni_in_built_extensions(before: Seq<(u16, Seq<u8>)>, host: Seq<u8>, after: Seq<u8>)
    requires
        forall|i: int| 0 <= i < before.len() ==> (#[trigger] before[i]).0 != 0 && before[i].1.len() < 65536,
        host.len() + 5 < 65536,
    ensures
        sni_in_extensions(extension_fields(before) + server_name_extension(host) + after, 0) == Some(host),
{
    assert(extension_fields(before) + server_name_extension(host) + after =~= extension_fields(before)
        + (server_name_extension(host) + after));
    lemma_sni_walk_skips(before, server_name_extension(host) + after);
    lemma_sni_walk_finds_name(host, after);
}

/// Wherever its fields put the extensions block, the server name of a ClientHello is
/// found: for any session id of up to 32 bytes, any cipher suites and compression
/// methods, any extensions other than `server_name` before it and any bytes after it,
/// the record holding the ClientHello announces `host`.
pub proof fn lemma_sni_of_client_hello(
    random: Seq<u8>,
    session_id: Seq<u8>,
    suites: Seq<u8>,
    compressions: Seq<u8>,
    before: Seq<(u16, Seq<u8>)>,
    host: Seq<u8>,
    after: Seq<u8>,
)
    requires
        random.len() == 32,
        session_id.len() <= 32,
        suites.len() < 65536,
        compressions.len() < 256,
        forall|i: int| 0 <= i < before.len() ==> (#[trigger] before[i]).0 != 0 && before[i].1.len() < 65536,
        host.len() + 5 < 65536,
        client_hello_body(
            random,
            session_id,
            suites,
            compressions,
            extension_fields(before) + server_name_extension(host) + after,
        ).len() + 4 < 65536,
    ensures
        sni_bytes(
            client_hello_record(
                client_hello_body(
                    random,
                    session_id,
                    suites,
                    compressions,
                    extension_fields(before) + server_name_extension(host) + after,
                ),
            ),
        ) == Some(host),
{
    let exts = extension_fields(before) + server_name_extension(host) + after;
    let body = client_hello_body(random, session_id, suites, compressions, exts);
    lemma_client_hello_body_len(random, session_id, suites, compressions, exts);
    lemma_record_holds_hello(body);
    lemma_hello_extensions_of_body(random, session_id, suites, compressions, exts);
    lemma_sni_in_built_extensions(before, host, after);
}

/// Locates the extensions block of the ClientHello held in `data[s..e]`.
fn hello_extensions_range(data: &[u8], s: usize, e: usize) -> (r: Option<(usize, usize)>)
    requires
        s <= e <= data@.len(),
    ensures
        match hello_extensions(data@.subrange(s as int, e as int)) {
            Some(x) => r matches Some((a, b)) && s <= a <= b <= e && data@.subrange(a as int, b as int) == x,
            None => r is None,
        },
{
    let ghost ch = data@.subrange(s as int, e as int);
    let len = e - s;
    if len < 35 {
        return None;
    }
    let i1 = 35 + data[s + 34] as usize;
    assert(ch[34] == data@[s + 34]);
    if len < i1 || len - i1 < 2 {
        return None;
    }
    assert(ch[i1 as int] == data@[s + i1] && ch[i1 + 1] == data@[s + i1 + 1]);
    let cs = data[s + i1] as usize * 256 + data[s + i1 + 1] as usize;
    if len - i1 - 2 < cs {
        return None;
    }
    let i2 = i1 + 2 + cs;
    if len - i2 < 1 {
        return None;
    }
    assert(ch[i2 as int] == data@[s + i2]);
    let i3 = i2 + 1 + data[s + i2] as usize;
    if len < i3 || len - i3 < 2 {
        return None;
    }
    assert(ch[i3 as int] == data@[s + i3] && ch[i3 + 1] == data@[s + i3 + 1]);
    let et = data[s + i3] as usize * 256 + data[s + i3 + 1] as usize;
    if len - i3 - 2 < et {
        return None;
    }
    let a = s + i3 + 2;
    let b = a + et;
    assert(data@.subrange(a as int, b as int) =~= ch.subrange(i3 + 2, i3 + 2 + et));
    Some((a, b))
}

/// Walks the extensions block `data[a..b]` for the server name.
fn sni_range(data: &[u8], a: usize, b: usize) -> (r: Option<(usize, usize)>)
    requires
        a <= b <= data@.len(),
    ensures
        match sni_in_extensions(data@.subrange(a as int, b as int), 0) {
            Some(x) => r matches Some((p, q)) && a <= p <= q <= b && data@.subrange(p as int, q as int) == x,
            None => r is None,
        },
{
    let ghost exts = data@.subrange(a as int, b as int);
    let len = b - a;
    let mut j: usize = 0;
    while j <= len && len - j >= 4
        invariant
            a <= b <= data@.len(),
            len == b - a,
            exts == data@.subrange(a as int, b as int),
            j <= len,
            sni_in_extensions(exts, j as int) == sni_in_extensions(exts, 0),
        decreases len - j,
    {
        assert(exts[j as int] == data@[a + j] && exts[j + 1] == data@[a + j + 1]);
        assert(exts[j + 2] == data@[a + j + 2] && exts[j + 3] == data@[a + j + 3]);
        let t = data[a + j] as usize * 256 + data[a + j + 1] as usize;
        let l = data[a + j + 2] as usize * 256 + data[a + j + 3] as usize;
        let k = j + 4;
        if len - k < l {
            return None;
        }
        let ghost ext = exts.subrange(k as int, (k + l) as int);
        if t == 0 && l >= 5 && data[a + k + 2] == 0 {
            assert(ext[2] == data@[a + k + 2]);
            assert(ext[3] == data@[a + k + 3] && ext[4] == data@[a + k + 4]);
            let nl = data[a + k + 3] as usize * 256 + data[a + k + 4] as usize;
            if l - 5 >= nl {
                let p = a + k + 5;
                assert(data@.subrange(p as int, (p + nl) as int) =~= ext.subrange(5, 5 + nl));
                return Some((p, p + nl));
            }
        } else if t == 0 && l >= 5 {
            assert(ext[2] == data@[a + k + 2]);
        }
        j = k + l;
    }
    None
}

/// The server name of a raw ClientHello (decoded leniently), or `None` when the bytes
/// are not a ClientHello or carry no well-formed `server_name` extension.
pub fn parse_sni_from_client_hello(data: &[u8]) -> (r: Option<String>)
    ensures
        match sni_bytes(data@) {
            Some(b) => r matches Some(s) && s@ == utf8_lossy(b),
            None => r is None,
        },
{
    let n = data.len();
    if n == 0 || data[0] != 0x16 || n < 5 {
        return None;
    }
    let record_len = data[3] as usize * 256 + data[4] as usize;
    let body_end = if record_len <= n - 5 {
        5 + record_len
    } else {
        n
    };
    let ghost body = data@.subrange(5, body_end as int);
    if body_end - 5 < 4 || data[5] != 0x01 {
        proof {
            if body.len() >= 4 {
                assert(body[0] == data@[5]);
            }
        }
        return None;
    }
    assert(body[0] == data@[5] && body[1] == data@[6] && body[2] == data@[7] && body[3] == data@[8]);
    let hs_len = data[6] as usize * 65536 + data[7] as usize * 256 + data[8] as usize;
    let ch_end = if hs_len <= body_end - 9 {
        9 + hs_len
    } else {
        body_end
    };
    assert(body.subrange(4, (ch_end - 5) as int) =~= data@.subrange(9, ch_end as int));
    match hello_extensions_range(data, 9, ch_end) {
        None => None,
        Some((a, b)) => match sni_range(data, a, b) {
            None => None,
            Some((p, q)) => {
                let name = slice_subrange(data, p, q);
                Some(from_utf8_lossy(name))
            },
        },
    }
}

/// Whether the peeked bytes hold the whole first TLS record (5-byte header plus the
/// length it declares), so that the ClientHello can be parsed.
pub fn client_hello_complete(buf: &[u8]) -> (r: bool)
    ensures
        r <==> (buf@.len() >= 5 && buf@.len() >= 5 + be16(buf@[3], buf@[4])),
{
    let n = buf.len();
    if n >= 5 {
        let record_len = buf[3] as usize * 256 + buf[4] as usize;
        n - 5 >= record_len
    } else {
        false
    }
}

} // verus!
