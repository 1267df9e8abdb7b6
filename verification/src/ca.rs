//! Text encodings used by the certificate authority: standard base64 and PEM armour.
use vstd::prelude::*;
use crate::text::{chars_of, push_char, push_str, string_from_str};

verus! {

/// The character of a 6-bit value in the standard base64 alphabet.
pub open spec fn b64_char(v: nat) -> char {
    if v < 26 {
        (65 + v) as char
    } else if v < 52 {
        (97 + (v - 26)) as char
    } else if v < 62 {
        (48 + (v - 52)) as char
    } else if v == 62 {
        '+'
    } else {
        '/'
    }
}

/// Standard base64 (RFC 4648, with `=` padding): every 3 bytes become 4 characters of
/// 6 bits each; a final group of 1 or 2 bytes is padded with zero bits and `=`.
pub open spec fn base64_spec(d: Seq<u8>) -> Seq<char>
    decreases d.len(),
{
    if d.len() == 0 {
        Seq::empty()
    } else if d.len() == 1 {
        seq![b64_char(d[0] as nat / 4), b64_char((d[0] as nat % 4) * 16), '=', '=']
    } else if d.len() == 2 {
        seq![
            b64_char(d[0] as nat / 4),
            b64_char((d[0] as nat % 4) * 16 + d[1] as nat / 16),
            b64_char((d[1] as nat % 16) * 4),
            '=',
        ]
    } else {
        seq![
            b64_char(d[0] as nat / 4),
            b64_char((d[0] as nat % 4) * 16 + d[1] as nat / 16),
            b64_char((d[1] as nat % 16) * 4 + d[2] as nat / 64),
            b64_char(d[2] as nat % 64),
        ] + base64_spec(d.skip(3))
    }
}

fn b64_char_exec(v: u8) -> (c: char)
    requires
        v < 64,
    ensures
        c == b64_char(v as nat),
{
    if v < 26 {
        (65 + v) as char
    } else if v < 52 {
        (97 + (v - 26)) as char
    } else if v < 62 {
        (48 + (v - 52)) as char
    } else if v == 62 {
        '+'
    } else {
        '/'
    }
}

proof fn lemma_base64_step(d: Seq<u8>, i: int)
    requires
        0 <= i,
        i + 3 <= d.len(),
    ensures
        base64_spec(d.skip(i)) == seq![
            b64_char(d[i] as nat / 4),
            b64_char((d[i] as nat % 4) * 16 + d[i + 1] as nat / 16),
            b64_char((d[i + 1] as nat % 16) * 4 + d[i + 2] as nat / 64),
            b64_char(d[i + 2] as nat % 64),
        ] + base64_spec(d.skip(i + 3)),
{
    let t = d.skip(i);
    assert(t.skip(3) =~= d.skip(i + 3));
    assert(t[0] == d[i] && t[1] == d[i + 1] && t[2] == d[i + 2]);
}

/// Standard base64 of the bytes, with padding.
pub fn base64_encode(data: &[u8]) -> (r: String)
    ensures
        r@ == base64_spec(data@),
{
    let n = data.len();
    let mut out = String::new();
    let mut i: usize = 0;
    assert(data@.skip(0) =~= data@);
    while n - i >= 3
        invariant
            i <= n,
            n == data@.len(),
            out@ + base64_spec(data@.skip(i as int)) == base64_spec(data@),
        decreases n - i,
    {
        let b0 = data[i];
        let b1 = data[i + 1];
        let b2 = data[i + 2];
        proof {
            lemma_base64_step(data@, i as int);
        }
        let ghost before = out@;
        push_char(&mut out, b64_char_exec(b0 / 4));
        push_char(&mut out, b64_char_exec((b0 % 4) * 16 + b1 / 16));
        push_char(&mut out, b64_char_exec((b1 % 16) * 4 + b2 / 64));
        push_char(&mut out, b64_char_exec(b2 % 64));
        assert(out@ =~= before + seq![
            b64_char(b0 as nat / 4),
            b64_char((b0 as nat % 4) * 16 + b1 as nat / 16),
            b64_char((b1 as nat % 16) * 4 + b2 as nat / 64),
            b64_char(b2 as nat % 64),
        ]);
        i += 3;
    }
    let ghost tail = data@.skip(i as int);
    if n - i == 1 {
        let b0 = data[i];
        assert(tail[0] == b0);
        push_char(&mut out, b64_char_exec(b0 / 4));
        push_char(&mut out, b64_char_exec((b0 % 4) * 16));
        push_char(&mut out, '=');
        push_char(&mut out, '=');
    } else if n - i == 2 {
        let b0 = data[i];
        let b1 = data[i + 1];
        assert(tail[0] == b0 && tail[1] == b1);
        push_char(&mut out, b64_char_exec(b0 / 4));
        push_char(&mut out, b64_char_exec((b0 % 4) * 16 + b1 / 16));
        push_char(&mut out, b64_char_exec((b1 % 16) * 4));
        push_char(&mut out, '=');
    } else {
        assert(tail.len() == 0);
    }
    assert(out@ =~= base64_spec(data@));
    out
}

/// The base64 text cut into lines of 64 characters, each ended by a newline.
pub open spec fn pem_body(b: Seq<char>) -> Seq<char>
    decreases b.len(),
{
    if b.len() == 0 {
        Seq::empty()
    } else if b.len() <= 64 {
        b.push('\n')
    } else {
        b.take(64).push('\n') + pem_body(b.skip(64))
    }
}

/// PEM armour: the BEGIN line, the base64 of the DER in 64-character lines, the END line.
pub open spec fn pem_spec(der: Seq<u8>, label: Seq<char>) -> Seq<char> {
    "-----BEGIN "@ + label + "-----\n"@ + pem_body(base64_spec(der)) + "-----END "@ + label + "-----\n"@
}

/// Encodes DER bytes as a PEM block with the given label.
pub fn pem_encode(der: &[u8], label: &str) -> (r: String)
    ensures
        r@ == pem_spec(der@, label@),
{
    let b64 = base64_encode(der);
    let v = chars_of(b64.as_str());
    let mut pem = string_from_str("-----BEGIN ");
    push_str(&mut pem, label);
    push_str(&mut pem, "-----\n");
    let ghost head = pem@;
    let n = v.len();
    let mut i: usize = 0;
    assert(v@.skip(0) =~= v@);
    while i < n
        invariant
            i <= n,
            n == v@.len(),
            pem@ + pem_body(v@.skip(i as int)) == head + pem_body(v@),
        decreases n - i,
    {
        let end = if n - i > 64 {
            i + 64
        } else {
            n
        };
        let ghost rest = v@.skip(i as int);
        let ghost before = pem@;
        let mut k = i;
        while k < end
            invariant
                i <= k <= end <= n,
                n == v@.len(),
                pem@ == before + v@.subrange(i as int, k as int),
            decreases end - k,
        {
            push_char(&mut pem, v[k]);
            k += 1;
            assert(pem@ =~= before + v@.subrange(i as int, k as int));
        }
        push_char(&mut pem, '\n');
        proof {
            if n - i > 64 {
                assert(rest.take(64) =~= v@.subrange(i as int, end as int));
                assert(rest.skip(64) =~= v@.skip(end as int));
            } else {
                assert(rest =~= v@.subrange(i as int, end as int));
                assert(v@.skip(end as int) =~= Seq::<char>::empty());
            }
        }
        i = end;
    }
    assert(v@.skip(n as int) =~= Seq::<char>::empty());
    push_str(&mut pem, "-----END ");
    push_str(&mut pem, label);
    push_str(&mut pem, "-----\n");
    assert(pem@ =~= pem_spec(der@, label@));
    pem
}

/// Base64 takes four characters for every three bytes or part of them, and only
/// characters of its alphabet or `=`.
pub proof fn lemma_base64_shape(d: Seq<u8>)
    ensures
        base64_spec(d).len() == 4 * ((d.len() + 2) / 3),
        forall|i: int| 0 <= i < base64_spec(d).len() ==> is_base64_char(#[trigger] base64_spec(d)[i]),
    decreases d.len(),
{
    if d.len() >= 3 {
        lemma_base64_shape(d.skip(3));
        let head = seq![
            b64_char(d[0] as nat / 4),
            b64_char((d[0] as nat % 4) * 16 + d[1] as nat / 16),
            b64_char((d[1] as nat % 16) * 4 + d[2] as nat / 64),
            b64_char(d[2] as nat % 64),
        ];
        assert forall|i: int| 0 <= i < base64_spec(d).len() implies is_base64_char(#[trigger] base64_spec(d)[i]) by {
            if i >= 4 {
                assert(base64_spec(d)[i] == base64_spec(d.skip(3))[i - 4]);
            }
        }
    }
}

/// A character of the base64 alphabet, or the padding `=`.
pub open spec fn is_base64_char(c: char) -> bool {
    ('A' <= c && c <= 'Z') || ('a' <= c && c <= 'z') || ('0' <= c && c <= '9') || c == '+' || c == '/' || c == '='
}

} // verus!
