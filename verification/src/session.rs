//! How clients find and authenticate to the local API server: the token it keeps in
//! its token file, the base URL written to its port file, and what the desktop shell
//! hands its web view.
use vstd::prelude::*;
use crate::flow::opt_str;
use crate::text::{
    chars_of, dec_str, parse_u16, parse_unsigned, push_char, push_decimal, push_str,
    string_from_str, string_of_range, trim_bounds, trim_seq,
};

verus! {

/// Length of a generated API token.
pub const TOKEN_LEN: usize = 48;

pub open spec fn is_alnum_char(c: char) -> bool {
    ||| ('0' <= c && c <= '9')
    ||| ('A' <= c && c <= 'Z')
    ||| ('a' <= c && c <= 'z')
}

/// One draw of `rand`'s `Alphanumeric` distribution from the thread-local generator,
/// as a character. Its source picks from `A-Z`, `a-z` and `0-9`; which one comes out
/// is chance and is not stated.
#[verifier::external_body]
fn random_alphanumeric() -> (c: char)
    ensures
        is_alnum_char(c),
{
    char::from(rand::RngExt::sample(&mut rand::rng(), rand::distr::Alphanumeric))
}

/// A fresh token of `TOKEN_LEN` random ASCII letters and digits.
pub fn generate_token() -> (t: String)
    ensures
        t@.len() == TOKEN_LEN,
        forall|i: int| 0 <= i < t@.len() ==> is_alnum_char(#[trigger] t@[i]),
{
    let mut t = String::new();
    let mut n: usize = 0;
    while n < TOKEN_LEN
        invariant
            n <= TOKEN_LEN,
            t@.len() == n,
            forall|i: int| 0 <= i < t@.len() ==> is_alnum_char(#[trigger] t@[i]),
        decreases TOKEN_LEN - n,
    {
        let c = random_alphanumeric();
        push_char(&mut t, c);
        n += 1;
    }
    t
}

/// The token kept in a token file: its content trimmed, unless that is empty.
pub open spec fn stored_token(content: Seq<char>) -> Option<Seq<char>> {
    if trim_seq(content).len() == 0 {
        None
    } else {
        Some(trim_seq(content))
    }
}

pub fn token_from_file(content: &str) -> (r: Option<String>)
    ensures
        opt_str(r) == stored_token(content@),
{
    let v = chars_of(content);
    let (a, b) = trim_bounds(&v, 0, v.len());
    assert(v@.subrange(0, v.len() as int) =~= v@);
    if a == b {
        None
    } else {
        Some(string_of_range(&v, a, b))
    }
}

/// The token the API server uses. `existing` is the content of its token file, when
/// that file exists: its stored token is reused; otherwise a fresh token is made, and
/// the flag says that it has to be written to the file.
pub fn choose_token(existing: Option<&str>) -> (r: (String, bool))
    ensures
        r.1 <==> !(existing matches Some(c) && stored_token(c@) is Some),
        !r.1 ==> Some(r.0@) == stored_token(existing.unwrap()@),
        r.1 ==> r.0@.len() == TOKEN_LEN && forall|i: int|
            0 <= i < r.0@.len() ==> is_alnum_char(#[trigger] r.0@[i]),
{
    match existing {
        Some(c) => {
            match token_from_file(c) {
                Some(t) => (t, false),
                None => (generate_token(), true),
            }
        },
        None => (generate_token(), true),
    }
}

/// Base URL of the API server listening on `port` of the loopback address.
pub open spec fn base_url(port: nat) -> Seq<char> {
    "http://127.0.0.1:"@ + dec_str(port)
}

pub fn base_url_for_port(port: u16) -> (r: String)
    ensures
        r@ == base_url(port as nat),
{
    let mut s = string_from_str("http://127.0.0.1:");
    push_decimal(&mut s, port as u64);
    s
}

/// The base URL named by a port file: its content trimmed, read as a port number;
/// `None` when that is not a number that fits in `u16`.
pub fn base_url_from_port_file(content: &str) -> (r: Option<String>)
    ensures
        match parse_unsigned(trim_seq(content@), u16::MAX as nat) {
            Some(p) => r is Some && r.unwrap()@ == base_url(p),
            None => r is None,
        },
{
    let v = chars_of(content);
    let (a, b) = trim_bounds(&v, 0, v.len());
    assert(v@.subrange(0, v.len() as int) =~= v@);
    let trimmed = string_of_range(&v, a, b);
    match parse_u16(trimmed.as_str()) {
        Some(port) => Some(base_url_for_port(port)),
        None => None,
    }
}

/// What the desktop shell hands its web view: where the API server listens, and its
/// token.
#[derive(Debug, Clone)]
pub struct ServerTokenResponse {
    pub base_url: String,
    pub token: String,
}

/// The response for a server listening on `addr` (its socket address as text).
pub fn server_token_response(addr: &str, token: &str) -> (r: ServerTokenResponse)
    ensures
        r.base_url@ == "http://"@ + addr@,
        r.token@ == token@,
{
    let mut base_url = string_from_str("http://");
    push_str(&mut base_url, addr);
    ServerTokenResponse { base_url, token: string_from_str(token) }
}

} // verus!
