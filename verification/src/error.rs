//! Error types of the proxy core, the certificate authority, breakpoints and the service layer.
use vstd::prelude::*;
use crate::text::{push_str, string_from_str};

verus! {

#[verifier::external_type_specification]
#[verifier::external_body]
pub struct ExIoError(std::io::Error);

/// Proxy operation errors.
#[derive(Debug)]
pub enum ProxyError {
    Io(std::io::Error),
    Tls(String),
    HttpParse(String),
    ConnectionClosed,
    ConnectParseFailed(String),
    UpstreamConnectFailed(String),
    Handler(String),
}

/// Certificate authority errors.
#[derive(Debug)]
pub enum CaError {
    GenerateFailed(String),
    PersistFailed(String),
    LoadFailed(String),
    SignFailed(String),
    TlsConfigFailed(String),
    NotInitialized,
}

/// Breakpoint (intercept) errors.
#[derive(Debug, Clone)]
pub enum InterceptError {
    NotFound(String),
    AlreadyResolved(String),
    Cancelled,
}

/// Errors returned by the service layer and the system integrations.
#[derive(Debug, Clone)]
pub enum ServiceError {
    BadRequest(String),
    NotFound(String),
    Internal(String),
}

/// `Display` text of a breakpoint error.
pub open spec fn intercept_error_text(e: InterceptError) -> Seq<char> {
    match e {
        InterceptError::NotFound(id) => "intercept not found: "@ + id@,
        InterceptError::AlreadyResolved(id) => "intercept already resolved or cancelled: "@ + id@,
        InterceptError::Cancelled => "intercept cancelled (sender dropped)"@,
    }
}

impl InterceptError {
    /// The error's message.
    pub fn message(&self) -> (r: String)
        ensures
            r@ == intercept_error_text(*self),
    {
        match self {
            InterceptError::NotFound(id) => {
                let mut m = string_from_str("intercept not found: ");
                push_str(&mut m, id.as_str());
                m
            },
            InterceptError::AlreadyResolved(id) => {
                let mut m = string_from_str("intercept already resolved or cancelled: ");
                push_str(&mut m, id.as_str());
                m
            },
            InterceptError::Cancelled => string_from_str("intercept cancelled (sender dropped)"),
        }
    }
}

/// `Display` text of a proxy error, given the text of the I/O error it may carry.
pub open spec fn proxy_error_text(e: ProxyError, io_text: Seq<char>) -> Seq<char> {
    match e {
        ProxyError::Io(_) => "IO error: "@ + io_text,
        ProxyError::Tls(m) => "TLS error: "@ + m@,
        ProxyError::HttpParse(m) => "HTTP parse error: "@ + m@,
        ProxyError::ConnectionClosed => "connection closed unexpectedly"@,
        ProxyError::ConnectParseFailed(m) => "connect target parse failed: "@ + m@,
        ProxyError::UpstreamConnectFailed(m) => "upstream connect failed: "@ + m@,
        ProxyError::Handler(m) => "handler error: "@ + m@,
    }
}

/// `std::io::Error`'s message (its `Display`). Not stated: the text itself, which comes
/// from the operating system or the error's source.
#[verifier::external_body]
fn io_error_text(e: &std::io::Error) -> (r: String) {
    e.to_string()
}

impl ProxyError {
    /// The error's message; an I/O error's own text follows `IO error: `.
    pub fn message(&self) -> (r: String)
        ensures
            exists|io_text: Seq<char>| r@ == proxy_error_text(*self, io_text),
    {
        let (prefix, detail): (&str, Option<String>) = match self {
            ProxyError::Io(e) => ("IO error: ", Some(io_error_text(e))),
            ProxyError::Tls(m) => ("TLS error: ", Some(m.clone())),
            ProxyError::HttpParse(m) => ("HTTP parse error: ", Some(m.clone())),
            ProxyError::ConnectionClosed => ("connection closed unexpectedly", None),
            ProxyError::ConnectParseFailed(m) => ("connect target parse failed: ", Some(m.clone())),
            ProxyError::UpstreamConnectFailed(m) => ("upstream connect failed: ", Some(m.clone())),
            ProxyError::Handler(m) => ("handler error: ", Some(m.clone())),
        };
        let mut r = string_from_str(prefix);
        match &detail {
            Some(d) => push_str(&mut r, d.as_str()),
            None => {},
        }
        proof {
            match self {
                ProxyError::Io(_) => {
                    assert(r@ == proxy_error_text(*self, detail.unwrap()@));
                },
                _ => {
                    assert(r@ == proxy_error_text(*self, Seq::empty()));
                },
            }
        }
        r
    }
}

} // verus!
