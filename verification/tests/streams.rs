//! Stream reading and writing, run synchronously: a byte slice stands for the stream
//! and the reading loop drives the library's decisions as the proxy runtime does.

use cuckoo::authority::CaAuthority;
use cuckoo::ca::{base64_encode, pem_encode};
use cuckoo::chunked::{line_complete, ChunkRead, ChunkedBody};
use cuckoo::error::ProxyError;
use cuckoo::handler::InterceptDecision;
use cuckoo::http1::{
    body_framing, parse_request_head, parse_response_head, response_has_no_body,
    scan_chunk_line, scan_head_buffer, serialize_request, serialize_response, BodyFraming,
    HeadScan, LineScan,
};
use cuckoo::intercept::InterceptRegistry;
use cuckoo::message::HttpMessage;

struct Stream<'a> {
    data: &'a [u8],
    pos: usize,
}

impl<'a> Stream<'a> {
    fn byte(&mut self) -> Option<u8> {
        let b = self.data.get(self.pos).copied();
        if b.is_some() {
            self.pos += 1;
        }
        b
    }

    fn exact(&mut self, n: usize) -> Result<Vec<u8>, ProxyError> {
        if self.pos + n > self.data.len() {
            return Err(ProxyError::ConnectionClosed);
        }
        let v = self.data[self.pos..self.pos + n].to_vec();
        self.pos += n;
        Ok(v)
    }

    fn head(&mut self) -> Result<Vec<u8>, ProxyError> {
        let mut buf = Vec::new();
        loop {
            buf.push(self.byte().ok_or(ProxyError::ConnectionClosed)?);
            match scan_head_buffer(&buf) {
                HeadScan::NeedMore => {}
                HeadScan::Complete => {
                    buf.truncate(buf.len() - 4);
                    return Ok(buf);
                }
                HeadScan::TooLarge => return Err(ProxyError::HttpParse("too large".to_string())),
            }
        }
    }

    fn size_line(&mut self) -> Result<Option<Vec<u8>>, ProxyError> {
        let mut line = Vec::new();
        loop {
            let Some(b) = self.byte() else { return Ok(None) };
            line.push(b);
            match scan_chunk_line(&line) {
                LineScan::NeedMore => {}
                LineScan::Complete => return Ok(Some(line)),
                LineScan::TooLarge => {
                    return Err(ProxyError::HttpParse("chunk size line exceeds limit".to_string()))
                }
            }
        }
    }

    fn trailer_line(&mut self) -> Option<Vec<u8>> {
        let mut line = Vec::new();
        loop {
            line.push(self.byte()?);
            if line_complete(&line) {
                return Some(line);
            }
        }
    }

    fn chunked(&mut self) -> Result<Vec<u8>, ProxyError> {
        let mut d = ChunkedBody::new();
        loop {
            match d.next_read() {
                ChunkRead::SizeLine => {
                    let line = self.size_line()?.ok_or(ProxyError::ConnectionClosed)?;
                    d.size_line(&line)?;
                }
                ChunkRead::Data(n) => {
                    let chunk = self.exact(n)?;
                    let _ = self.exact(2);
                    d.data(chunk);
                }
                ChunkRead::TrailerLine => {
                    let line = self.trailer_line();
                    d.trailer_line(line.as_ref());
                }
                ChunkRead::Done => return Ok(d.into_body()),
            }
        }
    }

    fn body(&mut self, headers: &Vec<(String, String)>) -> Result<Vec<u8>, ProxyError> {
        match body_framing(headers)? {
            BodyFraming::Chunked => self.chunked(),
            BodyFraming::Length(n) => self.exact(n),
            BodyFraming::Empty => Ok(Vec::new()),
        }
    }

    fn request(&mut self) -> Result<HttpMessage, ProxyError> {
        let head = self.head()?;
        let mut req = parse_request_head(&String::from_utf8_lossy(&head))?;
        req.body = self.body(&req.headers)?;
        Ok(req)
    }

    fn response(&mut self, method: &str) -> Result<HttpMessage, ProxyError> {
        let head = self.head()?;
        let (mut res, code) = parse_response_head(&String::from_utf8_lossy(&head))?;
        if !response_has_no_body(method, &code) {
            res.body = self.body(&res.headers)?;
        }
        Ok(res)
    }
}

fn stream(data: &[u8]) -> Stream<'_> {
    Stream { data, pos: 0 }
}

fn make_req(body: &[u8], extra: &[(&str, &str)]) -> HttpMessage {
    let mut headers = vec![("Host".to_string(), "example.com".to_string())];
    for (k, v) in extra {
        headers.push((k.to_string(), v.to_string()));
    }
    HttpMessage {
        method: "POST".to_string(),
        uri: "/path".to_string(),
        version: "HTTP/1.1".to_string(),
        headers,
        body: body.to_vec(),
    }
}

#[test]
fn test_generate_and_sign() {
    let der = b"hello world";
    let b64 = base64_encode(der);
    assert_eq!(b64, "aGVsbG8gd29ybGQ=");

    let pem = pem_encode(der, "TEST");
    assert!(pem.starts_with("-----BEGIN TEST-----"));
    assert!(pem.ends_with("-----END TEST-----\n"));
}

#[test]
fn test_ca_generate_and_leaf_sign() {
    let mut created = CaAuthority::generate().unwrap();
    assert!(created.authority.get_or_issue_server_config("example.com").is_ok());
    assert!(!created.authority.export_ca_cert_der().unwrap().is_empty());
}

#[test]
fn test_write_request_no_duplicate_content_length() {
    let req = make_req(b"hello", &[("Transfer-Encoding", "chunked")]);
    let text = String::from_utf8(serialize_request(&req)).unwrap();
    assert_eq!(text.matches("Content-Length:").count(), 1);
    assert!(!text.to_lowercase().contains("transfer-encoding"));
    assert!(text.contains("Content-Length: 5"));
}

#[test]
fn test_write_response_204_no_content_length() {
    let res = HttpMessage {
        method: String::new(),
        uri: String::new(),
        version: "HTTP/1.1".to_string(),
        headers: vec![(":status".to_string(), "204 No Content".to_string())],
        body: Vec::new(),
    };
    let text = String::from_utf8(serialize_response(&res)).unwrap();
    assert!(!text.contains("Content-Length"));
}

#[test]
fn test_read_response_head_no_body() {
    let raw = b"HTTP/1.1 200 OK\r\nContent-Length: 100\r\n\r\n";
    let res = stream(raw).response("HEAD").unwrap();
    assert!(res.body.is_empty());
}

#[test]
fn test_read_body_gzip_chunked() {
    let mut raw = b"POST / HTTP/1.1\r\nHost: a.com\r\nTransfer-Encoding: gzip, chunked\r\n\r\n".to_vec();
    raw.extend_from_slice(b"5\r\nhello\r\n0\r\n\r\n");
    let req = stream(&raw).request().unwrap();
    assert_eq!(req.body, b"hello");
}

#[test]
fn test_reject_oversized_content_length() {
    let raw = b"POST / HTTP/1.1\r\nHost: a.com\r\nContent-Length: 999999999999\r\n\r\n";
    assert!(stream(raw).request().is_err());
}

#[test]
fn test_reject_oversized_chunk() {
    let mut raw = b"POST / HTTP/1.1\r\nHost: a.com\r\nTransfer-Encoding: chunked\r\n\r\n".to_vec();
    raw.extend_from_slice(b"FFFFFFFF\r\n");
    assert!(stream(&raw).request().is_err());
}

#[test]
fn test_pause_and_resolve() {
    let mut registry = InterceptRegistry::new();
    let msg = HttpMessage {
        method: "GET".to_string(),
        uri: "/test".to_string(),
        version: "HTTP/1.1".to_string(),
        headers: vec![],
        body: Vec::new(),
    };
    let mut rx = registry.register("flow-1", "request", msg);
    assert_eq!(registry.get_stage("flow-1").as_deref(), Some("request"));
    registry.resolve("flow-1", InterceptDecision::Abort).unwrap();
    match rx.try_recv() {
        Ok(InterceptDecision::Abort) => {}
        _ => panic!("expected Abort"),
    }
}

#[test]
fn chunked_bodies_collect_every_chunk_and_skip_trailers() {
    let raw = b"3;ext=1\r\nabc\r\nA\r\n0123456789\r\n0\r\nX-Trailer: 1\r\n\r\n";
    assert_eq!(stream(raw).chunked().unwrap(), b"abc0123456789");
    // The end of the stream also ends the trailer section.
    assert_eq!(stream(b"2\r\nhi\r\n0\r\nX-T: 1").chunked().unwrap(), b"hi");
    // A missing size line is a closed connection; a bad size is a parse error.
    assert!(matches!(stream(b"").chunked(), Err(ProxyError::ConnectionClosed)));
    match stream(b"zz\r\n").chunked() {
        Err(ProxyError::HttpParse(m)) => {
            assert_eq!(m, "invalid chunk size 'zz': invalid digit found in string")
        }
        _ => panic!("expected HttpParse"),
    }
    match stream(b"1000001\r\n").chunked() {
        Err(ProxyError::HttpParse(m)) => assert_eq!(m, "chunked body exceeds 67108864 bytes limit"),
        _ => panic!("expected HttpParse"),
    }
}

#[test]
fn decoder_steps() {
    let mut d = ChunkedBody::new();
    assert_eq!(d.next_read(), ChunkRead::SizeLine);
    d.size_line(b"4\r\n").unwrap();
    assert_eq!(d.next_read(), ChunkRead::Data(4));
    d.data(b"wiki".to_vec());
    assert_eq!(d.next_read(), ChunkRead::SizeLine);
    d.size_line(b"0\r\n").unwrap();
    assert_eq!(d.next_read(), ChunkRead::TrailerLine);
    d.trailer_line(Some(&b"Expires: never\r\n".to_vec()));
    assert_eq!(d.next_read(), ChunkRead::TrailerLine);
    d.trailer_line(Some(&b"\r\n".to_vec()));
    assert_eq!(d.next_read(), ChunkRead::Done);
    assert_eq!(d.into_body(), b"wiki");
}
