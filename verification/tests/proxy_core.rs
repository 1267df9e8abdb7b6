use cuckoo::connect::{classify_tunnel, parse_connect_target, TunnelProtocol};
use cuckoo::error::ProxyError;
use cuckoo::http1::{
    body_framing, check_chunk_limits, is_chunked, is_trailer_end, parse_chunk_size,
    parse_request_head, parse_request_head_bytes, parse_response_head, parse_response_head_bytes,
    response_has_no_body, scan_chunk_line,
    scan_head_buffer, serialize_request, serialize_response, BodyFraming, HeadScan, LineScan,
};
use cuckoo::message::{FlowContext, HttpMessage};
use cuckoo::routing::{
    first_line_of, parse_host_from_request, resolve_target_from_req, resolve_upstream,
    route_first_line, sync_host_header, tunnel_upstream_request_exec, upstream_from_uri,
    ConnectionRoute,
};
use cuckoo::tls::{client_hello_complete, parse_sni_from_client_hello};

fn msg(method: &str, uri: &str, headers: &[(&str, &str)], body: &[u8]) -> HttpMessage {
    HttpMessage {
        method: method.to_string(),
        uri: uri.to_string(),
        version: "HTTP/1.1".to_string(),
        headers: headers.iter().map(|(k, v)| (k.to_string(), v.to_string())).collect(),
        body: body.to_vec(),
    }
}

#[test]
fn test_parse_sni_empty() {
    assert_eq!(parse_sni_from_client_hello(&[]), None);
    assert_eq!(parse_sni_from_client_hello(&[0x16]), None);
    assert_eq!(parse_sni_from_client_hello(&[0x17, 0x03, 0x01, 0x00, 0x10]), None);
}

fn client_hello(name: &str) -> Vec<u8> {
    let mut sni = vec![0x00, 0x00];
    let list_len = (name.len() + 3) as u16;
    let ext_len = list_len + 2;
    sni.extend_from_slice(&ext_len.to_be_bytes());
    sni.extend_from_slice(&list_len.to_be_bytes());
    sni.push(0);
    sni.extend_from_slice(&(name.len() as u16).to_be_bytes());
    sni.extend_from_slice(name.as_bytes());
    let mut exts = vec![0x00, 0x17, 0x00, 0x00];
    exts.extend_from_slice(&sni);
    let mut ch = vec![0x03, 0x03];
    ch.extend_from_slice(&[7u8; 32]);
    ch.push(0);
    ch.extend_from_slice(&[0x00, 0x02, 0x13, 0x01]);
    ch.extend_from_slice(&[0x01, 0x00]);
    ch.extend_from_slice(&(exts.len() as u16).to_be_bytes());
    ch.extend_from_slice(&exts);
    let mut hs = vec![0x01, 0x00];
    hs.extend_from_slice(&(ch.len() as u16).to_be_bytes());
    hs.extend_from_slice(&ch);
    let mut rec = vec![0x16, 0x03, 0x01];
    rec.extend_from_slice(&(hs.len() as u16).to_be_bytes());
    rec.extend_from_slice(&hs);
    rec
}

#[test]
fn sni_is_read_from_a_client_hello() {
    let data = client_hello("api.example.com");
    assert_eq!(parse_sni_from_client_hello(&data), Some("api.example.com".to_string()));
    assert!(client_hello_complete(&data));
    assert!(!client_hello_complete(&data[..data.len() - 1]));
    assert!(!client_hello_complete(&data[..4]));
    let mut bad = data.clone();
    bad[5] = 0x02;
    assert_eq!(parse_sni_from_client_hello(&bad), None);
    assert_eq!(parse_sni_from_client_hello(&data[..30]), None);
}

#[test]
fn connect_targets() {
    let (h, p) = parse_connect_target("CONNECT example.com:8443 HTTP/1.1").unwrap();
    assert_eq!((h.as_str(), p), ("example.com", 8443));
    let (h, p) = parse_connect_target("connect example.com HTTP/1.1").unwrap();
    assert_eq!((h.as_str(), p), ("example.com", 443));
    let (h, p) = parse_connect_target("CONNECT [::1]:443 HTTP/1.1").unwrap();
    assert_eq!((h.as_str(), p), ("::1", 443));
    match parse_connect_target("GET / HTTP/1.1") {
        Err(ProxyError::ConnectParseFailed(m)) => assert_eq!(m, "not a CONNECT request: GET / HTTP/1.1"),
        _ => panic!("expected an error"),
    }
    match parse_connect_target("CONNECT") {
        Err(ProxyError::ConnectParseFailed(m)) => assert_eq!(m, "not a CONNECT request: CONNECT"),
        _ => panic!("expected an error"),
    }
    match parse_connect_target("CONNECT host:99999 HTTP/1.1") {
        Err(ProxyError::ConnectParseFailed(m)) => assert_eq!(m, "invalid port in CONNECT target: host:99999"),
        _ => panic!("expected an error"),
    }
}

#[test]
fn tunnel_protocols() {
    assert_eq!(classify_tunnel(&[0x16, 0x03, 0x01, 0x00]), TunnelProtocol::Tls);
    assert_eq!(classify_tunnel(b"GET / HTTP/1.1"), TunnelProtocol::PlainHttp);
    assert_eq!(classify_tunnel(b"OPT"), TunnelProtocol::Passthrough);
    assert_eq!(classify_tunnel(b"OPTIONS"), TunnelProtocol::PlainHttp);
    assert_eq!(classify_tunnel(b"SSH-2.0"), TunnelProtocol::Passthrough);
    assert_eq!(classify_tunnel(b"GE"), TunnelProtocol::Passthrough);
}

#[test]
fn request_line_targets() {
    assert_eq!(
        parse_host_from_request("GET http://example.com:8080/path HTTP/1.1"),
        Some(("example.com".to_string(), 8080))
    );
    assert_eq!(
        parse_host_from_request("GET https://example.com/a HTTP/1.1"),
        Some(("example.com".to_string(), 80))
    );
    assert_eq!(
        parse_host_from_request("GET http://example.com:bad/ HTTP/1.1"),
        Some(("example.com".to_string(), 80))
    );
    assert_eq!(parse_host_from_request("GET /path HTTP/1.1"), None);
    assert_eq!(parse_host_from_request("GET"), None);
    assert!(matches!(route_first_line("CONNECT a:443 HTTP/1.1"), ConnectionRoute::Connect));
    match route_first_line("GET /x HTTP/1.1") {
        ConnectionRoute::Plain(h, p) => assert_eq!((h.as_str(), p), ("localhost", 80)),
        _ => panic!("expected a plain route"),
    }
    assert_eq!(first_line_of(b"GET / HTTP/1.1\r\nHost: a\r\n\r\n"), "GET / HTTP/1.1");
    assert_eq!(first_line_of(b"partial"), "partial");
}

#[test]
fn upstream_targets() {
    assert_eq!(
        upstream_from_uri("https://api.test/x?y=1"),
        Some(("api.test".to_string(), 443, true))
    );
    assert_eq!(
        upstream_from_uri("http://api.test:8080?y=1"),
        Some(("api.test".to_string(), 8080, false))
    );
    assert_eq!(upstream_from_uri("http:///x"), None);
    assert_eq!(upstream_from_uri("/relative"), None);
    let req = msg("GET", "/x", &[("host", "h.test:81")], b"");
    let mut ctx = FlowContext::new("localhost", 80);
    assert_eq!(resolve_target_from_req(&req, "localhost", 80, &mut ctx), ("h.test".to_string(), 81));
    assert_eq!((ctx.target_host.as_str(), ctx.target_port), ("h.test", 81));
    let bad = msg("GET", "/x", &[("Host", "h.test:port")], b"");
    let mut ctx2 = FlowContext::new("fallback", 1);
    assert_eq!(resolve_target_from_req(&bad, "fallback", 1, &mut ctx2), ("fallback".to_string(), 1));
    assert_eq!(ctx2.target_host, "fallback");
    let rel = msg("GET", "/y", &[], b"");
    assert_eq!(resolve_upstream(&rel, "c.test", 443), ("c.test".to_string(), 443, true));
}

#[test]
fn host_header_follows_the_upstream() {
    let mut req = msg("GET", "http://b.test:8080/", &[("HOST", "a.test"), ("X", "1")], b"");
    sync_host_header(&mut req, "b.test", 8080);
    assert_eq!(req.headers[0], ("HOST".to_string(), "b.test:8080".to_string()));
    let mut req2 = msg("GET", "/", &[("X", "1")], b"");
    sync_host_header(&mut req2, "c.test", 443);
    assert_eq!(req2.headers.last().unwrap(), &("Host".to_string(), "c.test".to_string()));
    let tunneled = tunnel_upstream_request_exec(&msg("GET", "/p?q", &[], b""), "h.test", 443);
    assert_eq!(tunneled.uri, "https://h.test:443/p?q");
    let plain = tunnel_upstream_request_exec(&msg("GET", "/p", &[], b""), "h.test", 8080);
    assert_eq!(plain.uri, "http://h.test:8080/p");
}

#[test]
fn http_heads_are_parsed() {
    let req = parse_request_head("POST /a HTTP/1.1\r\nHost: a.com\r\nX-Y:  z \r\n").unwrap();
    assert_eq!(req.method, "POST");
    assert_eq!(req.uri, "/a");
    assert_eq!(req.headers, vec![("Host".to_string(), "a.com".to_string()), ("X-Y".to_string(), "z".to_string())]);
    assert!(matches!(parse_request_head("BAD"), Err(ProxyError::HttpParse(_))));
    let (res, code) = parse_response_head("HTTP/1.1 404 Not Found\r\nContent-Length: 3").unwrap();
    assert_eq!(code, "404");
    assert!(res.headers.iter().any(|(k, v)| k == ":status" && v == "404 Not Found"));
    assert!(response_has_no_body("HEAD", "200"));
    assert!(response_has_no_body("GET", "204"));
    assert!(!response_has_no_body("GET", "200"));
}

#[test]
fn body_framing_and_chunks() {
    let chunked = vec![("Transfer-Encoding".to_string(), "gzip, chunked".to_string())];
    assert!(is_chunked(&chunked));
    assert_eq!(body_framing(&chunked).unwrap(), BodyFraming::Chunked);
    let len = vec![("content-length".to_string(), "5".to_string())];
    assert_eq!(body_framing(&len).unwrap(), BodyFraming::Length(5));
    let huge = vec![("Content-Length".to_string(), "999999999999".to_string())];
    assert!(body_framing(&huge).is_err());
    assert_eq!(body_framing(&vec![]).unwrap(), BodyFraming::Empty);
    assert_eq!(parse_chunk_size("1a;ext=1\r\n").unwrap(), 26);
    assert!(parse_chunk_size("zz\r\n").is_err());
    assert_eq!(parse_chunk_size("FFFFFFFF\r\n").unwrap(), 0xFFFF_FFFF);
    assert!(check_chunk_limits(0, 0xFFFF_FFFF).is_err());
    assert!(check_chunk_limits(0, 5).is_ok());
    assert_eq!(scan_chunk_line(&b"5\r\n".to_vec()), LineScan::Complete);
    assert_eq!(scan_chunk_line(&b"5\r".to_vec()), LineScan::NeedMore);
    assert!(is_trailer_end(&b"\r\n".to_vec()));
    assert_eq!(scan_head_buffer(&b"GET / HTTP/1.1\r\n\r\n".to_vec()), HeadScan::Complete);
    assert_eq!(scan_head_buffer(&b"GET / HTTP/1.1\r\n".to_vec()), HeadScan::NeedMore);
}

#[test]
fn serialization_normalises_framing() {
    let req = msg("POST", "/path", &[("Host", "example.com"), ("Content-Length", "5"), ("Transfer-Encoding", "chunked")], b"hello");
    let text = String::from_utf8(serialize_request(&req)).unwrap();
    assert_eq!(text.matches("Content-Length:").count(), 1);
    assert!(!text.to_lowercase().contains("transfer-encoding"));
    assert!(text.contains("Content-Length: 5"));
    let res = HttpMessage {
        method: String::new(),
        uri: String::new(),
        version: "HTTP/1.1".to_string(),
        headers: vec![(":status".to_string(), "204 No Content".to_string())],
        body: Vec::new(),
    };
    let text = String::from_utf8(serialize_response(&res)).unwrap();
    assert!(!text.contains("Content-Length"));
    assert!(text.starts_with("HTTP/1.1 204 No Content\r\n"));
}

#[test]
fn heads_read_as_bytes_decode_lossily() {
    let req = parse_request_head_bytes(b"GET /caf\xff HTTP/1.1\r\nHost: a.test\r\nX-N: \xe9t\xe9").unwrap();
    assert_eq!(req.method, "GET");
    assert_eq!(req.uri, "/caf\u{FFFD}");
    assert_eq!(req.headers[1], ("X-N".to_string(), "\u{FFFD}t\u{FFFD}".to_string()));
    assert!(parse_request_head_bytes(b"").is_err());
    let (res, code) = parse_response_head_bytes(b"HTTP/1.1 204 No \xffContent\r\n").unwrap();
    assert_eq!(code, "204");
    assert_eq!(res.version, "HTTP/1.1");
    match parse_response_head_bytes(b"\xff") {
        Err(ProxyError::HttpParse(m)) => assert_eq!(m, "malformed status-line: \u{FFFD}"),
        _ => panic!("expected HttpParse"),
    }
}
