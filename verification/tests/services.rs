use cuckoo::aggregator::{AggregatorAction, AggregatorInput, Batcher, MAX_BATCH_SIZE};
use cuckoo::api::{
    authorize, constant_time_eq, flow_body, get_flow, list_flows, FlowStream, StreamInput,
    StreamStep, TokenQuery, BATCH_EVENT, END_DATA, END_EVENT,
};
use cuckoo::ca::{base64_encode, pem_encode};
use cuckoo::error::{InterceptError, ProxyError, ServiceError};
use cuckoo::flow::TrafficEvent;
use cuckoo::handler::{build_flow, InterceptDecision};
use cuckoo::intercept::InterceptRegistry;
use cuckoo::message::{FlowContext, HttpMessage};
use cuckoo::store::FlowStore;

fn get(uri: &str) -> HttpMessage {
    HttpMessage {
        method: "GET".to_string(),
        uri: uri.to_string(),
        version: "HTTP/1.1".to_string(),
        headers: vec![],
        body: Vec::new(),
    }
}

#[test]
fn test_resolve_not_found() {
    let mut registry = InterceptRegistry::new();
    let result = registry.resolve("nonexistent", InterceptDecision::Abort);
    assert!(matches!(result, Err(InterceptError::NotFound(_))));
}

#[test]
fn registry_delivers_a_decision_once() {
    let mut registry = InterceptRegistry::new();
    let mut rx = registry.register("flow-1", "request", get("/test"));
    assert_eq!(registry.get_stage("flow-1").as_deref(), Some("request"));
    assert_eq!(registry.get_original("flow-1").unwrap().uri, "/test");
    assert_eq!(registry.list_pending(), vec![("flow-1".to_string(), "request".to_string())]);
    registry.resolve("flow-1", InterceptDecision::Abort).unwrap();
    assert!(matches!(rx.try_recv(), Ok(InterceptDecision::Abort)));
    assert!(matches!(registry.resolve("flow-1", InterceptDecision::Abort), Err(InterceptError::NotFound(_))));
    registry.release("flow-1");
    assert!(registry.get_stage("flow-1").is_none());
    let rx2 = registry.register("flow-2", "response", get("/r"));
    drop(rx2);
    assert!(matches!(registry.resolve("flow-2", InterceptDecision::Abort), Err(InterceptError::AlreadyResolved(_))));
    assert!(registry.get_stage("flow-2").is_none());
    let _rx3 = registry.register("flow-3", "request", get("/"));
    registry.cancel_all();
    assert!(registry.list_pending().is_empty());
}

#[test]
fn base64_and_pem() {
    let der = b"hello world";
    assert_eq!(base64_encode(der), "aGVsbG8gd29ybGQ=");
    assert_eq!(base64_encode(b""), "");
    assert_eq!(base64_encode(b"f"), "Zg==");
    assert_eq!(base64_encode(b"fo"), "Zm8=");
    assert_eq!(base64_encode(b"foo"), "Zm9v");
    assert_eq!(base64_encode(&[0xfb, 0xff]), "+/8=");
    let pem = pem_encode(der, "TEST");
    assert!(pem.starts_with("-----BEGIN TEST-----"));
    assert!(pem.ends_with("-----END TEST-----\n"));
    assert_eq!(pem, "-----BEGIN TEST-----\naGVsbG8gd29ybGQ=\n-----END TEST-----\n");
    let long = pem_encode(&[0u8; 60], "X");
    let lines: Vec<&str> = long.lines().collect();
    assert_eq!(lines.len(), 4);
    assert_eq!(lines[1].len(), 64);
    assert_eq!(lines[2].len(), 16);
}

#[test]
fn token_checks() {
    assert!(constant_time_eq(b"abc", b"abc"));
    assert!(!constant_time_eq(b"abc", b"abd"));
    assert!(!constant_time_eq(b"abc", b"ab"));
    let none = TokenQuery { token: None };
    let tok = TokenQuery { token: Some("tok".to_string()) };
    assert!(authorize(Some("Bearer tok"), "/api/flows", &none, "tok"));
    assert!(!authorize(Some("Bearer bad"), "/api/flows", &none, "tok"));
    assert!(!authorize(Some("Basic tok"), "/api/flows", &tok, "tok"));
    assert!(authorize(None, "/api/flows/stream", &tok, "tok"));
    assert!(authorize(Some("Basic x"), "/api/flows/stream", &tok, "tok"));
    assert!(!authorize(None, "/api/flows", &tok, "tok"));
    assert!(!authorize(None, "/api/flows/stream", &none, "tok"));
}

#[test]
fn flow_endpoints() {
    let mut store = FlowStore::new();
    let ctx = FlowContext::new("a.test", 80);
    let mut r = get("/");
    r.body = vec![0xff, 0xfe];
    r.headers.push(("Content-Type".to_string(), "application/octet-stream".to_string()));
    store.upsert(build_flow(&ctx, &r, "f1".to_string(), 1));
    let list = list_flows(&store, None, None, None);
    assert_eq!(list.total, 1);
    assert_eq!(list.flows.len(), 1);
    assert_eq!(list_flows(&store, Some(0), None, None).flows.len(), 0);
    assert_eq!(get_flow(&store, "f1").unwrap().id, "f1");
    match get_flow(&store, "nope") {
        Err(ServiceError::NotFound(m)) => assert_eq!(m, "flow not found: nope"),
        _ => panic!("expected NotFound"),
    }
    let body = flow_body(&store, "f1", "request").unwrap();
    assert!(body.binary);
    assert_eq!(body.body, "//4=");
    assert_eq!(body.content_type.as_deref(), Some("application/octet-stream"));
    match flow_body(&store, "f1", "response") {
        Err(ServiceError::NotFound(m)) => assert_eq!(m, "response not available"),
        _ => panic!("expected NotFound"),
    }
    match flow_body(&store, "f1", "headers") {
        Err(ServiceError::BadRequest(m)) => {
            assert_eq!(m, "invalid part 'headers', expected 'request' or 'response'")
        }
        _ => panic!("expected BadRequest"),
    }
}

fn event(id: &str) -> TrafficEvent {
    TrafficEvent::FlowError { flow_id: id.to_string(), error: String::new() }
}

#[test]
fn batches_keep_every_event_in_order() {
    let mut b = Batcher::new();
    assert!(matches!(b.step(AggregatorInput::Event(event("1"))), AggregatorAction::StartWindow));
    assert!(matches!(b.step(AggregatorInput::Event(event("2"))), AggregatorAction::KeepWindow));
    match b.step(AggregatorInput::WindowElapsed) {
        AggregatorAction::Publish(v) => assert_eq!(v.len(), 2),
        _ => panic!("expected Publish"),
    }
    assert!(matches!(b.step(AggregatorInput::WindowElapsed), AggregatorAction::WaitFirst));
    let mut published = 0;
    for i in 0..MAX_BATCH_SIZE {
        match b.step(AggregatorInput::Event(event(&i.to_string()))) {
            AggregatorAction::Publish(v) => published += v.len(),
            _ => {}
        }
    }
    assert_eq!(published, MAX_BATCH_SIZE);
    b.step(AggregatorInput::Event(event("last")));
    match b.step(AggregatorInput::Closed) {
        AggregatorAction::Finish(Some(v)) => assert_eq!(v.len(), 1),
        _ => panic!("expected Finish"),
    }
    assert!(matches!(b.step(AggregatorInput::Event(event("x"))), AggregatorAction::Finish(None)));
}

#[test]
fn error_messages() {
    assert_eq!(InterceptError::NotFound("f1".to_string()).message(), "intercept not found: f1");
    assert_eq!(
        InterceptError::AlreadyResolved("f2".to_string()).message(),
        "intercept already resolved or cancelled: f2"
    );
    assert_eq!(InterceptError::Cancelled.message(), "intercept cancelled (sender dropped)");
    assert_eq!(ProxyError::ConnectionClosed.message(), "connection closed unexpectedly");
    assert_eq!(ProxyError::HttpParse("bad".to_string()).message(), "HTTP parse error: bad");
    assert_eq!(ProxyError::Tls("x".to_string()).message(), "TLS error: x");
    assert_eq!(ProxyError::Handler("h".to_string()).message(), "handler error: h");
    assert_eq!(
        ProxyError::UpstreamConnectFailed("u".to_string()).message(),
        "upstream connect failed: u"
    );
    assert_eq!(
        ProxyError::ConnectParseFailed("c".to_string()).message(),
        "connect target parse failed: c"
    );
    let io = std::io::Error::new(std::io::ErrorKind::Other, "boom");
    assert_eq!(ProxyError::Io(io).message(), "IO error: boom");
}

#[test]
fn event_stream_ends_once() {
    let mut s = FlowStream::new();
    assert!(!s.is_over());
    assert_eq!(s.step(StreamInput::Batch), StreamStep::SendBatch);
    assert_eq!(s.step(StreamInput::Lagged(3)), StreamStep::Skip);
    assert_eq!(s.step(StreamInput::Batch), StreamStep::SendBatch);
    assert_eq!(s.step(StreamInput::Closed), StreamStep::SendEnd);
    assert!(s.is_over());
    assert_eq!(s.step(StreamInput::Closed), StreamStep::Finish);
    assert_eq!(s.step(StreamInput::Batch), StreamStep::Finish);
    assert_eq!(BATCH_EVENT, "flow.batch");
    assert_eq!(END_EVENT, "flow.end");
    assert_eq!(END_DATA, "{\"reason\":\"aggregator closed\"}");
}

#[test]
fn cancel_all_drops_only_undecided_exchanges() {
    let mut registry = InterceptRegistry::new();
    let mut decided = registry.register("f-decided", "request", get("/a"));
    let mut waiting = registry.register("f-waiting", "response", get("/b"));
    registry.resolve("f-decided", InterceptDecision::Abort).unwrap();
    registry.cancel_all();
    assert_eq!(registry.get_stage("f-decided").as_deref(), Some("request"));
    assert!(registry.get_stage("f-waiting").is_none());
    assert!(matches!(decided.try_recv(), Ok(InterceptDecision::Abort)));
    assert!(waiting.try_recv().is_err());
}
