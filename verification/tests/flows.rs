use cuckoo::flow::{Flow, FlowStatus, InterceptState, TrafficEvent};
use cuckoo::handler::{
    after_request_rules, after_response_rules, build_abort_response, build_flow, find_pending_flow,
    pause_flow, resolve_request_breakpoint, resolve_response_breakpoint, start_flow, to_flow_message,
    InterceptDecision, RequestStep, ResponseStep, MAX_BODY_SIZE,
};
use cuckoo::message::{FlowContext, HttpMessage, RequestAction, ResponseAction};
use cuckoo::rules::RuleOutcome;
use cuckoo::store::FlowStore;

fn req(uri: &str, host: &str) -> HttpMessage {
    HttpMessage {
        method: "GET".to_string(),
        uri: uri.to_string(),
        version: "HTTP/1.1".to_string(),
        headers: vec![("Host".to_string(), host.to_string())],
        body: Vec::new(),
    }
}

fn res(status: &str, body: &[u8]) -> HttpMessage {
    HttpMessage {
        method: String::new(),
        uri: String::new(),
        version: "HTTP/1.1".to_string(),
        headers: vec![(":status".to_string(), status.to_string())],
        body: body.to_vec(),
    }
}

fn flow(id: &str, host: &str) -> Flow {
    let ctx = FlowContext::new(host, 80);
    build_flow(&ctx, &req("/", host), id.to_string(), 1000)
}

#[test]
fn recorded_messages() {
    let r = to_flow_message(&req("/a", "h"), false);
    assert_eq!(r.start_line, "GET /a HTTP/1.1");
    assert_eq!(r.status_code, None);
    let s = to_flow_message(&res("404 Not Found", b"abc"), true);
    assert_eq!(s.start_line, "HTTP/1.1 404 Not Found");
    assert_eq!(s.status_code, Some(404));
    assert_eq!(s.method, "");
    assert_eq!(s.body_size, 3);
    assert!(!s.body_truncated);
    let big = res("200 OK", &vec![b'x'; MAX_BODY_SIZE + 10]);
    let b = to_flow_message(&big, true);
    assert_eq!(b.body.len(), MAX_BODY_SIZE);
    assert_eq!(b.body_size, MAX_BODY_SIZE + 10);
    assert!(b.body_truncated);
    let mut no_status = res("x", b"");
    no_status.headers.clear();
    let d = to_flow_message(&no_status, true);
    assert_eq!(d.start_line, "HTTP/1.1 200 OK");
    assert_eq!(d.status_code, Some(200));
}

#[test]
fn new_flows() {
    let ctx = FlowContext::new("api.test", 443).with_sni(Some("api.test".to_string()));
    let f = build_flow(&ctx, &req("/", "api.test"), "id1".to_string(), 42);
    assert_eq!(f.id, "id1");
    assert_eq!(f.status, FlowStatus::Pending);
    assert_eq!(f.timing.start_time, 42);
    assert_eq!(f.timing.send_start, Some(42));
    assert_eq!(f.server_addr.as_ref().unwrap().ip, "api.test");
    assert_eq!(f.tls.as_ref().unwrap().alpn.as_deref(), Some("http/1.1"));
    assert_eq!(f.client_addr.as_ref().unwrap().ip, "127.0.0.1");
    let mut store = FlowStore::new();
    let mut ctx2 = FlowContext::new("h.test", 80);
    let ev = start_flow(&mut store, &mut ctx2, &req("/", "h.test"));
    match ev {
        TrafficEvent::FlowStarted { flow } => {
            assert_eq!(flow.id.len(), 26);
            assert_eq!(ctx2.flow_id.as_deref(), Some(flow.id.as_str()));
            assert!(store.get(&flow.id).is_some());
        }
        _ => panic!("expected FlowStarted"),
    }
}

#[test]
fn store_is_a_bounded_ring() {
    let mut store = FlowStore::with_capacity(2);
    store.upsert(flow("a", "one.test"));
    store.upsert(flow("b", "two.test"));
    store.upsert(flow("c", "one.test"));
    assert_eq!(store.len(), 2);
    assert!(store.get("a").is_none());
    let ids: Vec<String> = store.query_recent(10, 0).into_iter().map(|f| f.id).collect();
    assert_eq!(ids, vec!["c".to_string(), "b".to_string()]);
    let mut updated = flow("b", "two.test");
    updated.status = FlowStatus::Complete;
    store.upsert(updated);
    assert_eq!(store.len(), 2);
    assert_eq!(store.get("b").unwrap().status, FlowStatus::Complete);
    let page: Vec<String> = store.query_recent(1, 1).into_iter().map(|f| f.id).collect();
    assert_eq!(page, vec!["b".to_string()]);
    assert!(store.query_recent(5, 9).is_empty());
    store.clear();
    assert!(store.is_empty());
}

#[test]
fn host_queries() {
    let mut store = FlowStore::new();
    store.upsert(flow("1", "api.one.test"));
    store.upsert(flow("2", "two.test"));
    store.upsert(flow("3", "www.one.test"));
    let ids: Vec<String> = store.query_by_host("one", 10, 0).into_iter().map(|f| f.id).collect();
    assert_eq!(ids, vec!["3".to_string(), "1".to_string()]);
    let ids: Vec<String> = store.query_by_host("one", 10, 1).into_iter().map(|f| f.id).collect();
    assert_eq!(ids, vec!["1".to_string()]);
    assert_eq!(store.query_by_host("", 10, 0).len(), 3);
}

#[test]
fn short_circuit_completes_the_flow() {
    let mut store = FlowStore::new();
    store.upsert(flow("f", "a.test"));
    let (step, ev) = after_request_rules(&mut store, "f", &req("/", "a.test"), RuleOutcome::ShortCircuit(res("403 Forbidden", b"")));
    assert!(matches!(step, RequestStep::Act(RequestAction::Respond(_))));
    assert!(matches!(ev, Some(TrafficEvent::FlowComplete { .. })));
    let f = store.get("f").unwrap();
    assert_eq!(f.status, FlowStatus::Complete);
    assert_eq!(f.response.unwrap().status_code, Some(403));
    let (step, ev) = after_request_rules(&mut store, "f", &req("/", "a.test"), RuleOutcome::Pause(String::new(), "request".to_string()));
    assert!(matches!(step, RequestStep::Breakpoint));
    assert!(ev.is_none());
    let (step, _) = after_request_rules(&mut store, "missing", &req("/", "a.test"), RuleOutcome::Unchanged);
    assert!(matches!(step, RequestStep::Act(RequestAction::Forward(_))));
}

#[test]
fn breakpoint_decisions() {
    let mut store = FlowStore::new();
    store.upsert(flow("f", "a.test"));
    let ev = pause_flow(&mut store, "f", "request", None);
    assert!(matches!(ev, Some(TrafficEvent::FlowIntercepted { ref stage, .. }) if stage == "request"));
    assert_eq!(store.get("f").unwrap().status, FlowStatus::Intercepted);
    let (action, ev) = resolve_request_breakpoint(&mut store, "f", req("/", "a.test"), InterceptDecision::Abort);
    assert!(matches!(action, RequestAction::Respond(_)));
    assert!(matches!(ev, Some(TrafficEvent::FlowComplete { .. })));
    let f = store.get("f").unwrap();
    assert!(matches!(f.intercept, InterceptState::Resumed));
    assert_eq!(f.response.unwrap().status_code, Some(403));
    let (_, ev) = resolve_request_breakpoint(&mut store, "f", req("/", "a.test"), InterceptDecision::DropConnection);
    match ev {
        Some(TrafficEvent::FlowError { error, .. }) => assert_eq!(error, "connection dropped by user"),
        _ => panic!("expected FlowError"),
    }
    assert_eq!(store.get("f").unwrap().status, FlowStatus::Error);
    let edited = req("/edited", "a.test");
    let (action, _) = resolve_request_breakpoint(&mut store, "f", req("/", "a.test"), InterceptDecision::Continue { edited: Some(edited) });
    match action {
        RequestAction::Forward(m) => assert_eq!(m.uri, "/edited"),
        _ => panic!("expected Forward"),
    }
    assert_eq!(store.get("f").unwrap().request.uri, "/edited");
    let (action, ev) = resolve_response_breakpoint(&mut store, "f", res("200 OK", b"x"), InterceptDecision::Continue { edited: None }, 77);
    assert!(matches!(action, ResponseAction::Forward(_)));
    assert!(matches!(ev, Some(TrafficEvent::FlowComplete { .. })));
    assert_eq!(store.get("f").unwrap().timing.end_time, Some(77));
    let abort = build_abort_response();
    assert_eq!(abort.headers[0], (":status".to_string(), "403 Forbidden".to_string()));
}

#[test]
fn responses_complete_their_flow() {
    let mut store = FlowStore::new();
    store.upsert(flow("f", "a.test"));
    let ctx = FlowContext::new("a.test", 80).with_flow_id("f".to_string());
    let found = find_pending_flow(&store, &ctx).unwrap();
    assert_eq!(found.id, "f");
    let by_host = find_pending_flow(&store, &FlowContext::new("a.test", 80)).unwrap();
    assert_eq!(by_host.id, "f");
    assert!(find_pending_flow(&store, &FlowContext::new("b.test", 80)).is_none());
    let (step, ev) = after_response_rules(&mut store, &found, &res("201 Created", b"ok"), RuleOutcome::Unchanged, 9);
    assert!(matches!(step, ResponseStep::Act(ResponseAction::Forward(_))));
    assert!(matches!(ev, Some(TrafficEvent::FlowComplete { .. })));
    let f = store.get("f").unwrap();
    assert_eq!(f.status, FlowStatus::Complete);
    assert_eq!(f.timing.ttfb, Some(9));
    assert!(find_pending_flow(&store, &ctx).is_none());
}
