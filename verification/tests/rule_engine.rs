use cuckoo::message::HttpMessage;
use cuckoo::rules::{
    extract_path, glob_match, replace_url_prefix, InterceptRule, RewriteOp, RuleEngine, RuleEntry, RuleMatcher, RuleOutcome,
};

fn make_request(method: &str, uri: &str, host: &str) -> HttpMessage {
    HttpMessage {
        method: method.to_string(),
        uri: uri.to_string(),
        version: "HTTP/1.1".to_string(),
        headers: vec![("Host".to_string(), host.to_string())],
        body: Vec::new(),
    }
}

fn host_matcher(host: &str) -> RuleMatcher {
    RuleMatcher {
        host_pattern: Some(host.to_string()),
        path_pattern: None,
        method: None,
        enabled: true,
    }
}

#[test]
fn test_glob_match() {
    assert!(glob_match("*.example.com", "api.example.com"));
    assert!(glob_match("*.example.com", "sub.api.example.com"));
    assert!(!glob_match("*.example.com", "example.org"));
    assert!(glob_match("/api/v1/*", "/api/v1/users"));
    assert!(glob_match("/api/v1/*", "/api/v1/users/123"));
    assert!(!glob_match("/api/v1/*", "/api/v2/users"));
}

#[test]
fn test_rule_matcher() {
    let matcher = RuleMatcher {
        host_pattern: Some("*.example.com".to_string()),
        path_pattern: Some("/api/*".to_string()),
        method: Some("GET".to_string()),
        enabled: true,
    };

    let req = make_request("GET", "http://api.example.com/api/users", "api.example.com");
    assert!(matcher.matches(&req));

    let req2 = make_request("POST", "http://api.example.com/api/users", "api.example.com");
    assert!(!matcher.matches(&req2));

    let req3 = make_request("GET", "http://api.example.com/v2/users", "api.example.com");
    assert!(!matcher.matches(&req3));
}

#[test]
fn test_block_rule() {
    let mut engine = RuleEngine::new();
    engine.upsert(RuleEntry {
        id: "r1".to_string(),
        name: "Block example.com".to_string(),
        rule: InterceptRule::Block {
            match_: RuleMatcher {
                host_pattern: Some("*.example.com".to_string()),
                path_pattern: None,
                method: None,
                enabled: true,
            },
            status_code: Some(403),
        },
        sort_key: 1,
    });

    let req = make_request("GET", "http://api.example.com/api", "api.example.com");
    match engine.apply_request_rules(&req) {
        RuleOutcome::ShortCircuit(resp) => {
            assert!(resp.headers.iter().any(|(k, v)| k == ":status" && v.contains("403")));
        }
        _ => panic!("expected ShortCircuit"),
    }
}

#[test]
fn test_rewrite_header() {
    let mut engine = RuleEngine::new();
    engine.upsert(RuleEntry {
        id: "r1".to_string(),
        name: "Add X-Custom header".to_string(),
        rule: InterceptRule::Rewrite {
            match_: RuleMatcher {
                host_pattern: Some("api.example.com".to_string()),
                path_pattern: None,
                method: None,
                enabled: true,
            },
            operations: vec![RewriteOp::SetHeader {
                name: "X-Custom".to_string(),
                value: "cuckoo".to_string(),
            }],
        },
        sort_key: 1,
    });

    let req = make_request("GET", "http://api.example.com/api", "api.example.com");
    match engine.apply_request_rules(&req) {
        RuleOutcome::Rewritten(rewritten) => {
            assert!(rewritten.headers.iter().any(|(k, v)| k == "X-Custom" && v == "cuckoo"));
        }
        _ => panic!("expected Rewritten"),
    }
}

#[test]
fn test_map_local() {
    let mut engine = RuleEngine::new();
    engine.upsert(RuleEntry {
        id: "r1".to_string(),
        name: "Map Local".to_string(),
        rule: InterceptRule::MapLocal {
            match_: RuleMatcher {
                host_pattern: Some("api.example.com".to_string()),
                path_pattern: Some("/fake".to_string()),
                method: None,
                enabled: true,
            },
            local_body: r#"{"mock":true}"#.to_string(),
            content_type: Some("application/json".to_string()),
            status_code: Some(200),
        },
        sort_key: 1,
    });

    let req = make_request("GET", "http://api.example.com/fake", "api.example.com");
    match engine.apply_request_rules(&req) {
        RuleOutcome::ShortCircuit(resp) => {
            assert_eq!(resp.body, br#"{"mock":true}"#);
            assert!(resp.headers.iter().any(|(k, v)| k == "Content-Type" && v == "application/json"));
        }
        _ => panic!("expected ShortCircuit"),
    }
}

#[test]
fn test_breakpoint_on_request() {
    let mut engine = RuleEngine::new();
    engine.upsert(RuleEntry {
        id: "r1".to_string(),
        name: "Breakpoint".to_string(),
        rule: InterceptRule::Breakpoint {
            match_: RuleMatcher {
                host_pattern: Some("api.example.com".to_string()),
                path_pattern: None,
                method: None,
                enabled: true,
            },
            on_request: true,
            on_response: false,
        },
        sort_key: 1,
    });

    let req = make_request("GET", "http://api.example.com/api", "api.example.com");
    match engine.apply_request_rules(&req) {
        RuleOutcome::Pause(_, stage) => {
            assert_eq!(stage, "request");
        }
        _ => panic!("expected Pause"),
    }
}

#[test]
fn glob_is_case_insensitive_and_literal() {
    assert!(glob_match("API.Example.COM", "api.example.com"));
    assert!(glob_match("a?c", "abc"));
    assert!(!glob_match("a?c", "ac"));
    assert!(glob_match("a.c", "a.c"));
    assert!(!glob_match("a.c", "abc"));
    assert!(glob_match("(x)+[y]", "(x)+[y]"));
}

#[test]
fn disabled_matcher_matches_nothing() {
    let mut m = host_matcher("*");
    m.enabled = false;
    let req = make_request("GET", "/", "a.com");
    assert!(!m.matches(&req));
    let any = RuleMatcher { host_pattern: None, path_pattern: None, method: None, enabled: true };
    assert!(any.matches(&req));
    assert!(RuleMatcher::default().matches(&req));
}

#[test]
fn block_rule_defaults_to_403_and_lower_sort_key_wins() {
    let mut engine = RuleEngine::new();
    engine.upsert(RuleEntry {
        id: "late".to_string(),
        name: "late".to_string(),
        rule: InterceptRule::Block { match_: host_matcher("a.com"), status_code: Some(404) },
        sort_key: 5,
    });
    engine.upsert(RuleEntry {
        id: "early".to_string(),
        name: "early".to_string(),
        rule: InterceptRule::Block { match_: host_matcher("a.com"), status_code: None },
        sort_key: 1,
    });
    let listed: Vec<String> = engine.list().into_iter().map(|e| e.id).collect();
    assert_eq!(listed, vec!["early".to_string(), "late".to_string()]);
    let req = make_request("GET", "/x", "a.com");
    match engine.apply_request_rules(&req) {
        RuleOutcome::ShortCircuit(resp) => {
            assert_eq!(resp.version, "HTTP/1.1");
            assert_eq!(
                resp.headers,
                vec![
                    (":status".to_string(), "403 Forbidden".to_string()),
                    ("Content-Length".to_string(), "0".to_string())
                ]
            );
        }
        _ => panic!("expected ShortCircuit"),
    }
}

#[test]
fn delay_rules_add_up_and_do_not_decide() {
    let mut engine = RuleEngine::new();
    for (id, ms, key) in [("d1", 100u64, 1i64), ("d2", 250u64, 2i64)] {
        engine.upsert(RuleEntry {
            id: id.to_string(),
            name: id.to_string(),
            rule: InterceptRule::ThrottleOrDelay {
                match_: host_matcher("a.com"),
                delay_ms: ms,
                throughput_kbps: None,
            },
            sort_key: key,
        });
    }
    let req = make_request("GET", "/", "a.com");
    assert_eq!(engine.compute_request_delay(&req), std::time::Duration::from_millis(350));
    assert!(matches!(engine.apply_request_rules(&req), RuleOutcome::Unchanged));
    let other = make_request("GET", "/", "b.com");
    assert_eq!(engine.compute_request_delay(&other), std::time::Duration::from_millis(0));
    assert!(engine.request_delay_fits(&req));
}

#[test]
fn delay_sums_past_u64_do_not_fit() {
    let mut engine = RuleEngine::new();
    for (id, ms, key) in [("d1", u64::MAX, 1i64), ("d2", 1u64, 1i64)] {
        engine.upsert(RuleEntry {
            id: id.to_string(),
            name: id.to_string(),
            rule: InterceptRule::ThrottleOrDelay {
                match_: host_matcher("a.com"),
                delay_ms: ms,
                throughput_kbps: None,
            },
            sort_key: key,
        });
    }
    assert!(!engine.request_delay_fits(&make_request("GET", "/", "a.com")));
    assert!(engine.request_delay_fits(&make_request("GET", "/", "b.com")));
    engine.remove("d2");
    let req = make_request("GET", "/", "a.com");
    assert!(engine.request_delay_fits(&req));
    assert_eq!(engine.compute_request_delay(&req), std::time::Duration::from_millis(u64::MAX));
}

#[test]
fn map_remote_rewrites_uri_prefix() {
    let mut engine = RuleEngine::new();
    engine.upsert(RuleEntry {
        id: "m".to_string(),
        name: "remote".to_string(),
        rule: InterceptRule::MapRemote {
            match_: host_matcher("a.com"),
            target_url: "http://127.0.0.1:9000/".to_string(),
        },
        sort_key: 0,
    });
    let req = make_request("GET", "http://a.com/v1/items?q=1", "a.com");
    match engine.apply_request_rules(&req) {
        RuleOutcome::Rewritten(m) => assert_eq!(m.uri, "http://127.0.0.1:9000/v1/items?q=1"),
        _ => panic!("expected Rewritten"),
    }
}

#[test]
fn response_rules_rewrite_body_and_pause() {
    let mut engine = RuleEngine::new();
    engine.upsert(RuleEntry {
        id: "rw".to_string(),
        name: "rw".to_string(),
        rule: InterceptRule::Rewrite {
            match_: host_matcher("a.com"),
            operations: vec![RewriteOp::ReplaceBody {
                pattern: "o+".to_string(),
                replacement: "0".to_string(),
            }],
        },
        sort_key: 0,
    });
    let req = make_request("GET", "/", "a.com");
    let res = HttpMessage {
        method: String::new(),
        uri: String::new(),
        version: "HTTP/1.1".to_string(),
        headers: vec![(":status".to_string(), "200 OK".to_string())],
        body: b"foo boo".to_vec(),
    };
    match engine.apply_response_rules(&res, &req) {
        RuleOutcome::Rewritten(m) => {
            assert_eq!(m.body, b"f0 b0".to_vec());
            assert!(m.headers.iter().any(|(k, v)| k == "Content-Length" && v == "5"));
        }
        _ => panic!("expected Rewritten"),
    }
    let mut engine2 = RuleEngine::new();
    engine2.upsert(RuleEntry {
        id: "bp".to_string(),
        name: "bp".to_string(),
        rule: InterceptRule::Breakpoint { match_: host_matcher("a.com"), on_request: false, on_response: true },
        sort_key: 0,
    });
    assert!(matches!(engine2.apply_request_rules(&req), RuleOutcome::Unchanged));
    match engine2.apply_response_rules(&res, &req) {
        RuleOutcome::Pause(_, stage) => assert_eq!(stage, "response"),
        _ => panic!("expected Pause"),
    }
}

#[test]
fn upsert_get_remove_clear() {
    let mut engine = RuleEngine::new();
    let entry = RuleEntry {
        id: "x".to_string(),
        name: "first".to_string(),
        rule: InterceptRule::Block { match_: host_matcher("a"), status_code: None },
        sort_key: 3,
    };
    engine.upsert(entry.clone());
    assert_eq!(engine.get("x").map(|e| e.name), Some("first".to_string()));
    let mut renamed = entry.clone();
    renamed.name = "second".to_string();
    engine.upsert(renamed);
    assert_eq!(engine.list().len(), 1);
    assert_eq!(engine.get("x").map(|e| e.name), Some("second".to_string()));
    assert_eq!(engine.remove("x").map(|e| e.name), Some("second".to_string()));
    assert!(engine.get("x").is_none());
    assert!(engine.remove("x").is_none());
    engine.upsert(entry);
    engine.clear();
    assert!(engine.list().is_empty());
}

#[test]
fn scheme_only_uri_has_root_path() {
    assert_eq!(extract_path("http://"), "/");
    assert_eq!(extract_path("https://"), "/");
    assert_eq!(extract_path("http://a"), "/");
    assert_eq!(extract_path("http://a.com/x/1?q=2"), "/x/1?q=2");
    assert_eq!(extract_path("/plain"), "/plain");
    assert_eq!(replace_url_prefix("http://", "http://b.com/"), "http://b.com/");

    let root = RuleMatcher {
        host_pattern: None,
        path_pattern: Some("/".to_string()),
        method: None,
        enabled: true,
    };
    assert!(root.matches(&make_request("GET", "http://", "a.com")));

    let path_matcher = RuleMatcher {
        host_pattern: Some("a.com".to_string()),
        path_pattern: Some("/x/*".to_string()),
        method: Some("POST".to_string()),
        enabled: true,
    };
    let bare = make_request("POST", "http://", "a.com");
    assert!(!path_matcher.matches(&bare));
    let mut engine = RuleEngine::new();
    engine.upsert(RuleEntry {
        id: "b".to_string(),
        name: "block".to_string(),
        rule: InterceptRule::Block { match_: path_matcher, status_code: None },
        sort_key: 2,
    });
    assert!(matches!(engine.apply_request_rules(&bare), RuleOutcome::Unchanged));
    assert!(matches!(engine.apply_response_rules(&bare, &bare), RuleOutcome::Unchanged));
    assert!(engine.compute_request_delay(&bare).is_zero());
    let ok = make_request("POST", "http://a.com/x/1", "a.com");
    assert!(matches!(engine.apply_request_rules(&ok), RuleOutcome::ShortCircuit(_)));
}
