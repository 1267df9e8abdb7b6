use cuckoo::cli::{
    flow_report_lines, header_pairs, parse_header_arg, proxy_report_line, send_payload,
    server_command_args, FlowAction, ProxyAction, SendArgs, ServerAction, ServerArgs,
};
use cuckoo::session::{
    base_url_for_port, base_url_from_port_file, choose_token, generate_token,
    server_token_response, token_from_file, TOKEN_LEN,
};

fn send_args(header: Vec<&str>, body: Option<&str>, body_file: Option<&str>) -> SendArgs {
    SendArgs {
        method: "post".to_string(),
        url: "https://example.com/api".to_string(),
        header: header.into_iter().map(|h| h.to_string()).collect(),
        body: body.map(|b| b.to_string()),
        body_file: body_file.map(|f| f.to_string()),
    }
}

#[test]
fn header_argument_splits_at_first_colon_and_trims() {
    assert_eq!(
        parse_header_arg(" Content-Type : application/json "),
        Some(("Content-Type".to_string(), "application/json".to_string()))
    );
    assert_eq!(
        parse_header_arg("X-Time: 12:30"),
        Some(("X-Time".to_string(), "12:30".to_string()))
    );
    assert_eq!(parse_header_arg("Key:"), Some(("Key".to_string(), String::new())));
    assert_eq!(parse_header_arg("no-colon"), None);
}

#[test]
fn header_arguments_without_colon_are_skipped() {
    let hs = vec!["A: 1".to_string(), "broken".to_string(), "B:2".to_string()];
    assert_eq!(
        header_pairs(&hs),
        vec![("A".to_string(), "1".to_string()), ("B".to_string(), "2".to_string())]
    );
}

#[test]
fn send_payload_uppercases_method_and_prefers_body_file() {
    let args = send_args(vec!["Accept: */*"], Some("{\"a\":1}"), Some("body.json"));
    let p = send_payload(&args, Some("{\"from\":\"file\"}".to_string()));
    assert_eq!(p.method, "POST");
    assert_eq!(p.url, "https://example.com/api");
    assert_eq!(p.headers, vec![("Accept".to_string(), "*/*".to_string())]);
    assert_eq!(p.body_text, Some("{\"from\":\"file\"}".to_string()));

    let args = send_args(vec![], Some("{\"a\":1}"), None);
    let p = send_payload(&args, None);
    assert_eq!(p.body_text, Some("{\"a\":1}".to_string()));

    let args = send_args(vec![], None, None);
    assert_eq!(send_payload(&args, None).body_text, None);
}

#[test]
fn server_start_arguments() {
    let a = ServerArgs { action: ServerAction::Start { headless: true, port: Some(4173) } };
    assert_eq!(server_command_args(&a), vec!["--headless", "--port", "4173"]);
    let a = ServerArgs { action: ServerAction::Start { headless: false, port: None } };
    assert!(server_command_args(&a).is_empty());
    let a = ServerArgs { action: ServerAction::Start { headless: false, port: Some(80) } };
    assert_eq!(server_command_args(&a), vec!["--port", "80"]);
}

#[test]
fn flow_reports() {
    let lines = flow_report_lines(&FlowAction::List {
        host: Some("*.example.com".to_string()),
        status: Some(404),
        follow: true,
    });
    assert_eq!(
        lines,
        vec![
            "Server is reachable. Flow list",
            "  --host *.example.com",
            "  --status 404",
            "  --follow (SSE subscription will be available in M3)",
            "Flow endpoints will be available in M3.",
        ]
    );
    let lines = flow_report_lines(&FlowAction::Show { flow_id: "01ABC".to_string(), body: None });
    assert_eq!(
        lines,
        vec!["Server is reachable. Flow show: 01ABC", "Flow endpoints will be available in M3."]
    );
}

#[test]
fn proxy_reports() {
    assert_eq!(
        proxy_report_line(&ProxyAction::Start { port: 8899, system_proxy: false }),
        "Server is reachable. Proxy start (port=8899, system_proxy=false) will be available in M3."
    );
    assert_eq!(
        proxy_report_line(&ProxyAction::Stop),
        "Server is reachable. Proxy stop will be available in M3."
    );
    assert_eq!(
        proxy_report_line(&ProxyAction::Status),
        "Server is reachable. Proxy status will be available in M3."
    );
}

#[test]
fn token_file_content_is_trimmed() {
    assert_eq!(token_from_file("  abc123\n"), Some("abc123".to_string()));
    assert_eq!(token_from_file(" \n\t"), None);
    assert_eq!(token_from_file(""), None);
}

#[test]
fn stored_token_is_reused_else_a_fresh_one_is_made() {
    assert_eq!(choose_token(Some("tok\n")), ("tok".to_string(), false));
    let (t, fresh) = choose_token(Some("   "));
    assert!(fresh);
    assert_eq!(t.len(), TOKEN_LEN);
    let (t, fresh) = choose_token(None);
    assert!(fresh);
    assert!(t.chars().all(|c| c.is_ascii_alphanumeric()));
    let g = generate_token();
    assert_eq!(g.len(), 48);
    assert!(g.chars().all(|c| c.is_ascii_alphanumeric()));
}

#[test]
fn base_url_from_port_file_content() {
    assert_eq!(base_url_for_port(4173), "http://127.0.0.1:4173");
    assert_eq!(base_url_from_port_file(" 8080\n"), Some("http://127.0.0.1:8080".to_string()));
    assert_eq!(base_url_from_port_file("+81"), Some("http://127.0.0.1:81".to_string()));
    assert_eq!(base_url_from_port_file("70000"), None);
    assert_eq!(base_url_from_port_file("port"), None);
    assert_eq!(base_url_from_port_file(""), None);
}

#[test]
fn desktop_token_response() {
    let r = server_token_response("127.0.0.1:4173", "secret");
    assert_eq!(r.base_url, "http://127.0.0.1:4173");
    assert_eq!(r.token, "secret");
}
