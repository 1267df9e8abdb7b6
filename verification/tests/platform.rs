use cuckoo::dto::{AuthConfig, ExecuteRequestInput, HeaderEntry, KeyValueEntry, RequestBody};
use cuckoo::error::ServiceError;
use cuckoo::executor::{
    completed_result, failed_result, plan_request, proxy_url, request_method, BuilderStep,
};
use cuckoo::platform::{
    any_proxy_enabled, command_failed_message, disable_commands, parse_network_services,
    restore_commands, set_proxy_commands, MacOsProxyManager, ProxySnapshot, StubProxyManager,
    SystemProxyManager,
};
use cuckoo::rpc::{
    classify_param, dto_to_ts_type, extract_generic_arg, extract_return_type, path_param_names,
    route_params, snake_to_camel, ParamKind,
};

#[test]
fn stub_manager_fails_politely() {
    let m = StubProxyManager::new("Linux");
    match m.set_proxy("127.0.0.1", 8080) {
        Err(ServiceError::Internal(s)) => assert_eq!(s, "system proxy not yet implemented for Linux"),
        _ => panic!("expected Internal"),
    }
    assert!(m.clear_proxy().is_err());
    assert!(!m.is_proxy_enabled().unwrap());
    assert_eq!(m.platform_name(), "Linux");
}

#[test]
fn networksetup_output_is_read() {
    let out = "An asterisk (*) denotes that a network service is disabled.\nWi-Fi\n*Bluetooth PAN\n\nThunderbolt Bridge\n";
    assert_eq!(parse_network_services(out), vec!["Wi-Fi".to_string(), "Thunderbolt Bridge".to_string()]);
    let web = "Enabled: Yes\nServer: 127.0.0.1\nPort: 8888\nAuthenticated Proxy Enabled: 0\n";
    let secure = "Enabled: No\nServer: \nPort: 0\n";
    let s = MacOsProxyManager::get_web_proxy("Wi-Fi", web, secure);
    assert!(s.web_proxy_enabled);
    assert_eq!(s.web_proxy_host.as_deref(), Some("127.0.0.1"));
    assert_eq!(s.web_proxy_port, Some(8888));
    assert!(!s.secure_proxy_enabled);
    assert_eq!(s.secure_proxy_host, None);
    assert_eq!(s.secure_proxy_port, None);
    assert!(any_proxy_enabled(&vec![s.clone()]));
    let mut m = MacOsProxyManager::new();
    assert!(m.needs_snapshot());
    m.save_snapshot(ProxySnapshot { services: vec![s] });
    assert!(!m.needs_snapshot());
    let snap = m.take_snapshot().unwrap();
    let cmds = restore_commands(&snap);
    assert_eq!(
        cmds,
        vec![
            vec!["-setwebproxy".to_string(), "Wi-Fi".to_string(), "127.0.0.1".to_string(), "8888".to_string()],
            vec!["-setsecurewebproxystate".to_string(), "Wi-Fi".to_string(), "off".to_string()],
        ]
    );
    assert!(m.take_snapshot().is_none());
    let services = vec!["Wi-Fi".to_string()];
    assert_eq!(set_proxy_commands(&services, "127.0.0.1", 9090).len(), 2);
    assert_eq!(disable_commands(&services)[1], vec!["-setsecurewebproxystate".to_string(), "Wi-Fi".to_string(), "off".to_string()]);
    assert_eq!(
        command_failed_message(&vec!["-getwebproxy".to_string(), "Wi-Fi".to_string()], "denied"),
        "networksetup -getwebproxy Wi-Fi failed: denied"
    );
}

#[test]
fn rpc_route_metadata() {
    assert_eq!(snake_to_camel("list_flows_by_host"), "listFlowsByHost");
    assert_eq!(snake_to_camel("ping"), "ping");
    assert_eq!(extract_generic_arg("ServiceResult<Vec<WorkspaceDto>>", "ServiceResult").as_deref(), Some("Vec<WorkspaceDto>"));
    assert_eq!(extract_generic_arg("Option<u8>", "Vec"), None);
    assert_eq!(dto_to_ts_type("FolderDto"), "FolderModel");
    assert_eq!(dto_to_ts_type("CreateWorkspaceInput"), "CreateWorkspaceInput");
    assert_eq!(extract_return_type(Some("ServiceResult<Vec<WorkspaceDto>>")), "WorkspaceModel[]");
    assert_eq!(extract_return_type(Some("ServiceResult<()>")), "void");
    assert_eq!(extract_return_type(Some("ServiceResult<PongResponse>")), "PongResponse");
    assert_eq!(extract_return_type(Some("EnvironmentDto")), "EnvironmentModel");
    assert_eq!(extract_return_type(None), "void");
    assert_eq!(classify_param("&DatabaseConnection"), ParamKind::Injected);
    assert_eq!(classify_param("&RuleState"), ParamKind::Injected);
    assert_eq!(classify_param("String"), ParamKind::PathParam);
    assert_eq!(classify_param("CreateRuleInput"), ParamKind::Body);
    assert_eq!(classify_param("u16"), ParamKind::Hidden);
    assert_eq!(path_param_names("/api/workspaces/{id}/folders/{folder_id}"), vec!["id".to_string(), "folder_id".to_string()]);
    assert!(path_param_names("/api/ping").is_empty());
}

#[test]
fn request_plans() {
    let input = ExecuteRequestInput {
        method: "POST".to_string(),
        url: "http://a.test/x".to_string(),
        headers: vec![
            HeaderEntry { name: "X-A".to_string(), value: "1".to_string(), enabled: true },
            HeaderEntry { name: "X-B".to_string(), value: "2".to_string(), enabled: false },
        ],
        query_params: vec![KeyValueEntry { key: "q".to_string(), value: "v".to_string(), enabled: true }],
        body: RequestBody::Raw { content_type: "application/json".to_string(), text: "{\"a\":1}".to_string() },
        auth: AuthConfig::ApiKey { key_name: "k".to_string(), key_value: "s".to_string(), add_to: "query".to_string() },
    };
    let plan = plan_request(&input);
    assert_eq!(plan.len(), 5);
    assert!(matches!(&plan[0], BuilderStep::Query(q) if q == &vec![("q".to_string(), "v".to_string())]));
    assert!(matches!(&plan[1], BuilderStep::Header(k, v) if k == "X-A" && v == "1"));
    assert!(matches!(&plan[2], BuilderStep::Query(q) if q == &vec![("k".to_string(), "s".to_string())]));
    assert!(matches!(&plan[3], BuilderStep::Json(b) if b == b"{\"a\":1}"));
    assert!(matches!(&plan[4], BuilderStep::Header(k, v) if k == "Content-Type" && v == "application/json"));
    let mut typed = input.clone();
    typed.headers.push(HeaderEntry {
        name: "content-TYPE".to_string(),
        value: "application/vnd.x+json".to_string(),
        enabled: true,
    });
    let plan = plan_request(&typed);
    assert_eq!(plan.len(), 5);
    assert!(matches!(&plan[2], BuilderStep::Header(k, _) if k == "content-TYPE"));
    assert!(matches!(&plan[4], BuilderStep::Json(b) if b == b"{\"a\":1}"));
    let mut spaced = input.clone();
    spaced.body = RequestBody::Raw {
        content_type: "application/json".to_string(),
        text: "{ \"a\" : [1, 2] }".to_string(),
    };
    let plan = plan_request(&spaced);
    assert!(matches!(&plan[3], BuilderStep::Json(b) if b == b"{\"a\":[1,2]}"));
    let mut text = input.clone();
    text.body = RequestBody::Raw { content_type: "application/json".to_string(), text: "not json".to_string() };
    text.auth = AuthConfig::Bearer { token: "t".to_string() };
    let plan = plan_request(&text);
    assert!(matches!(&plan[2], BuilderStep::BearerAuth(t) if t == "t"));
    assert!(matches!(&plan[3], BuilderStep::Body(b) if b == "not json"));
    assert!(matches!(&plan[4], BuilderStep::Header(k, v) if k == "Content-Type" && v == "application/json"));
    assert_eq!(proxy_url("127.0.0.1:8080"), "http://127.0.0.1:8080");
    assert_eq!(proxy_url("http://p:1"), "http://p:1");
    let f = failed_result(12, "boom".to_string());
    assert_eq!((f.status, f.status_text.as_str(), f.success), (0, "Request Failed", false));
    let ok = completed_result(204, Some("No Content"), Default::default(), None, b"", 5);
    assert!(ok.success);
    assert_eq!(ok.status_text, "No Content");
    let bad = completed_result(500, None, Default::default(), None, b"err", 5);
    assert!(!bad.success);
    assert_eq!(bad.body, "err");
}

#[test]
fn route_params_collects_path_names_and_last_body() {
    let params: Vec<(String, String)> = vec![
        ("db".to_string(), "&DatabaseConnection".to_string()),
        ("id".to_string(), "String".to_string()),
        ("first".to_string(), "CreateRuleInput".to_string()),
        ("port".to_string(), "u16".to_string()),
        ("slot".to_string(), "String".to_string()),
        ("input".to_string(), "UpdateRuleInput".to_string()),
        ("state".to_string(), "&RuleState".to_string()),
    ];
    let (names, body) = route_params(&params);
    assert_eq!(names, vec!["id".to_string(), "slot".to_string()]);
    assert_eq!(body, Some("UpdateRuleInput".to_string()));
    let (names, body) = route_params(&vec![("n".to_string(), "u16".to_string())]);
    assert!(names.is_empty());
    assert_eq!(body, None);
}

#[test]
fn request_method_accepts_tokens_only() {
    let mut input = ExecuteRequestInput {
        method: "PATCH".to_string(),
        url: "http://a.test/".to_string(),
        headers: vec![],
        query_params: vec![],
        body: RequestBody::NoBody,
        auth: AuthConfig::NoAuth,
    };
    assert_eq!(request_method(&input).unwrap().as_str(), "PATCH");
    input.method = "X-CUSTOM_1".to_string();
    assert_eq!(request_method(&input).unwrap().as_str(), "X-CUSTOM_1");
    for bad in ["", "GE T", "BÜCHER", "A(B)"] {
        input.method = bad.to_string();
        match request_method(&input) {
            Err(ServiceError::BadRequest(m)) => assert_eq!(m, "invalid method: invalid HTTP method"),
            _ => panic!("expected BadRequest"),
        }
    }
}
