use drover::mcp::{
    auth_command_token, build_jsonrpc, check_initialize_reply, check_session_reply,
    check_tools_call_reply, check_tools_list_reply, config_entries, find_server_config,
    read_auth_token, read_mcp_reply, server_info, servers_from_config, sse_last_data, AuthToken,
    ConfigEntry, McpServerConfig, RequestCounter, RpcReply, config_with_servers, servers_of_config_text,
};
use drover::json::Json;

fn server(name: &str, url: &str, token: Option<&str>, command: Option<&str>) -> McpServerConfig {
    McpServerConfig {
        name: name.to_string(),
        server_url: url.to_string(),
        auth_token: token.map(|s| s.to_string()),
        auth_command: command.map(|s| s.to_string()),
    }
}

#[test]
fn find_server_by_name_or_url() {
    let servers = vec![server("a", "http://a", None, None), server("b", "http://b", None, None)];
    assert_eq!(find_server_config(&servers, "b", "zzz").unwrap().name, "b");
    assert_eq!(find_server_config(&servers, "x", "http://a").unwrap().name, "a");
    assert_eq!(find_server_config(&servers, "b", "http://a").unwrap().name, "a");
    assert!(find_server_config(&servers, "x", "y").is_none());
}

#[test]
fn auth_token_sources() {
    match read_auth_token(&server("s", "u", Some("tok"), Some("cmd"))) {
        AuthToken::Token(t) => assert_eq!(t, "tok"),
        _ => panic!("expected the token"),
    }
    match read_auth_token(&server("s", "u", Some(""), Some("op read x"))) {
        AuthToken::FromCommand(c) => assert_eq!(c, "op read x"),
        _ => panic!("expected the command"),
    }
    assert!(matches!(read_auth_token(&server("s", "u", None, Some(""))), AuthToken::Missing));
    assert!(matches!(read_auth_token(&server("s", "u", None, None)), AuthToken::Missing));
}

#[test]
fn auth_command_output() {
    assert_eq!(auth_command_token(true, "  abc \n"), Some("abc".to_string()));
    assert_eq!(auth_command_token(true, " \n"), None);
    assert_eq!(auth_command_token(false, "abc"), None);
}

#[test]
fn config_round_trip() {
    let servers = vec![
        server("gh", "https://gh", Some("t1"), None),
        server("local", "http://localhost", Some(""), Some("")),
        server("cmd", "https://c", None, Some("pass show x")),
    ];
    let entries = config_entries(&servers);
    assert_eq!(entries.len(), 3);
    assert_eq!(entries[1].auth_token, None);
    assert_eq!(entries[1].auth_command, None);
    let loaded = servers_from_config(entries);
    assert_eq!(loaded.len(), 3);
    assert_eq!(loaded[0].name, "gh");
    assert_eq!(loaded[0].auth_token.as_deref(), Some("t1"));
    assert_eq!(loaded[1].server_url, "http://localhost");
    assert_eq!(loaded[1].auth_token, None);
    assert_eq!(loaded[2].auth_command.as_deref(), Some("pass show x"));
}

#[test]
fn config_entries_without_url_are_skipped() {
    let entries = vec![
        ConfigEntry { name: "x".into(), server_url: None, auth_token: Some("t".into()), auth_command: None },
        ConfigEntry { name: "y".into(), server_url: Some("http://y".into()), auth_token: None, auth_command: None },
    ];
    let loaded = servers_from_config(entries);
    assert_eq!(loaded.len(), 1);
    assert_eq!(loaded[0].name, "y");
}

#[test]
fn request_ids_count_up_and_notifications_take_none() {
    let mut c = RequestCounter::new();
    let a = build_jsonrpc(&mut c, "initialize", None);
    let n = build_jsonrpc(&mut c, "notifications/initialized", None);
    let b = build_jsonrpc(&mut c, "tools/list", None);
    assert_eq!(a.id, Some(1));
    assert_eq!(n.id, None);
    assert_eq!(b.id, Some(2));
    assert_eq!(c.next_id(), 3);
    assert_eq!(a.method, "initialize");
}

#[test]
fn request_keeps_its_params() {
    let mut c = RequestCounter::new();
    let p = serde_json::from_str::<serde_json::Value>("{\"name\":\"t\"}").unwrap();
    let r = build_jsonrpc(&mut c, "tools/call", Some(p.clone()));
    assert_eq!(r.params, Some(p));
}

#[test]
fn sse_takes_the_last_data_line() {
    let text = "event: message\ndata: {\"a\":1}\n\ndata:   {\"b\":2}\nid: 7\n";
    assert_eq!(sse_last_data(text), "  {\"b\":2}");
    assert_eq!(sse_last_data("data:\t{\"c\":3}\n"), "{\"c\":3}");
    assert_eq!(sse_last_data("data:{\"d\":4}"), "{\"d\":4}");
    assert_eq!(sse_last_data("event: ping\n"), "");
}

#[test]
fn failed_status_is_reported() {
    match read_mcp_reply(false, 500, "500 Internal Server Error", "text/plain", "oops") {
        Some(Err(e)) => assert_eq!(e, "MCP HTTP 500 Internal Server Error: oops"),
        _ => panic!("expected an error"),
    }
}

#[test]
fn empty_replies_are_null() {
    assert!(matches!(read_mcp_reply(true, 202, "202 Accepted", "", "{\"x\":1}"), Some(Ok(None))));
    assert!(matches!(read_mcp_reply(true, 204, "204 No Content", "", "z"), Some(Ok(None))));
    assert!(matches!(read_mcp_reply(true, 200, "200 OK", "application/json", ""), Some(Ok(None))));
}

#[test]
fn json_and_event_stream_bodies() {
    match read_mcp_reply(true, 200, "200 OK", "application/json", "{\"result\":{\"ok\":true}}") {
        Some(Ok(Some(v))) => assert_eq!(
            v,
            Json::Obj(vec![("result".to_string(), Json::Obj(vec![("ok".to_string(), Json::Bool(true))]))])
        ),
        _ => panic!("expected a value"),
    }
    match read_mcp_reply(true, 200, "200 OK", "text/event-stream", "event: message\ndata: {\"id\":1}\n\n") {
        Some(Ok(Some(v))) => assert_eq!(v, Json::Obj(vec![("id".to_string(), Json::Num("1".to_string()))])),
        _ => panic!("expected a value"),
    }
    assert!(matches!(
        read_mcp_reply(true, 200, "200 OK", "text/event-stream; charset=utf-8", ": keepalive\n"),
        Some(Ok(None))
    ));
}

#[test]
fn unreadable_bodies_are_quoted() {
    match read_mcp_reply(true, 200, "200 OK", "application/json", "not json") {
        Some(Err(e)) => {
            assert!(e.starts_with("Failed to parse JSON response: "));
            assert!(e.ends_with(" — body: not json"));
        },
        _ => panic!("expected an error"),
    }
    match read_mcp_reply(true, 200, "200 OK", "text/event-stream", "data: {broken\n") {
        Some(Err(e)) => {
            assert!(e.starts_with("Failed to parse SSE data: "));
            assert!(e.ends_with(" — data: {broken"));
        },
        _ => panic!("expected an error"),
    }
    let long = "x".repeat(300);
    match read_mcp_reply(true, 200, "200 OK", "application/json", &long) {
        Some(Err(e)) => assert!(e.ends_with(&format!(" — body: {}", "x".repeat(200)))),
        _ => panic!("expected an error"),
    }
}

#[test]
fn body_cut_inside_a_character_is_refused() {
    let body = format!("a{}", "é".repeat(150));
    assert!(read_mcp_reply(true, 200, "200 OK", "application/json", &body).is_none());
    let even = "é".repeat(150);
    assert!(matches!(read_mcp_reply(true, 200, "200 OK", "application/json", &even), Some(Err(_))));
}

fn reply(has_result: bool, error: Option<&str>, text: &str) -> RpcReply {
    RpcReply { has_result, error: error.map(|s| s.to_string()), text: text.to_string() }
}

#[test]
fn reply_checks() {
    assert!(check_initialize_reply(&reply(true, None, "{}")).is_ok());
    assert_eq!(
        check_initialize_reply(&reply(false, Some("{\"code\":-1}"), "")).unwrap_err(),
        "MCP init error: {\"code\":-1}"
    );
    assert_eq!(
        check_initialize_reply(&reply(false, None, "{\"x\":1}")).unwrap_err(),
        "No result in init response: {\"x\":1}"
    );
    assert!(check_session_reply(&reply(false, None, "")).is_ok());
    assert_eq!(check_session_reply(&reply(true, Some("e"), "")).unwrap_err(), "MCP init error: e");
    assert_eq!(check_tools_list_reply(&reply(true, None, ""), false).unwrap_err(), "No tools in response");
    assert_eq!(
        check_tools_list_reply(&reply(true, Some("bad"), ""), true).unwrap_err(),
        "MCP tools/list error: bad"
    );
    assert!(check_tools_list_reply(&reply(true, None, ""), true).is_ok());
    assert_eq!(
        check_tools_call_reply(&reply(false, None, "")).unwrap_err(),
        "No result in tools/call response"
    );
    assert_eq!(check_tools_call_reply(&reply(true, Some("x"), "")).unwrap_err(), "MCP tools/call error: x");
    assert!(check_tools_call_reply(&reply(true, None, "")).is_ok());
}

#[test]
fn server_info_defaults_its_name() {
    assert_eq!(server_info(None, None, None, None).name, "unknown");
    let i = server_info(Some("srv".into()), Some("1.0".into()), Some("2025-03-26".into()), None);
    assert_eq!(i.name, "srv");
    assert_eq!(i.version.as_deref(), Some("1.0"));
}

#[test]
fn config_text_gives_servers() {
    let text = r#"{"theme":"dark","mcpServers":{"zeta":{"serverUrl":"http://z","authToken":"t"},"alpha":{"serverUrl":"http://a","authCommand":"pass x"},"broken":{"authToken":"t"},"num":{"serverUrl":5}}}"#;
    let r = servers_of_config_text(text);
    assert_eq!(r.len(), 2);
    assert_eq!(r[0].name, "alpha");
    assert_eq!(r[0].server_url, "http://a");
    assert_eq!(r[0].auth_token, None);
    assert_eq!(r[0].auth_command.as_deref(), Some("pass x"));
    assert_eq!(r[1].name, "zeta");
    assert_eq!(r[1].auth_token.as_deref(), Some("t"));
    assert!(servers_of_config_text("not json").is_empty());
    assert!(servers_of_config_text("[1,2]").is_empty());
    assert!(servers_of_config_text(r#"{"mcpServers":[]}"#).is_empty());
}

#[test]
fn config_with_servers_keeps_other_members() {
    let servers = vec![server("a", "http://a", Some(""), Some("cmd"))];
    let j = config_with_servers(Some(r#"{"theme":"dark","mcpServers":{"old":{"serverUrl":"x"}},"z":1}"#), &servers)
        .unwrap();
    let saved = Json::Obj(vec![(
        "a".to_string(),
        Json::Obj(vec![
            ("serverUrl".to_string(), Json::Str("http://a".to_string())),
            ("authCommand".to_string(), Json::Str("cmd".to_string())),
        ]),
    )]);
    assert_eq!(
        j,
        Json::Obj(vec![
            ("mcpServers".to_string(), saved),
            ("theme".to_string(), Json::Str("dark".to_string())),
            ("z".to_string(), Json::Num("1".to_string())),
        ])
    );
    let fresh = config_with_servers(None, &servers).unwrap();
    match fresh {
        Json::Obj(m) => {
            assert_eq!(m.len(), 1);
            assert_eq!(m[0].0, "mcpServers");
        },
        _ => panic!("expected an object"),
    }
    assert!(matches!(config_with_servers(Some("not json"), &vec![]), Ok(Json::Obj(_))));
    match config_with_servers(Some("[1]"), &servers) {
        Err(e) => assert_eq!(e, "Config root is not an object"),
        Ok(_) => panic!("expected an error"),
    }
}
