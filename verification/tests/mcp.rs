use one_for_all::error::BridgeError;
use one_for_all::json::{Json, JsonNumber, ObjectBuilder};
use one_for_all::mcp::{
    brokerless_body_length, brokerless_response, classify_frame, frame_bytes,
    handle_notification, handle_request, handle_tools_call, header_length, into_tool_result,
    notify_json, read_lsp_frame, request_key, response_json, FrameError, HeaderReader, HeaderStep,
    Incoming, NotificationAction, Raced, Routed,
};
use one_for_all::tools::{build_list, ToolDescriptor, TOOL_COUNT};

fn value(j: &Json) -> serde_json::Value {
    match j {
        Json::Null => serde_json::Value::Null,
        Json::Bool(b) => serde_json::Value::Bool(*b),
        Json::Number(JsonNumber::PosInt(n)) => serde_json::Value::from(*n),
        Json::Number(JsonNumber::NegInt(n)) => serde_json::Value::from(*n),
        Json::Number(JsonNumber::Float { bits }) => serde_json::Value::from(f64::from_bits(*bits)),
        Json::Number(JsonNumber::Float32 { single_bits }) => {
            serde_json::Value::from(f32::from_bits(*single_bits))
        }
        Json::String(s) => serde_json::Value::String(s.clone()),
        Json::Array(v) => serde_json::Value::Array(v.iter().map(value).collect()),
        Json::Object(m) => {
            serde_json::Value::Object(m.iter().map(|(k, v)| (k.clone(), value(v))).collect())
        }
    }
}

fn object(members: Vec<(&str, Json)>) -> Json {
    let mut b = ObjectBuilder::new();
    for (k, v) in members {
        b.put(k, v);
    }
    b.done()
}

fn tools() -> Vec<ToolDescriptor> {
    let mut schemas = Vec::new();
    for _ in 0..TOOL_COUNT {
        schemas.push(Some(object(vec![("type", Json::text("object"))])));
    }
    build_list(schemas)
}

#[test]
fn read_lsp_roundtrip() {
    let body = br#"{"jsonrpc":"2.0","id":1,"method":"ping"}"#;
    let mut buf = Vec::new();
    buf.extend_from_slice(format!("Content-Length: {}\r\n\r\n", body.len()).as_bytes());
    buf.extend_from_slice(body);
    let got = read_lsp_frame(&buf).unwrap().unwrap();
    assert_eq!(got.body, body);
    assert_eq!(got.used, buf.len());
}

#[test]
fn read_lsp_clean_eof() {
    assert!(read_lsp_frame(&[]).unwrap().is_none());
}

#[test]
fn frame_notify_round_trip() {
    let params = object(vec![
        ("topic", Json::text("session.recovered")),
        ("session_id", Json::text("s_42")),
        (
            "previous_tab_ids",
            Json::Array(vec![Json::text("t_a"), Json::text("t_b")]),
        ),
        ("new_tab_ids", Json::Array(vec![Json::text("t_c")])),
        ("payload", object(vec![])),
    ]);
    let note = value(&notify_json("event/notify", &params));
    let bytes = frame_bytes(note.to_string().as_bytes());
    let body = read_lsp_frame(&bytes).unwrap().unwrap().body;
    let v: serde_json::Value = serde_json::from_slice(&body).unwrap();
    assert_eq!(v.get("jsonrpc").and_then(serde_json::Value::as_str), Some("2.0"));
    assert_eq!(
        v.get("method").and_then(serde_json::Value::as_str),
        Some("event/notify")
    );
    assert!(v.get("id").is_none(), "notifications must omit id");
    assert_eq!(v.get("params"), Some(&value(&params)));
}

#[test]
fn framing_faults() {
    let fault = |b: &[u8]| match read_lsp_frame(b) {
        Err(e) => e,
        Ok(_) => panic!("expected a fault"),
    };
    assert!(matches!(fault(b"Content-Length: x\r\n\r\n"), FrameError::BadContentLength));
    assert!(matches!(fault(b"Accept: y\r\n\r\n"), FrameError::MissingContentLength));
    assert!(matches!(
        fault(b"Content-Length: 999999999\r\n\r\n"),
        FrameError::BodyTooLarge { len: 999_999_999 }
    ));
    assert!(matches!(fault(b"Content-Length: 5\r\n\r\nab"), FrameError::UnexpectedEof));
    assert!(matches!(fault(b"\xff\r\n\r\n"), FrameError::NotUtf8));
    let long = vec![b'a'; 9000];
    assert!(matches!(fault(&long), FrameError::HeaderTooLong));
    assert_eq!(
        header_length(b"content-length:  7 \r\nOther: z\r\n\r\n").ok().flatten(),
        Some(7)
    );
    assert_eq!(brokerless_body_length(b"Accept: y\r\n\r\n").ok(), Some(0));
}

#[test]
fn headers_are_read_byte_by_byte() {
    let mut r = HeaderReader::new();
    let head = b"Content-Length: 2\r\n\r\n";
    for (i, b) in head.iter().enumerate() {
        let step = r.push(*b);
        if i + 1 == head.len() {
            assert!(matches!(step, HeaderStep::Complete));
        } else {
            assert!(matches!(step, HeaderStep::More));
        }
    }
    assert_eq!(r.bytes(), head);
    let mut long = HeaderReader::new();
    let mut too_long = false;
    for _ in 0..9000 {
        if matches!(long.push(b'x'), HeaderStep::TooLong) {
            too_long = true;
        }
    }
    assert!(too_long);
}

#[test]
fn frames_are_told_apart() {
    match classify_frame(None, Some("notifications/initialized".to_string()), None) {
        Incoming::Notification { method, .. } => assert_eq!(method, "notifications/initialized"),
        _ => panic!("expected a notification"),
    }
    match classify_frame(Some(Json::uint(4)), Some("ping".to_string()), None) {
        Incoming::Request { id, method, .. } => {
            assert_eq!(value(&id), 4);
            assert_eq!(method, "ping");
        }
        _ => panic!("expected a request"),
    }
    assert!(matches!(
        handle_notification("notifications/initialized"),
        NotificationAction::Initialized
    ));
    assert!(matches!(handle_notification("notifications/cancelled"), NotificationAction::Cancel));
    assert!(matches!(handle_notification("other"), NotificationAction::Ignore));
}

#[test]
fn requests_are_routed() {
    let list = tools();
    match handle_request("initialize", &list, "0.1.0") {
        Routed::Answer(Ok(j)) => {
            let v = value(&j);
            assert_eq!(v["protocolVersion"], "2024-11-05");
            assert_eq!(v["serverInfo"]["name"], "one-for-all");
            assert_eq!(v["serverInfo"]["version"], "0.1.0");
        }
        _ => panic!("expected an answer"),
    }
    match handle_request("ping", &list, "0.1.0") {
        Routed::Answer(Ok(j)) => assert_eq!(value(&j).to_string(), "{}"),
        _ => panic!("expected an answer"),
    }
    assert!(matches!(handle_request("tools/call", &list, "0.1.0"), Routed::CallTool));
    assert!(matches!(
        handle_request("nope", &list, "0.1.0"),
        Routed::Answer(Err(_))
    ));
}

#[test]
fn tool_results_are_content() {
    let raw = object(vec![("ok", Json::Bool(true))]);
    let v = value(&into_tool_result("tab.open", &raw, "{\n  \"ok\": true\n}"));
    assert_eq!(v["content"][0]["type"], "text");
    assert_eq!(v["content"][0]["text"], "{\n  \"ok\": true\n}");
    let shot = object(vec![
        ("base64", Json::text("QUJD")),
        ("data", Json::text("QUJD")),
        ("format", Json::text("png")),
    ]);
    let v = value(&into_tool_result("page.screenshot", &shot, "{}"));
    assert!(v["content"].as_array().is_some());
    assert!(matches!(
        handle_tools_call("tab.open", Raced::Cancelled, ""),
        Err(BridgeError::Cancelled)
    ));
    assert!(handle_tools_call("tab.open", Raced::Replied(Ok(Json::Null)), "null").is_ok());
}

#[test]
fn responses_carry_result_or_error() {
    let ok = value(&response_json(&Json::uint(1), Ok(Json::Bool(true))));
    assert_eq!(ok["id"], 1);
    assert_eq!(ok["result"], true);
    assert!(ok.get("error").is_none());
    let bad = value(&response_json(&Json::uint(1), Err(BridgeError::Cancelled)));
    assert_eq!(bad["error"]["code"], -32800);
    assert!(bad.get("result").is_none());
    assert_ne!(request_key(&Json::uint(1), "1"), request_key(&Json::uint(2), "2"));
}

#[test]
fn brokerless_initialize_tools_list_call_path() {
    let list = tools();
    let err = BridgeError::BrokerUnavailable("down".to_string());
    let ask = |method: &str, id: u64| {
        let frame = object(vec![
            ("jsonrpc", Json::text("2.0")),
            ("id", Json::uint(id)),
            ("method", Json::text(method)),
        ]);
        value(&brokerless_response(&frame, &err, &list, "0.1.0").expect("response"))
    };
    let resp = ask("initialize", 1);
    let server_name = resp
        .pointer("/result/serverInfo/name")
        .and_then(|v| v.as_str())
        .unwrap_or("");
    assert_eq!(server_name, "one-for-all", "server name mismatch: {resp:?}");

    let resp = ask("tools/list", 2);
    let tools = resp
        .pointer("/result/tools")
        .and_then(|v| v.as_array())
        .expect("tools array");
    assert!(tools.len() >= 38, "expected ≥38 tools, got {}", tools.len());
    let names: Vec<&str> = tools
        .iter()
        .filter_map(|t| t.get("name").and_then(|n| n.as_str()))
        .collect();
    for needed in [
        "tab.open",
        "page.snapshot",
        "page.click",
        "page.cookies",
        "page.network_conditions",
        "page.emulate",
        "term.spawn",
        "term.read",
        "term.snapshot",
    ] {
        assert!(
            names.contains(&needed),
            "tools/list missing canonical tool: {needed}"
        );
    }

    let resp = ask("tools/call", 3);
    let err_code = resp
        .pointer("/error/code")
        .and_then(|v| v.as_i64())
        .expect("error.code");
    assert!(
        (-32099..=-32000).contains(&err_code),
        "expected server-error band, got {err_code}: {resp:?}"
    );

    let resp = ask("nope", 4);
    assert_eq!(resp["error"]["code"], -32601);
    let note = object(vec![("method", Json::text("nope"))]);
    assert!(brokerless_response(&note, &err, &list, "0.1.0").is_none());
}
