use one_for_all::broker_client::{
    after_dial_failure, after_redial, after_send, check_outbound, classify_line,
    default_socket_path, dial_failure, dispatch_binary_message, kickstart_target,
    register_capabilities_from, register_outcome, register_params, request_json,
    requested_session, send_outcome, send_with_timeout, socket_closed, AfterSend, BrokerLine,
    Delivery, DialAction, Inflight, JsonRpcErrorBody, JsonRpcFrame, SocketChoice, Waited,
};
use one_for_all::error::{to_jsonrpc_error, BridgeError};
use one_for_all::json::{Json, JsonNumber, ObjectBuilder};
use one_for_all::vision_frame::decode_binary_vision_frame;

fn value(j: &Json) -> serde_json::Value {
    match j {
        Json::Null => serde_json::Value::Null,
        Json::Bool(b) => serde_json::Value::Bool(*b),
        Json::Number(JsonNumber::PosInt(n)) => serde_json::Value::from(*n),
        Json::Number(JsonNumber::NegInt(n)) => serde_json::Value::from(*n),
        Json::Number(JsonNumber::Float { bits }) => serde_json::Value::from(f64::from_bits(*bits)),
        Json::Number(JsonNumber::Float32 { single_bits }) => {
            serde_json::Value::from(f32::from_bits(*single_bits))
        }
        Json::String(s) => serde_json::Value::String(s.clone()),
        Json::Array(v) => serde_json::Value::Array(v.iter().map(value).collect()),
        Json::Object(m) => {
            serde_json::Value::Object(m.iter().map(|(k, v)| (k.clone(), value(v))).collect())
        }
    }
}

#[test]
fn register_capabilities_defaults_minimally() {
    let caps = register_capabilities_from(None);
    assert_eq!(
        caps,
        vec!["tools", "events", "binary-topics", "storage_state"]
    );
}

#[test]
fn register_capabilities_appends_unique_opt_ins() {
    let caps = register_capabilities_from(Some("native,eval,events,face_detect,system"));
    assert_eq!(
        caps,
        vec![
            "tools",
            "events",
            "binary-topics",
            "storage_state",
            "native",
            "eval",
            "face_detect",
            "system",
        ]
    );
}

#[test]
fn capabilities_are_trimmed_and_blanks_dropped() {
    let caps = register_capabilities_from(Some(" native , ,native,, tools"));
    assert_eq!(
        caps,
        vec!["tools", "events", "binary-topics", "storage_state", "native"]
    );
}

type Handle = (String, u32, u64, u64, u32, u64);
type View7 = (f64, f64, f64, f64, f64, f64, f64);
type Tile = (u32, u32, u32, u32, u32, u32, u64, u64);
type Ocr = (u32, u32, u32, u32, String, f32);
type Frame = (
    String,
    String,
    u64,
    u64,
    u64,
    Handle,
    View7,
    Vec<Tile>,
    Vec<Ocr>,
    Option<f32>,
    Option<String>,
);

fn frame_line() -> Vec<u8> {
    let frame: Frame = (
        "sess-1".to_string(),
        "tab-1".to_string(),
        1234,
        42,
        1_234_567,
        ("/tmp/ofa-frames-sess-1-tab-1".to_string(), 7, 42, 65_536, 184_320, 1_234_567),
        (0.0, 1.0, 1920.0, 1080.0, 0.0, 0.0, 0.0),
        vec![(12, 4, 768, 256, 64, 64, 11, 22)],
        vec![(1, 2, 3, 4, "Search".to_string(), 0.93)],
        Some(0.98),
        Some("stable".to_string()),
    );
    let body = bincode::encode_to_vec(&frame, bincode::config::standard()).expect("encode");
    let mut line = Vec::new();
    line.push(1);
    line.extend_from_slice(&(body.len() as u32).to_le_bytes());
    line.extend_from_slice(&body);
    line
}

#[test]
fn binary_vision_frame_reemits_public_json_shape() {
    let line = frame_line();
    let payload = value(&decode_binary_vision_frame(&line).expect("decode"));

    assert_eq!(payload["topic"], "vision.frame");
    assert_eq!(payload["session_id"], "sess-1");
    assert_eq!(payload["tab_id"], "tab-1");
    assert_eq!(payload["seq"], 42);
    assert_eq!(payload["captured_us"], 1_234_567);
    assert_eq!(payload["viewport"]["device_width"], 1920.0);
    assert_eq!(payload["viewport"]["page_scale_factor"], 1.0);
    assert_eq!(payload["frame"]["shm_path"], "/tmp/ofa-frames-sess-1-tab-1");
    assert_eq!(payload["frame"]["slot_seq"], 42);
    assert_eq!(payload["frame"]["slot_index"], 7);
    assert_eq!(payload["frame"]["ts_us"], 1_234_567);
    assert_eq!(payload["changed_tiles"][0]["tile_x"], 12);
    assert_eq!(payload["changed_tiles"][0]["bbox"]["x"], 768);
    assert_eq!(payload["changed_tiles"][0]["prev_hash"], 11);
    assert_eq!(payload["changed_tiles"][0]["next_hash"], 22);
    assert_eq!(payload["ocr_delta"][0]["bbox"]["w"], 3);
    assert_eq!(payload["ocr_delta"][0]["text"], "Search");
    let confidence = payload["ocr_delta"][0]["confidence"]
        .as_f64()
        .expect("ocr confidence as f64");
    assert!((confidence - 0.93).abs() < 1e-6, "confidence={confidence}");
    let stability = payload["stability"].as_f64().expect("stability as f64");
    assert!((stability - 0.98).abs() < 1e-6, "stability={stability}");
    assert_eq!(payload["state"], "stable");
}

#[test]
fn malformed_binary_frames_are_refused() {
    let refused = |line: &[u8]| match decode_binary_vision_frame(line) {
        Err(BridgeError::Protocol(msg)) => msg,
        _ => panic!("expected a protocol error"),
    };
    assert_eq!(refused(&[]), "empty broker frame");
    assert_eq!(refused(&[2]), "not a binary broker frame");
    assert_eq!(refused(&[1, 0, 0]), "binary broker frame shorter than header");
    assert_eq!(refused(&[1, 9, 0, 0, 0, 1]), "binary broker frame length mismatch");
    assert!(refused(&[1, 1, 0, 0, 0, 200]).starts_with("binary vision.frame decode: "));
    // A text that claims to be longer than any vector can be.
    let mut long = vec![1, 9, 0, 0, 0, 253];
    long.extend_from_slice(&u64::MAX.to_le_bytes());
    assert_eq!(refused(&long), "binary vision.frame decode: LimitExceeded");
    // A payload that ends too early.
    let cut = [1, 2, 0, 0, 0, 9, b'x'];
    assert!(refused(&cut).starts_with("binary vision.frame decode: UnexpectedEnd"));
    let n = dispatch_binary_message(&frame_line()).expect("notification");
    assert_eq!(n.method, "event/notify");
}

#[test]
fn a_bad_option_tag_is_named_by_the_type_of_the_field() {
    let mut line = frame_line();
    // The line ends with the tag and the text of the state, behind the tag and the four bytes
    // of the stability.
    let state = line.len() - 8;
    let stability = state - 5;
    line[state] = 7;
    let refused = |line: &[u8]| match decode_binary_vision_frame(line) {
        Err(BridgeError::Protocol(msg)) => msg,
        _ => panic!("expected a protocol error"),
    };
    let msg = refused(&line);
    assert!(msg.starts_with("binary vision.frame decode: UnexpectedVariant"), "{msg}");
    assert!(msg.contains("\"core::option::Option<alloc::string::String>\""), "{msg}");
    assert!(msg.contains("found: 7"), "{msg}");
    line[stability] = 9;
    let msg = refused(&line);
    assert!(msg.contains("\"core::option::Option<f32>\""), "{msg}");
    assert!(!msg.contains("u8"), "{msg}");
    assert!(msg.contains("found: 9"), "{msg}");
}

#[test]
fn send_outcomes() {
    assert!(matches!(
        send_outcome(Waited::TimedOut, 30_000),
        Err(BridgeError::Timeout { millis: 30_000 })
    ));
    assert!(send_outcome(Waited::Dropped, 1).is_err());
    assert!(matches!(
        send_outcome(Waited::Replied(Ok(Json::Bool(true))), 1),
        Ok(Json::Bool(true))
    ));
}

#[test]
fn only_the_first_lost_connection_is_redialed() {
    let lost = || Err(BridgeError::BrokerUnavailable("gone".to_string()));
    assert!(matches!(after_send(true, lost()), AfterSend::Redial));
    assert!(matches!(after_send(false, lost()), AfterSend::Finish(Err(_))));
    assert!(matches!(
        after_send(true, Err(BridgeError::Cancelled)),
        AfterSend::Finish(Err(BridgeError::Cancelled))
    ));
    assert!(after_redial(10, 20).is_none());
    assert!(matches!(after_redial(20, 20), Some(BridgeError::Timeout { .. })));
    assert!(matches!(
        send_with_timeout(lost(), 5, Ok(Json::Null), 10),
        Ok(Json::Null)
    ));
}

#[test]
fn dialing_backs_off_and_gives_up() {
    assert_eq!(after_dial_failure(1), DialAction::KickstartThenWait { millis: 50 });
    assert_eq!(after_dial_failure(2), DialAction::Wait { millis: 100 });
    assert_eq!(after_dial_failure(6), DialAction::Wait { millis: 1600 });
    assert_eq!(after_dial_failure(7), DialAction::GiveUp);
    match dial_failure("/tmp/x.sock") {
        BridgeError::BrokerUnavailable(msg) => {
            assert_eq!(msg, "could not connect to /tmp/x.sock after kickstart")
        }
        _ => panic!("expected BrokerUnavailable"),
    }
    assert_eq!(
        kickstart_target(501),
        "gui/501/io.github.elijahumana.one-for-all"
    );
}

#[test]
fn outbound_lines_are_bounded() {
    assert!(check_outbound(16 * 1024 * 1024).is_ok());
    match check_outbound(16 * 1024 * 1024 + 1) {
        Err(BridgeError::Protocol(msg)) => {
            assert_eq!(msg, "outbound frame 16777217 bytes exceeds 16MB cap")
        }
        _ => panic!("expected a protocol error"),
    }
}

#[test]
fn lines_are_told_apart() {
    assert!(matches!(classify_line(b""), BrokerLine::Empty));
    assert!(matches!(classify_line(b"{\"id\":1}"), BrokerLine::Text(t) if t == "{\"id\":1}"));
    assert!(matches!(classify_line(&[0x7b, 0xff, 0xfe]), BrokerLine::NotUtf8));
}

#[test]
fn replies_reach_their_callers() {
    let mut calls: Inflight<&'static str> = Inflight::new();
    let a = calls.take_id();
    let b = calls.take_id();
    assert_ne!(a, b);
    calls.insert(a, "first");
    calls.insert(b, "second");
    let frame = |id: Option<u64>, result: Option<Json>| JsonRpcFrame {
        id,
        result,
        error: None,
        method: None,
        params: None,
    };
    match calls.dispatch_json_message(frame(Some(b), Some(Json::uint(7)))) {
        Delivery::Reply { waiter, result } => {
            assert_eq!(waiter, "second");
            assert!(matches!(result, Ok(Json::Number(JsonNumber::PosInt(7)))));
        }
        _ => panic!("expected a reply"),
    }
    assert!(matches!(
        calls.dispatch_json_message(frame(Some(b), None)),
        Delivery::Unmatched { .. }
    ));
    match calls.dispatch_json_message(JsonRpcFrame {
        id: Some(a),
        result: None,
        error: Some(JsonRpcErrorBody { code: -32001, message: "no".to_string(), data: None }),
        method: None,
        params: None,
    }) {
        Delivery::Reply { result: Err(BridgeError::BrokerError { code, .. }), .. } => {
            assert_eq!(code, -32001)
        }
        _ => panic!("expected an error reply"),
    }
    match calls.dispatch_json_message(JsonRpcFrame {
        id: None,
        result: None,
        error: None,
        method: Some("event/notify".to_string()),
        params: None,
    }) {
        Delivery::Notify(n) => assert_eq!(n.method, "event/notify"),
        _ => panic!("expected a notification"),
    }
    calls.insert(9, "late");
    assert_eq!(calls.drain().len(), 1);
    assert!(matches!(socket_closed(), BridgeError::BrokerUnavailable(_)));
}

#[test]
fn requests_carry_method_and_id() {
    let v = value(&request_json(3, "tab.open", &Json::Null));
    assert_eq!(v["jsonrpc"], "2.0");
    assert_eq!(v["id"], 3);
    assert_eq!(v["method"], "tab.open");
    assert!(v["params"].is_null());
}

#[test]
fn registration_names_client_and_session() {
    let caps = register_capabilities_from(None);
    let v = value(&register_params("mcp", "0.1.0", &caps, &Some("s_1".to_string())));
    assert_eq!(v["client_name"], "mcp");
    assert_eq!(v["capabilities"][3], "storage_state");
    assert_eq!(requested_session(Some("".to_string())), None);
    assert_eq!(requested_session(Some("s".to_string())), Some("s".to_string()));
    assert!(matches!(register_outcome(Ok("s_9".to_string())), Ok(s) if s == "s_9"));
    assert!(register_outcome(Err("bad".to_string())).is_err());
}

#[test]
fn socket_choices() {
    assert!(matches!(
        default_socket_path(Some("/x".to_string()), Some("/h".to_string())),
        SocketChoice::Named(p) if p == "/x"
    ));
    assert!(matches!(
        default_socket_path(None, Some("/h".to_string())),
        SocketChoice::UnderHome(p) if p == "/h"
    ));
    assert!(matches!(default_socket_path(None, None), SocketChoice::NoHome));
}

#[test]
fn errors_map_to_codes() {
    let code = |e: BridgeError| to_jsonrpc_error(&e).code;
    assert_eq!(code(BridgeError::BrokerUnavailable("x".to_string())), -32011);
    assert_eq!(
        code(BridgeError::BrokerError { code: -32005, message: "m".to_string(), data: None }),
        -32005
    );
    assert_eq!(
        code(BridgeError::InvalidParams { method: "tab.open", reason: "r".to_string() }),
        -32602
    );
    assert_eq!(code(BridgeError::Cancelled), -32800);
    assert_eq!(code(BridgeError::Timeout { millis: 1500 }), -32007);
    assert_eq!(code(BridgeError::Protocol("p".to_string())), -32010);
    assert_eq!(code(BridgeError::Internal("i".to_string())), -32603);
    assert!(BridgeError::Timeout { millis: 1500 }.describe().contains("1.5s"));
    let mut b = ObjectBuilder::new();
    b.put("hint", Json::text("x"));
    let data = to_jsonrpc_error(&BridgeError::BrokerError {
        code: 1,
        message: "m".to_string(),
        data: Some(b.done()),
    })
    .data;
    assert!(data.is_some());
}

#[test]
fn asking_for_registered_capabilities_again_changes_nothing() {
    for raw in [None, Some(""), Some(" vision , tools,,term , vision"), Some("a b, \tc\t")] {
        let caps = register_capabilities_from(raw);
        assert_eq!(register_capabilities_from(Some(&caps.join(","))), caps);
    }
    assert_eq!(
        register_capabilities_from(Some(" vision , tools,,term , vision")),
        vec!["tools", "events", "binary-topics", "storage_state", "vision", "term"]
    );
}
