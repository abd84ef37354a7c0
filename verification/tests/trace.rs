use one_for_all::digest::{compute_hmac_sha256, sha256_hex};
use one_for_all::json::{Json, JsonNumber, ObjectBuilder};
use one_for_all::patterns::REDACTED;
use one_for_all::redact::{is_denylisted_key, redact_value, session_redactor, Redactor};
use one_for_all::trace::{
    file_number_of, manifest_body, manifest_for_closed, sanitize_for_filename, scan_next_seq,
    screenshot_path, should_rotate, sign_manifest, snapshot_name, snapshot_record,
    trace_file_name, wake_in, ManifestFile, TraceEvent, TraceOptions, TraceWriter,
    DEFAULT_MAX_AGE_SECS, DEFAULT_MAX_BYTES, DROP_ALARM_THRESHOLD,
};
use one_for_all::trace_file::{Stage, TraceFileWriter, WriterStep};
use one_for_all::trace_registry::TraceRegistry;
use one_for_all::trace_wire::{event_from_json, event_json};

fn value(j: &Json) -> serde_json::Value {
    match j {
        Json::Null => serde_json::Value::Null,
        Json::Bool(b) => serde_json::Value::Bool(*b),
        Json::Number(JsonNumber::PosInt(n)) => serde_json::Value::from(*n),
        Json::Number(JsonNumber::NegInt(n)) => serde_json::Value::from(*n),
        Json::Number(JsonNumber::Float { bits }) => serde_json::Value::from(f64::from_bits(*bits)),
        Json::Number(JsonNumber::Float32 { single_bits }) => {
            serde_json::Value::from(f32::from_bits(*single_bits))
        }
        Json::String(s) => serde_json::Value::String(s.clone()),
        Json::Array(v) => serde_json::Value::Array(v.iter().map(value).collect()),
        Json::Object(m) => {
            serde_json::Value::Object(m.iter().map(|(k, v)| (k.clone(), value(v))).collect())
        }
    }
}

fn object(members: Vec<(&str, Json)>) -> Json {
    let mut b = ObjectBuilder::new();
    for (k, v) in members {
        b.put(k, v);
    }
    b.done()
}

fn ev_request(id: i64) -> TraceEvent {
    TraceEvent::CdpRequest {
        ts_ms: 1234,
        session_id: "s1".into(),
        target_id: Some("t1".into()),
        id,
        method: "Page.navigate".into(),
        params: object(vec![("url", Json::text("https://example.com"))]),
    }
}

/// Files of a trace directory, held in memory: the number of each and its lines.
struct Disk {
    files: Vec<(u64, Vec<String>)>,
    manifest: Json,
}

fn millis(n: u128) -> u128 {
    n * 1_000_000
}

/// Runs the writer over all events of the queue until it stops. `ages` holds the age of
/// the current file at each step; it is new at the later ones.
fn drain(queue: &mut TraceWriter, opts: &TraceOptions, ages: &[u128], first: u64) -> Disk {
    let redactor = session_redactor(&opts.redact_patterns);
    let mut files: Vec<(u64, Vec<String>)> = vec![(first, Vec::new())];
    let mut w = TraceFileWriter::start(first, 0, opts.max_bytes, opts.max_age());
    let mut step_no = 0;
    while w.stage() != Stage::Stopped {
        let age = if step_no < ages.len() { ages[step_no] } else { 0 };
        step_no += 1;
        let current = files.last_mut().unwrap();
        match w.advance(queue, age, &redactor) {
            WriterStep::Wait { .. } => w.woken(true),
            WriterStep::Rotate => {
                let body = current.1.join("");
                let next = current.0 + 1;
                w.rotated(
                    Some(manifest_for_closed(
                        &format!("{}.gz", trace_file_name(current.0)),
                        body.as_bytes(),
                        Some(body.len() as u64),
                        current.0,
                        body.len() as u64,
                        true,
                    )),
                    0,
                );
                files.push((next, Vec::new()));
            }
            WriterStep::Write(ev) => {
                let line = format!("{}\n", value(&event_json(&ev)));
                w.written(Some(line.len() as u64));
                current.1.push(line);
            }
            WriterStep::Close => {
                let body = current.1.join("");
                w.finished(Some(manifest_for_closed(
                    &trace_file_name(current.0),
                    body.as_bytes(),
                    None,
                    current.0,
                    body.len() as u64,
                    false,
                )));
            }
        }
    }
    assert_eq!(w.seq(), files.last().unwrap().0);
    let body = manifest_body(queue.session_id(), 1, 2, w.files());
    let text = value(&body).to_string();
    let manifest = sign_manifest(body, text.as_bytes(), &opts.hmac_key);
    Disk { files, manifest }
}

fn opts(max_bytes: u64, buffer_cap: usize) -> TraceOptions {
    TraceOptions {
        max_bytes,
        max_age_secs: 3600,
        max_age_nanos: 0,
        buffer_cap,
        redact_patterns: Vec::new(),
        hmac_key: None,
    }
}

#[test]
fn jsonl_round_trip_request() {
    let mut q = TraceWriter::new("s1", 64);
    for i in 0..3 {
        q.record(ev_request(i), 0);
    }
    let disk = drain(&mut q, &opts(1_000_000, 64), &[], 0);
    assert_eq!(trace_file_name(0), "0000.jsonl");
    let lines = &disk.files[0].1;
    assert_eq!(lines.len(), 3);
    for (i, line) in lines.iter().enumerate() {
        let v: serde_json::Value = serde_json::from_str(line).unwrap();
        assert_eq!(v["kind"], "cdp_request");
        assert_eq!(v["id"], i as i64);
        assert_eq!(v["session_id"], "s1");
        assert_eq!(v["method"], "Page.navigate");
        assert!(v["ts_ms"].is_u64());
    }
}

#[test]
fn rotates_on_size() {
    let mut q = TraceWriter::new("s1", 1024);
    for i in 0..50 {
        q.record(ev_request(i), 0);
    }
    let disk = drain(&mut q, &opts(1_024, 1024), &[], 0);
    assert!(disk.files.len() >= 2);
    let mut total_lines = 0usize;
    for (k, (seq, lines)) in disk.files.iter().enumerate() {
        assert_eq!(*seq, k as u64);
        for line in lines {
            let v: serde_json::Value = serde_json::from_str(line).unwrap();
            assert_eq!(v["kind"], "cdp_request");
            assert_eq!(v["id"], total_lines as i64);
            total_lines += 1;
        }
    }
    assert_eq!(total_lines, 50);
}

#[test]
fn rotates_on_age() {
    let mut q = TraceWriter::new("s1", 64);
    q.record(ev_request(0), 0);
    q.record(ev_request(1), 0);
    let mut o = opts(100_000_000, 64);
    o.max_age_secs = 0;
    o.max_age_nanos = 100_000_000;
    let disk = drain(&mut q, &o, &[0, 0, millis(300)], 0);
    assert_eq!(disk.files.len(), 2, "expected age rotation");
    assert_eq!(disk.files[1].1.len(), 1);
    assert!(should_rotate(0, 10, millis(100), millis(100)));
    assert!(should_rotate(10, 10, 0, millis(100)));
    assert!(!should_rotate(9, 10, millis(100) - 1, millis(100)));
    assert_eq!(wake_in(0, millis(1_000)), millis(1_000));
    assert_eq!(wake_in(millis(990), millis(1_000)), millis(50));
    assert_eq!(wake_in(millis(1_001), millis(1_000)), millis(50));
}

#[test]
fn an_idle_writer_rotates_an_old_file() {
    let mut q = TraceWriter::new("s1", 4);
    let mut w = TraceFileWriter::start(3, 0, 100, millis(100));
    assert!(matches!(w.advance(&mut q, 0, &None), WriterStep::Wait { nanos } if nanos == millis(100)));
    w.woken(false);
    assert!(matches!(w.advance(&mut q, millis(100), &None), WriterStep::Rotate));
    w.rotated(None, 7);
    assert_eq!(w.seq(), 4);
    assert_eq!(w.bytes_written(), 7);
    assert!(matches!(w.advance(&mut q, 0, &None), WriterStep::Wait { .. }));
    w.woken(false);
    assert!(matches!(w.advance(&mut q, millis(200), &None), WriterStep::Rotate));
    w.rotate_failed();
    assert!(w.stage() == Stage::Stopped);
    assert!(w.files().is_empty());
}

#[test]
fn overflow_drops_oldest_with_warn() {
    let mut q = TraceWriter::new("s1", 4);
    let total = 50;
    for i in 0..total {
        let r = q.record(ev_request(i), 0);
        if i < 4 {
            assert!(r.warn_total.is_none());
        }
        if i == 4 {
            assert_eq!(r.warn_total, Some(1));
        }
    }
    assert!(q.dropped_count() >= (total as u64 - 4));
    assert_eq!(q.pending_len(), 4);
    match q.pop() {
        Some(TraceEvent::CdpRequest { id, .. }) => assert_eq!(id, 46),
        _ => panic!("expected the oldest event that was kept"),
    }
}

#[test]
fn screenshot_path_is_relative_and_file_exists() {
    let mut w = TraceWriter::new("s1", 4);
    let name = w.screenshot_name("page.click", 17);
    let rel = screenshot_path(&name);
    assert!(rel.starts_with("screenshots/"));
    assert!(!rel.starts_with('/'));
    assert_eq!(rel, "screenshots/page.click-17-000000.png");
    assert_eq!(sanitize_for_filename("a/b c"), "a_b_c");
}

#[test]
fn snapshot_hash_stable_and_changes_on_diff() {
    let a = br#"{"count":1,"tree":"alpha"}"#;
    let b = br#"{"count":1,"tree":"beta"}"#;
    let (path1, hash1) = snapshot_record(1, a);
    assert_eq!(path1, "snapshots/00000001.json");
    let (path2, hash2) = snapshot_record(2, a);
    let (_, hash3) = snapshot_record(3, b);
    assert!(path1.starts_with("snapshots/"));
    assert!(path2.starts_with("snapshots/"));
    assert_eq!(hash1, hash2, "same input → same hash");
    assert_ne!(hash1, hash3, "different input → different hash");
    assert_eq!(hash1.len(), 64);
    assert!(hash1.chars().all(|c| c.is_ascii_hexdigit()));
    assert_eq!(snapshot_name(7), "00000007.json");
}

#[test]
fn dir_creation_idempotent() {
    let names = |v: &[&str]| -> Vec<String> { v.iter().map(|s| s.to_string()).collect() };
    let mut q1 = TraceWriter::new("s1", 4);
    q1.record(ev_request(0), 0);
    let first = drain(&mut q1, &TraceOptions::default(), &[], scan_next_seq(&names(&[])));
    assert_eq!(first.files[0].0, 0);
    let on_disk = trace_file_name(first.files[0].0);
    let mut q2 = TraceWriter::new("s1", 4);
    q2.record(ev_request(1), 0);
    let second =
        drain(&mut q2, &TraceOptions::default(), &[], scan_next_seq(&vec![on_disk]));
    assert_eq!(second.files[0].0, 1);
    assert!(!first.files[0].1.is_empty());
    assert!(!second.files[0].1.is_empty());
    assert_eq!(scan_next_seq(&names(&["0007.jsonl.gz", "0003.jsonl", "notes.txt"])), 8);
    assert_eq!(file_number_of("0012.jsonl"), Some(12));
    assert_eq!(file_number_of("notes.txt"), None);
}

#[test]
fn registry_is_idempotent_per_session() {
    let mut reg: TraceRegistry<u32> = TraceRegistry::new();
    assert_eq!(reg.get_or_start("s_reg", Err("no directory")), Err("no directory"));
    assert!(reg.get("s_reg").is_none());
    let w1 = *reg.get_or_start("s_reg", Ok::<u32, &str>(5)).unwrap();
    let w2 = *reg.get_or_start("s_reg", Ok::<u32, &str>(6)).unwrap();
    assert_eq!(w1, w2);
    assert_eq!(reg.get_or_start("s_reg", Err("no directory")), Ok(&5));
    assert_eq!(reg.get("s_reg"), Some(&5));
    reg.insert("other", 7);
    assert_eq!(reg.iter(), vec![("s_reg", &5), ("other", &7)]);
    assert_eq!(reg.remove("s_reg"), Some(5));
    assert!(reg.get("s_reg").is_none());
    assert_eq!(reg.get("other"), Some(&7));
    assert_eq!(reg.remove("s_reg"), None);
}

#[test]
fn trace_options_from_env_uses_defaults() {
    let opts = TraceOptions::from_env(None, None, None);
    assert_eq!(opts.max_bytes, DEFAULT_MAX_BYTES);
    assert_eq!(opts.max_age_secs, DEFAULT_MAX_AGE_SECS);
    let set = TraceOptions::from_env(Some("512"), Some("9"), Some("hex:00ff"));
    assert_eq!(set.max_bytes, 512);
    assert_eq!(set.max_age_secs, 9);
    assert_eq!(set.hmac_key, Some(vec![0, 255]));
    assert_eq!(
        TraceOptions::from_env(None, None, Some("hex:zz")).hmac_key,
        Some(b"zz".to_vec())
    );
    assert_eq!(
        TraceOptions::from_env(None, None, Some("key")).hmac_key,
        Some(b"key".to_vec())
    );
}

#[test]
fn trace_event_kind_tag_matches_serde() {
    let req = ev_request(7);
    assert_eq!(req.kind(), "cdp_request");
    let v = value(&event_json(&req));
    assert_eq!(v["kind"], "cdp_request");
}

#[test]
fn manifest_round_trips_with_hmac() {
    let mut q = TraceWriter::new("s_hmac", 64);
    for i in 0..15 {
        q.record(ev_request(i), 0);
    }
    let mut o = opts(256, 64);
    o.hmac_key = Some(b"unit-test-hmac-key".to_vec());
    let disk = drain(&mut q, &o, &[], 0);
    let mut doc = value(&disk.manifest);
    let expected = doc["hmac"].as_str().unwrap().to_owned();
    assert!(!expected.is_empty(), "expected non-empty hmac in manifest");
    doc.as_object_mut().unwrap().remove("hmac");
    let body = serde_json::to_vec(&doc).unwrap();
    let actual = compute_hmac_sha256(b"unit-test-hmac-key", &body);
    assert_eq!(expected, actual, "manifest HMAC must round-trip");
    let files = doc["files"].as_array().unwrap();
    assert!(!files.is_empty(), "manifest must list rotated files");
    for f in files {
        assert!(f["sha256"].as_str().is_some_and(|h| h.len() == 64));
        assert!(f["bytes"].as_u64().is_some());
        assert!(f["gzipped"].is_boolean());
    }
}

#[test]
fn manifest_without_hmac_when_key_unset() {
    let mut q = TraceWriter::new("s_nohmac", 64);
    q.record(ev_request(0), 0);
    let disk = drain(&mut q, &opts(1_000_000, 64), &[], 0);
    assert!(
        value(&disk.manifest).get("hmac").is_none(),
        "hmac must be omitted when key is unset"
    );
}

#[test]
fn redact_patterns_scrub_string_values() {
    let mut q = TraceWriter::new("s_red", 64);
    q.record(
        TraceEvent::CdpRequest {
            ts_ms: 42,
            session_id: "s_red".into(),
            target_id: None,
            id: 1,
            method: "Network.setExtraHTTPHeaders".into(),
            params: object(vec![
                (
                    "headers",
                    object(vec![
                        ("Cookie", Json::text("abc")),
                        ("X-Trace", Json::text("secret-99-trail")),
                    ]),
                ),
                ("url", Json::text("https://x.test?token=secret-12345")),
            ]),
        },
        0,
    );
    let mut o = opts(1_000_000, 64);
    o.redact_patterns = vec![r"secret-\d+".to_string()];
    let disk = drain(&mut q, &o, &[], 0);
    let content = disk.files[0].1.join("");
    assert!(!content.contains("secret-12345"), "pattern not scrubbed: {content}");
    assert!(!content.contains("secret-99"), "pattern not scrubbed: {content}");
    assert!(
        !content.contains("\"abc\""),
        "Cookie header not scrubbed structurally: {content}"
    );
    assert!(content.contains(REDACTED));
    assert!(content.contains("Network.setExtraHTTPHeaders"));
    assert!(content.contains("s_red"));
}

#[test]
fn invalid_redact_pattern_is_skipped_not_panic() {
    let mut q = TraceWriter::new("s_inv", 64);
    q.record(
        TraceEvent::CdpRequest {
            ts_ms: 1,
            session_id: "s_inv".into(),
            target_id: None,
            id: 1,
            method: "X".into(),
            params: object(vec![("k", Json::text("valid-secret"))]),
        },
        0,
    );
    let mut o = opts(1_000_000, 64);
    o.redact_patterns = vec!["(unbalanced".to_string(), "valid-[a-z]+".to_string()];
    let disk = drain(&mut q, &o, &[], 0);
    let content = disk.files[0].1.join("");
    assert!(content.contains(REDACTED));
    assert!(!content.contains("valid-secret"));
}

#[test]
fn drop_alarm_latches_after_threshold() {
    let mut w = TraceWriter::new("s_alarm", 4);
    let mut fired = 0;
    for i in 0..(DROP_ALARM_THRESHOLD as i64 + 50) {
        if w.record(ev_request(i), 1_000).alarm_fired {
            fired += 1;
        }
    }
    assert_eq!(fired, 1);
    assert!(w.drop_alarm_active(), "alarm must latch after threshold drops");
    w.clear_alarm();
    assert!(!w.drop_alarm_active(), "clear_alarm must release the latch");
    for i in 0..(DROP_ALARM_THRESHOLD as i64 + 50) {
        w.record(ev_request(i), 1_000);
    }
    assert!(w.drop_alarm_active(), "alarm must re-arm after clear");
}

#[test]
fn slow_drops_raise_no_alarm() {
    let mut w = TraceWriter::new("s", 1);
    for i in 0..500 {
        w.record(ev_request(i), 1_000 * i as u64);
    }
    assert!(!w.drop_alarm_active());
    assert!(w.shutdown());
    assert!(!w.shutdown());
    let before = w.dropped_count();
    w.record(ev_request(0), 0);
    assert_eq!(w.dropped_count(), before + 1);
}

#[test]
fn redactor_preserves_object_keys() {
    let r = Redactor::new(&vec!["topkey".to_string()]).unwrap();
    let v = object(vec![("topkey", Json::text("topkey-value-with-topkey"))]);
    let out = redact_value(&v, &r);
    let val = out.get("topkey").unwrap().as_text().unwrap();
    assert!(!val.contains("topkey"));
    assert!(val.contains(REDACTED));
    assert_eq!(r.scrub_str("a topkey b"), format!("a {REDACTED} b"));
    assert!(is_denylisted_key("Set-Cookie"));
    assert!(!is_denylisted_key("cookies"));
    assert!(session_redactor(&vec![]).is_none());
}

#[test]
fn save_screencast_frame_writes_with_correct_extension() {
    let mut w = TraceWriter::new("s_v", 4);
    let rel = screenshot_path(&w.screencast_name("jpg", 5));
    assert!(rel.starts_with("screenshots/"));
    assert!(rel.contains("vision.frame-"));
    assert!(rel.ends_with(".jpg"));
    let rel2 = screenshot_path(&w.screencast_name("jpg", 5));
    assert_ne!(rel, rel2);
}

#[test]
fn traced_session_5_actions_yields_5_screenshots_and_dom_snapshot() {
    let mut q = TraceWriter::new("s_e2e", 1024);
    let actions = ["tab.open", "page.click", "page.type", "page.click", "tab.navigate"];
    let mut pngs: Vec<String> = Vec::new();
    for (i, tool) in actions.iter().enumerate() {
        let id = i as i64;
        q.record(
            TraceEvent::CdpRequest {
                ts_ms: 1,
                session_id: "s_e2e".into(),
                target_id: Some("T".into()),
                id,
                method: "Page.dispatchSomething".into(),
                params: object(vec![("i", Json::uint(i as u64))]),
            },
            1,
        );
        q.record(
            TraceEvent::CdpResponse {
                ts_ms: 1,
                session_id: "s_e2e".into(),
                target_id: Some("T".into()),
                id,
                result: Some(object(vec![("ok", Json::Bool(true))])),
                error: None,
            },
            1,
        );
        q.record(
            TraceEvent::Action {
                ts_ms: 1,
                session_id: "s_e2e".into(),
                tab_id: "t_e2e".into(),
                tool: (*tool).into(),
                args: object(vec![("i", Json::uint(i as u64))]),
                result: object(vec![("ok", Json::Bool(true))]),
            },
            1,
        );
        let png_path = screenshot_path(&q.screenshot_name(tool, 1));
        assert!(!pngs.contains(&png_path));
        pngs.push(png_path.clone());
        assert!(png_path.starts_with("screenshots/"));
        q.record(
            TraceEvent::Screenshot {
                ts_ms: 1,
                session_id: "s_e2e".into(),
                tab_id: "t_e2e".into(),
                after_action: (*tool).into(),
                png_path,
            },
            1,
        );
    }
    let payload = br#"{"documents":[{"baseURL":"https://example.com"}],"strings":["body","div","span"]}"#;
    let (snapshot_path, hash) = snapshot_record(1, payload);
    q.record(
        TraceEvent::DomSnapshot {
            ts_ms: 1,
            session_id: "s_e2e".into(),
            tab_id: "t_e2e".into(),
            snapshot_seq: 1,
            hash,
            snapshot_path,
        },
        1,
    );
    let disk = drain(&mut q, &opts(100_000_000, 1024), &[], 0);
    let lines = &disk.files[0].1;
    assert_eq!(lines.len(), 21);
    let count = |kind: &str| {
        lines
            .iter()
            .filter(|l| {
                let v: serde_json::Value = serde_json::from_str(l).expect("valid JSONL");
                assert!(v["ts_ms"].is_u64());
                assert!(v["session_id"].is_string());
                v["kind"] == kind
            })
            .count()
    };
    assert_eq!(count("cdp_request"), 5);
    assert_eq!(count("cdp_response"), 5);
    assert_eq!(count("action"), 5);
    assert_eq!(count("screenshot"), 5);
    assert!(count("dom_snapshot") >= 1);
    assert!(q.shutdown());
    let before = q.dropped_count();
    q.record(ev_request(9), 1);
    assert_eq!(q.dropped_count(), before + 1);
}

fn ts() -> u64 {
    1_700_000_000_000
}

fn assert_has_string(v: &serde_json::Value, key: &str) {
    assert!(
        v.get(key).and_then(serde_json::Value::as_str).is_some(),
        "expected `{key}` to be a non-null string in {v}"
    );
}

fn assert_has_u64(v: &serde_json::Value, key: &str) {
    assert!(
        v.get(key).and_then(serde_json::Value::as_u64).is_some(),
        "expected `{key}` to be a u64 in {v}"
    );
}

#[test]
fn cdp_request_wire_shape_matches_cb_trace_consumer() {
    let ev = TraceEvent::CdpRequest {
        ts_ms: ts(),
        session_id: "s_a".into(),
        target_id: Some("T1".into()),
        id: 42,
        method: "Page.navigate".into(),
        params: object(vec![("url", Json::text("https://example.com"))]),
    };
    let v = value(&event_json(&ev));
    assert_eq!(v["kind"], "cdp_request");
    assert_has_u64(&v, "ts_ms");
    assert_has_string(&v, "session_id");
    assert_has_string(&v, "method");
}

#[test]
fn cdp_event_omits_id_per_jsonrpc_spec() {
    let ev = TraceEvent::CdpEvent {
        ts_ms: ts(),
        session_id: "s_a".into(),
        target_id: None,
        method: "Page.frameNavigated".into(),
        params: object(vec![]),
    };
    let v = value(&event_json(&ev));
    assert_eq!(v["kind"], "cdp_event");
    assert!(v.get("id").is_none(), "events must NOT carry an id");
    assert!(
        v.get("target_id").is_none(),
        "None target_id should be omitted from wire"
    );
}

#[test]
fn action_carries_tool_and_tab_id_for_cb_trace_tail() {
    let ev = TraceEvent::Action {
        ts_ms: ts(),
        session_id: "s_a".into(),
        tab_id: "t_91".into(),
        tool: "tab.open".into(),
        args: object(vec![("url", Json::text("https://example.com"))]),
        result: object(vec![("tab_id", Json::text("t_91"))]),
    };
    let v = value(&event_json(&ev));
    assert_eq!(v["kind"], "action");
    assert_has_string(&v, "tab_id");
    assert_has_string(&v, "tool");
}

#[test]
fn screenshot_records_relative_png_path() {
    let ev = TraceEvent::Screenshot {
        ts_ms: ts(),
        session_id: "s_a".into(),
        tab_id: "t_91".into(),
        after_action: "page.click".into(),
        png_path: "screenshots/page.click-1700000000000-1.png".into(),
    };
    let v = value(&event_json(&ev));
    assert_eq!(v["kind"], "screenshot");
    assert_has_string(&v, "png_path");
    assert_has_string(&v, "after_action");
}

#[test]
fn dom_snapshot_records_hash_and_path() {
    let ev = TraceEvent::DomSnapshot {
        ts_ms: ts(),
        session_id: "s_a".into(),
        tab_id: "t_91".into(),
        snapshot_seq: 7,
        hash: "abc123".into(),
        snapshot_path: "snapshots/7.json".into(),
    };
    let v = value(&event_json(&ev));
    assert_eq!(v["kind"], "dom_snapshot");
    assert_has_u64(&v, "snapshot_seq");
    assert_has_string(&v, "hash");
    assert_has_string(&v, "snapshot_path");
}

#[test]
fn jsonl_round_trip_is_lossless() {
    for ev in [
        TraceEvent::Action {
            ts_ms: ts(),
            session_id: "s".into(),
            tab_id: "t".into(),
            tool: "tab.open".into(),
            args: object(vec![]),
            result: object(vec![]),
        },
        TraceEvent::Screenshot {
            ts_ms: ts(),
            session_id: "s".into(),
            tab_id: "t".into(),
            after_action: "x".into(),
            png_path: "p".into(),
        },
        ev_request(-3),
        TraceEvent::CdpResponse {
            ts_ms: ts(),
            session_id: "s".into(),
            target_id: None,
            id: 1,
            result: None,
            error: Some(object(vec![("code", Json::signed(-1))])),
        },
        TraceEvent::CdpEvent {
            ts_ms: ts(),
            session_id: "s".into(),
            target_id: None,
            method: "m".into(),
            params: Json::Null,
        },
        TraceEvent::DomSnapshot {
            ts_ms: ts(),
            session_id: "s".into(),
            tab_id: "t".into(),
            snapshot_seq: 1,
            hash: "h".into(),
            snapshot_path: "p".into(),
        },
    ] {
        let j = event_json(&ev);
        let back = event_from_json(&j).expect("reads back");
        assert_eq!(value(&event_json(&back)), value(&j));
    }
    assert!(event_from_json(&object(vec![("kind", Json::text("nope"))])).is_none());
    assert!(event_from_json(&Json::Null).is_none());
}

#[test]
fn manifests_name_files_in_order() {
    let f = |seq: u64| ManifestFile {
        path: trace_file_name(seq),
        bytes: 3,
        sha256: sha256_hex(b"abc"),
        gzipped: false,
        seq,
    };
    let v = value(&manifest_body("s", 1, 2, &vec![f(0), f(1)]));
    assert_eq!(v["files"][1]["path"], "0001.jsonl");
    assert_eq!(
        v["files"][0]["sha256"],
        "ba7816bf8f01cfea414140de5dae2223b00361a396177a9cb410ff61f20015ad"
    );
    assert_eq!(
        compute_hmac_sha256(b"key", b"The quick brown fox jumps over the lazy dog"),
        "f7bc83f430538424b13298e6aa6fb143ef4d59a14946175997479dbc2d1a3cd8"
    );
}

#[test]
fn pictures_of_one_millisecond_get_different_names() {
    let mut w = TraceWriter::new("s1", 4);
    assert_eq!(w.screenshot_name("page.click", 17), "page.click-17-000000.png");
    assert_eq!(w.screenshot_name("page.click", 17), "page.click-17-000001.png");
    assert_eq!(w.screencast_name("jpg", 17), "vision.frame-17-000002.jpg");
    assert_eq!(w.screencast_name("jpg", 17), "vision.frame-17-000003.jpg");
    assert_eq!(w.pending_len(), 0);
    assert_eq!(w.dropped_count(), 0);
}
