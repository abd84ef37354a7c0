use one_for_all::clipboard::{
    capture, read_image, referenced_files, written_files, written_image, written_text,
    ClipboardCache, ClipboardContents, HISTORY_CAPACITY,
};
use one_for_all::controller::{AppAction, AppController, WindowChange};
use one_for_all::json::Json;
use one_for_all::privacy::RedactionEngine;
use one_for_all::types::{
    AppElement, AppSnapshot, AxSubscription, BBox, ClipboardItem, ClipboardKind, ElementState,
    NativeControlError, PrivacyPolicy,
};

fn policy(patterns: &[&str], blocked: &[&str]) -> PrivacyPolicy {
    PrivacyPolicy {
        redact_patterns: patterns.iter().map(|s| s.to_string()).collect(),
        app_blocklist: blocked.iter().map(|s| s.to_string()).collect(),
    }
}

fn item(text: &str) -> ClipboardItem {
    ClipboardItem {
        change_count: 1,
        timestamp_ms: 0,
        types: vec!["public.utf8-plain-text".into()],
        kind: ClipboardKind::String,
        text: Some(text.into()),
        files: vec![],
        redacted: false,
    }
}

fn fake_snapshot(bundle_id: &str, seq: u64, refs: &[&str]) -> AppSnapshot {
    let elements = refs
        .iter()
        .enumerate()
        .map(|(i, r)| AppElement {
            index: i,
            element_ref: (*r).to_string(),
            role: "AXButton".into(),
            name: format!("btn{i}"),
            value: None,
            description: None,
            state: ElementState::default(),
            bbox: BBox {
                x: 0.0f64.to_bits(),
                y: 0.0f64.to_bits(),
                w: 10.0f64.to_bits(),
                h: 10.0f64.to_bits(),
            },
            interactable: true,
            app_id: bundle_id.to_string(),
            stable_id: one_for_all::ax_walk::stable_id(
                "AXButton",
                &format!("btn{i}"),
                "AXApplication",
                i as u32,
            ),
            ax_path: vec![i as u32],
        })
        .collect();
    AppSnapshot {
        snapshot_seq: seq,
        app_id: bundle_id.to_string(),
        bundle_id: bundle_id.to_string(),
        pid: 0,
        title: bundle_id.to_string(),
        focused_ref: None,
        elements,
        tree: Json::Null,
        truncated_at: None,
    }
}

#[test]
fn ref_stale_when_no_snapshot() {
    let c = AppController::new();
    match c.resolve_ref("com.example.foo", "e0") {
        Err(NativeControlError::RefStale { r }) => assert_eq!(r, "e0"),
        other => panic!("expected RefStale, got {other:?}"),
    }
}

#[test]
fn resolve_ref_finds_present_element() {
    let mut c = AppController::new();
    c.publish("com.example.foo", fake_snapshot("com.example.foo", 1, &["e0", "e1"]));
    let e = c.resolve_ref("com.example.foo", "e1").unwrap();
    assert_eq!(e.element_ref, "e1");
}

#[test]
fn resolve_ref_stale_after_resnapshot() {
    let mut c = AppController::new();
    c.publish(
        "com.example.foo",
        fake_snapshot("com.example.foo", 1, &["e0", "e1", "e2"]),
    );
    assert!(c.resolve_ref("com.example.foo", "e2").is_ok());
    c.publish("com.example.foo", fake_snapshot("com.example.foo", 2, &["e0", "e1"]));
    match c.resolve_ref("com.example.foo", "e2") {
        Err(NativeControlError::RefStale { r }) => assert_eq!(r, "e2"),
        other => panic!("expected RefStale, got {other:?}"),
    }
    assert_eq!(c.latest("com.example.foo").unwrap().snapshot_seq, 2);
}

#[test]
fn redact_snapshot_rewrites_matching_fields() {
    let mut c = AppController::new();
    c.install_privacy(&policy(&["secret"], &[]));
    let mut snap = fake_snapshot("com.example.foo", 1, &["e0"]);
    snap.elements[0].name = "secret name".into();
    snap.elements[0].value = Some("top secret".into());
    snap.elements[0].description = Some("not secret".into());
    let out = c.redact_snapshot(snap);
    let elem = &out.elements[0];
    assert!(elem.name.starts_with("[redacted len="));
    assert!(elem.value.as_deref().unwrap().starts_with("[redacted len="));
    assert!(elem
        .description
        .as_deref()
        .unwrap()
        .starts_with("[redacted len="));
    match &out.tree {
        Json::Array(rows) => {
            assert_eq!(rows[0].get("name").unwrap().as_text().unwrap(), elem.name)
        }
        _ => panic!("expected an array"),
    }
}

#[test]
fn redact_snapshot_preserves_nonmatching_fields() {
    let mut c = AppController::new();
    c.install_privacy(&policy(&["secret"], &[]));
    let snap = fake_snapshot("com.example.foo", 1, &["e0"]);
    let out = c.redact_snapshot(fake_snapshot("com.example.foo", 1, &["e0"]));
    assert_eq!(out.elements[0].name, snap.elements[0].name);
    assert_eq!(out.elements[0].value, snap.elements[0].value);
    assert_eq!(out.elements[0].description, snap.elements[0].description);
}

#[test]
fn blocked_policy_short_circuits_bundle_scoped_controller_routes() {
    let mut c = AppController::new();
    c.install_privacy(&policy(&[], &["blocked.app"]));

    fn assert_blocked<T>(r: Result<T, NativeControlError>) {
        match r {
            Err(NativeControlError::Blocked { bundle_id }) => {
                assert_eq!(bundle_id, "com.example.blocked.app");
            }
            Err(other) => panic!("expected Blocked, got {other:?}"),
            Ok(_) => panic!("expected Blocked"),
        }
    }

    let id = "com.example.blocked.app";
    assert_blocked(c.eval(id, "return 1"));
    assert_blocked(c.menu_list(id));
    assert_blocked(c.menu_click(id, vec!["File".into()]));
    assert_blocked(c.window_list(id));
    assert_blocked(c.window_raise(id, "w0", true, true));
    assert_blocked(c.window_set_minimized(id, "w0", true));
    assert_blocked(c.window_set_fullscreen(id, "w0", true));
    assert_blocked(c.window_move_to(id, "w0", 1.0f64.to_bits(), 2.0f64.to_bits()));
    assert_blocked(c.window_resize(id, "w0", 3.0f64.to_bits(), 4.0f64.to_bits()));
    assert_blocked(c.spaces_move_window(id, 1));
    assert_blocked(c.click(id, "e0"));
    assert_blocked(c.type_text(id, "e0", "x", false));
    assert_blocked(c.scroll(id, None));
    assert_blocked(c.snapshot(id));
    assert_blocked(c.subscribe(id));
}

#[test]
fn install_privacy_policy_blocks_apps() {
    let mut c = AppController::new();
    c.install_privacy(&policy(&[], &["onepassword"]));
    assert!(c.is_blocked("com.agilebits.onepassword7"));
    assert!(!c.is_blocked("com.apple.calculator"));
    let r = c.require_not_blocked("com.agilebits.onepassword7");
    match r {
        Err(NativeControlError::Blocked { bundle_id }) => {
            assert_eq!(bundle_id, "com.agilebits.onepassword7");
        }
        other => panic!("expected Blocked, got {other:?}"),
    }
}

#[test]
fn requests_become_actions() {
    let mut c = AppController::new();
    match c.snapshot("a.b") {
        Ok(AppAction::Snapshot { bundle_id, seq }) => {
            assert_eq!(bundle_id, "a.b");
            assert_eq!(seq, 1);
        }
        other => panic!("unexpected {other:?}"),
    }
    match c.subscribe("a.b") {
        Ok(AppAction::Subscribe { subscription_id, .. }) => assert_eq!(subscription_id, "axsub-2"),
        other => panic!("unexpected {other:?}"),
    }
    c.publish("a.b", fake_snapshot("a.b", 1, &["e0", "e1"]));
    match c.click("a.b", "e1") {
        Ok(AppAction::Click { app_id, r, path }) => {
            assert_eq!(app_id, "a.b");
            assert_eq!(r, "e1");
            assert_eq!(path, vec![1]);
        }
        other => panic!("unexpected {other:?}"),
    }
    assert!(matches!(
        c.click("a.b", "e9"),
        Err(NativeControlError::RefStale { .. })
    ));
    assert!(matches!(
        c.type_text("a.b", "e0", "hi", true),
        Ok(AppAction::TypeText { clear_first: true, .. })
    ));
    assert!(matches!(c.scroll("a.b", None), Ok(AppAction::Scroll { .. })));
    assert!(c.scroll("a.b", Some("e9")).is_err());
    assert!(matches!(c.eval("a.b", "return 1"), Ok(AppAction::Eval { .. })));
    assert!(c.eval("a.b", "activate").is_err());
    assert!(matches!(c.menu_click("a.b", vec![]), Err(NativeControlError::Internal(_))));
    assert!(matches!(
        c.window_raise("a.b", "w0", true, false),
        Err(NativeControlError::FocusStealForbidden { .. })
    ));
    assert!(matches!(
        c.window_raise("a.b", "w0", true, true),
        Ok(AppAction::Window { change: WindowChange::Raise, .. })
    ));
    assert!(c.spaces_move_window("a.b", 1).is_err());
}

#[test]
fn subscriptions_end_by_id() {
    let mut c = AppController::new();
    for id in ["axsub-1", "axsub-2"] {
        c.subscribed(AxSubscription {
            subscription_id: id.to_string(),
            bundle_id: "a.b".to_string(),
            topics: vec![],
        });
    }
    assert!(c.unsubscribe("axsub-1"));
    assert!(!c.unsubscribe("axsub-1"));
    c.shutdown();
    assert!(!c.unsubscribe("axsub-2"));
    assert!(c.clipboard_changed(3));
    c.clipboard_push(item("x"));
    assert_eq!(c.clipboard().read_string(c.privacy()).as_deref(), Some("x"));
}

#[test]
fn empty_policy_is_pass_through() {
    let eng = RedactionEngine::new();
    assert!(eng.is_empty());
    let i = item("hello");
    let out = eng.apply_clipboard(&i);
    assert_eq!(out.text.as_deref(), Some("hello"));
    assert!(!out.redacted);
    assert!(!eng.is_blocked("com.apple.calculator"));
}

#[test]
fn redacts_matching_text() {
    let mut eng = RedactionEngine::new();
    eng.install(&policy(&[r"\d{3}-\d{2}-\d{4}"], &[]));
    let out = eng.apply_clipboard(&item("ssn 123-45-6789"));
    assert!(out.redacted);
    assert!(out.text.is_none());

    let out2 = eng.apply_clipboard(&item("hello world"));
    assert!(!out2.redacted);
    assert_eq!(out2.text.as_deref(), Some("hello world"));
}

#[test]
fn scrub_text_preserves_surrounding_context() {
    let mut eng = RedactionEngine::new();
    eng.install(&policy(&[r"secret-\d+"], &[]));
    let out = eng.scrub_text("before secret-42 after").expect("scrub");
    assert_eq!(out, "before <REDACTED> after");
    assert!(eng.scrub_text("nothing").is_none());
}

#[test]
fn skips_invalid_regex_without_panic() {
    let mut eng = RedactionEngine::new();
    eng.install(&policy(&["[", r"\d+"], &[]));
    assert!(eng.matches("abc 1"));
    assert!(!eng.matches("abc"));
}

#[test]
fn app_blocklist_substring_match() {
    let mut eng = RedactionEngine::new();
    eng.install(&policy(&[], &["onepassword", "keychain"]));
    assert!(eng.is_blocked("com.agilebits.onepassword7"));
    assert!(eng.is_blocked("com.apple.keychainaccess"));
    assert!(!eng.is_blocked("com.apple.calculator"));
    let mut eng2 = RedactionEngine::new();
    eng2.install(&policy(&[], &[""]));
    assert!(!eng2.is_blocked("com.apple.calculator"));
}

#[test]
fn reports_presence_of_real_blocklist_entries() {
    let mut eng = RedactionEngine::new();
    assert!(!eng.has_blocklist());
    eng.install(&policy(&[], &[""]));
    assert!(!eng.has_blocklist());
    eng.install(&policy(&[], &["notes"]));
    assert!(eng.has_blocklist());
}

#[test]
fn replacement_text_format_is_stable() {
    let mut eng = RedactionEngine::new();
    eng.install(&policy(&["secret"], &[]));
    let out = eng.redact_text("the secret is 42").unwrap();
    assert!(out.starts_with("[redacted len="));
    assert!(out.ends_with(']'));
    assert_eq!(out, "[redacted len=16]");
    assert!(eng.redact_text("nothing here").is_none());
}

#[test]
fn install_replaces_previous_policy() {
    let mut eng = RedactionEngine::new();
    eng.install(&policy(&["foo"], &[]));
    assert!(eng.matches("foo bar"));
    eng.install(&policy(&["bar"], &[]));
    assert!(eng.matches("hello bar"));
    assert!(!eng.matches("hello foo"));
}

#[test]
fn binary_clipboard_kinds_are_never_redacted_via_text_path() {
    let mut eng = RedactionEngine::new();
    eng.install(&policy(&[".*"], &[]));
    let mut i = item("");
    i.text = None;
    i.kind = ClipboardKind::Files;
    i.files = vec!["/Users/a/secret.txt".into()];
    let out = eng.apply_clipboard(&i);
    assert!(!out.redacted);
}

#[test]
fn ring_caps_at_capacity() {
    let mut cache = ClipboardCache::new();
    for i in 0..(HISTORY_CAPACITY + 8) {
        cache.push(ClipboardItem {
            change_count: i as i64 + 1,
            timestamp_ms: 0,
            types: vec![],
            kind: ClipboardKind::String,
            text: Some(format!("entry {i}")),
            files: vec![],
            redacted: false,
        });
    }
    let h = cache.history(&RedactionEngine::new());
    assert_eq!(h.len(), HISTORY_CAPACITY);
    assert_eq!(h.first().unwrap().text.as_deref(), Some("entry 8"));
    assert_eq!(
        h.last().unwrap().text.as_deref(),
        Some(&*format!("entry {}", HISTORY_CAPACITY + 7))
    );
}

#[test]
fn read_applies_redaction() {
    let mut cache = ClipboardCache::new();
    cache.push(item("ssn 123-45-6789"));
    let mut engine = RedactionEngine::new();
    engine.install(&policy(&[r"\d{3}-\d{2}-\d{4}"], &[]));
    let item = cache.read(&engine).unwrap();
    assert!(item.redacted);
    assert!(item.text.is_none());
}

#[test]
fn empty_write_files_rejected() {
    let r = written_files(vec![], 1, 0);
    match r {
        Err(NativeControlError::Internal(_)) => {}
        other => panic!("expected Internal, got {other:?}"),
    }
    assert!(written_files(vec!["/a".to_string()], 1, 0).is_ok());
    assert!(written_image(&vec![], 1, 0).is_err());
    assert!(written_image(&vec![1], 1, 0).is_ok());
}

#[test]
fn write_then_read_returns_same_string() {
    let mut cache = ClipboardCache::new();
    let engine = RedactionEngine::new();
    cache.push(written_text("one-for-all clipboard roundtrip".to_string(), 1, 0));
    let got = cache.read_string(&engine);
    assert_eq!(got.as_deref(), Some("one-for-all clipboard roundtrip"));
}

#[test]
fn redaction_pattern_hides_text_at_read() {
    let mut cache = ClipboardCache::new();
    let mut engine = RedactionEngine::new();
    engine.install(&policy(&[r"sk-[A-Za-z0-9]{10,}"], &[]));
    cache.push(written_text("API key is sk-aaaaaaaaaaaaaa".to_string(), 1, 0));
    let got = cache.read_string(&engine);
    assert_eq!(got, None);
}

#[test]
fn history_grows_across_writes() {
    let mut cache = ClipboardCache::new();
    let engine = RedactionEngine::new();
    let initial = cache.history(&engine).len();
    cache.push(written_text("first".to_string(), 1, 0));
    cache.push(written_text("second".to_string(), 2, 0));
    let after = cache.history(&engine);
    assert!(after.len() >= initial + 2);
    assert_eq!(after.last().unwrap().text.as_deref(), Some("second"));
}

#[test]
fn clipboard_contents_are_captured_by_kind() {
    let contents = |types: &[&str], files: Option<Vec<String>>, text: Option<&str>| {
        ClipboardContents {
            types: types.iter().map(|s| s.to_string()).collect(),
            files,
            text: text.map(|t| t.to_string()),
        }
    };
    let both = contents(
        &["public.file-url", "public.utf8-plain-text"],
        Some(vec!["/a".to_string()]),
        Some("x"),
    );
    let i = capture(both, 4, 9);
    assert_eq!(i.kind, ClipboardKind::Files);
    assert_eq!(i.change_count, 4);
    assert!(i.text.is_none());
    let text = capture(contents(&["public.utf8-plain-text"], None, Some("x")), 1, 0);
    assert_eq!(text.kind, ClipboardKind::String);
    assert_eq!(text.text.as_deref(), Some("x"));
    assert_eq!(
        capture(contents(&["public.tiff"], None, None), 1, 0).kind,
        ClipboardKind::Image
    );
    assert_eq!(
        capture(contents(&["x.y"], None, None), 1, 0).kind,
        ClipboardKind::Other
    );
    let mut cache = ClipboardCache::new();
    assert!(cache.changed(0));
    assert!(!cache.changed(0));
    assert!(cache.changed(5));
    assert_eq!(read_image(Some(vec![]), Some(vec![7])).unwrap(), vec![7]);
    assert!(read_image(None, None).is_err());
    assert_eq!(
        referenced_files(Some("file:///a".to_string()), Some("/a".to_string())),
        Some(vec!["/a".to_string()])
    );
    assert_eq!(referenced_files(None, None), None);
}
