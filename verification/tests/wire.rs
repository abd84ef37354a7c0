use one_for_all::json::{Json, JsonNumber};
use one_for_all::metrics::{Histogram, MutationMetrics, PerfMetrics};
use one_for_all::types::{
    AppHandle, AxEvent, AxEventTopic, AxSubscription, BBox, ClipboardItem, ClipboardKind,
    DockItem, MenuItem, SpaceInfo, WindowHandle,
};
use one_for_all::wire::{
    app_handle_json, ax_event_json, ax_subscription_json, bbox_json, clipboard_item_json,
    dock_item_json, histogram_snapshot_json, menu_item_json, mutation_snapshot_json,
    perf_snapshot_json, space_info_json, window_handle_json,
};

fn value(j: &Json) -> serde_json::Value {
    match j {
        Json::Null => serde_json::Value::Null,
        Json::Bool(b) => serde_json::Value::Bool(*b),
        Json::Number(JsonNumber::PosInt(n)) => serde_json::Value::from(*n),
        Json::Number(JsonNumber::NegInt(n)) => serde_json::Value::from(*n),
        Json::Number(JsonNumber::Float { bits }) => serde_json::Value::from(f64::from_bits(*bits)),
        Json::Number(JsonNumber::Float32 { single_bits }) => {
            serde_json::Value::from(f32::from_bits(*single_bits))
        }
        Json::String(s) => serde_json::Value::String(s.clone()),
        Json::Array(v) => serde_json::Value::Array(v.iter().map(value).collect()),
        Json::Object(m) => {
            serde_json::Value::Object(m.iter().map(|(k, v)| (k.clone(), value(v))).collect())
        }
    }
}

fn same(j: &Json, text: &str) {
    let want: serde_json::Value = serde_json::from_str(text).unwrap();
    assert_eq!(value(j), want);
}

fn texts(v: &[&str]) -> Vec<String> {
    v.iter().map(|s| s.to_string()).collect()
}

#[test]
fn native_values_as_json() {
    same(
        &app_handle_json(&AppHandle {
            bundle_id: "com.apple.calculator".into(),
            pid: -1,
            name: "Calculator".into(),
            has_focus: true,
        }),
        r#"{"bundle_id":"com.apple.calculator","pid":-1,"name":"Calculator","has_focus":true}"#,
    );
    let bbox = BBox {
        x: 1.5f64.to_bits(),
        y: (-2.0f64).to_bits(),
        w: 3.0f64.to_bits(),
        h: f64::INFINITY.to_bits(),
    };
    same(&bbox_json(&bbox), r#"{"x":1.5,"y":-2.0,"w":3.0,"h":null}"#);
    same(
        &menu_item_json(&MenuItem {
            path: texts(&["File", "Open…"]),
            display: "File > Open…".into(),
            interactable: true,
            disabled: false,
            shortcut: None,
        }),
        r#"{"path":["File","Open…"],"display":"File > Open…","interactable":true,"disabled":false}"#,
    );
    same(
        &window_handle_json(&WindowHandle {
            window_id: "w0".into(),
            bundle_id: "b".into(),
            title: "t".into(),
            bbox,
            minimized: false,
            fullscreen: true,
            main: true,
        }),
        r#"{"window_id":"w0","bundle_id":"b","title":"t","bbox":{"x":1.5,"y":-2.0,"w":3.0,"h":null},
            "minimized":false,"fullscreen":true,"main":true}"#,
    );
    same(
        &dock_item_json(&DockItem {
            dock_id: "d1".into(),
            label: "Trash".into(),
            running: false,
            bundle_id: String::new(),
        }),
        r#"{"dock_id":"d1","label":"Trash","running":false}"#,
    );
    same(
        &space_info_json(&SpaceInfo { space_id: 7, name: "Space 7".into(), active: true }),
        r#"{"space_id":7,"name":"Space 7","active":true}"#,
    );
}

#[test]
fn clipboard_entries_as_json() {
    let mut item = ClipboardItem {
        change_count: 3,
        timestamp_ms: 4,
        types: texts(&["public.utf8-plain-text"]),
        kind: ClipboardKind::String,
        text: Some("hi".into()),
        files: vec![],
        redacted: false,
    };
    same(
        &clipboard_item_json(&item),
        r#"{"change_count":3,"timestamp_ms":4,"types":["public.utf8-plain-text"],
            "kind":"string","text":"hi","redacted":false}"#,
    );
    item.text = None;
    item.kind = ClipboardKind::Files;
    item.files = texts(&["/a"]);
    same(
        &clipboard_item_json(&item),
        r#"{"change_count":3,"timestamp_ms":4,"types":["public.utf8-plain-text"],
            "kind":"files","files":["/a"],"redacted":false}"#,
    );
}

#[test]
fn events_as_json() {
    same(
        &ax_event_json(&AxEvent {
            bundle_id: "b".into(),
            topic: AxEventTopic::FocusedChanged,
            timestamp_ms: 9,
            element_ref: None,
            role: Some("AXButton".into()),
            name: None,
            value: None,
        }),
        r#"{"bundle_id":"b","topic":"focused_changed","timestamp_ms":9,"role":"AXButton"}"#,
    );
    same(
        &ax_subscription_json(&AxSubscription {
            subscription_id: "axsub-1".into(),
            bundle_id: "b".into(),
            topics: vec![AxEventTopic::ValueChanged, AxEventTopic::WindowCreated],
        }),
        r#"{"subscription_id":"axsub-1","bundle_id":"b","topics":["value_changed","window_created"]}"#,
    );
}

#[test]
fn metrics_as_json() {
    let mut h = Histogram::new();
    h.observe(5);
    let v = value(&histogram_snapshot_json(&h.snapshot()));
    assert_eq!(v["count"], 1);
    assert_eq!(v["sum"], 5);
    assert_eq!(v["max"], 5);
    assert_eq!(v["buckets"].as_array().unwrap().len(), 64);
    assert_eq!(v["buckets"][2], 1);
    let mut p = PerfMetrics::new();
    p.record_pdf(1, 2);
    let v = value(&perf_snapshot_json(&p.snapshot()));
    assert_eq!(v["pdf_count"], 1);
    assert_eq!(v["pdf_bytes"]["max"], 2);
    let mut m = MutationMetrics::new();
    m.record_drain_overflow();
    same(
        &mutation_snapshot_json(&m.snapshot()),
        r#"{"drain_failures":0,"drain_overflows":1,"anchor_invalidations":0}"#,
    );
}
