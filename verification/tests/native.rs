use one_for_all::actions::{
    eval_script, find_popup_menu_root, list_apps, popup_menu_item, require_area,
    resolve_bundle_id, resolve_pid, script_outcome, script_value, type_after_set, type_begin,
    typed_value, validate_no_activate, wrap_script, ProcessOutput, RunningApp, TypeStep,
};
use one_for_all::ax_find::{action_outcome, call_outcome, find_by_title};
use one_for_all::ax_walk::{
    best_name, focused_ref_for, locate_by_path, map_ax_error, roots_of, stable_id, walk, AxNode,
    FocusedElement, MAX_DEPTH, MAX_NODES,
};
use one_for_all::dock;
use one_for_all::gesture::{
    drag_allowed, force_touch_allowed, input_source_outcome, phase_number, swipe_phase,
    touchbar_outcome, InputSources, TouchBar,
};
use one_for_all::json::{Json, JsonNumber};
use one_for_all::menu;
use one_for_all::notification_center;
use one_for_all::permission::{
    ensure_trusted_with_prompt, is_trusted, screen_recording_deeplink, screen_recording_outcome,
    settings_deeplink, trust_outcome, SETTINGS_DEEPLINK,
};
use one_for_all::quicklook;
use one_for_all::scripting;
use one_for_all::spaces;
use one_for_all::spotlight;
use one_for_all::statusmenu;
use one_for_all::subscribe::{
    event_of, subscription, topic_enum_to_str, topic_str_to_enum, EventQueue, EventSource,
    CHANNEL_CAPACITY,
};
use one_for_all::types::{
    AppElement, AppId, AxEvent, AxEventTopic, BBox, ElementState, NativeControlError,
};
use one_for_all::window::{self, WindowNode};
use one_for_all::wire::app_element_json;

fn node(role: &str, title: Option<&str>, children: Vec<AxNode>) -> AxNode {
    AxNode {
        role: Some(role.to_string()),
        title: title.map(|t| t.to_string()),
        description: None,
        value: None,
        help: None,
        selected: None,
        focused: None,
        enabled: Some(true),
        can_press: true,
        value_settable: false,
        bbox: None,
        children: Some(children),
        handle: 0,
    }
}

fn texts(v: &[&str]) -> Vec<String> {
    v.iter().map(|s| s.to_string()).collect()
}

#[test]
fn validate_no_activate_rejects_activate_verb() {
    let err = validate_no_activate("tell application \"X\" to activate").unwrap_err();
    match err {
        NativeControlError::ActivateForbidden { .. } => {}
        other => panic!("expected ActivateForbidden, got {other:?}"),
    }
    assert!(validate_no_activate("tell application \"X\" to ACTIVATE").is_err());
}

#[test]
fn validate_no_activate_accepts_normal_scripts() {
    validate_no_activate("get name of front window").unwrap();
    validate_no_activate(r#"tell application "Calculator" to get version"#).unwrap();
}

#[test]
fn wrap_script_wraps_when_no_tell() {
    let s = wrap_script("com.apple.calculator", "get version");
    assert!(s.starts_with("tell application id \"com.apple.calculator\""));
    assert!(s.ends_with("end tell"));
    assert_eq!(
        s,
        "tell application id \"com.apple.calculator\"\nget version\nend tell"
    );
}

#[test]
fn wrap_script_passthrough_when_starts_with_tell() {
    let s = wrap_script(
        "com.apple.calculator",
        r#"tell application "Calculator" to get version"#,
    );
    assert_eq!(s, r#"tell application "Calculator" to get version"#);
    assert_eq!(wrap_script("x", "  TELL me"), "  TELL me");
    assert!(eval_script("x", "please activate").is_err());
}

#[test]
fn stable_id_matches_ax_engine_canonical() {
    let here = stable_id("AXButton", "5", "AXScrollArea", 7);
    let canonical = stable_id("AXButton", "5", "AXScrollArea", 7);
    assert_eq!(here, canonical);
    assert_eq!(here.len(), 64);
    assert_ne!(here, stable_id("AXButton", "5", "AXScrollArea", 8));
}

#[test]
fn caps_constants_match_documented_values() {
    assert_eq!(MAX_DEPTH, 64);
    assert_eq!(MAX_NODES, 5_000);
}

#[test]
fn map_ax_error_translates_api_disabled_to_permission_missing() {
    match map_ax_error(-25211) {
        NativeControlError::PermissionMissing { settings_url } => {
            assert_eq!(settings_url, SETTINGS_DEEPLINK);
        }
        other => panic!("expected PermissionMissing, got {other:?}"),
    }
}

#[test]
fn map_ax_error_passthrough_for_other_codes() {
    match map_ax_error(-25205) {
        NativeControlError::AxError(c) => {
            assert_eq!(c, -25205);
        }
        other => panic!("expected AxError, got {other:?}"),
    }
    assert!(matches!(map_ax_error(0), NativeControlError::Internal(_)));
}

#[test]
fn walked_elements_are_found_again() {
    let roots = vec![node(
        "AXWindow",
        Some("Main"),
        vec![
            node("AXButton", Some("One"), vec![]),
            node("AXGroup", None, vec![node("AXButton", Some("Two"), vec![])]),
        ],
    )];
    let snap = walk(&roots, Some("Main".to_string()), 42, "com.example.app", 3);
    let names: Vec<&str> = snap.elements.iter().map(|e| e.name.as_str()).collect();
    assert_eq!(names, vec!["Main", "One", "", "Two"]);
    assert_eq!(snap.snapshot_seq, 3);
    assert!(snap.truncated_at.is_none());
    for (i, e) in snap.elements.iter().enumerate() {
        assert_eq!(e.element_ref, format!("e{i}"));
        let found = locate_by_path(&roots, &e.ax_path).unwrap();
        assert_eq!(best_name(found), e.name);
    }
    assert!(matches!(
        locate_by_path(&roots, &vec![]),
        Err(NativeControlError::Internal(_))
    ));
    match locate_by_path(&roots, &vec![0, 9]) {
        Err(NativeControlError::RefStale { r }) => assert_eq!(r, "path step=9 out of range"),
        _ => panic!("expected RefStale"),
    }
    let focused = FocusedElement {
        role: Some("AXButton".to_string()),
        name: "One".to_string(),
        near: vec![true, true, true, true],
    };
    assert_eq!(
        focused_ref_for(&snap.elements, &focused),
        Some("e1".to_string())
    );
    assert_eq!(roots_of(None, None).len(), 0);
}

#[test]
fn deep_and_wide_walks_are_cut_off() {
    let mut deep = node("AXGroup", None, vec![]);
    for _ in 0..80 {
        deep = node("AXGroup", None, vec![deep]);
    }
    let snap = walk(&vec![deep], None, 1, "x", 1);
    assert_eq!(snap.elements.len(), 64);
    assert!(snap.truncated_at.is_some());
    let mut kids = Vec::new();
    for _ in 0..6000 {
        kids.push(node("AXButton", None, vec![]));
    }
    let snap = walk(&vec![node("AXWindow", None, kids)], None, 1, "x", 1);
    assert_eq!(snap.elements.len(), 5_000);
    assert!(snap.truncated_at.is_some());
}

#[test]
fn applications_are_listed_and_resolved() {
    let apps = vec![
        RunningApp { bundle_id: None, pid: 1, name: Some("daemon".to_string()) },
        RunningApp { bundle_id: Some("a.b".to_string()), pid: 2, name: None },
        RunningApp {
            bundle_id: Some("c.d".to_string()),
            pid: 3,
            name: Some("Cee".to_string()),
        },
    ];
    let list = list_apps(&apps, Some(3));
    assert_eq!(list.len(), 2);
    assert_eq!(list[0].name, "a.b");
    assert!(!list[0].has_focus);
    assert!(list[1].has_focus);
    assert_eq!(resolve_pid(&apps, "c.d").unwrap(), 3);
    match resolve_pid(&apps, "no.such") {
        Err(NativeControlError::AppNotFound { bundle_id }) => assert_eq!(bundle_id, "no.such"),
        _ => panic!("expected AppNotFound"),
    }
    assert_eq!(resolve_bundle_id(&apps, 2).unwrap(), "a.b");
    match resolve_bundle_id(&apps, 1) {
        Err(NativeControlError::AppNotFound { bundle_id }) => assert_eq!(bundle_id, "pid:1"),
        _ => panic!("expected AppNotFound"),
    }
}

#[test]
fn typing_falls_back_to_keys() {
    assert_eq!(type_begin(0, true), TypeStep::SetValue);
    assert_eq!(type_begin(0, false), TypeStep::SendKeys);
    assert_eq!(type_begin(-1, true), TypeStep::SendKeys);
    assert_eq!(type_after_set(0), TypeStep::Done);
    assert_eq!(type_after_set(-25200), TypeStep::SendKeys);
    assert_eq!(typed_value(Some("ab".to_string()), "cd", false), "abcd");
    assert_eq!(typed_value(Some("ab".to_string()), "cd", true), "cd");
    assert_eq!(typed_value(None, "cd", false), "cd");
}

#[test]
fn popup_menus_are_followed_by_title() {
    let menu = node(
        "AXMenu",
        None,
        vec![
            node("AXMenuItem", Some("Open"), vec![]),
            node(
                "AXMenuItem",
                Some("Recent"),
                vec![node("AXMenu", None, vec![node("AXMenuItem", Some("a.txt"), vec![])])],
            ),
        ],
    );
    let focused = node("AXGroup", None, vec![node("AXButton", Some("x"), vec![]), menu]);
    assert!(find_popup_menu_root(&focused).is_some());
    let item = popup_menu_item(Some(&focused), &texts(&["Recent", "a.txt"])).unwrap();
    assert_eq!(item.title.as_deref(), Some("a.txt"));
    match popup_menu_item(Some(&focused), &texts(&["Recent", "b.txt"])) {
        Err(NativeControlError::RefStale { r }) => {
            assert_eq!(r, "menu path [\"Recent\", \"b.txt\"]")
        }
        _ => panic!("expected RefStale"),
    }
    assert!(matches!(
        popup_menu_item(Some(&focused), &vec![]),
        Err(NativeControlError::Internal(_))
    ));
    match popup_menu_item(None, &texts(&["A", "B"])) {
        Err(NativeControlError::NotActionable { r, .. }) => assert_eq!(r, "A > B"),
        _ => panic!("expected NotActionable"),
    }
    let plain = node("AXGroup", None, vec![]);
    assert!(matches!(
        popup_menu_item(Some(&plain), &texts(&["A"])),
        Err(NativeControlError::NotActionable { .. })
    ));
    assert!(find_by_title(&focused, "Open").is_some());
    assert!(find_by_title(&focused, "Close").is_none());
}

#[test]
fn the_last_child_is_searched_first_for_a_menu() {
    let mut first = node("AXMenu", Some("first"), vec![]);
    first.handle = 1;
    let mut second = node("AXMenu", Some("second"), vec![]);
    second.handle = 2;
    let root = node("AXGroup", None, vec![first, second]);
    assert_eq!(find_popup_menu_root(&root).unwrap().handle, 2);
}

#[test]
fn script_runs_report_output_or_failure() {
    let run = |success: bool, code: Option<i32>, out: &str, err: &str| ProcessOutput {
        success,
        code,
        stdout: out.as_bytes().to_vec(),
        stderr: err.as_bytes().to_vec(),
    };
    assert_eq!(
        script_outcome("osascript", &run(true, Some(0), " 42\n", "")).unwrap(),
        "42"
    );
    match script_outcome("osascript", &run(false, Some(1), "", " boom \n")) {
        Err(NativeControlError::AppleScript { msg }) => assert_eq!(msg, "boom"),
        _ => panic!("expected AppleScript"),
    }
    match script_outcome("automator", &run(false, Some(-1), "", "  ")) {
        Err(NativeControlError::AppleScript { msg }) => assert_eq!(msg, "automator exit Some(-1)"),
        _ => panic!("expected AppleScript"),
    }
    match script_outcome("x", &run(false, None, "", "")) {
        Err(NativeControlError::AppleScript { msg }) => assert_eq!(msg, "x exit None"),
        _ => panic!("expected AppleScript"),
    }
    let lossy = ProcessOutput {
        success: true,
        code: Some(0),
        stdout: vec![b'a', 0xff, b'b'],
        stderr: vec![],
    };
    assert_eq!(script_outcome("x", &lossy).unwrap(), "a\u{fffd}b");
    assert!(matches!(
        script_value("42".to_string(), Some(Json::uint(42))),
        Json::Number(JsonNumber::PosInt(42))
    ));
    assert!(matches!(script_value("x".to_string(), None), Json::String(s) if s == "x"));
}

#[test]
fn action_codes_become_errors() {
    assert!(action_outcome(0, "e0".to_string(), "no AXPress action").is_ok());
    match action_outcome(-25206, "e0".to_string(), "no AXPress action") {
        Err(NativeControlError::NotActionable { r, reason }) => {
            assert_eq!(r, "e0");
            assert_eq!(reason, "no AXPress action");
        }
        _ => panic!("expected NotActionable"),
    }
    assert!(matches!(
        action_outcome(-25204, "e0".to_string(), "x"),
        Err(NativeControlError::AxError(-25204))
    ));
    assert!(call_outcome(0).is_ok());
    assert!(call_outcome(-25206).is_err());
}

#[test]
fn click_default_deny_focus_steal() {
    let r = dock::click_allowed(false, true);
    match r {
        Err(NativeControlError::FocusStealForbidden { what }) => {
            assert_eq!(what, "app.dock.click");
        }
        other => panic!("expected FocusStealForbidden, got {other:?}"),
    }
    let r = dock::click_allowed(true, false);
    match r {
        Err(NativeControlError::FocusStealForbidden { what }) => {
            assert_eq!(what, "app.dock.click");
        }
        other => panic!("expected FocusStealForbidden, got {other:?}"),
    }
    assert!(dock::click_allowed(true, true).is_ok());
}

#[test]
fn dock_items_are_listed_and_found() {
    let apps = vec![RunningApp {
        bundle_id: Some("com.apple.calculator".to_string()),
        pid: 7,
        name: Some("Calculator".to_string()),
    }];
    let mut trash = node("AXButton", None, vec![]);
    trash.description = Some("Trash".to_string());
    let bar = node(
        "AXApplication",
        None,
        vec![node(
            "AXList",
            None,
            vec![
                node("AXButton", Some(""), vec![]),
                node("AXButton", Some("Calculator"), vec![]),
                trash,
            ],
        )],
    );
    let items = dock::list(&bar, &apps);
    assert_eq!(items.len(), 2);
    assert_eq!(items[0].dock_id, "d1");
    assert!(items[0].running);
    assert_eq!(items[0].bundle_id, "com.apple.calculator");
    assert_eq!(items[1].label, "Trash");
    assert!(!items[1].running);
    assert!(dock::press_target(&bar, "Trash").is_ok());
    match dock::press_target(&bar, "Nope") {
        Err(NativeControlError::RefStale { r }) => assert_eq!(r, "dock label \"Nope\""),
        _ => panic!("expected RefStale"),
    }
}

#[test]
fn click_with_empty_path_errors() {
    let r = menu::click_target("com.apple.calculator", None, &vec![]);
    match r {
        Err(NativeControlError::Internal(msg)) => assert!(msg.contains("empty")),
        other => panic!("expected Internal, got {other:?}"),
    }
}

#[test]
fn caps_constants_match() {
    assert_eq!(menu::MAX_MENU_DEPTH, 12);
    assert_eq!(menu::MAX_MENU_NODES, 4_096);
}

#[test]
fn menus_are_listed_and_followed() {
    let mut open = node("AXMenuItem", Some("Open"), vec![]);
    open.enabled = Some(false);
    let bar = node(
        "AXMenuBar",
        Some("bar"),
        vec![node(
            "AXMenuBarItem",
            Some("File"),
            vec![node("AXMenu", None, vec![open, node("AXMenuItem", Some("Save"), vec![])])],
        )],
    );
    let items = menu::list(Some(&bar));
    let shown: Vec<&str> = items.iter().map(|m| m.display.as_str()).collect();
    assert_eq!(shown, vec!["File", "File > Open", "File > Save"]);
    assert!(items[1].disabled);
    assert!(!items[2].disabled);
    assert!(menu::list(None).is_empty());
    let hit = menu::click_target("x", Some(&bar), &texts(&["File", "Save"])).unwrap();
    assert_eq!(hit.title.as_deref(), Some("Save"));
    match menu::click_target("x", Some(&bar), &texts(&["File", "Quit"])) {
        Err(NativeControlError::RefStale { r }) => assert_eq!(r, "menu path[1]=\"Quit\""),
        _ => panic!("expected RefStale"),
    }
    assert!(matches!(
        menu::click_target("x", None, &texts(&["File"])),
        Err(NativeControlError::AppNotFound { .. })
    ));
}

#[test]
fn long_menus_are_cut_off() {
    let mut kids = Vec::new();
    for _ in 0..5000 {
        kids.push(node("AXMenuItem", Some("x"), vec![]));
    }
    let bar = node("AXMenuBar", None, vec![node("AXMenuBarItem", Some("File"), kids)]);
    assert_eq!(menu::list(Some(&bar)).len(), 4_096);
}

#[test]
fn notification_center_open_default_deny() {
    let r = notification_center::open(false, true);
    match r {
        Err(NativeControlError::FocusStealForbidden { what }) => {
            assert_eq!(what, "app.notification_center.open");
        }
        other => panic!("expected FocusStealForbidden, got {other:?}"),
    }
    assert!(notification_center::open(true, true).unwrap().starts_with("tell application"));
}

#[test]
fn notifications_are_listed_and_found() {
    let mut kids = Vec::new();
    for i in 0..100 {
        kids.push(node("AXGroup", Some(&format!("note {i}")), vec![]));
    }
    let root = node("AXApplication", None, kids);
    let titles = notification_center::list(Some(&root));
    assert_eq!(titles.len(), 65);
    assert_eq!(titles[0], "note 0");
    assert!(notification_center::list(None).is_empty());
    assert!(notification_center::banner(&root, "note 99").is_ok());
    match notification_center::banner(&root, "nope") {
        Err(NativeControlError::RefStale { r }) => assert_eq!(r, "notification \"nope\""),
        _ => panic!("expected RefStale"),
    }
}

#[test]
fn settings_deeplink_format_stable() {
    assert_eq!(
        SETTINGS_DEEPLINK,
        "x-apple.systempreferences:com.apple.preference.security?Privacy_Accessibility"
    );
    assert_eq!(settings_deeplink(), SETTINGS_DEEPLINK);
    assert!(SETTINGS_DEEPLINK.starts_with("x-apple.systempreferences:"));
    assert!(SETTINGS_DEEPLINK.contains("Privacy_Accessibility"));
    assert!(screen_recording_deeplink().contains("Privacy_ScreenCapture"));
}

#[test]
fn is_trusted_returns_bool_without_panicking() {
    let _ = is_trusted();
}

#[test]
fn non_macos_stub_reports_untrusted() {
    assert!(!is_trusted());
    match ensure_trusted_with_prompt() {
        Err(NativeControlError::UnsupportedPlatform) => {}
        other => panic!("expected UnsupportedPlatform, got {other:?}"),
    }
    assert!(trust_outcome(true).is_ok());
    assert!(matches!(
        trust_outcome(false),
        Err(NativeControlError::PermissionMissing { .. })
    ));
    assert!(matches!(
        screen_recording_outcome(false),
        Err(NativeControlError::ScreenRecordingMissing { .. })
    ));
}

#[test]
fn preview_missing_path_errors() {
    let r = quicklook::preview_allowed("/nonexistent/path/qlmanage-test", false);
    match r {
        Err(NativeControlError::Internal(msg)) => assert!(msg.contains("does not exist")),
        other => panic!("expected Internal, got {other:?}"),
    }
    assert!(quicklook::preview_allowed("/tmp", true).is_ok());
    let failed = ProcessOutput {
        success: false,
        code: Some(2),
        stdout: vec![],
        stderr: b"bad file\n".to_vec(),
    };
    match quicklook::preview_outcome(&failed) {
        Err(NativeControlError::AppleScript { msg }) => {
            assert_eq!(msg, "qlmanage exit Some(2): bad file")
        }
        _ => panic!("expected AppleScript"),
    }
    assert!(quicklook::close().is_ok());
    assert!(quicklook::require_screen_recording(false).is_err());
}

#[test]
fn applescript_rejects_activate() {
    let r = scripting::applescript(r#"tell application "Calculator" to activate"#);
    match r {
        Err(NativeControlError::ActivateForbidden { .. }) => {}
        other => panic!("expected ActivateForbidden, got {other:?}"),
    }
    let c = scripting::applescript("return 1").unwrap();
    assert_eq!(c.program, "/usr/bin/osascript");
    assert_eq!(c.args, texts(&["-e", "return 1"]));
}

#[test]
fn jxa_rejects_dotactivate() {
    let r = scripting::jxa(r#"Application("Calculator").activate()"#);
    match r {
        Err(NativeControlError::ActivateForbidden { .. }) => {}
        other => panic!("expected ActivateForbidden, got {other:?}"),
    }
    assert_eq!(
        scripting::jxa("1+1").unwrap().args,
        texts(&["-l", "JavaScript", "-e", "1+1"])
    );
}

#[test]
fn terminal_spawn_requires_focus_gate() {
    let r = scripting::terminal_spawn_session("echo hi", false, true);
    match r {
        Err(NativeControlError::FocusStealForbidden { what }) => {
            assert_eq!(what, "app.terminal.spawn_session");
        }
        other => panic!("expected FocusStealForbidden, got {other:?}"),
    }
    let r = scripting::terminal_spawn_session("echo hi", true, false);
    match r {
        Err(NativeControlError::FocusStealForbidden { what }) => {
            assert_eq!(what, "app.terminal.spawn_session");
        }
        other => panic!("expected FocusStealForbidden, got {other:?}"),
    }
}

#[test]
fn terminal_spawn_rejects_activate() {
    let r = scripting::terminal_spawn_session("activate something", true, true);
    match r {
        Err(NativeControlError::ActivateForbidden { .. }) => {}
        other => panic!("expected ActivateForbidden, got {other:?}"),
    }
    let c = scripting::terminal_spawn_session("echo \"a\\b\"", true, true).unwrap();
    assert_eq!(
        c.args[1],
        "tell application \"Terminal\" to do script \"echo \\\"a\\\\b\\\"\""
    );
    assert_eq!(
        scripting::shortcut_run("Foo", Some("bar")).args,
        texts(&["run", "--name", "Foo", "--input", "bar"])
    );
    assert_eq!(scripting::automator_run("/w").args, texts(&["/w"]));
}

#[test]
fn switch_zero_is_noop() {
    assert!(spaces::switch_relative(0).unwrap().is_none());
    assert_eq!(
        spaces::switch_relative(-2).unwrap().unwrap(),
        "tell application \"System Events\"\n    key code 123 using {control down}\n    key code 123 using {control down}\nend tell\n"
    );
    assert!(spaces::switch_relative(1).unwrap().unwrap().contains("key code 124"));
    assert!(spaces::list(spaces::ActiveSpace::NotBuilt).is_err());
    let one = spaces::list(spaces::ActiveSpace::Active(5)).unwrap();
    assert_eq!(one[0].name, "Space 5");
}

#[test]
fn move_window_unsupported_returns_clean() {
    let r = spaces::move_window_relative("com.apple.calculator", 1);
    match r {
        Err(NativeControlError::PrivateApiUnavailable { .. }) => {}
        other => panic!("expected PrivateApiUnavailable, got {other:?}"),
    }
}

#[test]
fn spotlight_open_default_deny() {
    let r = spotlight::open(false, true);
    match r {
        Err(NativeControlError::FocusStealForbidden { what }) => {
            assert_eq!(what, "app.spotlight.open");
        }
        other => panic!("expected FocusStealForbidden, got {other:?}"),
    }
    let r = spotlight::open(true, false);
    match r {
        Err(NativeControlError::FocusStealForbidden { .. }) => {}
        other => panic!("expected FocusStealForbidden, got {other:?}"),
    }
    assert!(spotlight::open(true, true).is_ok());
}

#[test]
fn empty_query_rejected() {
    let r = spotlight::query("");
    match r {
        Err(NativeControlError::Internal(_)) => {}
        other => panic!("expected Internal, got {other:?}"),
    }
    assert_eq!(
        spotlight::query("a\"b").unwrap(),
        "tell application \"System Events\" to keystroke \"a\\\"b\""
    );
    assert!(spotlight::query("Activate").is_err());
}

#[test]
fn out_of_range_index_rejected() {
    let r = spotlight::select(64);
    match r {
        Err(NativeControlError::Internal(_)) => {}
        other => panic!("expected Internal, got {other:?}"),
    }
    assert_eq!(
        spotlight::select(1).unwrap(),
        "tell application \"System Events\"\n    key code 125\n    key code 36\nend tell\n"
    );
}

#[test]
fn empty_label_does_not_match_everything() {
    let bars = statusmenu::StatusBars {
        bars: vec![node("AXMenuBar", None, vec![node("AXMenuBarItem", Some("Wi-Fi"), vec![])])],
    };
    let r = statusmenu::click_target(&bars, "");
    match r {
        Err(NativeControlError::RefStale { .. }) => {}
        other => panic!("expected RefStale on empty label, got {other:?}"),
    }
    assert_eq!(
        statusmenu::click_target(&bars, "wi-fi").unwrap().title.as_deref(),
        Some("Wi-Fi")
    );
    match statusmenu::click_target(&bars, "Clock") {
        Err(NativeControlError::RefStale { r }) => assert_eq!(r, "status menu item \"Clock\""),
        _ => panic!("expected RefStale"),
    }
}

#[test]
fn topic_enum_str_round_trip() {
    for t in [
        AxEventTopic::ValueChanged,
        AxEventTopic::FocusedChanged,
        AxEventTopic::WindowCreated,
        AxEventTopic::WindowDestroyed,
        AxEventTopic::SelectionChanged,
    ] {
        let s = topic_enum_to_str(t);
        assert_eq!(topic_str_to_enum(s), Some(t));
        assert_eq!(AxEventTopic::parse(t.as_str()), Some(t));
    }
    assert_eq!(AxEventTopic::all().len(), 5);
}

#[test]
fn topic_parse_known_strings() {
    assert_eq!(
        AxEventTopic::parse("focused_changed"),
        Some(AxEventTopic::FocusedChanged)
    );
    assert_eq!(AxEventTopic::parse("not-a-real-topic"), None);
}

#[test]
fn channel_capacity_constant() {
    assert_eq!(CHANNEL_CAPACITY, 1024);
}

fn event(n: u64) -> AxEvent {
    event_of(
        true,
        "AXValueChanged",
        "a.b",
        EventSource { role: None, name: None, value: None },
        n,
    )
    .unwrap()
}

#[test]
fn full_event_queues_lose_the_oldest() {
    let mut q = EventQueue::new();
    for i in 0..1024 {
        assert!(!q.push(event(i)));
    }
    assert!(q.push(event(1024)));
    assert_eq!(q.pop().unwrap().timestamp_ms, 1);
    assert!(event_of(
        false,
        "AXValueChanged",
        "a",
        EventSource { role: None, name: None, value: None },
        0
    )
    .is_none());
    let sub = subscription(
        "axsub-1".to_string(),
        "a.b",
        &vec![
            AxEventTopic::SelectionChanged,
            AxEventTopic::ValueChanged,
            AxEventTopic::SelectionChanged,
        ],
    );
    assert_eq!(
        sub.topics,
        vec![AxEventTopic::ValueChanged, AxEventTopic::SelectionChanged]
    );
}

#[test]
fn tap_handles_clean_failure() {
    assert!(touchbar_outcome(TouchBar::NotBuilt).is_err());
    assert!(touchbar_outcome(TouchBar::Answered(true)).is_ok());
    assert!(touchbar_outcome(TouchBar::Answered(false)).is_err());
    assert!(touchbar_outcome(TouchBar::Missing("DFRSetStatus")).is_err());
    assert!(matches!(
        touchbar_outcome(TouchBar::BadIdentifier),
        Err(NativeControlError::Internal(_))
    ));
}

#[test]
fn input_sources_report_their_status() {
    assert!(input_source_outcome(InputSources::Selected(0)).is_ok());
    assert!(matches!(
        input_source_outcome(InputSources::Selected(-9)),
        Err(NativeControlError::Tis(-9))
    ));
    assert!(matches!(
        input_source_outcome(InputSources::Empty),
        Err(NativeControlError::Tis(-50))
    ));
    assert!(matches!(
        input_source_outcome(InputSources::NoList),
        Err(NativeControlError::Tis(-1))
    ));
    assert!(matches!(
        input_source_outcome(InputSources::Missing("TISSelectInputSource")),
        Err(NativeControlError::PrivateApiUnavailable { .. })
    ));
}

#[test]
fn empty_paths_rejected() {
    let r = drag_allowed(&vec![]);
    match r {
        Err(NativeControlError::Internal(_)) => {}
        other => panic!("expected Internal, got {other:?}"),
    }
    assert!(drag_allowed(&texts(&["/tmp/a"])).is_ok());
}

#[test]
fn pressure_out_of_range_rejected() {
    let r = force_touch_allowed(1.5f64.to_bits());
    match r {
        Err(NativeControlError::Internal(msg)) => assert!(msg.contains("pressure")),
        other => panic!("expected Internal, got {other:?}"),
    }
    let r = force_touch_allowed((-0.1f64).to_bits());
    match r {
        Err(NativeControlError::Internal(_)) => {}
        other => panic!("expected Internal, got {other:?}"),
    }
    assert!(force_touch_allowed(0.0f64.to_bits()).is_ok());
    assert!(force_touch_allowed((-0.0f64).to_bits()).is_ok());
    assert!(force_touch_allowed(1.0f64.to_bits()).is_ok());
    assert!(force_touch_allowed(f64::NAN.to_bits()).is_err());
    let phases: Vec<i64> = (0..8).map(|s| phase_number(swipe_phase(s))).collect();
    assert_eq!(phases, vec![1, 2, 2, 2, 2, 2, 2, 4]);
}

fn bbox(x: f64, y: f64, w: f64, h: f64) -> BBox {
    BBox { x: x.to_bits(), y: y.to_bits(), w: w.to_bits(), h: h.to_bits() }
}

#[test]
fn bbox_zero_area_detection() {
    assert!(bbox(0.0, 0.0, 0.0, 0.0).is_zero_area());
    assert!(bbox(0.0, 0.0, 0.0, 10.0).is_zero_area());
    assert!(bbox(0.0, 0.0, 10.0, 0.0).is_zero_area());
    assert!(!bbox(0.0, 0.0, 1.0, 1.0).is_zero_area());
    assert!(bbox(0.0, 0.0, -1.0, 1.0).is_zero_area());
    assert!(!bbox(0.0, 0.0, f64::NAN, 1.0).is_zero_area());
}

#[test]
fn app_id_roundtrips() {
    let a = AppId::from("com.apple.calculator");
    assert_eq!(a.as_str(), "com.apple.calculator");
    let s: String = a.0.clone();
    assert_eq!(AppId::from(s).as_str(), "com.apple.calculator");
}

fn element() -> AppElement {
    AppElement {
        index: 0,
        element_ref: "e0".into(),
        role: "AXButton".into(),
        name: "5".into(),
        value: None,
        description: None,
        state: ElementState::default(),
        bbox: bbox(1.0, 2.0, 30.0, 30.0),
        interactable: true,
        app_id: "com.apple.calculator".into(),
        stable_id: "deadbeef".into(),
        ax_path: vec![0, 1, 2],
    }
}

#[test]
fn app_element_serializes_with_ref_alias() {
    let v = app_element_json(&element());
    let text = |key: &str| v.get(key).and_then(|j| j.as_text()).map(|t| t.to_string());
    assert_eq!(text("ref").as_deref(), Some("e0"));
    assert_eq!(text("role").as_deref(), Some("AXButton"));
    assert_eq!(text("name").as_deref(), Some("5"));
    assert_eq!(text("app_id").as_deref(), Some("com.apple.calculator"));
    assert!(v.get("ax_path").is_none());
    assert!(v.get("value").is_none());
}

#[test]
fn elements_without_area_are_not_actionable() {
    let mut e = element();
    assert!(require_area(&e).is_ok());
    e.bbox = bbox(0.0, 0.0, 0.0, 5.0);
    match require_area(&e) {
        Err(NativeControlError::NotActionable { r, reason }) => {
            assert_eq!(r, "e0");
            assert_eq!(reason, "zero area");
        }
        _ => panic!("expected NotActionable"),
    }
}

fn window_node(role: &str, title: &str) -> WindowNode {
    WindowNode {
        node: node(role, Some(title), vec![]),
        minimized: None,
        fullscreen: Some(true),
        main: None,
    }
}

#[test]
fn raise_default_deny() {
    let r = window::raise_allowed(false, true);
    match r {
        Err(NativeControlError::FocusStealForbidden { what }) => {
            assert_eq!(what, "app.window.raise");
        }
        other => panic!("expected FocusStealForbidden, got {other:?}"),
    }
    let r = window::raise_allowed(true, false);
    match r {
        Err(NativeControlError::FocusStealForbidden { .. }) => {}
        other => panic!("expected FocusStealForbidden, got {other:?}"),
    }
}

#[test]
fn bad_window_id_format_is_ref_stale() {
    let r = window::resolve_window(&vec![], "not-a-window-id");
    match r {
        Err(NativeControlError::RefStale { .. }) => {}
        Err(other) => panic!("unexpected error: {other:?}"),
        Ok(_) => panic!("expected error, got Ok"),
    }
}

#[test]
fn listed_windows_resolve() {
    let kids = vec![
        window_node("AXWindow", "One"),
        window_node("AXWindow", "Two"),
        window_node("AXMenuBar", ""),
    ];
    let list = window::list(true, &kids, "a.b");
    assert_eq!(list.len(), 2);
    for (i, w) in list.iter().enumerate() {
        assert_eq!(window::resolve_window(&kids, &w.window_id).unwrap(), i);
        assert!(w.fullscreen);
        assert!(!w.minimized);
    }
    assert!(window::resolve_window(&kids, "w2").is_err());
    assert!(window::list(false, &kids, "a.b").is_empty());
}

#[test]
fn listed_windows_resolve_behind_a_menu_bar() {
    let kids = vec![
        window_node("AXMenuBar", ""),
        window_node("AXWindow", "One"),
        window_node("AXMenuBar", ""),
        window_node("AXWindow", "Two"),
        window_node("AXWindow", "Three"),
    ];
    let list = window::list(true, &kids, "a.b");
    let ids: Vec<&str> = list.iter().map(|w| w.window_id.as_str()).collect();
    assert_eq!(ids, vec!["w0", "w1", "w2"]);
    for w in &list {
        let k = window::resolve_window(&kids, &w.window_id).unwrap();
        assert_eq!(kids[k].node.title.as_deref(), Some(w.title.as_str()));
    }
    assert_eq!(window::resolve_window(&kids, "w0").unwrap(), 1);
    assert_eq!(window::resolve_window(&kids, "w2").unwrap(), 4);
    match window::resolve_window(&kids, "w3") {
        Err(NativeControlError::RefStale { r }) => assert_eq!(r, "w3"),
        other => panic!("expected RefStale, got {other:?}"),
    }
    let alone = vec![window_node("AXMenuBar", ""), window_node("AXWindow", "Only")];
    assert_eq!(window::list(true, &alone, "a.b")[0].window_id, "w0");
    assert_eq!(window::resolve_window(&alone, "w0").unwrap(), 1);
}

#[test]
fn errors_speak_plainly() {
    assert_eq!(
        NativeControlError::RefStale { r: "e1".to_string() }.describe(),
        "ref \"e1\" not present in current snapshot"
    );
    assert_eq!(
        NativeControlError::AxError(-25204).describe(),
        "AX call failed (AXError=-25204)"
    );
    assert_eq!(
        NativeControlError::UnsupportedPlatform.describe(),
        "native-control is only implemented on macOS"
    );
}

#[test]
fn a_script_is_never_wrapped_twice() {
    for body in ["get version", "Größe ändern", "  TELL me", "tellé", ""] {
        let once = wrap_script("com.apple.calculator", body);
        assert_eq!(wrap_script("com.apple.TextEdit", &once), once);
    }
    assert_eq!(
        wrap_script("a.b", "Größe"),
        "tell application id \"a.b\"\nGröße\nend tell"
    );
}

#[test]
fn the_word_is_found_beside_other_letters() {
    assert!(validate_no_activate("ΣAcTiVaTeΣ").is_err());
    assert!(validate_no_activate("say \"é\" then ACTIVATE").is_err());
    assert!(validate_no_activate("açtivate").is_ok());
}
