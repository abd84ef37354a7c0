use one_for_all::error::BridgeError;
use one_for_all::json::{Json, ObjectBuilder};
use one_for_all::tools::{
    args_kind, build_list, call_options_for, dispatch, find, name_static, tool_index,
    validate_args, ToolDescriptor, TOOL_COUNT, TOOL_NAMES,
};

fn list() -> Vec<ToolDescriptor> {
    let mut schemas = Vec::new();
    for _ in 0..TOOL_COUNT {
        let mut b = ObjectBuilder::new();
        b.put("type", Json::text("object"));
        schemas.push(Some(b.done()));
    }
    build_list(schemas)
}

#[test]
fn every_canonical_name_has_a_descriptor() {
    let list = list();
    for name in TOOL_NAMES {
        assert!(find(&list, name).is_some(), "missing descriptor for tool: {name}");
    }
    assert_eq!(list.len(), TOOL_NAMES.len());
}

#[test]
fn tools_list_payload_is_stable() {
    let list = list();
    for (i, t) in list.iter().enumerate() {
        assert_eq!(t.name, TOOL_NAMES[i], "tool order drift at index {i}");
        assert!(!t.description.is_empty(), "missing description at {i}");
        assert!(
            matches!(t.input_schema, Json::Object(_)),
            "missing inputSchema at {i}"
        );
    }
    assert!(list.iter().any(|t| t.name == "page.screenshot"));
}

#[test]
fn u2_worker_stubs_are_not_published() {
    let list = list();
    for absent in [
        "page.workers.list",
        "page.workers.console",
        "page.workers.evaluate",
        "page.service_workers.list",
        "page.service_workers.inspect",
        "page.service_workers.unregister",
        "page.service_workers.update",
        "page.service_workers.trigger_event",
    ] {
        assert!(
            !TOOL_NAMES.iter().any(|name| *name == absent),
            "worker/service-worker stub leaked into MCP tool surface: {absent}"
        );
        assert!(
            find(&list, absent).is_none(),
            "worker/service-worker stub unexpectedly has a descriptor: {absent}"
        );
    }
}

#[test]
fn unreadable_arguments_are_refused() {
    match validate_args("tab.open", Err("missing field `url`".to_string())) {
        Err(BridgeError::InvalidParams { method, reason }) => {
            assert_eq!(method, "tab.open");
            assert_eq!(reason, "missing field `url`");
        }
        _ => panic!("wrong outcome"),
    }
    assert!(validate_args("tab.open", Ok(())).is_ok());
    match validate_args("no.such", Ok(())) {
        Err(BridgeError::Protocol(msg)) => assert_eq!(msg, "unknown tool: no.such"),
        _ => panic!("wrong outcome"),
    }
}

#[test]
fn calls_go_out_under_the_tool_name() {
    let (method, opts) = dispatch("tab.open", Ok(())).unwrap();
    assert_eq!(method, "tab.open");
    assert_eq!(opts.timeout_millis, 45_000);
    assert!(dispatch("no.such", Ok(())).is_err());
    assert_eq!(call_options_for("tab.wait").timeout_millis, 60_000);
    assert_eq!(call_options_for("page.pdf").timeout_millis, 120_000);
    assert_eq!(call_options_for("page.cpu_profile").timeout_millis, 180_000);
    assert_eq!(call_options_for("page.click").timeout_millis, 30_000);
    assert_eq!(name_static("tab.open"), "tab.open");
    assert!(tool_index("tab.open").is_some());
    assert!(args_kind("tab.open").is_some());
    assert!(args_kind("no.such").is_none());
}

#[test]
fn a_name_stands_for_one_tool() {
    let list = list();
    for (i, name) in TOOL_NAMES.iter().enumerate() {
        assert_eq!(tool_index(name), Some(i));
        assert_eq!(list.iter().filter(|d| d.name == *name).count(), 1);
    }
}
