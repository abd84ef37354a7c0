use one_for_all::broker_client::SocketChoice;
use one_for_all::cli::{
    arg_value, cli_register_params, cli_reply, dispatch, kill_plan, list_output, merge_params,
    parse_spawn, pick_trace, required_session, resolve_socket_path, row_session, session_rows,
    spawn_params, spawn_report, spawned_session, strip_socket_flag, CliReply, KillPlan,
    Subcommand, TraceEntry,
};
use one_for_all::json::{Json, ObjectBuilder};

fn args(v: &[&str]) -> Vec<String> {
    v.iter().map(|s| s.to_string()).collect()
}

fn object(members: Vec<(&str, Json)>) -> Json {
    let mut b = ObjectBuilder::new();
    for (k, v) in members {
        b.put(k, v);
    }
    b.done()
}

fn text(j: &Json, key: &str) -> Option<String> {
    j.get(key).and_then(|v| v.as_text()).map(|t| t.to_string())
}

#[test]
fn subcommands() {
    assert_eq!(dispatch(&args(&["spawn", "x"])), Ok(Subcommand::Spawn));
    assert_eq!(dispatch(&args(&["ls"])), Ok(Subcommand::List));
    assert_eq!(dispatch(&args(&["-h"])), Ok(Subcommand::Help));
    assert_eq!(dispatch(&args(&["-V"])), Ok(Subcommand::Version));
    assert_eq!(
        dispatch(&args(&["frob"])),
        Err("unknown subcommand `frob` — try `ofa help`".to_string())
    );
    assert_eq!(dispatch(&vec![]), Err("no subcommand".to_string()));
}

#[test]
fn socket_flags_are_found_and_stripped() {
    let argv = args(&["--json", "--socket", "/tmp/s", "rest"]);
    assert_eq!(strip_socket_flag(&argv), args(&["--json", "rest"]));
    assert_eq!(strip_socket_flag(&args(&["a", "--socket"])), args(&["a"]));
    assert_eq!(
        strip_socket_flag(&args(&["--socket", "--socket", "x"])),
        args(&["x"])
    );
    match resolve_socket_path(&argv, Some("/env".to_string()), Some("/home".to_string())) {
        Ok(SocketChoice::Named(p)) => assert_eq!(p, "/tmp/s"),
        _ => panic!("expected the flag's path"),
    }
    match resolve_socket_path(&vec![], None, Some("/home".to_string())) {
        Ok(SocketChoice::UnderHome(p)) => assert_eq!(p, "/home"),
        _ => panic!("expected the home directory"),
    }
    assert_eq!(
        resolve_socket_path(&args(&["--socket"]), None, None).err().as_deref(),
        Some("--socket requires an argument")
    );
    assert_eq!(
        resolve_socket_path(&vec![], None, None).err().as_deref(),
        Some("could not resolve home dir")
    );
    assert_eq!(arg_value(&args(&["--a", "1", "--a", "2"]), "--a"), Some("1".to_string()));
    assert_eq!(arg_value(&args(&["--a"]), "--a"), None);
}

#[test]
fn spawn_arguments() {
    let a = parse_spawn(&args(&[
        "--label",
        "L",
        "--inherit",
        "cookies, ,downloads",
        "--inherit",
        "x",
        "--profile",
        "p",
        "--instructions",
        "do",
        "--",
        "cmd",
        "--label",
    ]))
    .unwrap();
    assert_eq!(a.label.as_deref(), Some("L"));
    assert_eq!(a.inherit, args(&["cookies", "downloads", "x"]));
    assert_eq!(a.rest, args(&["cmd", "--label"]));
    let p = spawn_params(&a);
    assert_eq!(text(&p, "profile").as_deref(), Some("p"));
    assert_eq!(text(&p, "instructions").as_deref(), Some("do"));
    assert_eq!(
        parse_spawn(&args(&["--label"])).err().as_deref(),
        Some("--label requires a value")
    );
    assert_eq!(
        parse_spawn(&args(&["--inherit"])).err().as_deref(),
        Some("--inherit requires a value")
    );
    assert_eq!(
        parse_spawn(&args(&["--profile"])).err().as_deref(),
        Some("--profile requires a value")
    );
    assert_eq!(
        parse_spawn(&args(&["--instructions"])).err().as_deref(),
        Some("--instructions requires a value")
    );
    assert_eq!(
        parse_spawn(&args(&["--nope"])).err().as_deref(),
        Some("unknown flag for `ofa spawn`: --nope")
    );
    assert_eq!(
        parse_spawn(&args(&["pos"])).err().as_deref(),
        Some("`ofa spawn` takes flags then `-- <command>`; got positional `pos`")
    );
    let none = parse_spawn(&vec![]).unwrap();
    assert!(matches!(spawn_params(&none), Json::Object(m) if m.is_empty()));
    let reply = object(vec![("session_id", Json::text("s_1"))]);
    assert_eq!(spawned_session(&reply, ""), Ok("s_1".to_string()));
    assert_eq!(
        spawned_session(&Json::Null, "null"),
        Err("broker did not return session_id: null".to_string())
    );
    let report = spawn_report("s_1", &None);
    assert!(report.get("label").unwrap().is_null());
}

#[test]
fn merge_arguments() {
    let p = merge_params(&args(&["--session", "s", "--paths", "a, b", "--apply"])).unwrap();
    assert_eq!(text(&p, "child_session_id").as_deref(), Some("s"));
    assert_eq!(text(&p, "strategy").as_deref(), Some("prompt"));
    assert_eq!(p.get("apply").unwrap().as_bool(), Some(true));
    assert_eq!(p.get("dry_run").unwrap().as_bool(), Some(false));
    let err = |v: &[&str]| merge_params(&args(v)).err().unwrap();
    assert_eq!(err(&[]), "`ofa merge` requires --session <ID>");
    assert_eq!(err(&["--session", "s"]), "`ofa merge` requires --paths <csv>");
    assert_eq!(
        err(&["--session", "s", "--paths", " , "]),
        "--paths must be a non-empty CSV"
    );
    assert_eq!(
        err(&["--session", "s", "--paths", "a", "--apply", "--dry-run"]),
        "--apply and --dry-run are mutually exclusive"
    );
    assert_eq!(
        required_session("logs", &vec![]).err().as_deref(),
        Some("`ofa logs` requires --session <ID>")
    );
}

#[test]
fn kill_arguments() {
    assert!(matches!(kill_plan(&args(&["--all"])), Ok(KillPlan::All)));
    assert!(matches!(
        kill_plan(&args(&["--session", "s"])),
        Ok(KillPlan::One(id)) if id == "s"
    ));
    assert!(kill_plan(&vec![]).is_err());
    assert!(kill_plan(&args(&["--all", "--session", "s"])).is_err());
}

#[test]
fn the_session_table() {
    let row = object(vec![
        ("session_id", Json::text("s_1")),
        ("tab_count", Json::uint(2)),
        ("last_activity_ms", Json::uint(30)),
        ("created_at_ms", Json::uint(1_700_000_000_000)),
        ("label", Json::text("work")),
    ]);
    let status = object(vec![("sessions", Json::Array(vec![row, Json::Null]))]);
    let out = list_output(&status).unwrap();
    let expected = format!(
        "{:<14} {:>5} {:>10} {:>14}  {}\n{:<14} {:>5} {:>10} {:>14}  {}\n{:<14} {:>5} {:>10} {:>14}  {}\n",
        "SESSION", "TABS", "ACT_AGO_MS", "CREATED_MS", "LABEL",
        "s_1", 2, 30, 1_700_000_000_000u64, "work",
        "?", 0, 0, 0, ""
    );
    assert_eq!(out, expected);
    let empty = object(vec![("sessions", Json::Array(vec![]))]);
    assert_eq!(list_output(&empty).unwrap(), "(no sessions)\n");
    assert_eq!(
        list_output(&Json::Null).err().as_deref(),
        Some("_internal.status missing `sessions`")
    );
    let rows = session_rows(&status).unwrap();
    assert_eq!(row_session(&rows[0]), Ok("s_1".to_string()));
    assert!(row_session(&rows[1]).is_err());
}

#[test]
fn the_latest_live_trace_is_picked() {
    let e = |name: &str, modified: u128| TraceEntry { name: name.to_string(), modified };
    let entries = vec![
        e("0000.jsonl.gz", 90),
        e("0001.jsonl", 10),
        e("0002.jsonl", 20),
        e("0003.jsonl", 20),
        e(".jsonl", 99),
    ];
    assert_eq!(pick_trace(&entries), Some(2));
    assert_eq!(pick_trace(&vec![e("notes.txt", 1)]), None);
}

#[test]
fn replies_are_matched_by_id() {
    let ok = object(vec![("id", Json::uint(4)), ("result", Json::Bool(true))]);
    assert!(matches!(cli_reply(&ok, 4), CliReply::Result(Json::Bool(true))));
    assert!(matches!(cli_reply(&ok, 5), CliReply::Skip));
    let bad = object(vec![("id", Json::uint(4)), ("error", Json::text("no"))]);
    assert!(matches!(cli_reply(&bad, 4), CliReply::Error(Json::String(_))));
    let note = object(vec![("method", Json::text("event/notify"))]);
    assert!(matches!(cli_reply(&note, 4), CliReply::Skip));
    let bare = object(vec![("id", Json::uint(4))]);
    assert!(matches!(cli_reply(&bare, 4), CliReply::Result(Json::Null)));
    let reg = cli_register_params("1.2.3");
    assert_eq!(text(&reg, "client_name").as_deref(), Some("ofa/1.2.3"));
}
