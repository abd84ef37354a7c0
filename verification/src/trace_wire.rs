//! The form of trace events on disk: one JSON object for each, tagged with its kind.
use vstd::prelude::*;

use crate::broker_client::opt_text;
use crate::error::opt_json;
use crate::json::{int_number, member_of, Json, JsonNumber, JsonView, ObjectBuilder};
use crate::text::same_text;
use crate::trace::{kind_of, TraceEvent, TraceEventView};

verus! {

/// Members of an object.
pub type Members = Seq<(Seq<char>, JsonView)>;

pub open spec fn with_text(m: Members, key: Seq<char>, v: Seq<char>) -> Members {
    m.push((key, JsonView::String(v)))
}

pub open spec fn with_uint(m: Members, key: Seq<char>, n: u64) -> Members {
    m.push((key, JsonView::Number(JsonNumber::PosInt(n))))
}

pub open spec fn with_int(m: Members, key: Seq<char>, n: i64) -> Members {
    m.push((key, JsonView::Number(int_number(n))))
}

/// A text that is left out where there is none.
pub open spec fn with_opt_text(m: Members, key: Seq<char>, v: Option<Seq<char>>) -> Members {
    match v {
        Some(t) => with_text(m, key, t),
        None => m,
    }
}

/// A value that is left out where there is none.
pub open spec fn with_opt_json(m: Members, key: Seq<char>, v: Option<JsonView>) -> Members {
    match v {
        Some(j) => m.push((key, j)),
        None => m,
    }
}

/// What every event begins with.
pub open spec fn wire_head(kind: Seq<char>, ts_ms: u64, session_id: Seq<char>) -> Members {
    with_text(
        with_uint(with_text(Seq::empty(), "kind"@, kind), "ts_ms"@, ts_ms),
        "session_id"@,
        session_id,
    )
}

/// The members of an event's object.
pub open spec fn wire_members(ev: TraceEventView) -> Members {
    match ev {
        TraceEventView::CdpRequest { ts_ms, session_id, target_id, id, method, params } => {
            let head = with_opt_text(
                wire_head(kind_of(ev), ts_ms, session_id),
                "target_id"@,
                target_id,
            );
            with_text(with_int(head, "id"@, id), "method"@, method).push(("params"@, params))
        },
        TraceEventView::CdpResponse { ts_ms, session_id, target_id, id, result, error } => {
            let head = with_opt_text(
                wire_head(kind_of(ev), ts_ms, session_id),
                "target_id"@,
                target_id,
            );
            with_opt_json(
                with_opt_json(with_int(head, "id"@, id), "result"@, result),
                "error"@,
                error,
            )
        },
        TraceEventView::CdpEvent { ts_ms, session_id, target_id, method, params } => {
            let head = with_opt_text(
                wire_head(kind_of(ev), ts_ms, session_id),
                "target_id"@,
                target_id,
            );
            with_text(head, "method"@, method).push(("params"@, params))
        },
        TraceEventView::Action { ts_ms, session_id, tab_id, tool, args, result } => {
            let head = with_text(
                wire_head(kind_of(ev), ts_ms, session_id),
                "tab_id"@,
                tab_id,
            );
            with_text(head, "tool"@, tool).push(("args"@, args)).push(("result"@, result))
        },
        TraceEventView::Screenshot { ts_ms, session_id, tab_id, after_action, png_path } => {
            let head = with_text(
                wire_head(kind_of(ev), ts_ms, session_id),
                "tab_id"@,
                tab_id,
            );
            with_text(
                with_text(head, "after_action"@, after_action),
                "png_path"@,
                png_path,
            )
        },
        TraceEventView::DomSnapshot {
            ts_ms,
            session_id,
            tab_id,
            snapshot_seq,
            hash,
            snapshot_path,
        } => {
            let head = with_text(
                wire_head(kind_of(ev), ts_ms, session_id),
                "tab_id"@,
                tab_id,
            );
            with_text(
                with_text(
                    with_uint(head, "snapshot_seq"@, snapshot_seq),
                    "hash"@,
                    hash,
                ),
                "snapshot_path"@,
                snapshot_path,
            )
        },
    }
}

fn head(kind: &str, ts_ms: u64, session_id: &str) -> (b: ObjectBuilder)
    ensures
        b@ == wire_head(kind@, ts_ms, session_id@),
{
    let mut b = ObjectBuilder::new();
    b.put("kind", Json::text(kind));
    b.put("ts_ms", Json::uint(ts_ms));
    b.put("session_id", Json::text(session_id));
    b
}

pub fn put_opt_text(b: &mut ObjectBuilder, key: &str, v: &Option<String>)
    ensures
        final(b)@ == with_opt_text(old(b)@, key@, opt_text(*v)),
{
    match v {
        Some(t) => {
            b.put(key, Json::text(t.as_str()));
        },
        None => {},
    }
}

fn put_opt_json(b: &mut ObjectBuilder, key: &str, v: &Option<Json>)
    ensures
        final(b)@ == with_opt_json(old(b)@, key@, opt_json(*v)),
{
    match v {
        Some(j) => {
            b.put(key, j.copy());
        },
        None => {},
    }
}

/// The object that an event is written as.
pub fn event_json(ev: &TraceEvent) -> (j: Json)
    ensures
        j@ == JsonView::Object(wire_members(ev@)),
{
    match ev {
        TraceEvent::CdpRequest { ts_ms, session_id, target_id, id, method, params } => {
            let mut b = head(ev.kind(), *ts_ms, session_id.as_str());
            put_opt_text(&mut b, "target_id", target_id);
            b.put("id", Json::signed(*id));
            b.put("method", Json::text(method.as_str()));
            b.put("params", params.copy());
            b.done()
        },
        TraceEvent::CdpResponse { ts_ms, session_id, target_id, id, result, error } => {
            let mut b = head(ev.kind(), *ts_ms, session_id.as_str());
            put_opt_text(&mut b, "target_id", target_id);
            b.put("id", Json::signed(*id));
            put_opt_json(&mut b, "result", result);
            put_opt_json(&mut b, "error", error);
            b.done()
        },
        TraceEvent::CdpEvent { ts_ms, session_id, target_id, method, params } => {
            let mut b = head(ev.kind(), *ts_ms, session_id.as_str());
            put_opt_text(&mut b, "target_id", target_id);
            b.put("method", Json::text(method.as_str()));
            b.put("params", params.copy());
            b.done()
        },
        TraceEvent::Action { ts_ms, session_id, tab_id, tool, args, result } => {
            let mut b = head(ev.kind(), *ts_ms, session_id.as_str());
            b.put("tab_id", Json::text(tab_id.as_str()));
            b.put("tool", Json::text(tool.as_str()));
            b.put("args", args.copy());
            b.put("result", result.copy());
            b.done()
        },
        TraceEvent::Screenshot { ts_ms, session_id, tab_id, after_action, png_path } => {
            let mut b = head(ev.kind(), *ts_ms, session_id.as_str());
            b.put("tab_id", Json::text(tab_id.as_str()));
            b.put("after_action", Json::text(after_action.as_str()));
            b.put("png_path", Json::text(png_path.as_str()));
            b.done()
        },
        TraceEvent::DomSnapshot { ts_ms, session_id, tab_id, snapshot_seq, hash, snapshot_path } => {
            let mut b = head(ev.kind(), *ts_ms, session_id.as_str());
            b.put("tab_id", Json::text(tab_id.as_str()));
            b.put("snapshot_seq", Json::uint(*snapshot_seq));
            b.put("hash", Json::text(hash.as_str()));
            b.put("snapshot_path", Json::text(snapshot_path.as_str()));
            b.done()
        },
    }
}

/// The text under a key.
pub open spec fn text_at(j: JsonView, key: Seq<char>) -> Option<Seq<char>> {
    match j.member(key) {
        Some(v) => v.textual(),
        None => None,
    }
}

/// The unsigned number under a key.
pub open spec fn uint_at(j: JsonView, key: Seq<char>) -> Option<u64> {
    match j.member(key) {
        Some(v) => v.unsigned(),
        None => None,
    }
}

/// The number under a key, where it fits.
pub open spec fn int_at(j: JsonView, key: Seq<char>) -> Option<i64> {
    match j.member(key) {
        Some(JsonView::Number(JsonNumber::PosInt(n))) => if n <= i64::MAX {
            Some(n as i64)
        } else {
            None
        },
        Some(JsonView::Number(JsonNumber::NegInt(n))) => Some(n),
        _ => None,
    }
}

/// The text under a key that may be left out or null. None where something else stands
/// there.
pub open spec fn opt_text_at(j: JsonView, key: Seq<char>) -> Option<Option<Seq<char>>> {
    match j.member(key) {
        None => Some(None),
        Some(JsonView::Null) => Some(None),
        Some(v) => match v.textual() {
            Some(t) => Some(Some(t)),
            None => None,
        },
    }
}

/// The value under a key that may be left out; null counts as left out.
pub open spec fn opt_json_at(j: JsonView, key: Seq<char>) -> Option<JsonView> {
    match j.member(key) {
        Some(JsonView::Null) => None,
        other => other,
    }
}

/// The event that an object stands for: its kind must be known and all its members there.
pub open spec fn read_view(j: JsonView) -> Option<TraceEventView> {
    match (text_at(j, "kind"@), uint_at(j, "ts_ms"@), text_at(j, "session_id"@)) {
        (Some(kind), Some(ts_ms), Some(session_id)) => if kind == "cdp_request"@ {
            match (
                opt_text_at(j, "target_id"@),
                int_at(j, "id"@),
                text_at(j, "method"@),
                j.member("params"@),
            ) {
                (Some(target_id), Some(id), Some(method), Some(params)) => Some(
                    TraceEventView::CdpRequest { ts_ms, session_id, target_id, id, method, params },
                ),
                _ => None,
            }
        } else if kind == "cdp_response"@ {
            match (opt_text_at(j, "target_id"@), int_at(j, "id"@)) {
                (Some(target_id), Some(id)) => Some(
                    TraceEventView::CdpResponse {
                        ts_ms,
                        session_id,
                        target_id,
                        id,
                        result: opt_json_at(j, "result"@),
                        error: opt_json_at(j, "error"@),
                    },
                ),
                _ => None,
            }
        } else if kind == "cdp_event"@ {
            match (opt_text_at(j, "target_id"@), text_at(j, "method"@), j.member("params"@)) {
                (Some(target_id), Some(method), Some(params)) => Some(
                    TraceEventView::CdpEvent { ts_ms, session_id, target_id, method, params },
                ),
                _ => None,
            }
        } else if kind == "action"@ {
            match (
                text_at(j, "tab_id"@),
                text_at(j, "tool"@),
                j.member("args"@),
                j.member("result"@),
            ) {
                (Some(tab_id), Some(tool), Some(args), Some(result)) => Some(
                    TraceEventView::Action { ts_ms, session_id, tab_id, tool, args, result },
                ),
                _ => None,
            }
        } else if kind == "screenshot"@ {
            match (
                text_at(j, "tab_id"@),
                text_at(j, "after_action"@),
                text_at(j, "png_path"@),
            ) {
                (Some(tab_id), Some(after_action), Some(png_path)) => Some(
                    TraceEventView::Screenshot {
                        ts_ms,
                        session_id,
                        tab_id,
                        after_action,
                        png_path,
                    },
                ),
                _ => None,
            }
        } else if kind == "dom_snapshot"@ {
            match (
                text_at(j, "tab_id"@),
                uint_at(j, "snapshot_seq"@),
                text_at(j, "hash"@),
                text_at(j, "snapshot_path"@),
            ) {
                (Some(tab_id), Some(snapshot_seq), Some(hash), Some(snapshot_path)) => Some(
                    TraceEventView::DomSnapshot {
                        ts_ms,
                        session_id,
                        tab_id,
                        snapshot_seq,
                        hash,
                        snapshot_path,
                    },
                ),
                _ => None,
            }
        } else {
            None
        },
        _ => None,
    }
}

fn get_text(j: &Json, key: &str) -> (r: Option<String>)
    ensures
        opt_text(r) == text_at(j@, key@),
{
    match j.get(key) {
        Some(v) => match v.as_text() {
            Some(t) => Some(t.to_owned()),
            None => None,
        },
        None => None,
    }
}

fn get_uint(j: &Json, key: &str) -> (r: Option<u64>)
    ensures
        r == uint_at(j@, key@),
{
    match j.get(key) {
        Some(v) => v.as_u64(),
        None => None,
    }
}

fn get_int(j: &Json, key: &str) -> (r: Option<i64>)
    ensures
        r == int_at(j@, key@),
{
    match j.get(key) {
        Some(Json::Number(JsonNumber::PosInt(n))) => if *n <= 0x7fff_ffff_ffff_ffff {
            Some(*n as i64)
        } else {
            None
        },
        Some(Json::Number(JsonNumber::NegInt(n))) => Some(*n),
        _ => None,
    }
}

fn get_opt_text(j: &Json, key: &str) -> (r: Option<Option<String>>)
    ensures
        match r {
            Some(t) => opt_text_at(j@, key@) == Some(opt_text(t)),
            None => opt_text_at(j@, key@) is None,
        },
{
    match j.get(key) {
        None => Some(None),
        Some(v) => if v.is_null() {
            Some(None)
        } else {
            match v.as_text() {
                Some(t) => Some(Some(t.to_owned())),
                None => None,
            }
        },
    }
}

fn get_opt_json(j: &Json, key: &str) -> (r: Option<Json>)
    ensures
        opt_json(r) == opt_json_at(j@, key@),
{
    match j.get(key) {
        None => None,
        Some(v) => if v.is_null() {
            None
        } else {
            Some(v.copy())
        },
    }
}

fn get_json(j: &Json, key: &str) -> (r: Option<Json>)
    ensures
        opt_json(r) == j@.member(key@),
{
    match j.get(key) {
        None => None,
        Some(v) => Some(v.copy()),
    }
}

/// Reads an event back.
pub fn event_from_json(j: &Json) -> (r: Option<TraceEvent>)
    ensures
        match r {
            Some(ev) => read_view(j@) == Some(ev@),
            None => read_view(j@) is None,
        },
{
    let (kind, ts_ms, session_id) = match (
        get_text(j, "kind"),
        get_uint(j, "ts_ms"),
        get_text(j, "session_id"),
    ) {
        (Some(kind), Some(ts_ms), Some(session_id)) => (kind, ts_ms, session_id),
        _ => {
            return None;
        },
    };
    if same_text(kind.as_str(), "cdp_request") {
        match (
            get_opt_text(j, "target_id"),
            get_int(j, "id"),
            get_text(j, "method"),
            get_json(j, "params"),
        ) {
            (Some(target_id), Some(id), Some(method), Some(params)) => Some(
                TraceEvent::CdpRequest { ts_ms, session_id, target_id, id, method, params },
            ),
            _ => None,
        }
    } else if same_text(kind.as_str(), "cdp_response") {
        match (get_opt_text(j, "target_id"), get_int(j, "id")) {
            (Some(target_id), Some(id)) => Some(
                TraceEvent::CdpResponse {
                    ts_ms,
                    session_id,
                    target_id,
                    id,
                    result: get_opt_json(j, "result"),
                    error: get_opt_json(j, "error"),
                },
            ),
            _ => None,
        }
    } else if same_text(kind.as_str(), "cdp_event") {
        match (get_opt_text(j, "target_id"), get_text(j, "method"), get_json(j, "params")) {
            (Some(target_id), Some(method), Some(params)) => Some(
                TraceEvent::CdpEvent { ts_ms, session_id, target_id, method, params },
            ),
            _ => None,
        }
    } else if same_text(kind.as_str(), "action") {
        match (
            get_text(j, "tab_id"),
            get_text(j, "tool"),
            get_json(j, "args"),
            get_json(j, "result"),
        ) {
            (Some(tab_id), Some(tool), Some(args), Some(result)) => Some(
                TraceEvent::Action { ts_ms, session_id, tab_id, tool, args, result },
            ),
            _ => None,
        }
    } else if same_text(kind.as_str(), "screenshot") {
        match (get_text(j, "tab_id"), get_text(j, "after_action"), get_text(j, "png_path")) {
            (Some(tab_id), Some(after_action), Some(png_path)) => Some(
                TraceEvent::Screenshot { ts_ms, session_id, tab_id, after_action, png_path },
            ),
            _ => None,
        }
    } else if same_text(kind.as_str(), "dom_snapshot") {
        match (
            get_text(j, "tab_id"),
            get_uint(j, "snapshot_seq"),
            get_text(j, "hash"),
            get_text(j, "snapshot_path"),
        ) {
            (Some(tab_id), Some(snapshot_seq), Some(hash), Some(snapshot_path)) => Some(
                TraceEvent::DomSnapshot {
                    ts_ms,
                    session_id,
                    tab_id,
                    snapshot_seq,
                    hash,
                    snapshot_path,
                },
            ),
            _ => None,
        }
    } else {
        None
    }
}

proof fn lemma_member_pushed(m: Members, key: Seq<char>, v: JsonView, k: Seq<char>)
    ensures
        member_of(m.push((key, v)), k) == (match member_of(m, k) {
            Some(x) => Some(x),
            None => if k == key {
                Some(v)
            } else {
                None
            },
        }),
    decreases m.len(),
{
    let n = m.push((key, v));
    if m.len() > 0 {
        lemma_member_pushed(m.drop_first(), key, v, k);
        assert(n.drop_first() =~= m.drop_first().push((key, v)));
        assert(n[0] == m[0]);
    } else {
        assert(n.drop_first() =~= m);
    }
}

proof fn lemma_pushed(m: Members, key: Seq<char>, v: JsonView)
    ensures
        forall|k: Seq<char>| #[trigger]
            member_of(m.push((key, v)), k) == (match member_of(m, k) {
                Some(x) => Some(x),
                None => if k == key {
                    Some(v)
                } else {
                    None
                },
            }),
{
    assert forall|k: Seq<char>| #[trigger]
        member_of(m.push((key, v)), k) == (match member_of(m, k) {
            Some(x) => Some(x),
            None => if k == key {
                Some(v)
            } else {
                None
            },
        }) by {
        lemma_member_pushed(m, key, v, k);
    }
}

proof fn lemma_opt_text(m: Members, key: Seq<char>, v: Option<Seq<char>>)
    ensures
        forall|k: Seq<char>| #[trigger]
            member_of(with_opt_text(m, key, v), k) == (match member_of(m, k) {
                Some(x) => Some(x),
                None => match v {
                    Some(t) => if k == key {
                        Some(JsonView::String(t))
                    } else {
                        None
                    },
                    None => None,
                },
            }),
{
    match v {
        Some(t) => lemma_pushed(m, key, JsonView::String(t)),
        None => {},
    }
}

proof fn lemma_opt_json(m: Members, key: Seq<char>, v: Option<JsonView>)
    ensures
        forall|k: Seq<char>| #[trigger]
            member_of(with_opt_json(m, key, v), k) == (match member_of(m, k) {
                Some(x) => Some(x),
                None => if k == key {
                    v
                } else {
                    None
                },
            }),
{
    match v {
        Some(j) => lemma_pushed(m, key, j),
        None => {},
    }
}

proof fn lemma_head(kind: Seq<char>, ts_ms: u64, session_id: Seq<char>)
    ensures
        forall|k: Seq<char>| #[trigger]
            member_of(wire_head(kind, ts_ms, session_id), k) == (if k == "kind"@ {
                Some(JsonView::String(kind))
            } else if k == "ts_ms"@ {
                Some(JsonView::Number(JsonNumber::PosInt(ts_ms)))
            } else if k == "session_id"@ {
                Some(JsonView::String(session_id))
            } else {
                None
            }),
{
    let a: Members = Seq::empty();
    let b = with_text(a, "kind"@, kind);
    let c = with_uint(b, "ts_ms"@, ts_ms);
    lemma_pushed(a, "kind"@, JsonView::String(kind));
    lemma_pushed(b, "ts_ms"@, JsonView::Number(JsonNumber::PosInt(ts_ms)));
    lemma_pushed(c, "session_id"@, JsonView::String(session_id));
    assert forall|k: Seq<char>| #[trigger]
        member_of(wire_head(kind, ts_ms, session_id), k) == (if k == "kind"@ {
            Some(JsonView::String(kind))
        } else if k == "ts_ms"@ {
            Some(JsonView::Number(JsonNumber::PosInt(ts_ms)))
        } else if k == "session_id"@ {
            Some(JsonView::String(session_id))
        } else {
            None
        }) by {
        assert(member_of(a, k) is None);
        assert(member_of(c, k) == member_of(b.push(("ts_ms"@, JsonView::Number(JsonNumber::PosInt(ts_ms)))), k));
        assert(member_of(b, k) == member_of(a.push(("kind"@, JsonView::String(kind))), k));
        assert(member_of(c.push(("session_id"@, JsonView::String(session_id))), k) == member_of(
            wire_head(kind, ts_ms, session_id),
            k,
        ));
        lemma_keys_differ();
    }
}

/// The keys and kinds differ from each other.
proof fn lemma_keys_differ()
    ensures
        "kind"@.len() == 4,
        "ts_ms"@.len() == 5,
        "session_id"@.len() == 10,
        "target_id"@.len() == 9,
        "id"@.len() == 2,
        "method"@.len() == 6,
        "params"@.len() == 6,
        "method"@ != "params"@,
        "result"@.len() == 6,
        "error"@.len() == 5,
        "error"@ != "ts_ms"@,
        "tab_id"@.len() == 6,
        "tool"@.len() == 4,
        "tool"@ != "kind"@,
        "args"@.len() == 4,
        "args"@ != "kind"@,
        "args"@ != "tool"@,
        "result"@ != "tab_id"@,
        "after_action"@.len() == 12,
        "png_path"@.len() == 8,
        "snapshot_seq"@.len() == 12,
        "hash"@.len() == 4,
        "hash"@ != "kind"@,
        "snapshot_path"@.len() == 13,
        "cdp_request"@.len() == 11,
        "cdp_response"@.len() == 12,
        "cdp_event"@.len() == 9,
        "action"@.len() == 6,
        "screenshot"@.len() == 10,
        "dom_snapshot"@.len() == 12,
        "cdp_response"@ != "dom_snapshot"@,
{
    reveal_strlit("kind");
    reveal_strlit("ts_ms");
    reveal_strlit("session_id");
    reveal_strlit("target_id");
    reveal_strlit("id");
    reveal_strlit("method");
    reveal_strlit("params");
    reveal_strlit("result");
    reveal_strlit("error");
    reveal_strlit("tab_id");
    reveal_strlit("tool");
    reveal_strlit("args");
    reveal_strlit("after_action");
    reveal_strlit("png_path");
    reveal_strlit("snapshot_seq");
    reveal_strlit("hash");
    reveal_strlit("snapshot_path");
    reveal_strlit("cdp_request");
    reveal_strlit("cdp_response");
    reveal_strlit("cdp_event");
    reveal_strlit("action");
    reveal_strlit("screenshot");
    reveal_strlit("dom_snapshot");
    assert("method"@[0] != "params"@[0]);
    assert("error"@[0] != "ts_ms"@[0]);
    assert("tool"@[0] != "kind"@[0]);
    assert("args"@[0] != "kind"@[0]);
    assert("args"@[0] != "tool"@[0]);
    assert("result"@[0] != "tab_id"@[0]);
    assert("hash"@[0] != "kind"@[0]);
    assert("cdp_response"@[0] != "dom_snapshot"@[0]);
}

/// What was written is read back, field for field. A reply that carries an explicit null as
/// its result or its error is the exception: on disk that reads like none.
pub proof fn wire_round_trip(ev: TraceEventView)
    requires
        ev matches TraceEventView::CdpResponse { result, error, .. } ==> result != Some(
            JsonView::Null,
        ) && error != Some(JsonView::Null),
    ensures
        read_view(JsonView::Object(wire_members(ev))) == Some(ev),
{
    lemma_keys_differ();
    let j = JsonView::Object(wire_members(ev));
    match ev {
        TraceEventView::CdpRequest { ts_ms, session_id, target_id, id, method, params } => {
            lemma_head("cdp_request"@, ts_ms, session_id);
            let a = wire_head("cdp_request"@, ts_ms, session_id);
            lemma_opt_text(a, "target_id"@, target_id);
            let b = with_opt_text(a, "target_id"@, target_id);
            lemma_pushed(b, "id"@, JsonView::Number(int_number(id)));
            let c = with_int(b, "id"@, id);
            lemma_pushed(c, "method"@, JsonView::String(method));
            let d = with_text(c, "method"@, method);
            lemma_pushed(d, "params"@, params);
            assert(wire_members(ev) == d.push(("params"@, params)));
            assert(j.member("kind"@) == Some(JsonView::String("cdp_request"@)));
            assert(j.member("id"@) == Some(JsonView::Number(int_number(id))));
            assert(j.member("method"@) == Some(JsonView::String(method)));
            assert(j.member("params"@) == Some(params));
        },
        TraceEventView::CdpResponse { ts_ms, session_id, target_id, id, result, error } => {
            lemma_head("cdp_response"@, ts_ms, session_id);
            let a = wire_head("cdp_response"@, ts_ms, session_id);
            lemma_opt_text(a, "target_id"@, target_id);
            let b = with_opt_text(a, "target_id"@, target_id);
            lemma_pushed(b, "id"@, JsonView::Number(int_number(id)));
            let c = with_int(b, "id"@, id);
            lemma_opt_json(c, "result"@, result);
            let d = with_opt_json(c, "result"@, result);
            lemma_opt_json(d, "error"@, error);
            assert(wire_members(ev) == with_opt_json(d, "error"@, error));
            assert(j.member("id"@) == Some(JsonView::Number(int_number(id))));
            assert(j.member("result"@) == result);
            assert(j.member("error"@) == error);
        },
        TraceEventView::CdpEvent { ts_ms, session_id, target_id, method, params } => {
            lemma_head("cdp_event"@, ts_ms, session_id);
            let a = wire_head("cdp_event"@, ts_ms, session_id);
            lemma_opt_text(a, "target_id"@, target_id);
            let b = with_opt_text(a, "target_id"@, target_id);
            lemma_pushed(b, "method"@, JsonView::String(method));
            let c = with_text(b, "method"@, method);
            lemma_pushed(c, "params"@, params);
            assert(wire_members(ev) == c.push(("params"@, params)));
            assert(j.member("method"@) == Some(JsonView::String(method)));
            assert(j.member("params"@) == Some(params));
        },
        TraceEventView::Action { ts_ms, session_id, tab_id, tool, args, result } => {
            lemma_head("action"@, ts_ms, session_id);
            let a = wire_head("action"@, ts_ms, session_id);
            lemma_pushed(a, "tab_id"@, JsonView::String(tab_id));
            let b = with_text(a, "tab_id"@, tab_id);
            lemma_pushed(b, "tool"@, JsonView::String(tool));
            let c = with_text(b, "tool"@, tool);
            lemma_pushed(c, "args"@, args);
            let d = c.push(("args"@, args));
            lemma_pushed(d, "result"@, result);
            assert(wire_members(ev) == d.push(("result"@, result)));
            assert(j.member("tab_id"@) == Some(JsonView::String(tab_id)));
            assert(j.member("tool"@) == Some(JsonView::String(tool)));
            assert(j.member("args"@) == Some(args));
            assert(j.member("result"@) == Some(result));
        },
        TraceEventView::Screenshot { ts_ms, session_id, tab_id, after_action, png_path } => {
            lemma_head("screenshot"@, ts_ms, session_id);
            let a = wire_head("screenshot"@, ts_ms, session_id);
            lemma_pushed(a, "tab_id"@, JsonView::String(tab_id));
            let b = with_text(a, "tab_id"@, tab_id);
            lemma_pushed(b, "after_action"@, JsonView::String(after_action));
            let c = with_text(b, "after_action"@, after_action);
            lemma_pushed(c, "png_path"@, JsonView::String(png_path));
            assert(wire_members(ev) == with_text(c, "png_path"@, png_path));
            assert(j.member("tab_id"@) == Some(JsonView::String(tab_id)));
            assert(j.member("after_action"@) == Some(JsonView::String(after_action)));
            assert(j.member("png_path"@) == Some(JsonView::String(png_path)));
        },
        TraceEventView::DomSnapshot {
            ts_ms,
            session_id,
            tab_id,
            snapshot_seq,
            hash,
            snapshot_path,
        } => {
            lemma_head("dom_snapshot"@, ts_ms, session_id);
            let a = wire_head("dom_snapshot"@, ts_ms, session_id);
            lemma_pushed(a, "tab_id"@, JsonView::String(tab_id));
            let b = with_text(a, "tab_id"@, tab_id);
            lemma_pushed(b, "snapshot_seq"@, JsonView::Number(JsonNumber::PosInt(snapshot_seq)));
            let c = with_uint(b, "snapshot_seq"@, snapshot_seq);
            lemma_pushed(c, "hash"@, JsonView::String(hash));
            let d = with_text(c, "hash"@, hash);
            lemma_pushed(d, "snapshot_path"@, JsonView::String(snapshot_path));
            assert(wire_members(ev) == with_text(d, "snapshot_path"@, snapshot_path));
            assert(j.member("tab_id"@) == Some(JsonView::String(tab_id)));
            assert(j.member("snapshot_seq"@) == Some(
                JsonView::Number(JsonNumber::PosInt(snapshot_seq)),
            ));
            assert(j.member("hash"@) == Some(JsonView::String(hash)));
            assert(j.member("snapshot_path"@) == Some(JsonView::String(snapshot_path)));
        },
    }
}

} // verus!
