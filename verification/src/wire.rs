//! The JSON form of what is reported: counters, snapshots and native elements.
use vstd::prelude::*;

use crate::broker_client::{opt_text, texts};
use crate::cdp::{CdpMethodSnapshot, CdpMethodsSnapshot};
use crate::json::{
    array_of, array_of_texts, double_view, texts_view, Json, JsonNumber, JsonView, ObjectBuilder,
};
use crate::latency::LatencySnapshot;
use crate::metrics::{
    FetchSnapshot, HistogramSnapshot, MutationSnapshot, PerfSnapshot, SessionSnapshot,
};
use crate::trace_wire::{
    put_opt_text, with_int, with_opt_text, with_text, with_uint, Members,
};
use crate::types::{
    topic_name, AppElement, AppHandle, AppSnapshot, AxEvent, AxEventTopic, AxSubscription, BBox,
    ClipboardItem, ClipboardKind, DockItem, ElementState, MenuItem, SpaceInfo, WindowHandle,
};

verus! {

pub open spec fn opt_str(s: Option<&'static str>) -> Option<Seq<char>> {
    match s {
        Some(t) => Some(t@),
        None => None,
    }
}

/// A truth value that is left out where there is none.
pub open spec fn with_opt_bool(m: Members, key: Seq<char>, v: Option<bool>) -> Members {
    match v {
        Some(b) => m.push((key, JsonView::Bool(b))),
        None => m,
    }
}

/// A text that is left out where it is empty.
pub open spec fn with_filled_text(m: Members, key: Seq<char>, v: Seq<char>) -> Members {
    if v.len() == 0 {
        m
    } else {
        with_text(m, key, v)
    }
}

/// A list that is left out where it is empty.
pub open spec fn with_filled_texts(m: Members, key: Seq<char>, v: Seq<Seq<char>>) -> Members {
    if v.len() == 0 {
        m
    } else {
        m.push((key, texts_view(v)))
    }
}

fn put_opt_str(b: &mut ObjectBuilder, key: &str, v: Option<&'static str>)
    ensures
        final(b)@ == with_opt_text(old(b)@, key@, opt_str(v)),
{
    match v {
        Some(t) => {
            b.put(key, Json::text(t));
        },
        None => {},
    }
}

fn put_opt_bool(b: &mut ObjectBuilder, key: &str, v: Option<bool>)
    ensures
        final(b)@ == with_opt_bool(old(b)@, key@, v),
{
    match v {
        Some(t) => {
            b.put(key, Json::Bool(t));
        },
        None => {},
    }
}

fn put_filled_text(b: &mut ObjectBuilder, key: &str, v: &String)
    ensures
        final(b)@ == with_filled_text(old(b)@, key@, v@),
{
    if !v.as_str().is_empty() {
        b.put(key, Json::text(v.as_str()));
    }
}

fn put_filled_texts(b: &mut ObjectBuilder, key: &str, v: &Vec<String>)
    ensures
        final(b)@ == with_filled_texts(old(b)@, key@, texts(v@)),
{
    if v.len() > 0 {
        b.put(key, array_of_texts(v));
    }
}

/// The name of a clipboard kind.
pub open spec fn clipboard_kind_name(k: ClipboardKind) -> Seq<char> {
    match k {
        ClipboardKind::String => "string"@,
        ClipboardKind::Files => "files"@,
        ClipboardKind::Image => "image"@,
        ClipboardKind::Other => "other"@,
    }
}

pub fn clipboard_kind_text(k: ClipboardKind) -> (s: &'static str)
    ensures
        s@ == clipboard_kind_name(k),
{
    match k {
        ClipboardKind::String => "string",
        ClipboardKind::Files => "files",
        ClipboardKind::Image => "image",
        ClipboardKind::Other => "other",
    }
}

/// The names of topics.
pub open spec fn topics_view(v: Seq<AxEventTopic>) -> JsonView {
    JsonView::Array(v.map_values(|t: AxEventTopic| JsonView::String(topic_name(t))))
}

fn topics_json(v: &Vec<AxEventTopic>) -> (j: Json)
    ensures
        j@ == topics_view(v@),
{
    let mut items: Vec<Json> = Vec::new();
    let mut i: usize = 0;
    while i < v.len()
        invariant
            i <= v@.len(),
            items@.len() == i,
            forall|k: int|
                0 <= k < i ==> (#[trigger] items@[k])@ == JsonView::String(topic_name(v@[k])),
        decreases v@.len() - i,
    {
        items.push(Json::text(v[i].as_str()));
        i += 1;
    }
    let j = array_of(items);
    assert(j@->Array_0 =~= topics_view(v@)->Array_0);
    j
}

/// The buckets of a histogram.
pub open spec fn buckets_view(v: Seq<u64>) -> JsonView {
    JsonView::Array(v.map_values(|n: u64| JsonView::Number(JsonNumber::PosInt(n))))
}

fn buckets_json(v: &[u64; 64]) -> (j: Json)
    ensures
        j@ == buckets_view(v@),
{
    let mut items: Vec<Json> = Vec::new();
    let mut i: usize = 0;
    while i < 64
        invariant
            i <= 64,
            items@.len() == i,
            forall|k: int|
                0 <= k < i ==> (#[trigger] items@[k])@ == JsonView::Number(
                    JsonNumber::PosInt(v@[k]),
                ),
        decreases 64 - i,
    {
        items.push(Json::uint(v[i]));
        i += 1;
    }
    let j = array_of(items);
    assert(j@->Array_0 =~= buckets_view(v@)->Array_0);
    j
}

/// The elements of a snapshot.
pub open spec fn elements_view(v: Seq<AppElement>) -> JsonView {
    JsonView::Array(v.map_values(|e: AppElement| app_element_view(e)))
}

fn elements_json(v: &Vec<AppElement>) -> (j: Json)
    ensures
        j@ == elements_view(v@),
{
    let mut items: Vec<Json> = Vec::new();
    let mut i: usize = 0;
    while i < v.len()
        invariant
            i <= v@.len(),
            items@.len() == i,
            forall|k: int| 0 <= k < i ==> (#[trigger] items@[k])@ == app_element_view(v@[k]),
        decreases v@.len() - i,
    {
        items.push(app_element_json(&v[i]));
        i += 1;
    }
    let j = array_of(items);
    assert(j@->Array_0 =~= elements_view(v@)->Array_0);
    j
}

/// The counters of all methods, in the order of their names.
pub open spec fn cdp_methods_view(v: CdpMethodsSnapshot) -> JsonView {
    JsonView::Object(
        seq![
            (
                "methods"@,
                JsonView::Object(
                    v.methods.keys().map_values(
                        |k: Seq<char>| (k, cdp_method_snapshot_view(v.methods@[k])),
                    ),
                ),
            ),
        ],
    )
}

/// Writes the counters of all methods.
pub fn cdp_methods_json(v: &CdpMethodsSnapshot) -> (j: Json)
    requires
        v.methods.wf(),
    ensures
        j@ == cdp_methods_view(*v),
{
    let mut methods = ObjectBuilder::new();
    let ghost want = v.methods.keys().map_values(
        |k: Seq<char>| (k, cdp_method_snapshot_view(v.methods@[k])),
    );
    let mut i: usize = 0;
    assert(methods@ =~= want.take(0));
    while i < v.methods.len()
        invariant
            v.methods.wf(),
            i <= v.methods.keys().len(),
            want == v.methods.keys().map_values(
                |k: Seq<char>| (k, cdp_method_snapshot_view(v.methods@[k])),
            ),
            methods@ == want.take(i as int),
        decreases v.methods.keys().len() - i,
    {
        let (name, m) = v.methods.at(i);
        methods.put(name, cdp_method_snapshot_json(m));
        i += 1;
        assert(methods@ =~= want.take(i as int));
    }
    assert(want.take(want.len() as int) =~= want);
    let mut b = ObjectBuilder::new();
    b.put("methods", methods.done());
    assert(b@ =~= cdp_methods_view(*v)->Object_0);
    b.done()
}

/// The object for a latency snapshot.
pub open spec fn latency_snapshot_view(v: LatencySnapshot) -> JsonView {
    let m0: Members = Seq::empty();
    let m1 = with_uint(m0, "p50_us"@, v.p50_us);
    let m2 = with_uint(m1, "p95_us"@, v.p95_us);
    let m3 = with_uint(m2, "p99_us"@, v.p99_us);
    let m4 = with_uint(m3, "max_us"@, v.max_us);
    let m5 = with_uint(m4, "count"@, v.count);
    JsonView::Object(m5)
}

/// Writes a latency snapshot.
pub fn latency_snapshot_json(v: &LatencySnapshot) -> (j: Json)
    ensures
        j@ == latency_snapshot_view(*v),
{
    let mut b = ObjectBuilder::new();
    b.put("p50_us", Json::uint(v.p50_us));
    b.put("p95_us", Json::uint(v.p95_us));
    b.put("p99_us", Json::uint(v.p99_us));
    b.put("max_us", Json::uint(v.max_us));
    b.put("count", Json::uint(v.count));
    b.done()
}

/// The object for the counters of a method.
pub open spec fn cdp_method_snapshot_view(v: CdpMethodSnapshot) -> JsonView {
    let m0: Members = Seq::empty();
    let m1 = m0.push(("latency"@, latency_snapshot_view(v.latency)));
    let m2 = with_uint(m1, "ok"@, v.ok);
    let m3 = with_uint(m2, "protocol_error"@, v.protocol_error);
    let m4 = with_uint(m3, "transport_error"@, v.transport_error);
    let m5 = with_uint(m4, "internal_error"@, v.internal_error);
    let m6 = with_uint(m5, "retries"@, v.retries);
    JsonView::Object(m6)
}

/// Writes the counters of a method.
pub fn cdp_method_snapshot_json(v: &CdpMethodSnapshot) -> (j: Json)
    ensures
        j@ == cdp_method_snapshot_view(*v),
{
    let mut b = ObjectBuilder::new();
    b.put("latency", latency_snapshot_json(&v.latency));
    b.put("ok", Json::uint(v.ok));
    b.put("protocol_error", Json::uint(v.protocol_error));
    b.put("transport_error", Json::uint(v.transport_error));
    b.put("internal_error", Json::uint(v.internal_error));
    b.put("retries", Json::uint(v.retries));
    b.done()
}

/// The object for a histogram.
pub open spec fn histogram_snapshot_view(v: HistogramSnapshot) -> JsonView {
    let m0: Members = Seq::empty();
    let m1 = m0.push(("buckets"@, buckets_view(v.buckets@)));
    let m2 = with_uint(m1, "count"@, v.count);
    let m3 = with_uint(m2, "sum"@, v.sum);
    let m4 = with_uint(m3, "max"@, v.max);
    JsonView::Object(m4)
}

/// Writes a histogram.
pub fn histogram_snapshot_json(v: &HistogramSnapshot) -> (j: Json)
    ensures
        j@ == histogram_snapshot_view(*v),
{
    let mut b = ObjectBuilder::new();
    b.put("buckets", buckets_json(&v.buckets));
    b.put("count", Json::uint(v.count));
    b.put("sum", Json::uint(v.sum));
    b.put("max", Json::uint(v.max));
    b.done()
}

/// The object for the download counters.
pub open spec fn fetch_snapshot_view(v: FetchSnapshot) -> JsonView {
    let m0: Members = Seq::empty();
    let m1 = with_uint(m0, "attempts"@, v.attempts);
    let m2 = with_uint(m1, "retries"@, v.retries);
    let m3 = with_uint(m2, "stalls"@, v.stalls);
    let m4 = with_uint(m3, "range_416"@, v.range_416);
    let m5 = with_uint(m4, "download_starts"@, v.download_starts);
    let m6 = with_uint(m5, "download_completions"@, v.download_completions);
    let m7 = with_uint(m6, "download_failures"@, v.download_failures);
    let m8 = with_uint(m7, "bytes_written"@, v.bytes_written);
    let m9 = m8.push(("download_ms"@, histogram_snapshot_view(v.download_ms)));
    let m10 = m9.push(("bytes_per_attempt"@, histogram_snapshot_view(v.bytes_per_attempt)));
    JsonView::Object(m10)
}

/// Writes the download counters.
pub fn fetch_snapshot_json(v: &FetchSnapshot) -> (j: Json)
    ensures
        j@ == fetch_snapshot_view(*v),
{
    let mut b = ObjectBuilder::new();
    b.put("attempts", Json::uint(v.attempts));
    b.put("retries", Json::uint(v.retries));
    b.put("stalls", Json::uint(v.stalls));
    b.put("range_416", Json::uint(v.range_416));
    b.put("download_starts", Json::uint(v.download_starts));
    b.put("download_completions", Json::uint(v.download_completions));
    b.put("download_failures", Json::uint(v.download_failures));
    b.put("bytes_written", Json::uint(v.bytes_written));
    b.put("download_ms", histogram_snapshot_json(&v.download_ms));
    b.put("bytes_per_attempt", histogram_snapshot_json(&v.bytes_per_attempt));
    b.done()
}

/// The object for the performance counters.
pub open spec fn perf_snapshot_view(v: PerfSnapshot) -> JsonView {
    let m0: Members = Seq::empty();
    let m1 = m0.push(("pdf_ms"@, histogram_snapshot_view(v.pdf_ms)));
    let m2 = m1.push(("pdf_bytes"@, histogram_snapshot_view(v.pdf_bytes)));
    let m3 = m2.push(("print_preview_ms"@, histogram_snapshot_view(v.print_preview_ms)));
    let m4 = m3.push(("heap_snapshot_ms"@, histogram_snapshot_view(v.heap_snapshot_ms)));
    let m5 = m4.push(("heap_snapshot_bytes"@, histogram_snapshot_view(v.heap_snapshot_bytes)));
    let m6 = m5.push(("trace_ms"@, histogram_snapshot_view(v.trace_ms)));
    let m7 = m6.push(("trace_bytes"@, histogram_snapshot_view(v.trace_bytes)));
    let m8 = m7.push(("cpu_profile_ms"@, histogram_snapshot_view(v.cpu_profile_ms)));
    let m9 = m8.push(("heap_sample_ms"@, histogram_snapshot_view(v.heap_sample_ms)));
    let m10 = m9.push(("coverage_take_ms"@, histogram_snapshot_view(v.coverage_take_ms)));
    let m11 = with_uint(m10, "pdf_count"@, v.pdf_count);
    let m12 = with_uint(m11, "heap_snapshot_count"@, v.heap_snapshot_count);
    let m13 = with_uint(m12, "trace_count"@, v.trace_count);
    let m14 = with_uint(m13, "perf_failure_count"@, v.perf_failure_count);
    JsonView::Object(m14)
}

/// Writes the performance counters.
pub fn perf_snapshot_json(v: &PerfSnapshot) -> (j: Json)
    ensures
        j@ == perf_snapshot_view(*v),
{
    let mut b = ObjectBuilder::new();
    b.put("pdf_ms", histogram_snapshot_json(&v.pdf_ms));
    b.put("pdf_bytes", histogram_snapshot_json(&v.pdf_bytes));
    b.put("print_preview_ms", histogram_snapshot_json(&v.print_preview_ms));
    b.put("heap_snapshot_ms", histogram_snapshot_json(&v.heap_snapshot_ms));
    b.put("heap_snapshot_bytes", histogram_snapshot_json(&v.heap_snapshot_bytes));
    b.put("trace_ms", histogram_snapshot_json(&v.trace_ms));
    b.put("trace_bytes", histogram_snapshot_json(&v.trace_bytes));
    b.put("cpu_profile_ms", histogram_snapshot_json(&v.cpu_profile_ms));
    b.put("heap_sample_ms", histogram_snapshot_json(&v.heap_sample_ms));
    b.put("coverage_take_ms", histogram_snapshot_json(&v.coverage_take_ms));
    b.put("pdf_count", Json::uint(v.pdf_count));
    b.put("heap_snapshot_count", Json::uint(v.heap_snapshot_count));
    b.put("trace_count", Json::uint(v.trace_count));
    b.put("perf_failure_count", Json::uint(v.perf_failure_count));
    b.done()
}

/// The object for the mutation counters.
pub open spec fn mutation_snapshot_view(v: MutationSnapshot) -> JsonView {
    let m0: Members = Seq::empty();
    let m1 = with_uint(m0, "drain_failures"@, v.drain_failures);
    let m2 = with_uint(m1, "drain_overflows"@, v.drain_overflows);
    let m3 = with_uint(m2, "anchor_invalidations"@, v.anchor_invalidations);
    JsonView::Object(m3)
}

/// Writes the mutation counters.
pub fn mutation_snapshot_json(v: &MutationSnapshot) -> (j: Json)
    ensures
        j@ == mutation_snapshot_view(*v),
{
    let mut b = ObjectBuilder::new();
    b.put("drain_failures", Json::uint(v.drain_failures));
    b.put("drain_overflows", Json::uint(v.drain_overflows));
    b.put("anchor_invalidations", Json::uint(v.anchor_invalidations));
    b.done()
}

/// The object for the counters of a session.
pub open spec fn session_snapshot_view(v: SessionSnapshot) -> JsonView {
    let m0: Members = Seq::empty();
    let m1 = with_text(m0, "session_id"@, v.session_id@);
    let m2 = with_uint(m1, "tab_count"@, v.tab_count as u64);
    let m3 = with_uint(m2, "request_count"@, v.request_count);
    let m4 = with_uint(m3, "error_count"@, v.error_count);
    let m5 = with_int(m4, "last_activity_ms"@, v.last_activity_ms);
    let m6 = with_uint(m5, "recovery_count"@, v.recovery_count);
    let m7 = with_uint(m6, "recovery_failed_count"@, v.recovery_failed_count);
    let m8 = with_uint(m7, "outbound_drop_count"@, v.outbound_drop_count);
    let m9 = with_uint(m8, "filevault_state"@, v.filevault_state);
    JsonView::Object(m9)
}

/// Writes the counters of a session.
pub fn session_snapshot_json(v: &SessionSnapshot) -> (j: Json)
    ensures
        j@ == session_snapshot_view(*v),
{
    let mut b = ObjectBuilder::new();
    b.put("session_id", Json::text(v.session_id.as_str()));
    b.put("tab_count", Json::uint(v.tab_count as u64));
    b.put("request_count", Json::uint(v.request_count));
    b.put("error_count", Json::uint(v.error_count));
    b.put("last_activity_ms", Json::signed(v.last_activity_ms));
    b.put("recovery_count", Json::uint(v.recovery_count));
    b.put("recovery_failed_count", Json::uint(v.recovery_failed_count));
    b.put("outbound_drop_count", Json::uint(v.outbound_drop_count));
    b.put("filevault_state", Json::uint(v.filevault_state));
    b.done()
}

/// The object for a running application.
pub open spec fn app_handle_view(v: AppHandle) -> JsonView {
    let m0: Members = Seq::empty();
    let m1 = with_text(m0, "bundle_id"@, v.bundle_id@);
    let m2 = with_int(m1, "pid"@, v.pid as i64);
    let m3 = with_text(m2, "name"@, v.name@);
    let m4 = m3.push(("has_focus"@, JsonView::Bool(v.has_focus)));
    JsonView::Object(m4)
}

/// Writes a running application.
pub fn app_handle_json(v: &AppHandle) -> (j: Json)
    ensures
        j@ == app_handle_view(*v),
{
    let mut b = ObjectBuilder::new();
    b.put("bundle_id", Json::text(v.bundle_id.as_str()));
    b.put("pid", Json::signed(v.pid as i64));
    b.put("name", Json::text(v.name.as_str()));
    b.put("has_focus", Json::Bool(v.has_focus));
    b.done()
}

/// The object for a box.
pub open spec fn bbox_view(v: BBox) -> JsonView {
    let m0: Members = Seq::empty();
    let m1 = m0.push(("x"@, double_view(v.x)));
    let m2 = m1.push(("y"@, double_view(v.y)));
    let m3 = m2.push(("w"@, double_view(v.w)));
    let m4 = m3.push(("h"@, double_view(v.h)));
    JsonView::Object(m4)
}

/// Writes a box.
pub fn bbox_json(v: &BBox) -> (j: Json)
    ensures
        j@ == bbox_view(*v),
{
    let mut b = ObjectBuilder::new();
    b.put("x", Json::double(v.x));
    b.put("y", Json::double(v.y));
    b.put("w", Json::double(v.w));
    b.put("h", Json::double(v.h));
    b.done()
}

/// The object for the state of an element.
pub open spec fn element_state_view(v: ElementState) -> JsonView {
    let m0: Members = Seq::empty();
    let m1 = with_opt_bool(m0, "checked"@, v.checked);
    let m2 = with_opt_bool(m1, "expanded"@, v.expanded);
    let m3 = with_opt_bool(m2, "pressed"@, v.pressed);
    let m4 = with_opt_bool(m3, "selected"@, v.selected);
    let m5 = m4.push(("disabled"@, JsonView::Bool(v.disabled)));
    JsonView::Object(m5)
}

/// Writes the state of an element.
pub fn element_state_json(v: &ElementState) -> (j: Json)
    ensures
        j@ == element_state_view(*v),
{
    let mut b = ObjectBuilder::new();
    put_opt_bool(&mut b, "checked", v.checked);
    put_opt_bool(&mut b, "expanded", v.expanded);
    put_opt_bool(&mut b, "pressed", v.pressed);
    put_opt_bool(&mut b, "selected", v.selected);
    b.put("disabled", Json::Bool(v.disabled));
    b.done()
}

/// The object for an element; its path is kept back.
pub open spec fn app_element_view(v: AppElement) -> JsonView {
    let m0: Members = Seq::empty();
    let m1 = with_uint(m0, "index"@, v.index as u64);
    let m2 = with_text(m1, "ref"@, v.element_ref@);
    let m3 = with_text(m2, "role"@, v.role@);
    let m4 = with_text(m3, "name"@, v.name@);
    let m5 = with_opt_text(m4, "value"@, opt_text(v.value));
    let m6 = with_opt_text(m5, "description"@, opt_text(v.description));
    let m7 = m6.push(("state"@, element_state_view(v.state)));
    let m8 = m7.push(("bbox"@, bbox_view(v.bbox)));
    let m9 = m8.push(("interactable"@, JsonView::Bool(v.interactable)));
    let m10 = with_text(m9, "app_id"@, v.app_id@);
    let m11 = with_text(m10, "stable_id"@, v.stable_id@);
    JsonView::Object(m11)
}

/// Writes an element; its path is kept back.
pub fn app_element_json(v: &AppElement) -> (j: Json)
    ensures
        j@ == app_element_view(*v),
{
    let mut b = ObjectBuilder::new();
    b.put("index", Json::uint(v.index as u64));
    b.put("ref", Json::text(v.element_ref.as_str()));
    b.put("role", Json::text(v.role.as_str()));
    b.put("name", Json::text(v.name.as_str()));
    put_opt_text(&mut b, "value", &v.value);
    put_opt_text(&mut b, "description", &v.description);
    b.put("state", element_state_json(&v.state));
    b.put("bbox", bbox_json(&v.bbox));
    b.put("interactable", Json::Bool(v.interactable));
    b.put("app_id", Json::text(v.app_id.as_str()));
    b.put("stable_id", Json::text(v.stable_id.as_str()));
    b.done()
}

/// The object for a snapshot.
pub open spec fn app_snapshot_view(v: AppSnapshot) -> JsonView {
    let m0: Members = Seq::empty();
    let m1 = with_uint(m0, "snapshot_seq"@, v.snapshot_seq);
    let m2 = with_text(m1, "app_id"@, v.app_id@);
    let m3 = with_text(m2, "bundle_id"@, v.bundle_id@);
    let m4 = with_int(m3, "pid"@, v.pid as i64);
    let m5 = with_text(m4, "title"@, v.title@);
    let m6 = with_opt_text(m5, "focused_ref"@, opt_text(v.focused_ref));
    let m7 = m6.push(("elements"@, elements_view(v.elements@)));
    let m8 = m7.push(("tree"@, v.tree@));
    let m9 = with_opt_text(m8, "truncated_at"@, opt_str(v.truncated_at));
    JsonView::Object(m9)
}

/// Writes a snapshot.
pub fn app_snapshot_json(v: &AppSnapshot) -> (j: Json)
    ensures
        j@ == app_snapshot_view(*v),
{
    let mut b = ObjectBuilder::new();
    b.put("snapshot_seq", Json::uint(v.snapshot_seq));
    b.put("app_id", Json::text(v.app_id.as_str()));
    b.put("bundle_id", Json::text(v.bundle_id.as_str()));
    b.put("pid", Json::signed(v.pid as i64));
    b.put("title", Json::text(v.title.as_str()));
    put_opt_text(&mut b, "focused_ref", &v.focused_ref);
    b.put("elements", elements_json(&v.elements));
    b.put("tree", v.tree.copy());
    put_opt_str(&mut b, "truncated_at", v.truncated_at);
    b.done()
}

/// The object for a menu item.
pub open spec fn menu_item_view(v: MenuItem) -> JsonView {
    let m0: Members = Seq::empty();
    let m1 = m0.push(("path"@, texts_view(texts(v.path@))));
    let m2 = with_text(m1, "display"@, v.display@);
    let m3 = m2.push(("interactable"@, JsonView::Bool(v.interactable)));
    let m4 = m3.push(("disabled"@, JsonView::Bool(v.disabled)));
    let m5 = with_opt_text(m4, "shortcut"@, opt_text(v.shortcut));
    JsonView::Object(m5)
}

/// Writes a menu item.
pub fn menu_item_json(v: &MenuItem) -> (j: Json)
    ensures
        j@ == menu_item_view(*v),
{
    let mut b = ObjectBuilder::new();
    b.put("path", array_of_texts(&v.path));
    b.put("display", Json::text(v.display.as_str()));
    b.put("interactable", Json::Bool(v.interactable));
    b.put("disabled", Json::Bool(v.disabled));
    put_opt_text(&mut b, "shortcut", &v.shortcut);
    b.done()
}

/// The object for a window.
pub open spec fn window_handle_view(v: WindowHandle) -> JsonView {
    let m0: Members = Seq::empty();
    let m1 = with_text(m0, "window_id"@, v.window_id@);
    let m2 = with_text(m1, "bundle_id"@, v.bundle_id@);
    let m3 = with_text(m2, "title"@, v.title@);
    let m4 = m3.push(("bbox"@, bbox_view(v.bbox)));
    let m5 = m4.push(("minimized"@, JsonView::Bool(v.minimized)));
    let m6 = m5.push(("fullscreen"@, JsonView::Bool(v.fullscreen)));
    let m7 = m6.push(("main"@, JsonView::Bool(v.main)));
    JsonView::Object(m7)
}

/// Writes a window.
pub fn window_handle_json(v: &WindowHandle) -> (j: Json)
    ensures
        j@ == window_handle_view(*v),
{
    let mut b = ObjectBuilder::new();
    b.put("window_id", Json::text(v.window_id.as_str()));
    b.put("bundle_id", Json::text(v.bundle_id.as_str()));
    b.put("title", Json::text(v.title.as_str()));
    b.put("bbox", bbox_json(&v.bbox));
    b.put("minimized", Json::Bool(v.minimized));
    b.put("fullscreen", Json::Bool(v.fullscreen));
    b.put("main", Json::Bool(v.main));
    b.done()
}

/// The object for a dock item.
pub open spec fn dock_item_view(v: DockItem) -> JsonView {
    let m0: Members = Seq::empty();
    let m1 = with_text(m0, "dock_id"@, v.dock_id@);
    let m2 = with_text(m1, "label"@, v.label@);
    let m3 = m2.push(("running"@, JsonView::Bool(v.running)));
    let m4 = with_filled_text(m3, "bundle_id"@, v.bundle_id@);
    JsonView::Object(m4)
}

/// Writes a dock item.
pub fn dock_item_json(v: &DockItem) -> (j: Json)
    ensures
        j@ == dock_item_view(*v),
{
    let mut b = ObjectBuilder::new();
    b.put("dock_id", Json::text(v.dock_id.as_str()));
    b.put("label", Json::text(v.label.as_str()));
    b.put("running", Json::Bool(v.running));
    put_filled_text(&mut b, "bundle_id", &v.bundle_id);
    b.done()
}

/// The object for a space.
pub open spec fn space_info_view(v: SpaceInfo) -> JsonView {
    let m0: Members = Seq::empty();
    let m1 = with_uint(m0, "space_id"@, v.space_id);
    let m2 = with_text(m1, "name"@, v.name@);
    let m3 = m2.push(("active"@, JsonView::Bool(v.active)));
    JsonView::Object(m3)
}

/// Writes a space.
pub fn space_info_json(v: &SpaceInfo) -> (j: Json)
    ensures
        j@ == space_info_view(*v),
{
    let mut b = ObjectBuilder::new();
    b.put("space_id", Json::uint(v.space_id));
    b.put("name", Json::text(v.name.as_str()));
    b.put("active", Json::Bool(v.active));
    b.done()
}

/// The object for a clipboard entry.
pub open spec fn clipboard_item_view(v: ClipboardItem) -> JsonView {
    let m0: Members = Seq::empty();
    let m1 = with_int(m0, "change_count"@, v.change_count);
    let m2 = with_uint(m1, "timestamp_ms"@, v.timestamp_ms);
    let m3 = m2.push(("types"@, texts_view(texts(v.types@))));
    let m4 = with_text(m3, "kind"@, clipboard_kind_name(v.kind));
    let m5 = with_opt_text(m4, "text"@, opt_text(v.text));
    let m6 = with_filled_texts(m5, "files"@, texts(v.files@));
    let m7 = m6.push(("redacted"@, JsonView::Bool(v.redacted)));
    JsonView::Object(m7)
}

/// Writes a clipboard entry.
pub fn clipboard_item_json(v: &ClipboardItem) -> (j: Json)
    ensures
        j@ == clipboard_item_view(*v),
{
    let mut b = ObjectBuilder::new();
    b.put("change_count", Json::signed(v.change_count));
    b.put("timestamp_ms", Json::uint(v.timestamp_ms));
    b.put("types", array_of_texts(&v.types));
    b.put("kind", Json::text(clipboard_kind_text(v.kind)));
    put_opt_text(&mut b, "text", &v.text);
    put_filled_texts(&mut b, "files", &v.files);
    b.put("redacted", Json::Bool(v.redacted));
    b.done()
}

/// The object for an event.
pub open spec fn ax_event_view(v: AxEvent) -> JsonView {
    let m0: Members = Seq::empty();
    let m1 = with_text(m0, "bundle_id"@, v.bundle_id@);
    let m2 = with_text(m1, "topic"@, topic_name(v.topic));
    let m3 = with_uint(m2, "timestamp_ms"@, v.timestamp_ms);
    let m4 = with_opt_text(m3, "element_ref"@, opt_text(v.element_ref));
    let m5 = with_opt_text(m4, "role"@, opt_text(v.role));
    let m6 = with_opt_text(m5, "name"@, opt_text(v.name));
    let m7 = with_opt_text(m6, "value"@, opt_text(v.value));
    JsonView::Object(m7)
}

/// Writes an event.
pub fn ax_event_json(v: &AxEvent) -> (j: Json)
    ensures
        j@ == ax_event_view(*v),
{
    let mut b = ObjectBuilder::new();
    b.put("bundle_id", Json::text(v.bundle_id.as_str()));
    b.put("topic", Json::text(v.topic.as_str()));
    b.put("timestamp_ms", Json::uint(v.timestamp_ms));
    put_opt_text(&mut b, "element_ref", &v.element_ref);
    put_opt_text(&mut b, "role", &v.role);
    put_opt_text(&mut b, "name", &v.name);
    put_opt_text(&mut b, "value", &v.value);
    b.done()
}

/// The object for a subscription.
pub open spec fn ax_subscription_view(v: AxSubscription) -> JsonView {
    let m0: Members = Seq::empty();
    let m1 = with_text(m0, "subscription_id"@, v.subscription_id@);
    let m2 = with_text(m1, "bundle_id"@, v.bundle_id@);
    let m3 = m2.push(("topics"@, topics_view(v.topics@)));
    JsonView::Object(m3)
}

/// Writes a subscription.
pub fn ax_subscription_json(v: &AxSubscription) -> (j: Json)
    ensures
        j@ == ax_subscription_view(*v),
{
    let mut b = ObjectBuilder::new();
    b.put("subscription_id", Json::text(v.subscription_id.as_str()));
    b.put("bundle_id", Json::text(v.bundle_id.as_str()));
    b.put("topics", topics_json(&v.topics));
    b.done()
}

} // verus!
