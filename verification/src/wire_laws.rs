//! What the JSON form of each report says, member by member.
use vstd::prelude::*;

use crate::cdp::{CdpMethodSnapshot, CdpMethodsSnapshot};
use crate::json::{double_view, lemma_member_at, lemma_member_pushed, JsonNumber, JsonView};
use crate::latency::LatencySnapshot;
use crate::mcp::is_number;
use crate::metrics::{
    FetchSnapshot, HistogramSnapshot, MutationSnapshot, PerfSnapshot, SessionSnapshot,
};
use crate::types::{
    topic_name, AppElement, AppHandle, AppSnapshot, AxEvent, AxSubscription, BBox, ClipboardItem,
    ClipboardKind, DockItem, ElementState, MenuItem, SpaceInfo, WindowHandle,
};
use crate::wire::{
    app_element_view, app_handle_view, app_snapshot_view, ax_event_view, ax_subscription_view,
    bbox_view, cdp_methods_view, cdp_method_snapshot_view, clipboard_item_view, dock_item_view,
    element_state_view, fetch_snapshot_view, histogram_snapshot_view, latency_snapshot_view,
    menu_item_view, mutation_snapshot_view, perf_snapshot_view, session_snapshot_view,
    space_info_view, window_handle_view,
};

verus! {

/// What is written of a latency summary: every field under its own name.
/// What may be missing is left out just where it is missing.
pub proof fn latencies_are_written_field_by_field(v: LatencySnapshot)
    ensures
        ({
            let j = latency_snapshot_view(v);
            &&& j.member("p50_us"@) == Some(JsonView::Number(JsonNumber::PosInt(v.p50_us)))
            &&& j.member("p95_us"@) == Some(JsonView::Number(JsonNumber::PosInt(v.p95_us)))
            &&& j.member("p99_us"@) == Some(JsonView::Number(JsonNumber::PosInt(v.p99_us)))
            &&& j.member("max_us"@) == Some(JsonView::Number(JsonNumber::PosInt(v.max_us)))
            &&& j.member("count"@) == Some(JsonView::Number(JsonNumber::PosInt(v.count)))
        }),
{
    broadcast use lemma_member_pushed;

    reveal_strlit("p50_us");
    reveal_strlit("p95_us");
    reveal_strlit("p99_us");
    reveal_strlit("max_us");
    reveal_strlit("count");
    assert("p50_us"@.len() == 6 && "p95_us"@.len() == 6 && "p99_us"@.len() == 6
        && "max_us"@.len() == 6 && "count"@.len() == 5 && "p50_us"@[1] == '5'
        && "p95_us"@[1] == '9' && "p99_us"@[1] == '9' && "p50_us"@[0] == 'p'
        && "max_us"@[0] == 'm' && "p95_us"@[2] == '5' && "p99_us"@[2] == '9'
        && "p95_us"@[0] == 'p' && "p99_us"@[0] == 'p');
}

/// What is written of the counters of a method: every field under its own name.
/// What may be missing is left out just where it is missing.
pub proof fn method_counters_are_written_field_by_field(v: CdpMethodSnapshot)
    ensures
        ({
            let j = cdp_method_snapshot_view(v);
            &&& j.member("latency"@) == Some(latency_snapshot_view(v.latency))
            &&& j.member("ok"@) == Some(JsonView::Number(JsonNumber::PosInt(v.ok)))
            &&& j.member("protocol_error"@) == Some(
                JsonView::Number(JsonNumber::PosInt(v.protocol_error)),
            )
            &&& j.member("transport_error"@) == Some(
                JsonView::Number(JsonNumber::PosInt(v.transport_error)),
            )
            &&& j.member("internal_error"@) == Some(
                JsonView::Number(JsonNumber::PosInt(v.internal_error)),
            )
            &&& j.member("retries"@) == Some(JsonView::Number(JsonNumber::PosInt(v.retries)))
        }),
{
    broadcast use lemma_member_pushed;

    reveal_strlit("latency");
    reveal_strlit("ok");
    reveal_strlit("protocol_error");
    reveal_strlit("transport_error");
    reveal_strlit("internal_error");
    reveal_strlit("retries");
    assert("latency"@.len() == 7 && "ok"@.len() == 2 && "protocol_error"@.len() == 14
        && "transport_error"@.len() == 15 && "internal_error"@.len() == 14
        && "retries"@.len() == 7 && "latency"@[0] == 'l' && "retries"@[0] == 'r'
        && "protocol_error"@[0] == 'p' && "internal_error"@[0] == 'i');
}

/// What is written of a histogram: every field under its own name.
/// What may be missing is left out just where it is missing.
pub proof fn histograms_are_written_field_by_field(v: HistogramSnapshot)
    ensures
        ({
            let j = histogram_snapshot_view(v);
            &&& match j.member("buckets"@) {
                Some(JsonView::Array(items)) => {
                    &&& items.len() == v.buckets@.len()
                    &&& forall|i: int|
                        0 <= i < items.len() ==> #[trigger] items[i] == JsonView::Number(
                            JsonNumber::PosInt(v.buckets@[i]),
                        )
                },
                Some(_) => false,
                None => false,
            }
            &&& j.member("count"@) == Some(JsonView::Number(JsonNumber::PosInt(v.count)))
            &&& j.member("sum"@) == Some(JsonView::Number(JsonNumber::PosInt(v.sum)))
            &&& j.member("max"@) == Some(JsonView::Number(JsonNumber::PosInt(v.max)))
        }),
{
    broadcast use lemma_member_pushed;

    reveal_strlit("buckets");
    reveal_strlit("count");
    reveal_strlit("sum");
    reveal_strlit("max");
    assert("buckets"@.len() == 7 && "count"@.len() == 5 && "sum"@.len() == 3 && "max"@.len() == 3
        && "sum"@[0] == 's' && "max"@[0] == 'm');
}

/// What is written of the download counters: every field under its own name.
/// What may be missing is left out just where it is missing.
pub proof fn download_counters_are_written_field_by_field(v: FetchSnapshot)
    ensures
        ({
            let j = fetch_snapshot_view(v);
            &&& j.member("attempts"@) == Some(JsonView::Number(JsonNumber::PosInt(v.attempts)))
            &&& j.member("retries"@) == Some(JsonView::Number(JsonNumber::PosInt(v.retries)))
            &&& j.member("stalls"@) == Some(JsonView::Number(JsonNumber::PosInt(v.stalls)))
            &&& j.member("range_416"@) == Some(JsonView::Number(JsonNumber::PosInt(v.range_416)))
            &&& j.member("download_starts"@) == Some(
                JsonView::Number(JsonNumber::PosInt(v.download_starts)),
            )
            &&& j.member("download_completions"@) == Some(
                JsonView::Number(JsonNumber::PosInt(v.download_completions)),
            )
            &&& j.member("download_failures"@) == Some(
                JsonView::Number(JsonNumber::PosInt(v.download_failures)),
            )
            &&& j.member("bytes_written"@) == Some(
                JsonView::Number(JsonNumber::PosInt(v.bytes_written)),
            )
            &&& j.member("download_ms"@) == Some(histogram_snapshot_view(v.download_ms))
            &&& j.member("bytes_per_attempt"@) == Some(
                histogram_snapshot_view(v.bytes_per_attempt),
            )
        }),
{
    broadcast use lemma_member_pushed;

    reveal_strlit("attempts");
    reveal_strlit("retries");
    reveal_strlit("stalls");
    reveal_strlit("range_416");
    reveal_strlit("download_starts");
    reveal_strlit("download_completions");
    reveal_strlit("download_failures");
    reveal_strlit("bytes_written");
    reveal_strlit("download_ms");
    reveal_strlit("bytes_per_attempt");
    assert("attempts"@.len() == 8 && "retries"@.len() == 7 && "stalls"@.len() == 6
        && "range_416"@.len() == 9 && "download_starts"@.len() == 15
        && "download_completions"@.len() == 20 && "download_failures"@.len() == 17
        && "bytes_written"@.len() == 13 && "download_ms"@.len() == 11
        && "bytes_per_attempt"@.len() == 17 && "download_failures"@[0] == 'd'
        && "bytes_per_attempt"@[0] == 'b');
}

/// What is written of the performance counters: every field under its own name.
/// What may be missing is left out just where it is missing.
pub proof fn performance_counters_are_written_field_by_field(v: PerfSnapshot)
    ensures
        ({
            let j = perf_snapshot_view(v);
            &&& j.member("pdf_ms"@) == Some(histogram_snapshot_view(v.pdf_ms))
            &&& j.member("pdf_bytes"@) == Some(histogram_snapshot_view(v.pdf_bytes))
            &&& j.member("print_preview_ms"@) == Some(histogram_snapshot_view(v.print_preview_ms))
            &&& j.member("heap_snapshot_ms"@) == Some(histogram_snapshot_view(v.heap_snapshot_ms))
            &&& j.member("heap_snapshot_bytes"@) == Some(
                histogram_snapshot_view(v.heap_snapshot_bytes),
            )
            &&& j.member("trace_ms"@) == Some(histogram_snapshot_view(v.trace_ms))
            &&& j.member("trace_bytes"@) == Some(histogram_snapshot_view(v.trace_bytes))
            &&& j.member("cpu_profile_ms"@) == Some(histogram_snapshot_view(v.cpu_profile_ms))
            &&& j.member("heap_sample_ms"@) == Some(histogram_snapshot_view(v.heap_sample_ms))
            &&& j.member("coverage_take_ms"@) == Some(histogram_snapshot_view(v.coverage_take_ms))
            &&& j.member("pdf_count"@) == Some(JsonView::Number(JsonNumber::PosInt(v.pdf_count)))
            &&& j.member("heap_snapshot_count"@) == Some(
                JsonView::Number(JsonNumber::PosInt(v.heap_snapshot_count)),
            )
            &&& j.member("trace_count"@) == Some(
                JsonView::Number(JsonNumber::PosInt(v.trace_count)),
            )
            &&& j.member("perf_failure_count"@) == Some(
                JsonView::Number(JsonNumber::PosInt(v.perf_failure_count)),
            )
        }),
{
    broadcast use lemma_member_pushed;

    reveal_strlit("pdf_ms");
    reveal_strlit("pdf_bytes");
    reveal_strlit("print_preview_ms");
    reveal_strlit("heap_snapshot_ms");
    reveal_strlit("heap_snapshot_bytes");
    reveal_strlit("trace_ms");
    reveal_strlit("trace_bytes");
    reveal_strlit("cpu_profile_ms");
    reveal_strlit("heap_sample_ms");
    reveal_strlit("coverage_take_ms");
    reveal_strlit("pdf_count");
    reveal_strlit("heap_snapshot_count");
    reveal_strlit("trace_count");
    reveal_strlit("perf_failure_count");
    assert("pdf_ms"@.len() == 6 && "pdf_bytes"@.len() == 9 && "print_preview_ms"@.len() == 16
        && "heap_snapshot_ms"@.len() == 16 && "heap_snapshot_bytes"@.len() == 19
        && "trace_ms"@.len() == 8 && "trace_bytes"@.len() == 11 && "cpu_profile_ms"@.len() == 14
        && "heap_sample_ms"@.len() == 14 && "coverage_take_ms"@.len() == 16
        && "pdf_count"@.len() == 9 && "heap_snapshot_count"@.len() == 19
        && "trace_count"@.len() == 11 && "perf_failure_count"@.len() == 18
        && "pdf_bytes"@[4] == 'b' && "pdf_count"@[4] == 'c' && "print_preview_ms"@[0] == 'p'
        && "heap_snapshot_ms"@[0] == 'h' && "coverage_take_ms"@[0] == 'c'
        && "heap_snapshot_bytes"@[14] == 'b' && "heap_snapshot_count"@[14] == 'c'
        && "trace_bytes"@[6] == 'b' && "trace_count"@[6] == 'c' && "cpu_profile_ms"@[0] == 'c'
        && "heap_sample_ms"@[0] == 'h');
}

/// What is written of the mutation counters: every field under its own name.
/// What may be missing is left out just where it is missing.
pub proof fn mutation_counters_are_written_field_by_field(v: MutationSnapshot)
    ensures
        ({
            let j = mutation_snapshot_view(v);
            &&& j.member("drain_failures"@) == Some(
                JsonView::Number(JsonNumber::PosInt(v.drain_failures)),
            )
            &&& j.member("drain_overflows"@) == Some(
                JsonView::Number(JsonNumber::PosInt(v.drain_overflows)),
            )
            &&& j.member("anchor_invalidations"@) == Some(
                JsonView::Number(JsonNumber::PosInt(v.anchor_invalidations)),
            )
        }),
{
    broadcast use lemma_member_pushed;

    reveal_strlit("drain_failures");
    reveal_strlit("drain_overflows");
    reveal_strlit("anchor_invalidations");
    assert("drain_failures"@.len() == 14 && "drain_overflows"@.len() == 15
        && "anchor_invalidations"@.len() == 20);
}

/// What is written of the counters of a session: every field under its own name.
/// What may be missing is left out just where it is missing.
pub proof fn session_counters_are_written_field_by_field(v: SessionSnapshot)
    ensures
        ({
            let j = session_snapshot_view(v);
            &&& j.member("session_id"@) == Some(JsonView::String(v.session_id@))
            &&& j.member("tab_count"@) == Some(
                JsonView::Number(JsonNumber::PosInt(v.tab_count as u64)),
            )
            &&& j.member("request_count"@) == Some(
                JsonView::Number(JsonNumber::PosInt(v.request_count)),
            )
            &&& j.member("error_count"@) == Some(
                JsonView::Number(JsonNumber::PosInt(v.error_count)),
            )
            &&& is_number(j.member("last_activity_ms"@), v.last_activity_ms as int)
            &&& j.member("recovery_count"@) == Some(
                JsonView::Number(JsonNumber::PosInt(v.recovery_count)),
            )
            &&& j.member("recovery_failed_count"@) == Some(
                JsonView::Number(JsonNumber::PosInt(v.recovery_failed_count)),
            )
            &&& j.member("outbound_drop_count"@) == Some(
                JsonView::Number(JsonNumber::PosInt(v.outbound_drop_count)),
            )
            &&& j.member("filevault_state"@) == Some(
                JsonView::Number(JsonNumber::PosInt(v.filevault_state)),
            )
        }),
{
    broadcast use lemma_member_pushed;

    reveal_strlit("session_id");
    reveal_strlit("tab_count");
    reveal_strlit("request_count");
    reveal_strlit("error_count");
    reveal_strlit("last_activity_ms");
    reveal_strlit("recovery_count");
    reveal_strlit("recovery_failed_count");
    reveal_strlit("outbound_drop_count");
    reveal_strlit("filevault_state");
    assert("session_id"@.len() == 10 && "tab_count"@.len() == 9 && "request_count"@.len() == 13
        && "error_count"@.len() == 11 && "last_activity_ms"@.len() == 16
        && "recovery_count"@.len() == 14 && "recovery_failed_count"@.len() == 21
        && "outbound_drop_count"@.len() == 19 && "filevault_state"@.len() == 15);
}

/// What is written of an application: every field under its own name.
/// What may be missing is left out just where it is missing.
pub proof fn applications_are_written_field_by_field(v: AppHandle)
    ensures
        ({
            let j = app_handle_view(v);
            &&& j.member("bundle_id"@) == Some(JsonView::String(v.bundle_id@))
            &&& is_number(j.member("pid"@), v.pid as int)
            &&& j.member("name"@) == Some(JsonView::String(v.name@))
            &&& j.member("has_focus"@) == Some(JsonView::Bool(v.has_focus))
        }),
{
    broadcast use lemma_member_pushed;

    reveal_strlit("bundle_id");
    reveal_strlit("pid");
    reveal_strlit("name");
    reveal_strlit("has_focus");
    assert("bundle_id"@.len() == 9 && "pid"@.len() == 3 && "name"@.len() == 4
        && "has_focus"@.len() == 9 && "bundle_id"@[0] == 'b' && "has_focus"@[0] == 'h');
}

/// What is written of a box: every field under its own name.
/// What may be missing is left out just where it is missing.
pub proof fn boxes_are_written_field_by_field(v: BBox)
    ensures
        ({
            let j = bbox_view(v);
            &&& j.member("x"@) == Some(double_view(v.x))
            &&& j.member("y"@) == Some(double_view(v.y))
            &&& j.member("w"@) == Some(double_view(v.w))
            &&& j.member("h"@) == Some(double_view(v.h))
        }),
{
    broadcast use lemma_member_pushed;

    reveal_strlit("x");
    reveal_strlit("y");
    reveal_strlit("w");
    reveal_strlit("h");
    assert("x"@.len() == 1 && "y"@.len() == 1 && "w"@.len() == 1 && "h"@.len() == 1
        && "x"@[0] == 'x' && "y"@[0] == 'y' && "w"@[0] == 'w' && "h"@[0] == 'h');
}

/// What is written of the state of an element: every field under its own name.
/// What may be missing is left out just where it is missing.
pub proof fn element_states_are_written_field_by_field(v: ElementState)
    ensures
        ({
            let j = element_state_view(v);
            &&& match v.checked {
                Some(b) => j.member("checked"@) == Some(JsonView::Bool(b)),
                None => j.member("checked"@) is None,
            }
            &&& match v.expanded {
                Some(b) => j.member("expanded"@) == Some(JsonView::Bool(b)),
                None => j.member("expanded"@) is None,
            }
            &&& match v.pressed {
                Some(b) => j.member("pressed"@) == Some(JsonView::Bool(b)),
                None => j.member("pressed"@) is None,
            }
            &&& match v.selected {
                Some(b) => j.member("selected"@) == Some(JsonView::Bool(b)),
                None => j.member("selected"@) is None,
            }
            &&& j.member("disabled"@) == Some(JsonView::Bool(v.disabled))
        }),
{
    broadcast use lemma_member_pushed;

    reveal_strlit("checked");
    reveal_strlit("expanded");
    reveal_strlit("pressed");
    reveal_strlit("selected");
    reveal_strlit("disabled");
    assert("checked"@.len() == 7 && "expanded"@.len() == 8 && "pressed"@.len() == 7
        && "selected"@.len() == 8 && "disabled"@.len() == 8 && "checked"@[0] == 'c'
        && "pressed"@[0] == 'p' && "expanded"@[0] == 'e' && "selected"@[0] == 's'
        && "disabled"@[0] == 'd');
}

/// What is written of an element: every field under its own name.
/// What may be missing is left out just where it is missing.
pub proof fn elements_are_written_field_by_field(v: AppElement)
    ensures
        ({
            let j = app_element_view(v);
            &&& j.member("index"@) == Some(JsonView::Number(JsonNumber::PosInt(v.index as u64)))
            &&& j.member("ref"@) == Some(JsonView::String(v.element_ref@))
            &&& j.member("role"@) == Some(JsonView::String(v.role@))
            &&& j.member("name"@) == Some(JsonView::String(v.name@))
            &&& match v.value {
                Some(t) => j.member("value"@) == Some(JsonView::String(t@)),
                None => j.member("value"@) is None,
            }
            &&& match v.description {
                Some(t) => j.member("description"@) == Some(JsonView::String(t@)),
                None => j.member("description"@) is None,
            }
            &&& j.member("state"@) == Some(element_state_view(v.state))
            &&& j.member("bbox"@) == Some(bbox_view(v.bbox))
            &&& j.member("interactable"@) == Some(JsonView::Bool(v.interactable))
            &&& j.member("app_id"@) == Some(JsonView::String(v.app_id@))
            &&& j.member("stable_id"@) == Some(JsonView::String(v.stable_id@))
        }),
{
    broadcast use lemma_member_pushed;

    reveal_strlit("index");
    reveal_strlit("ref");
    reveal_strlit("role");
    reveal_strlit("name");
    reveal_strlit("value");
    reveal_strlit("description");
    reveal_strlit("state");
    reveal_strlit("bbox");
    reveal_strlit("interactable");
    reveal_strlit("app_id");
    reveal_strlit("stable_id");
    assert("index"@.len() == 5 && "ref"@.len() == 3 && "role"@.len() == 4 && "name"@.len() == 4
        && "value"@.len() == 5 && "description"@.len() == 11 && "state"@.len() == 5
        && "bbox"@.len() == 4 && "interactable"@.len() == 12 && "app_id"@.len() == 6
        && "stable_id"@.len() == 9 && "index"@[0] == 'i' && "value"@[0] == 'v'
        && "state"@[0] == 's' && "role"@[0] == 'r' && "name"@[0] == 'n' && "bbox"@[0] == 'b');
}

/// What is written of a snapshot: every field under its own name.
/// What may be missing is left out just where it is missing.
pub proof fn snapshots_are_written_field_by_field(v: AppSnapshot)
    ensures
        ({
            let j = app_snapshot_view(v);
            &&& j.member("snapshot_seq"@) == Some(
                JsonView::Number(JsonNumber::PosInt(v.snapshot_seq)),
            )
            &&& j.member("app_id"@) == Some(JsonView::String(v.app_id@))
            &&& j.member("bundle_id"@) == Some(JsonView::String(v.bundle_id@))
            &&& is_number(j.member("pid"@), v.pid as int)
            &&& j.member("title"@) == Some(JsonView::String(v.title@))
            &&& match v.focused_ref {
                Some(t) => j.member("focused_ref"@) == Some(JsonView::String(t@)),
                None => j.member("focused_ref"@) is None,
            }
            &&& match j.member("elements"@) {
                Some(JsonView::Array(items)) => {
                    &&& items.len() == v.elements@.len()
                    &&& forall|i: int|
                        0 <= i < items.len() ==> #[trigger] items[i] == app_element_view(v.elements@[i])
                },
                Some(_) => false,
                None => false,
            }
            &&& j.member("tree"@) == Some(v.tree@)
            &&& match v.truncated_at {
                Some(t) => j.member("truncated_at"@) == Some(JsonView::String(t@)),
                None => j.member("truncated_at"@) is None,
            }
        }),
{
    broadcast use lemma_member_pushed;

    reveal_strlit("snapshot_seq");
    reveal_strlit("app_id");
    reveal_strlit("bundle_id");
    reveal_strlit("pid");
    reveal_strlit("title");
    reveal_strlit("focused_ref");
    reveal_strlit("elements");
    reveal_strlit("tree");
    reveal_strlit("truncated_at");
    assert("snapshot_seq"@.len() == 12 && "app_id"@.len() == 6 && "bundle_id"@.len() == 9
        && "pid"@.len() == 3 && "title"@.len() == 5 && "focused_ref"@.len() == 11
        && "elements"@.len() == 8 && "tree"@.len() == 4 && "truncated_at"@.len() == 12
        && "snapshot_seq"@[0] == 's' && "truncated_at"@[0] == 't');
}

/// What is written of a menu item: every field under its own name.
/// What may be missing is left out just where it is missing.
pub proof fn menu_items_are_written_field_by_field(v: MenuItem)
    ensures
        ({
            let j = menu_item_view(v);
            &&& match j.member("path"@) {
                Some(JsonView::Array(items)) => {
                    &&& items.len() == v.path@.len()
                    &&& forall|i: int|
                        0 <= i < items.len() ==> #[trigger] items[i] == JsonView::String(v.path@[i]@)
                },
                Some(_) => false,
                None => false,
            }
            &&& j.member("display"@) == Some(JsonView::String(v.display@))
            &&& j.member("interactable"@) == Some(JsonView::Bool(v.interactable))
            &&& j.member("disabled"@) == Some(JsonView::Bool(v.disabled))
            &&& match v.shortcut {
                Some(t) => j.member("shortcut"@) == Some(JsonView::String(t@)),
                None => j.member("shortcut"@) is None,
            }
        }),
{
    broadcast use lemma_member_pushed;

    reveal_strlit("path");
    reveal_strlit("display");
    reveal_strlit("interactable");
    reveal_strlit("disabled");
    reveal_strlit("shortcut");
    assert("path"@.len() == 4 && "display"@.len() == 7 && "interactable"@.len() == 12
        && "disabled"@.len() == 8 && "shortcut"@.len() == 8 && "disabled"@[0] == 'd'
        && "shortcut"@[0] == 's');
}

/// What is written of a window: every field under its own name.
/// What may be missing is left out just where it is missing.
pub proof fn windows_are_written_field_by_field(v: WindowHandle)
    ensures
        ({
            let j = window_handle_view(v);
            &&& j.member("window_id"@) == Some(JsonView::String(v.window_id@))
            &&& j.member("bundle_id"@) == Some(JsonView::String(v.bundle_id@))
            &&& j.member("title"@) == Some(JsonView::String(v.title@))
            &&& j.member("bbox"@) == Some(bbox_view(v.bbox))
            &&& j.member("minimized"@) == Some(JsonView::Bool(v.minimized))
            &&& j.member("fullscreen"@) == Some(JsonView::Bool(v.fullscreen))
            &&& j.member("main"@) == Some(JsonView::Bool(v.main))
        }),
{
    broadcast use lemma_member_pushed;

    reveal_strlit("window_id");
    reveal_strlit("bundle_id");
    reveal_strlit("title");
    reveal_strlit("bbox");
    reveal_strlit("minimized");
    reveal_strlit("fullscreen");
    reveal_strlit("main");
    assert("window_id"@.len() == 9 && "bundle_id"@.len() == 9 && "title"@.len() == 5
        && "bbox"@.len() == 4 && "minimized"@.len() == 9 && "fullscreen"@.len() == 10
        && "main"@.len() == 4 && "window_id"@[0] == 'w' && "bundle_id"@[0] == 'b'
        && "minimized"@[0] == 'm' && "bbox"@[0] == 'b' && "main"@[0] == 'm');
}

/// What is written of a dock item: every field under its own name.
/// What may be missing is left out just where it is missing.
pub proof fn dock_items_are_written_field_by_field(v: DockItem)
    ensures
        ({
            let j = dock_item_view(v);
            &&& j.member("dock_id"@) == Some(JsonView::String(v.dock_id@))
            &&& j.member("label"@) == Some(JsonView::String(v.label@))
            &&& j.member("running"@) == Some(JsonView::Bool(v.running))
            &&& j.member("bundle_id"@) == (if v.bundle_id@.len() == 0 {
                None
            } else {
                Some(JsonView::String(v.bundle_id@))
            })
        }),
{
    broadcast use lemma_member_pushed;

    reveal_strlit("dock_id");
    reveal_strlit("label");
    reveal_strlit("running");
    reveal_strlit("bundle_id");
    assert("dock_id"@.len() == 7 && "label"@.len() == 5 && "running"@.len() == 7
        && "bundle_id"@.len() == 9 && "dock_id"@[0] == 'd' && "running"@[0] == 'r');
}

/// What is written of a space: every field under its own name.
/// What may be missing is left out just where it is missing.
pub proof fn spaces_are_written_field_by_field(v: SpaceInfo)
    ensures
        ({
            let j = space_info_view(v);
            &&& j.member("space_id"@) == Some(JsonView::Number(JsonNumber::PosInt(v.space_id)))
            &&& j.member("name"@) == Some(JsonView::String(v.name@))
            &&& j.member("active"@) == Some(JsonView::Bool(v.active))
        }),
{
    broadcast use lemma_member_pushed;

    reveal_strlit("space_id");
    reveal_strlit("name");
    reveal_strlit("active");
    assert("space_id"@.len() == 8 && "name"@.len() == 4 && "active"@.len() == 6);
}

/// What is written of an item of the clipboard: every field under its own name.
/// What may be missing is left out just where it is missing.
pub proof fn clipboard_items_are_written_field_by_field(v: ClipboardItem)
    ensures
        ({
            let j = clipboard_item_view(v);
            &&& is_number(j.member("change_count"@), v.change_count as int)
            &&& j.member("timestamp_ms"@) == Some(
                JsonView::Number(JsonNumber::PosInt(v.timestamp_ms)),
            )
            &&& match j.member("types"@) {
                Some(JsonView::Array(items)) => {
                    &&& items.len() == v.types@.len()
                    &&& forall|i: int|
                        0 <= i < items.len() ==> #[trigger] items[i] == JsonView::String(v.types@[i]@)
                },
                Some(_) => false,
                None => false,
            }
            &&& j.member("kind"@) == Some(
                JsonView::String(
                    match v.kind {
                        ClipboardKind::String => "string"@,
                        ClipboardKind::Files => "files"@,
                        ClipboardKind::Image => "image"@,
                        ClipboardKind::Other => "other"@,
                    },
                ),
            )
            &&& match v.text {
                Some(t) => j.member("text"@) == Some(JsonView::String(t@)),
                None => j.member("text"@) is None,
            }
            &&& match j.member("files"@) {
                Some(JsonView::Array(items)) => {
                    &&& items.len() == v.files@.len() > 0
                    &&& forall|i: int|
                        0 <= i < items.len() ==> #[trigger] items[i] == JsonView::String(v.files@[i]@)
                },
                Some(_) => false,
                None => v.files@.len() == 0,
            }
            &&& j.member("redacted"@) == Some(JsonView::Bool(v.redacted))
        }),
{
    broadcast use lemma_member_pushed;

    reveal_strlit("change_count");
    reveal_strlit("timestamp_ms");
    reveal_strlit("types");
    reveal_strlit("kind");
    reveal_strlit("text");
    reveal_strlit("files");
    reveal_strlit("redacted");
    assert("change_count"@.len() == 12 && "timestamp_ms"@.len() == 12 && "types"@.len() == 5
        && "kind"@.len() == 4 && "text"@.len() == 4 && "files"@.len() == 5
        && "redacted"@.len() == 8 && "change_count"@[0] == 'c' && "timestamp_ms"@[0] == 't'
        && "types"@[0] == 't' && "files"@[0] == 'f' && "kind"@[0] == 'k' && "text"@[0] == 't');
}

/// What is written of an event: every field under its own name.
/// What may be missing is left out just where it is missing.
pub proof fn events_are_written_field_by_field(v: AxEvent)
    ensures
        ({
            let j = ax_event_view(v);
            &&& j.member("bundle_id"@) == Some(JsonView::String(v.bundle_id@))
            &&& j.member("topic"@) == Some(JsonView::String(topic_name(v.topic)))
            &&& j.member("timestamp_ms"@) == Some(
                JsonView::Number(JsonNumber::PosInt(v.timestamp_ms)),
            )
            &&& match v.element_ref {
                Some(t) => j.member("element_ref"@) == Some(JsonView::String(t@)),
                None => j.member("element_ref"@) is None,
            }
            &&& match v.role {
                Some(t) => j.member("role"@) == Some(JsonView::String(t@)),
                None => j.member("role"@) is None,
            }
            &&& match v.name {
                Some(t) => j.member("name"@) == Some(JsonView::String(t@)),
                None => j.member("name"@) is None,
            }
            &&& match v.value {
                Some(t) => j.member("value"@) == Some(JsonView::String(t@)),
                None => j.member("value"@) is None,
            }
        }),
{
    broadcast use lemma_member_pushed;

    reveal_strlit("bundle_id");
    reveal_strlit("topic");
    reveal_strlit("timestamp_ms");
    reveal_strlit("element_ref");
    reveal_strlit("role");
    reveal_strlit("name");
    reveal_strlit("value");
    assert("bundle_id"@.len() == 9 && "topic"@.len() == 5 && "timestamp_ms"@.len() == 12
        && "element_ref"@.len() == 11 && "role"@.len() == 4 && "name"@.len() == 4
        && "value"@.len() == 5 && "topic"@[0] == 't' && "value"@[0] == 'v' && "role"@[0] == 'r'
        && "name"@[0] == 'n');
}

/// What is written of a subscription: every field under its own name.
/// What may be missing is left out just where it is missing.
pub proof fn subscriptions_are_written_field_by_field(v: AxSubscription)
    ensures
        ({
            let j = ax_subscription_view(v);
            &&& j.member("subscription_id"@) == Some(JsonView::String(v.subscription_id@))
            &&& j.member("bundle_id"@) == Some(JsonView::String(v.bundle_id@))
            &&& match j.member("topics"@) {
                Some(JsonView::Array(items)) => {
                    &&& items.len() == v.topics@.len()
                    &&& forall|i: int|
                        0 <= i < items.len() ==> #[trigger] items[i] == JsonView::String(topic_name(v.topics@[i]))
                },
                Some(_) => false,
                None => false,
            }
        }),
{
    broadcast use lemma_member_pushed;

    reveal_strlit("subscription_id");
    reveal_strlit("bundle_id");
    reveal_strlit("topics");
    assert("subscription_id"@.len() == 15 && "bundle_id"@.len() == 9 && "topics"@.len() == 6);
}

/// The counters of all methods are written under the names of the methods, each once.
pub proof fn all_method_counters_are_written(v: CdpMethodsSnapshot, i: int)
    requires
        0 <= i < v.methods.keys().len(),
    ensures
        ({
            &&& cdp_methods_view(v).member("methods"@) matches Some(JsonView::Object(m))
            &&& m.len() == v.methods.keys().len()
            &&& m[i].0 == v.methods.keys()[i]
            &&& m[i].1 == cdp_method_snapshot_view(v.methods@[v.methods.keys()[i]])
        }),
{
    let m = cdp_methods_view(v)->Object_0;
    lemma_member_at(m, "methods"@, 0);
}

} // verus!
