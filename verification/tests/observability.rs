use one_for_all::caps::{
    CONSOLE_CAP, EXCEPTION_CAP, HEAP_CHUNK_DRAIN_CAPACITY, NETWORK_OBSERVE_CAP,
    PAGE_LIFECYCLE_CAPACITY, PER_TARGET_CAPACITY, SESSION_LIFECYCLE_CAPACITY,
    TRACING_IO_READ_CHUNK_BYTES,
};
use one_for_all::cdp::{CdpMetricsSink, Outcome};
use one_for_all::latency::{LatencyHistogram, HIST_HIGH_US};
use one_for_all::log_dirs::for_component;
use one_for_all::metrics::{
    read_buckets, unix_millis, FetchMetrics, Histogram, MutationMetrics, PerfMetrics, Registry,
};
use one_for_all::wire::{
    cdp_methods_json, fetch_snapshot_json, latency_snapshot_json, session_snapshot_json,
};

#[test]
fn capacities() {
    assert_eq!(PER_TARGET_CAPACITY, 1024);
    assert_eq!(NETWORK_OBSERVE_CAP, 4096);
    assert_eq!(PAGE_LIFECYCLE_CAPACITY, 64);
    assert_eq!(CONSOLE_CAP, 512);
    assert_eq!(EXCEPTION_CAP, 512);
    assert_eq!(SESSION_LIFECYCLE_CAPACITY, 64);
    assert_eq!(HEAP_CHUNK_DRAIN_CAPACITY, 1024);
    assert_eq!(TRACING_IO_READ_CHUNK_BYTES, 65_536);
}

#[test]
fn rejects_path_traversal() {
    assert!(for_component("../etc").is_err());
    assert!(for_component("a/b").is_err());
    assert!(for_component("").is_err());
    assert_eq!(for_component("mcp-1_x").unwrap(), "mcp-1_x");
    assert_eq!(
        for_component("a b").unwrap_err(),
        "invalid component name: \"a b\""
    );
}

#[test]
fn record_round_trip() {
    let mut s = CdpMetricsSink::new();
    s.record_call("Page.navigate", 0, 1_500_000, Outcome::Success, 1);
    s.record_call("Page.navigate", 0, 2_500_000, Outcome::Success, 1);
    s.record_call("Page.navigate", 0, 900_000, Outcome::ProtocolError, 1);
    s.record_call("Browser.getVersion", 0, 120_000, Outcome::Transport, 3);

    let snap = s.snapshot();
    let nav = snap.methods.get("Page.navigate").expect("Page.navigate recorded");
    assert_eq!(nav.ok, 2);
    assert_eq!(nav.protocol_error, 1);
    assert_eq!(nav.transport_error, 0);
    assert_eq!(nav.retries, 0);
    assert_eq!(nav.latency.count, 3);
    assert!(nav.latency.p99_us >= 2_500);

    let gv = snap.methods.get("Browser.getVersion").expect("Browser.getVersion recorded");
    assert_eq!(gv.transport_error, 1);
    assert_eq!(gv.retries, 2, "attempts=3 → 2 retries");
}

#[test]
fn snapshot_is_alphabetically_sorted() {
    let mut s = CdpMetricsSink::new();
    s.record_call("Z.last", 0, 1_000, Outcome::Success, 1);
    s.record_call("A.first", 0, 1_000, Outcome::Success, 1);
    s.record_call("M.middle", 0, 1_000, Outcome::Success, 1);
    let snap = s.snapshot();
    let keys: Vec<&str> = (0..snap.methods.len()).map(|i| snap.methods.at(i).0).collect();
    assert_eq!(keys, vec!["A.first", "M.middle", "Z.last"]);
}

#[test]
fn outcome_counters_split_correctly() {
    let mut s = CdpMetricsSink::new();
    for o in [
        Outcome::Success,
        Outcome::ProtocolError,
        Outcome::Transport,
        Outcome::Internal,
    ] {
        s.record_call("X.method", 0, 10_000, o, 1);
    }
    let snap = s.snapshot();
    let m = snap.methods.get("X.method").expect("recorded");
    assert_eq!(m.ok, 1);
    assert_eq!(m.protocol_error, 1);
    assert_eq!(m.transport_error, 1);
    assert_eq!(m.internal_error, 1);
    assert_eq!(m.latency.count, 4);
}

#[test]
fn reset_clears_counters() {
    let mut s = CdpMetricsSink::new();
    s.record_call("A.b", 0, 10_000, Outcome::Success, 1);
    s.reset();
    let snap = s.snapshot();
    let m = snap.methods.get("A.b").expect("entry survives reset");
    assert_eq!(m.ok, 0);
    assert_eq!(m.latency.count, 0);
}

#[test]
fn snapshot_is_serializable_as_stable_json() {
    let mut s = CdpMetricsSink::new();
    s.record_call("Page.navigate", 0, 123_000, Outcome::Success, 1);
    let v = cdp_methods_json(&s.snapshot());
    assert!(v.get("methods").and_then(|m| m.get("Page.navigate")).is_some());
}

#[test]
fn dynamic_methods_are_included_in_snapshot() {
    let mut s = CdpMetricsSink::new();
    s.record_dynamic_call("Runtime.evaluate", 0, 250_000, Outcome::Success, 2);
    let snap = s.snapshot();
    let m = snap.methods.get("Runtime.evaluate").expect("dynamic method recorded");
    assert_eq!(m.ok, 1);
    assert_eq!(m.retries, 1);
    assert_eq!(m.latency.count, 1);
}

#[test]
fn record_and_snapshot_round_trip() {
    let mut h = LatencyHistogram::new("test").unwrap();
    for v in [10, 20, 30, 40, 50, 100, 200, 1000] {
        h.record_micros(v);
    }
    let snap = h.snapshot();
    assert_eq!(snap.count, 8);
    assert!(snap.p50_us >= 30 && snap.p50_us <= 60);
    assert!(snap.p99_us >= 200);
    assert!(snap.max_us >= 1000);
    assert!(snap.p50_us <= snap.p95_us && snap.p95_us <= snap.p99_us);
    assert_eq!(h.name(), "test");
}

#[test]
fn record_saturates_at_high_bound() {
    let mut h = LatencyHistogram::new("sat").unwrap();
    h.record_micros(u64::MAX);
    let snap = h.snapshot();
    assert_eq!(snap.count, 1);
    let tolerance = HIST_HIGH_US / 1000;
    assert!(
        snap.max_us <= HIST_HIGH_US + tolerance,
        "max_us {} > HIST_HIGH_US {} + tolerance {}",
        snap.max_us,
        HIST_HIGH_US,
        tolerance,
    );
}

#[test]
fn reset_clears_count() {
    let mut h = LatencyHistogram::new("rst").unwrap();
    h.record_micros(100);
    assert_eq!(h.snapshot().count, 1);
    h.reset();
    assert_eq!(h.snapshot().count, 0);
}

#[test]
fn durations_are_counted_in_micros() {
    let mut h = LatencyHistogram::shared("dur");
    h.record_duration(2, 500_000_000);
    let snap = h.snapshot();
    assert_eq!(snap.count, 1);
    assert!(snap.max_us >= 2_500_000 && snap.max_us <= 2_503_000);
}

#[test]
fn snapshot_serialization_shape() {
    let mut h = LatencyHistogram::new("ser").unwrap();
    h.record_micros(123);
    let v = latency_snapshot_json(&h.snapshot());
    assert!(v.get("p50_us").is_some());
    assert!(v.get("p95_us").is_some());
    assert!(v.get("p99_us").is_some());
    assert!(v.get("max_us").is_some());
    assert!(v.get("count").is_some());
}

#[test]
fn registry_is_thread_safe() {
    let mut reg = Registry::new();
    let m = reg.session("s1");
    m.tab_count += 2;
    m.request_count += 7;
    m.recovery_count += 1;
    m.touch();
    let snap = reg.snapshot();
    assert_eq!(snap.len(), 1);
    assert_eq!(snap[0].tab_count, 2);
    assert_eq!(snap[0].request_count, 7);
    assert_eq!(snap[0].recovery_count, 1);
    assert_eq!(snap[0].recovery_failed_count, 0);
    assert_eq!(snap[0].outbound_drop_count, 0);
    assert!(snap[0].last_activity_ms > 0);
    let v = session_snapshot_json(&snap[0]);
    assert_eq!(v.get("request_count").and_then(|j| j.as_u64()), Some(7));
}

#[test]
fn remove_returns_session() {
    let mut reg = Registry::new();
    let _ = reg.session("s1");
    assert!(reg.remove("s1").is_some());
    assert!(reg.remove("s1").is_none());
    assert!(reg.snapshot().is_empty());
}

#[test]
fn histogram_buckets_powers_of_two() {
    let mut h = Histogram::new();
    h.observe(0);
    h.observe(1);
    h.observe(2);
    h.observe(3);
    h.observe(4);
    h.observe(7);
    h.observe(8);
    let s = h.snapshot();
    assert_eq!(s.count, 7);
    assert_eq!(s.sum, 0 + 1 + 2 + 3 + 4 + 7 + 8);
    assert_eq!(s.max, 8);
    assert_eq!(s.buckets[0], 2);
    assert_eq!(s.buckets[1], 2);
    assert_eq!(s.buckets[2], 2);
    assert_eq!(s.buckets[3], 1);
}

#[test]
fn histogram_extremes() {
    let mut h = Histogram::new();
    h.observe(u64::MAX);
    h.observe(u64::MAX);
    let s = h.snapshot();
    assert_eq!(s.buckets[63], 2);
    assert_eq!(s.sum, u64::MAX);
    assert_eq!(read_buckets(&vec![1; 64]).unwrap(), [1u64; 64]);
    assert_eq!(
        read_buckets(&vec![1; 3]).unwrap_err(),
        "expected 64 buckets, got 3"
    );
}

#[test]
fn fetch_metrics_round_trip() {
    let mut m = FetchMetrics::new();
    m.record_download_start();
    m.record_attempt();
    m.record_attempt();
    m.record_retry();
    m.record_stall();
    m.record_bytes(1024);
    m.record_attempt_bytes(1024);
    m.record_download_completion(2500);
    let s = m.snapshot();
    assert_eq!(s.download_starts, 1);
    assert_eq!(s.attempts, 2);
    assert_eq!(s.retries, 1);
    assert_eq!(s.stalls, 1);
    assert_eq!(s.bytes_written, 1024);
    assert_eq!(s.download_completions, 1);
    assert_eq!(s.download_ms.count, 1);
    assert!(s.download_ms.max >= 2500);
    assert_eq!(s.bytes_per_attempt.count, 1);
    m.record_range_416();
    m.record_download_failure();
    assert_eq!(m.snapshot().range_416, 1);
    assert_eq!(m.snapshot().download_failures, 1);
    let v = fetch_snapshot_json(&s);
    assert_eq!(v.get("attempts").and_then(|j| j.as_u64()), Some(2));
}

#[test]
fn perf_metrics_round_trip() {
    let mut m = PerfMetrics::new();
    m.record_pdf(120, 65_536);
    m.record_pdf(80, 32_768);
    m.record_heap_snapshot(2_500, 4_194_304);
    m.record_trace(900, 1_048_576);
    m.record_cpu_profile(500);
    m.record_heap_sample(500);
    m.record_coverage_take(15);
    m.record_print_preview(45);
    m.record_failure();
    let s = m.snapshot();
    assert_eq!(s.pdf_count, 2);
    assert_eq!(s.heap_snapshot_count, 1);
    assert_eq!(s.trace_count, 1);
    assert_eq!(s.perf_failure_count, 1);
    assert_eq!(s.pdf_ms.count, 2);
    assert!(s.pdf_ms.max >= 120);
    assert_eq!(s.heap_snapshot_bytes.count, 1);
    assert!(s.heap_snapshot_bytes.max >= 4_194_304);
    assert_eq!(s.cpu_profile_ms.count, 1);
    assert_eq!(s.coverage_take_ms.count, 1);
    assert_eq!(s.print_preview_ms.count, 1);
}

#[test]
fn mutation_metrics_round_trip() {
    let mut m = MutationMetrics::new();
    m.record_drain_failure();
    m.record_drain_failure();
    m.record_drain_overflow();
    m.record_anchor_invalidation();
    m.record_anchor_invalidation();
    m.record_anchor_invalidation();
    let s = m.snapshot();
    assert_eq!(s.drain_failures, 2);
    assert_eq!(s.drain_overflows, 1);
    assert_eq!(s.anchor_invalidations, 3);
}

#[test]
fn every_count_has_its_samples() {
    let mut f = FetchMetrics::new();
    f.record_download_start();
    f.record_download_completion(120);
    f.record_download_failure();
    f.record_download_completion(7);
    let s = f.snapshot();
    assert_eq!(s.download_completions, 2);
    assert_eq!(s.download_ms.count, 2);
    let mut p = PerfMetrics::new();
    p.record_pdf(40, 9_000);
    p.record_heap_snapshot(5, 6);
    p.record_failure();
    p.record_trace(7, 8);
    p.record_trace(9, 10);
    let s = p.snapshot();
    assert_eq!((s.pdf_count, s.pdf_ms.count, s.pdf_bytes.count), (1, 1, 1));
    assert_eq!(s.heap_snapshot_count, s.heap_snapshot_bytes.count);
    assert_eq!((s.trace_count, s.trace_ms.count, s.trace_bytes.count), (2, 2, 2));
}

#[test]
fn a_clock_before_the_epoch_reads_zero() {
    assert_eq!(unix_millis(None), 0);
    assert_eq!(unix_millis(Some(1_700_000_000_123)), 1_700_000_000_123);
    assert_eq!(unix_millis(Some(u128::from(u64::MAX))), -1);
}
