//! What the counters come to, whatever is counted.
use vstd::multiset::Multiset;
use vstd::prelude::*;

use crate::cdp::{called, no_calls, shows_method, CdpMethodSnapshot, MethodView, Outcome};
use crate::latency::{
    clamped, is_highest, percentile_value, summarizes, top, whole_micros, width, LatencySnapshot,
};
use crate::metrics::{
    bucket_bounds, bucket_of, no_activity, no_fetch, no_mutation, no_perf, no_samples, observed,
    shows, wrapped_sum, FetchMetrics, FetchSnapshot, HistogramSnapshot, HistogramView,
    MutationMetrics, MutationSnapshot, PerfMetrics, PerfSnapshot, SessionMetrics, SessionSnapshot,
};
use crate::trace::next_count;

verus! {

/// A histogram is shown with all its buckets, its count, sum and maximum.
pub open spec fn histogram_shows(s: HistogramSnapshot, h: HistogramView) -> bool {
    &&& s.buckets@ == h.buckets
    &&& s.count == h.count
    &&& s.sum == h.sum
    &&& s.max == h.max
}

/// Each download counter is shown under its own name.
pub proof fn download_counters_are_shown(m: FetchMetrics, s: FetchSnapshot)
    requires
        s@ == m@,
    ensures
        s.attempts == m.attempts,
        s.retries == m.retries,
        s.stalls == m.stalls,
        s.range_416 == m.range_416,
        s.download_starts == m.download_starts,
        s.download_completions == m.download_completions,
        s.download_failures == m.download_failures,
        s.bytes_written == m.bytes_written,
        histogram_shows(s.download_ms, m.download_ms@),
        histogram_shows(s.bytes_per_attempt, m.bytes_per_attempt@),
{
}

/// Each performance counter is shown under its own name.
pub proof fn performance_counters_are_shown(m: PerfMetrics, s: PerfSnapshot)
    requires
        s@ == m@,
    ensures
        s.pdf_count == m.pdf_count,
        s.heap_snapshot_count == m.heap_snapshot_count,
        s.trace_count == m.trace_count,
        s.perf_failure_count == m.perf_failure_count,
        histogram_shows(s.pdf_ms, m.pdf_ms@),
        histogram_shows(s.pdf_bytes, m.pdf_bytes@),
        histogram_shows(s.print_preview_ms, m.print_preview_ms@),
        histogram_shows(s.heap_snapshot_ms, m.heap_snapshot_ms@),
        histogram_shows(s.heap_snapshot_bytes, m.heap_snapshot_bytes@),
        histogram_shows(s.trace_ms, m.trace_ms@),
        histogram_shows(s.trace_bytes, m.trace_bytes@),
        histogram_shows(s.cpu_profile_ms, m.cpu_profile_ms@),
        histogram_shows(s.heap_sample_ms, m.heap_sample_ms@),
        histogram_shows(s.coverage_take_ms, m.coverage_take_ms@),
{
}

/// Each mutation counter is shown under its own name.
pub proof fn mutation_counters_are_shown(m: MutationMetrics, s: MutationSnapshot)
    requires
        s@ == m@,
    ensures
        s.drain_failures == m.drain_failures,
        s.drain_overflows == m.drain_overflows,
        s.anchor_invalidations == m.anchor_invalidations,
{
}

/// Each counter of a session is shown under its own name.
pub proof fn session_counters_are_shown(m: SessionMetrics, s: SessionSnapshot, id: Seq<char>)
    requires
        shows(s, id, m),
    ensures
        s.session_id@ == id,
        s.tab_count == m.tab_count,
        s.request_count == m.request_count,
        s.error_count == m.error_count,
        s.last_activity_ms == m.last_activity_ms,
        s.recovery_count == m.recovery_count,
        s.recovery_failed_count == m.recovery_failed_count,
        s.outbound_drop_count == m.outbound_drop_count,
        s.filevault_state == m.filevault_state,
{
}

/// Each counter of a method is shown under its own name, the latencies by their quantiles,
/// their maximum and their number.
pub proof fn method_counters_are_shown(m: MethodView, s: CdpMethodSnapshot)
    requires
        shows_method(s, m),
    ensures
        s.ok == m.ok,
        s.protocol_error == m.protocol_error,
        s.transport_error == m.transport_error,
        s.internal_error == m.internal_error,
        s.retries == m.retries,
        s.latency.count == m.latencies.len(),
        s.latency.p50_us == percentile_value(m.latencies, (1, 60_000_000, 3), 50),
        s.latency.p95_us == percentile_value(m.latencies, (1, 60_000_000, 3), 95),
        s.latency.p99_us == percentile_value(m.latencies, (1, 60_000_000, 3), 99),
        s.latency.p50_us <= s.latency.p95_us <= s.latency.p99_us <= s.latency.max_us,
        m.latencies.len() == 0 ==> s.latency.max_us == 0,
{
}

/// The maximum of a summary is the highest value that counts as one with the highest latency:
/// never below it, the latency itself where it is below two thousand and forty-eight, and
/// otherwise less than a thousandth above it.
pub proof fn the_maximum_is_close(s: LatencySnapshot, values: Multiset<u64>, m: u64)
    requires
        summarizes(s, values),
        is_highest(values, m),
    ensures
        m <= s.max_us,
        m < 2048 ==> s.max_us == m,
        s.max_us - m <= m / 1024,
{
    assert(s.max_us == top(m));
    lemma_width(m);
    let w = width(m) as int;
    vstd::arithmetic::div_mod::lemma_fundamental_div_mod(m as int, w);
    vstd::arithmetic::div_mod::lemma_mod_bound(m as int, w);
    vstd::arithmetic::mul::lemma_mul_is_commutative(m as int / w, w);
}

proof fn lemma_width(v: u64)
    ensures
        width(v) >= 1,
        v < 2048 ==> width(v) == 1,
        v >= 2048 ==> width(v) <= v / 1024,
    decreases v,
{
    if v >= 2048 {
        lemma_width(v / 2);
        if v / 2 < 2048 {
            assert(width(v / 2) == 1);
        } else {
            assert(2 * ((v / 2) / 1024) <= v / 1024);
        }
    }
}

/// A latency counts as it is up to a minute, and as a minute above it; longer ones never count
/// for less than shorter ones.
pub proof fn latencies_are_counted_up_to_a_minute(a: u64, b: u64)
    ensures
        a <= 60_000_000 ==> clamped(a) == a,
        a >= 60_000_000 ==> clamped(a) == 60_000_000,
        a <= b ==> clamped(a) <= clamped(b),
{
}

/// A duration comes to its whole microseconds, as far as 64 bits reach.
pub proof fn durations_come_to_whole_microseconds(secs: u64, nanos: u32)
    requires
        secs <= 18_000_000_000_000,
        nanos < 1_000_000_000,
    ensures
        1_000 * whole_micros(secs, nanos) <= 1_000_000_000 * secs + nanos < 1_000 * (whole_micros(
            secs,
            nanos,
        ) + 1),
        whole_micros(u64::MAX, nanos) == u64::MAX,
{
}

/// One call more: its latency is taken in, the counter of its outcome and no other goes up, and
/// the attempts before the last one count as retries.
pub proof fn a_call_counts_once(
    m: MethodView,
    secs: u64,
    nanos: u32,
    outcome: Outcome,
    attempts: u32,
)
    requires
        m.ok < u64::MAX && m.protocol_error < u64::MAX && m.transport_error < u64::MAX
            && m.internal_error < u64::MAX,
        m.retries + attempts <= u64::MAX,
        m.latencies.len() < u64::MAX,
    ensures
        ({
            let a = called(m, secs, nanos, outcome, attempts);
            &&& a.ok + a.protocol_error + a.transport_error + a.internal_error == m.ok
                + m.protocol_error + m.transport_error + m.internal_error + 1
            &&& match outcome {
                Outcome::Success => a.ok == m.ok + 1,
                Outcome::ProtocolError => a.protocol_error == m.protocol_error + 1,
                Outcome::Transport => a.transport_error == m.transport_error + 1,
                Outcome::Internal => a.internal_error == m.internal_error + 1,
            }
            &&& a.ok >= m.ok && a.protocol_error >= m.protocol_error && a.transport_error
                >= m.transport_error && a.internal_error >= m.internal_error
            &&& a.retries == (if attempts == 0 {
                m.retries as int
            } else {
                m.retries + attempts - 1
            })
            &&& a.latencies == m.latencies.insert(clamped(whole_micros(secs, nanos)))
            &&& a.latencies.len() == m.latencies.len() + 1
        }),
{
}

/// A sample more in a histogram: one more in the bucket of its power of two and in no other, one
/// more in all, the sum grows by it as far as 64 bits reach, and the maximum is the larger one.
pub proof fn a_sample_counts_once(h: HistogramView, value: u64, b: int)
    requires
        h.buckets.len() == 64,
        0 <= b < 64,
        h.count < u64::MAX,
        h.buckets[b] < u64::MAX,
    ensures
        ({
            let a = observed(h, value);
            &&& a.buckets.len() == 64
            &&& a.count == h.count + 1
            &&& a.buckets[b] == h.buckets[b] + (if bucket_of(value) == b {
                1int
            } else {
                0
            })
            &&& h.sum + value <= u64::MAX ==> a.sum == h.sum + value
            &&& h.sum + value > u64::MAX ==> a.sum == u64::MAX
            &&& a.max >= h.max && a.max >= value && (a.max == h.max || a.max == value)
        }),
        value > 0 ==> vstd::arithmetic::power2::pow2(bucket_of(value)) <= value
            < 2 * vstd::arithmetic::power2::pow2(bucket_of(value)),
        no_samples().buckets[b] == 0 && no_samples().count == 0 && no_samples().sum == 0
            && no_samples().max == 0,
{
    bucket_bounds(value);
}

/// Counting begins at zero, everywhere.
pub proof fn counting_begins_at_zero()
    ensures
        no_samples().buckets.len() == 64,
        no_fetch().attempts == 0,
        no_fetch().retries == 0,
        no_fetch().stalls == 0,
        no_fetch().range_416 == 0,
        no_fetch().download_starts == 0,
        no_fetch().download_completions == 0,
        no_fetch().download_failures == 0,
        no_fetch().bytes_written == 0,
        no_fetch().download_ms == no_samples(),
        no_fetch().bytes_per_attempt == no_samples(),
        no_perf().pdf_count == 0,
        no_perf().heap_snapshot_count == 0,
        no_perf().trace_count == 0,
        no_perf().perf_failure_count == 0,
        no_perf().pdf_ms == no_samples(),
        no_perf().pdf_bytes == no_samples(),
        no_perf().print_preview_ms == no_samples(),
        no_perf().heap_snapshot_ms == no_samples(),
        no_perf().heap_snapshot_bytes == no_samples(),
        no_perf().trace_ms == no_samples(),
        no_perf().trace_bytes == no_samples(),
        no_perf().cpu_profile_ms == no_samples(),
        no_perf().heap_sample_ms == no_samples(),
        no_perf().coverage_take_ms == no_samples(),
        no_mutation().drain_failures == 0,
        no_mutation().drain_overflows == 0,
        no_mutation().anchor_invalidations == 0,
        no_activity().tab_count == 0,
        no_activity().request_count == 0,
        no_activity().error_count == 0,
        no_activity().last_activity_ms == 0,
        no_activity().recovery_count == 0,
        no_activity().recovery_failed_count == 0,
        no_activity().outbound_drop_count == 0,
        no_activity().filevault_state == 0,
        no_calls().ok == 0,
        no_calls().protocol_error == 0,
        no_calls().transport_error == 0,
        no_calls().internal_error == 0,
        no_calls().retries == 0,
        no_calls().latencies.len() == 0,
{
}

/// The highest of some values is one of them, and none is above it.
pub proof fn the_highest_is_one_of_them(values: Multiset<u64>, m: u64, w: u64)
    requires
        is_highest(values, m),
    ensures
        values.contains(m),
        values.contains(w) ==> w <= m,
{
}

/// Counters count on, and start anew behind their last value.
pub proof fn counters_count_on(a: u64, b: u64)
    ensures
        a < u64::MAX ==> next_count(a) == a + 1,
        next_count(u64::MAX) == 0,
        a + b <= u64::MAX ==> wrapped_sum(a, b) == a + b,
        a + b > u64::MAX ==> wrapped_sum(a, b) == a + b - 0x1_0000_0000_0000_0000,
{
}

} // verus!
