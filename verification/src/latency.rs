//! Latency histograms.
use hdrhistogram::CreationError;
use vstd::multiset::Multiset;
use vstd::prelude::*;

verus! {

/// The longest latency that is told apart: one minute, in microseconds.
pub const HIST_HIGH_US: u64 = 60_000_000;

/// Significant decimal digits that a histogram keeps.
pub const HIST_SIGFIG: u8 = 3;

/// A histogram of the `hdrhistogram` crate.
#[verifier::external_body]
pub struct Samples {
    inner: hdrhistogram::Histogram<u64>,
}

/// Why a histogram could not be made.
#[verifier::external_type_specification]
#[verifier::external_body]
pub struct ExCreationError(hdrhistogram::CreationError);

/// The values that were recorded.
pub uninterp spec fn recorded(h: Samples) -> Multiset<u64>;

/// The lowest value told apart, the highest value recorded, and the digits kept.
pub uninterp spec fn bounds(h: Samples) -> (u64, u64, u8);

/// The value at a percentile of some recorded values, for a histogram with these bounds.
pub uninterp spec fn percentile_value(
    values: Multiset<u64>,
    limits: (u64, u64, u8),
    percent: u32,
) -> u64;

/// How many neighbouring values a histogram that keeps three digits counts as one.
pub open spec fn width(v: u64) -> u64
    decreases v,
{
    if v < 2048 {
        1
    } else {
        (2 * width(v / 2)) as u64
    }
}

/// The highest value that is counted as one with `v`.
pub open spec fn top(v: u64) -> int {
    (v / width(v)) * width(v) + width(v) - 1
}

pub open spec fn is_highest(values: Multiset<u64>, m: u64) -> bool {
    values.contains(m) && forall|w: u64| values.contains(w) ==> w <= m
}

/// `hdrhistogram::Histogram::new_with_bounds`: an empty histogram. It is made where the
/// bounds are in order, here a lowest value of one, a highest one of two at least that
/// fits in 32 bits, and five digits at most.
#[verifier::external_body]
fn new_histogram(low: u64, high: u64, digits: u8) -> (r: Result<Samples, CreationError>)
    ensures
        low == 1 && 2 <= high <= u32::MAX && digits <= 5 ==> r is Ok,
        r matches Ok(h) ==> recorded(h) == Multiset::<u64>::empty() && bounds(h) == (
            low,
            high,
            digits,
        ),
{
    let made = hdrhistogram::Histogram::<u64>::new_with_bounds(low, high, digits);
    made.map(|inner| Samples { inner })
}

/// `hdrhistogram::Histogram::record`: counts a value. One up to the highest value is always
/// counted; one that is refused leaves the histogram as it is.
#[verifier::external_body]
fn record_value(h: &mut Samples, value: u64) -> (ok: bool)
    ensures
        value <= bounds(*old(h)).1 ==> ok,
        recorded(*final(h)) == (if ok {
            recorded(*old(h)).insert(value)
        } else {
            recorded(*old(h))
        }),
        bounds(*final(h)) == bounds(*old(h)),
{
    h.inner.record(value).is_ok()
}

/// `hdrhistogram::Histogram::len`: how many values were recorded, up to the highest number
/// of 64 bits.
#[verifier::external_body]
fn recorded_len(h: &Samples) -> (n: u64)
    ensures
        n == (if recorded(*h).len() <= u64::MAX {
            recorded(*h).len()
        } else {
            u64::MAX as nat
        }),
{
    h.inner.len()
}

/// `hdrhistogram::Histogram::max`, of a histogram that keeps three digits of values from
/// one on: the highest value that counts as one with the highest recorded value; zero
/// where nothing was recorded.
#[verifier::external_body]
fn recorded_max(h: &Samples) -> (r: u64)
    requires
        bounds(*h).0 == 1 && bounds(*h).2 == 3,
        bounds(*h).1 <= u32::MAX,
    ensures
        recorded(*h).len() == 0 ==> r == 0,
        forall|m: u64| is_highest(recorded(*h), m) ==> r == #[trigger] top(m),
{
    h.inner.max()
}

/// `hdrhistogram::Histogram::value_at_percentile`: the value that this percentage of the
/// recorded values does not exceed, as far as the histogram tells values apart. It depends
/// on the recorded values and the bounds; it grows with the percentage, stays at or below
/// the highest value, and is zero where nothing was recorded.
#[verifier::external_body]
fn value_at_percentile(h: &Samples, percent: u32) -> (r: u64)
    requires
        percent <= 99,
        recorded(*h).len() <= u64::MAX,
        bounds(*h).0 == 1 && bounds(*h).2 == 3,
        bounds(*h).1 <= u32::MAX,
    ensures
        r == percentile_value(recorded(*h), bounds(*h), percent),
        recorded(*h).len() == 0 ==> r == 0,
        forall|p: u32|
            p <= percent ==> #[trigger] percentile_value(recorded(*h), bounds(*h), p) <= r,
        forall|m: u64| is_highest(recorded(*h), m) ==> r <= #[trigger] top(m),
{
    h.inner.value_at_percentile(percent.into())
}

/// `hdrhistogram::Histogram::reset`: forgets every value and keeps the bounds.
#[verifier::external_body]
fn reset_histogram(h: &mut Samples)
    ensures
        recorded(*final(h)) == Multiset::<u64>::empty(),
        bounds(*final(h)) == bounds(*old(h)),
{
    h.inner.reset()
}

/// Latencies in microseconds.
pub struct LatencyHistogram {
    inner: Samples,
    name: &'static str,
}

/// What a histogram tells of its latencies.
#[derive(Clone, Copy, Debug, PartialEq, Eq, Structural)]
pub struct LatencySnapshot {
    pub p50_us: u64,
    pub p95_us: u64,
    pub p99_us: u64,
    pub max_us: u64,
    pub count: u64,
}

/// A latency as it is counted: one above a minute counts as a minute.
pub open spec fn clamped(us: u64) -> u64 {
    if us <= HIST_HIGH_US {
        us
    } else {
        HIST_HIGH_US
    }
}

/// The bounds of every latency histogram.
pub open spec fn latency_bounds() -> (u64, u64, u8) {
    (1, HIST_HIGH_US, HIST_SIGFIG)
}

/// `s` is what some latencies come to.
pub open spec fn summarizes(s: LatencySnapshot, values: Multiset<u64>) -> bool {
    &&& s.p50_us == percentile_value(values, latency_bounds(), 50)
    &&& s.p95_us == percentile_value(values, latency_bounds(), 95)
    &&& s.p99_us == percentile_value(values, latency_bounds(), 99)
    &&& values.len() == 0 ==> s.max_us == 0
    &&& forall|m: u64| is_highest(values, m) ==> s.max_us == #[trigger] top(m)
    &&& s.count == values.len()
    &&& s.p50_us <= s.p95_us <= s.p99_us
    &&& s.p99_us <= s.max_us
}

impl View for LatencyHistogram {
    type V = Multiset<u64>;

    closed spec fn view(&self) -> Multiset<u64> {
        recorded(self.inner)
    }
}

proof fn lemma_highest_exists(values: Multiset<u64>)
    requires
        values.len() > 0,
    ensures
        exists|m: u64| is_highest(values, m),
    decreases values.len(),
{
    let c = values.choose();
    assert(values.contains(c));
    let rest = values.remove(c);
    if rest.len() == 0 {
        assert forall|w: u64| values.contains(w) implies w <= c by {
            if w != c {
                assert(rest.contains(w));
                assert(rest.count(w) > 0);
                vstd::multiset::lemma_multiset_empty_len(rest);
            }
        }
        assert(is_highest(values, c));
    } else {
        lemma_highest_exists(rest);
        let m = choose|m: u64| is_highest(rest, m);
        assert(values.contains(m));
        let top = if m >= c {
            m
        } else {
            c
        };
        assert forall|w: u64| values.contains(w) implies w <= top by {
            if w != c {
                assert(rest.contains(w));
            }
        }
        assert(is_highest(values, top));
    }
}

impl LatencyHistogram {
    /// The histogram holds clamped latencies, no more than can be counted.
    pub closed spec fn wf(self) -> bool {
        &&& bounds(self.inner) == latency_bounds()
        &&& recorded(self.inner).len() <= u64::MAX
    }

    pub closed spec fn label(self) -> Seq<char> {
        self.name@
    }

    /// An empty histogram.
    pub fn new(name: &'static str) -> (r: Result<LatencyHistogram, CreationError>)
        ensures
            r matches Ok(h) && h.wf() && h@ == Multiset::<u64>::empty() && h.label() == name@,
    {
        match new_histogram(1, HIST_HIGH_US, HIST_SIGFIG) {
            Ok(inner) => Ok(LatencyHistogram { inner, name }),
            Err(e) => Err(e),
        }
    }

    /// An empty histogram. Its bounds are in order, so there always is one.
    pub fn shared(name: &'static str) -> (h: LatencyHistogram)
        ensures
            h.wf(),
            h@ == Multiset::<u64>::empty(),
            h.label() == name@,
    {
        match LatencyHistogram::new(name) {
            Ok(h) => h,
            Err(_) => vstd::pervasive::unreached(),
        }
    }

    /// The name of the metric.
    pub fn name(&self) -> (s: &'static str)
        ensures
            s@ == self.label(),
    {
        self.name
    }

    /// Counts a latency; one above a minute counts as a minute. A histogram that can count
    /// no further stays as it is.
    pub fn record_micros(&mut self, us: u64)
        requires
            old(self).wf(),
        ensures
            final(self).wf(),
            final(self).label() == old(self).label(),
            final(self)@ == (if old(self)@.len() < u64::MAX {
                old(self)@.insert(clamped(us))
            } else {
                old(self)@
            }),
    {
        let value: u64 = if us <= HIST_HIGH_US {
            us
        } else {
            HIST_HIGH_US
        };
        if recorded_len(&self.inner) < u64::MAX {
            let _ = record_value(&mut self.inner, value);
        }
    }

    /// Counts a duration of that many seconds and nanoseconds.
    pub fn record_duration(&mut self, secs: u64, nanos: u32)
        requires
            old(self).wf(),
        ensures
            final(self).wf(),
            final(self).label() == old(self).label(),
            final(self)@ == (if old(self)@.len() < u64::MAX {
                old(self)@.insert(clamped(whole_micros(secs, nanos)))
            } else {
                old(self)@
            }),
    {
        let us: u128 = secs as u128 * 1_000_000 + (nanos / 1000) as u128;
        let us: u64 = if us > u64::MAX as u128 {
            u64::MAX
        } else {
            us as u64
        };
        self.record_micros(us);
    }

    /// The percentiles, the highest latency and the count.
    pub fn snapshot(&self) -> (s: LatencySnapshot)
        requires
            self.wf(),
        ensures
            summarizes(s, self@),
    {
        let max_us: u64 = recorded_max(&self.inner);
        let p50_us: u64 = value_at_percentile(&self.inner, 50);
        let p95_us: u64 = value_at_percentile(&self.inner, 95);
        let p99_us: u64 = value_at_percentile(&self.inner, 99);
        proof {
            if recorded(self.inner).len() > 0 {
                lemma_highest_exists(recorded(self.inner));
                let m = choose|m: u64| is_highest(recorded(self.inner), m);
                assert(max_us == top(m));
                assert(p99_us <= top(m));
            }
        }
        LatencySnapshot { p50_us, p95_us, p99_us, max_us, count: recorded_len(&self.inner) }
    }

    /// Forgets every latency.
    pub fn reset(&mut self)
        requires
            old(self).wf(),
        ensures
            final(self).wf(),
            final(self).label() == old(self).label(),
            final(self)@ == Multiset::<u64>::empty(),
    {
        reset_histogram(&mut self.inner);
    }
}

/// The whole microseconds of a duration, as far as 64 bits reach.
pub open spec fn whole_micros(secs: u64, nanos: u32) -> u64 {
    let us = secs * 1_000_000 + nanos / 1000;
    if us > u64::MAX {
        u64::MAX
    } else {
        us as u64
    }
}

} // verus!
