//! Counters of sessions, downloads and performance probes.
use vstd::prelude::*;

use crate::text_map::{in_order, TextMap};
use crate::trace::next_count;

verus! {

/// The counters of one session.
#[derive(Clone, Copy, Debug, PartialEq, Eq, Structural)]
pub struct SessionMetrics {
    pub tab_count: u32,
    pub request_count: u64,
    pub error_count: u64,
    /// Unix milliseconds; zero means never.
    pub last_activity_ms: i64,
    /// How often the browser was brought back after a crash.
    pub recovery_count: u64,
    /// How often it could not be brought back.
    pub recovery_failed_count: u64,
    /// Notifications dropped because the client did not keep up.
    pub outbound_drop_count: u64,
    /// What was seen of the disk encryption: 0 off, 1 on and unlocked, 2 on and locked, 3
    /// unknown.
    pub filevault_state: u64,
}

/// The counters of a session that has done nothing.
pub open spec fn no_activity() -> SessionMetrics {
    SessionMetrics {
        tab_count: 0,
        request_count: 0,
        error_count: 0,
        last_activity_ms: 0,
        recovery_count: 0,
        recovery_failed_count: 0,
        outbound_drop_count: 0,
        filevault_state: 0,
    }
}

impl Default for SessionMetrics {
    fn default() -> (m: SessionMetrics)
        ensures
            m == no_activity(),
    {
        SessionMetrics {
            tab_count: 0,
            request_count: 0,
            error_count: 0,
            last_activity_ms: 0,
            recovery_count: 0,
            recovery_failed_count: 0,
            outbound_drop_count: 0,
            filevault_state: 0,
        }
    }
}

/// What status tools show of a session.
#[derive(Clone, Debug)]
pub struct SessionSnapshot {
    pub session_id: String,
    pub tab_count: u32,
    pub request_count: u64,
    pub error_count: u64,
    pub last_activity_ms: i64,
    pub recovery_count: u64,
    pub recovery_failed_count: u64,
    pub outbound_drop_count: u64,
    pub filevault_state: u64,
}

/// `s` shows the counters `m` of the session `id`.
pub open spec fn shows(s: SessionSnapshot, id: Seq<char>, m: SessionMetrics) -> bool {
    &&& s.session_id@ == id
    &&& m == SessionMetrics {
        tab_count: s.tab_count,
        request_count: s.request_count,
        error_count: s.error_count,
        last_activity_ms: s.last_activity_ms,
        recovery_count: s.recovery_count,
        recovery_failed_count: s.recovery_failed_count,
        outbound_drop_count: s.outbound_drop_count,
        filevault_state: s.filevault_state,
    }
}

/// `std::time::SystemTime::now`, as whole milliseconds since the Unix epoch; none where the
/// clock stands before it. Nothing is claimed of the time.
#[verifier::external_body]
fn clock_millis() -> (ms: Option<u128>) {
    let since = std::time::SystemTime::now().duration_since(std::time::UNIX_EPOCH);
    since.ok().map(|d| d.as_millis())
}

/// The time of a clock reading in 64 bits; zero where the clock stands before the epoch.
pub fn unix_millis(reading: Option<u128>) -> (ms: i64)
    ensures
        reading is None ==> ms == 0,
        reading matches Some(n) ==> n <= i64::MAX ==> ms == n,
        reading matches Some(n) ==> ms == n as i64,
{
    match reading {
        Some(n) => #[verifier::truncate]
        (n as i64),
        None => 0,
    }
}

impl SessionMetrics {
    /// Notes activity at that time.
    pub fn touch_at(&mut self, now_ms: i64)
        ensures
            *final(self) == (SessionMetrics { last_activity_ms: now_ms, ..*old(self) }),
    {
        self.last_activity_ms = now_ms;
    }

    /// Notes activity now. Only the time of the last activity changes.
    pub fn touch(&mut self)
        ensures
            *final(self) == (SessionMetrics {
                last_activity_ms: final(self).last_activity_ms,
                ..*old(self)
            }),
    {
        let now: i64 = unix_millis(clock_millis());
        self.touch_at(now);
    }

    /// The counters as they are.
    pub fn snapshot(&self, session_id: &str) -> (s: SessionSnapshot)
        ensures
            shows(s, session_id@, *self),
    {
        SessionSnapshot {
            session_id: session_id.to_owned(),
            tab_count: self.tab_count,
            request_count: self.request_count,
            error_count: self.error_count,
            last_activity_ms: self.last_activity_ms,
            recovery_count: self.recovery_count,
            recovery_failed_count: self.recovery_failed_count,
            outbound_drop_count: self.outbound_drop_count,
            filevault_state: self.filevault_state,
        }
    }
}

/// The counters of all sessions.
pub struct Registry {
    sessions: TextMap<SessionMetrics>,
}

impl View for Registry {
    type V = Map<Seq<char>, SessionMetrics>;

    closed spec fn view(&self) -> Map<Seq<char>, SessionMetrics> {
        self.sessions@
    }
}

impl Registry {
    pub closed spec fn wf(self) -> bool {
        self.sessions.wf()
    }

    /// The ids of the sessions, in order.
    pub closed spec fn ids(self) -> Seq<Seq<char>> {
        self.sessions.keys()
    }

    pub fn new() -> (r: Registry)
        ensures
            r.wf(),
            r@ == Map::<Seq<char>, SessionMetrics>::empty(),
    {
        Registry { sessions: TextMap::new() }
    }

    /// The counters of a session, for change. A session that is not known yet starts with
    /// none.
    pub fn session<'a>(&'a mut self, session_id: &str) -> (m: &'a mut SessionMetrics)
        requires
            old(self).wf(),
        ensures
            *m == (if old(self)@.contains_key(session_id@) {
                old(self)@[session_id@]
            } else {
                no_activity()
            }),
            final(self).wf(),
            final(self)@ == old(self)@.insert(session_id@, *final(m)),
    {
        self.sessions.entry(session_id, SessionMetrics::default())
    }

    /// Forgets a session.
    pub fn remove(&mut self, session_id: &str) -> (r: Option<SessionMetrics>)
        requires
            old(self).wf(),
        ensures
            final(self).wf(),
            final(self)@ == old(self)@.remove(session_id@),
            match r {
                Some(m) => old(self)@.contains_key(session_id@) && m == old(self)@[session_id@],
                None => !old(self)@.contains_key(session_id@),
            },
    {
        self.sessions.remove(session_id)
    }

    /// All sessions, in the order of their ids.
    pub fn snapshot(&self) -> (all: Vec<SessionSnapshot>)
        requires
            self.wf(),
        ensures
            in_order(all@.map_values(|s: SessionSnapshot| s.session_id@)),
            forall|i: int|
                0 <= i < all@.len() ==> self@.contains_key((#[trigger] all@[i]).session_id@)
                    && shows(all@[i], all@[i].session_id@, self@[all@[i].session_id@]),
            forall|id: Seq<char>|
                #![trigger self@.contains_key(id)]
                self@.contains_key(id) ==> exists|i: int|
                    0 <= i < all@.len() && (#[trigger] all@[i]).session_id@ == id,
    {
        let mut all: Vec<SessionSnapshot> = Vec::new();
        let mut i: usize = 0;
        while i < self.sessions.len()
            invariant
                self.wf(),
                i <= self.ids().len(),
                all@.len() == i,
                forall|k: int|
                    0 <= k < i ==> (#[trigger] all@[k]).session_id@ == self.ids()[k]
                        && self@.contains_key(self.ids()[k]) && shows(
                        all@[k],
                        self.ids()[k],
                        self@[self.ids()[k]],
                    ),
            decreases self.ids().len() - i,
        {
            let (id, m) = self.sessions.at(i);
            all.push(m.snapshot(id));
            i += 1;
        }
        proof {
            self.sessions.lemma_order();
            assert(all@.map_values(|s: SessionSnapshot| s.session_id@) =~= self.ids());
            assert forall|id: Seq<char>|
                #![trigger self@.contains_key(id)]
                self@.contains_key(id) implies exists|i: int|
                    0 <= i < all@.len() && (#[trigger] all@[i]).session_id@ == id by {
                let k = self.ids().index_of(id);
                assert(self.ids()[k] == id);
                assert(all@[k].session_id@ == id);
            }
        }
        all
    }
}

/// A session that was asked for and then removed leaves the registry as if it had never
/// been there.
pub proof fn removing_undoes_asking(
    before: Map<Seq<char>, SessionMetrics>,
    id: Seq<char>,
    counted: SessionMetrics,
)
    requires
        !before.contains_key(id),
    ensures
        before.insert(id, counted).remove(id) == before,
{
    assert(before.insert(id, counted).remove(id) =~= before);
}

/// The bucket of a sample: the number of times that it can be halved before it is one.
/// Zero goes with one.
pub open spec fn bucket_of(value: u64) -> nat
    decreases value,
{
    if value < 2 {
        0
    } else {
        1 + bucket_of(value / 2)
    }
}

/// Bucket `i` holds the samples from 2^i up to twice that; the first one also holds zero.
pub proof fn bucket_bounds(value: u64)
    ensures
        bucket_of(value) < 64,
        value >= 1 ==> vstd::arithmetic::power2::pow2(bucket_of(value)) <= value,
        value < 2 * vstd::arithmetic::power2::pow2(bucket_of(value)),
    decreases value,
{
    vstd::arithmetic::power2::lemma2_to64();
    if value >= 2 {
        bucket_bounds(value / 2);
        vstd::arithmetic::power2::lemma_pow2_unfold(bucket_of(value));
        if bucket_of(value) >= 64 {
            vstd::arithmetic::power2::lemma2_to64_rest();
            assert(bucket_of(value) == 64);
        }
    }
}

/// Samples counted by powers of two.
#[derive(Debug)]
pub struct Histogram {
    buckets: [u64; 64],
    count: u64,
    sum: u64,
    max: u64,
}

/// What a histogram holds.
#[derive(Debug)]
pub struct HistogramSnapshot {
    /// How many samples each bucket holds.
    pub buckets: [u64; 64],
    pub count: u64,
    /// The sum of the samples, as far as 64 bits reach.
    pub sum: u64,
    pub max: u64,
}

/// The buckets of a histogram that was read: there must be as many as a histogram has.
pub fn read_buckets(v: &Vec<u64>) -> (r: Result<[u64; 64], String>)
    ensures
        match r {
            Ok(b) => v@.len() == 64 && b@ == v@,
            Err(msg) => v@.len() != 64 && msg@ == "expected 64 buckets, got "@ + crate::text::decimal(
                v@.len(),
            ),
        },
{
    if v.len() != 64 {
        let n = crate::text::decimal_text(v.len() as u64);
        return Err(crate::text::join2("expected 64 buckets, got ", n.as_str()));
    }
    let mut b: [u64; 64] = [0; 64];
    let mut i: usize = 0;
    while i < 64
        invariant
            i <= 64,
            v@.len() == 64,
            forall|k: int| 0 <= k < i ==> b@[k] == v@[k],
        decreases 64 - i,
    {
        b[i] = v[i];
        i += 1;
    }
    assert(b@ =~= v@);
    Ok(b)
}

/// The mathematical content of a histogram.
pub struct HistogramView {
    pub buckets: Seq<u64>,
    pub count: u64,
    pub sum: u64,
    pub max: u64,
}

/// A histogram without samples.
pub open spec fn no_samples() -> HistogramView {
    HistogramView { buckets: Seq::new(64, |i: int| 0u64), count: 0, sum: 0, max: 0 }
}

/// The histogram with one sample more.
pub open spec fn observed(h: HistogramView, value: u64) -> HistogramView {
    let b = bucket_of(value) as int;
    HistogramView {
        buckets: h.buckets.update(b, next_count(h.buckets[b])),
        count: next_count(h.count),
        sum: if h.sum + value > u64::MAX {
            u64::MAX
        } else {
            (h.sum + value) as u64
        },
        max: if value > h.max {
            value
        } else {
            h.max
        },
    }
}

impl View for Histogram {
    type V = HistogramView;

    closed spec fn view(&self) -> HistogramView {
        HistogramView {
            buckets: self.buckets@,
            count: self.count,
            sum: self.sum,
            max: self.max,
        }
    }
}

impl View for HistogramSnapshot {
    type V = HistogramView;

    open spec fn view(&self) -> HistogramView {
        HistogramView {
            buckets: self.buckets@,
            count: self.count,
            sum: self.sum,
            max: self.max,
        }
    }
}

impl Default for Histogram {
    fn default() -> (h: Histogram)
        ensures
            h@ == no_samples(),
    {
        let h = Histogram { buckets: [0u64; 64], count: 0, sum: 0, max: 0 };
        assert(h@.buckets =~= no_samples().buckets);
        h
    }
}

impl Histogram {
    /// A histogram without samples.
    pub fn new() -> (h: Histogram)
        ensures
            h@ == no_samples(),
    {
        Histogram::default()
    }

    /// Counts a sample.
    pub fn observe(&mut self, value: u64)
        ensures
            final(self)@ == observed(old(self)@, value),
    {
        let mut idx: usize = 0;
        let mut rest: u64 = value;
        proof {
            bucket_bounds(value);
        }
        while rest >= 2
            invariant
                idx + bucket_of(rest) == bucket_of(value),
                bucket_of(value) < 64,
            decreases rest,
        {
            rest = rest / 2;
            idx += 1;
        }
        let n: u64 = self.buckets[idx];
        self.buckets[idx] = n.wrapping_add(1);
        self.count = self.count.wrapping_add(1);
        self.sum = self.sum.saturating_add(value);
        if value > self.max {
            self.max = value;
        }
        assert(self@.buckets =~= observed(old(self)@, value).buckets);
    }

    /// The histogram as it is.
    pub fn snapshot(&self) -> (s: HistogramSnapshot)
        ensures
            s@ == self@,
    {
        HistogramSnapshot {
            buckets: self.buckets,
            count: self.count,
            sum: self.sum,
            max: self.max,
        }
    }
}

/// The sum of the first `n` buckets.
pub open spec fn bucket_total(buckets: Seq<u64>, n: int) -> int
    decreases n,
{
    if n <= 0 {
        0
    } else {
        bucket_total(buckets, n - 1) + buckets[n - 1]
    }
}

proof fn lemma_bucket_total_update(buckets: Seq<u64>, i: int, v: u64, n: int)
    requires
        0 <= i < buckets.len(),
        0 <= n <= buckets.len(),
    ensures
        bucket_total(buckets.update(i, v), n) == bucket_total(buckets, n) + (if i < n {
            v - buckets[i]
        } else {
            0
        }),
    decreases n,
{
    if n > 0 {
        lemma_bucket_total_update(buckets, i, v, n - 1);
    }
}

/// A histogram counts every sample in exactly one bucket: with each sample the buckets
/// together grow by one, as the count does, until a counter starts anew; and the maximum
/// is never below the sample.
pub proof fn every_sample_is_in_one_bucket(h: HistogramView, value: u64)
    requires
        h.buckets.len() == 64,
        h.count < u64::MAX,
        bucket_total(h.buckets, 64) == h.count,
    ensures
        bucket_total(observed(h, value).buckets, 64) == observed(h, value).count,
        observed(h, value).max >= value,
        observed(h, value).max >= h.max,
{
    bucket_bounds(value);
    let b = bucket_of(value) as int;
    lemma_bucket_le_total(h.buckets, b, 64);
    lemma_bucket_total_update(h.buckets, b, next_count(h.buckets[b]), 64);
}

proof fn lemma_bucket_le_total(buckets: Seq<u64>, i: int, n: int)
    requires
        0 <= i < n <= buckets.len(),
    ensures
        buckets[i] <= bucket_total(buckets, n),
        bucket_total(buckets, n) >= 0,
    decreases n,
{
    lemma_total_nonneg(buckets, n - 1);
    if i < n - 1 {
        lemma_bucket_le_total(buckets, i, n - 1);
    }
}

proof fn lemma_total_nonneg(buckets: Seq<u64>, n: int)
    ensures
        bucket_total(buckets, n) >= 0,
    decreases n,
{
    if n > 0 {
        lemma_total_nonneg(buckets, n - 1);
    }
}

/// The sum of two numbers in 64 bits.
pub open spec fn wrapped_sum(a: u64, b: u64) -> u64 {
    if a + b > u64::MAX {
        (a + b - u64::MAX - 1) as u64
    } else {
        (a + b) as u64
    }
}

/// Counters of downloads.
#[derive(Debug)]
pub struct FetchMetrics {
    /// HTTP attempts; one request is one attempt.
    pub attempts: u64,
    /// Attempts that failed and were made again.
    pub retries: u64,
    /// Attempts that the stall watchdog gave up.
    pub stalls: u64,
    /// Attempts that were answered with status 416.
    pub range_416: u64,
    /// Downloads started.
    pub download_starts: u64,
    /// Downloads that ended well.
    pub download_completions: u64,
    /// Downloads that were given up.
    pub download_failures: u64,
    /// Bytes written, over all attempts.
    pub bytes_written: u64,
    /// How long downloads took, in milliseconds.
    pub download_ms: Histogram,
    /// How much each attempt brought, in bytes.
    pub bytes_per_attempt: Histogram,
}

/// The counters of [`FetchMetrics`] as they were at one time.
#[derive(Debug)]
pub struct FetchSnapshot {
    pub attempts: u64,
    pub retries: u64,
    pub stalls: u64,
    pub range_416: u64,
    pub download_starts: u64,
    pub download_completions: u64,
    pub download_failures: u64,
    pub bytes_written: u64,
    pub download_ms: HistogramSnapshot,
    pub bytes_per_attempt: HistogramSnapshot,
}

/// The mathematical content of [`FetchMetrics`].
pub struct FetchView {
    pub attempts: u64,
    pub retries: u64,
    pub stalls: u64,
    pub range_416: u64,
    pub download_starts: u64,
    pub download_completions: u64,
    pub download_failures: u64,
    pub bytes_written: u64,
    pub download_ms: HistogramView,
    pub bytes_per_attempt: HistogramView,
}

impl FetchView {
    /// There is one duration for each download that ended well. This holds of new counters
    /// and whatever is recorded.
    pub open spec fn counts_agree(self) -> bool {
        self.download_completions == self.download_ms.count
    }
}

impl View for FetchMetrics {
    type V = FetchView;

    open spec fn view(&self) -> FetchView {
        FetchView {
            attempts: self.attempts,
            retries: self.retries,
            stalls: self.stalls,
            range_416: self.range_416,
            download_starts: self.download_starts,
            download_completions: self.download_completions,
            download_failures: self.download_failures,
            bytes_written: self.bytes_written,
            download_ms: self.download_ms@,
            bytes_per_attempt: self.bytes_per_attempt@,
        }
    }
}

impl View for FetchSnapshot {
    type V = FetchView;

    open spec fn view(&self) -> FetchView {
        FetchView {
            attempts: self.attempts,
            retries: self.retries,
            stalls: self.stalls,
            range_416: self.range_416,
            download_starts: self.download_starts,
            download_completions: self.download_completions,
            download_failures: self.download_failures,
            bytes_written: self.bytes_written,
            download_ms: self.download_ms@,
            bytes_per_attempt: self.bytes_per_attempt@,
        }
    }
}

/// Counters that have counted nothing.
pub open spec fn no_fetch() -> FetchView {
    FetchView {
        attempts: 0,
        retries: 0,
        stalls: 0,
        range_416: 0,
        download_starts: 0,
        download_completions: 0,
        download_failures: 0,
        bytes_written: 0,
        download_ms: no_samples(),
        bytes_per_attempt: no_samples(),
    }
}

impl Default for FetchMetrics {
    fn default() -> (m: FetchMetrics)
        ensures
            m@ == no_fetch(),
    {
        FetchMetrics {
            attempts: 0,
            retries: 0,
            stalls: 0,
            range_416: 0,
            download_starts: 0,
            download_completions: 0,
            download_failures: 0,
            bytes_written: 0,
            download_ms: Histogram::new(),
            bytes_per_attempt: Histogram::new(),
        }
    }
}

impl FetchMetrics {
    pub fn new() -> (m: FetchMetrics)
        ensures
            m@ == no_fetch(),
            m@.counts_agree(),
    {
        FetchMetrics::default()
    }

    /// Counts an attempt.
    pub fn record_attempt(&mut self)
        ensures
            final(self)@ == (FetchView {
                attempts: next_count(old(self)@.attempts),
                ..old(self)@
            }),
            old(self)@.counts_agree() ==> final(self)@.counts_agree(),
    {
        self.attempts = self.attempts.wrapping_add(1);
    }

    /// Counts a retry.
    pub fn record_retry(&mut self)
        ensures
            final(self)@ == (FetchView {
                retries: next_count(old(self)@.retries),
                ..old(self)@
            }),
            old(self)@.counts_agree() ==> final(self)@.counts_agree(),
    {
        self.retries = self.retries.wrapping_add(1);
    }

    /// Counts a stall.
    pub fn record_stall(&mut self)
        ensures
            final(self)@ == (FetchView {
                stalls: next_count(old(self)@.stalls),
                ..old(self)@
            }),
            old(self)@.counts_agree() ==> final(self)@.counts_agree(),
    {
        self.stalls = self.stalls.wrapping_add(1);
    }

    /// Counts an answer with status 416.
    pub fn record_range_416(&mut self)
        ensures
            final(self)@ == (FetchView {
                range_416: next_count(old(self)@.range_416),
                ..old(self)@
            }),
            old(self)@.counts_agree() ==> final(self)@.counts_agree(),
    {
        self.range_416 = self.range_416.wrapping_add(1);
    }

    /// Counts a download that starts.
    pub fn record_download_start(&mut self)
        ensures
            final(self)@ == (FetchView {
                download_starts: next_count(old(self)@.download_starts),
                ..old(self)@
            }),
            old(self)@.counts_agree() ==> final(self)@.counts_agree(),
    {
        self.download_starts = self.download_starts.wrapping_add(1);
    }

    /// Counts a download that ended well, and how long it took.
    pub fn record_download_completion(&mut self, total_ms: u64)
        ensures
            final(self)@ == (FetchView {
                download_completions: next_count(old(self)@.download_completions),
                download_ms: observed(old(self)@.download_ms, total_ms),
                ..old(self)@
            }),
            old(self)@.counts_agree() ==> final(self)@.counts_agree(),
    {
        self.download_completions = self.download_completions.wrapping_add(1);
        self.download_ms.observe(total_ms);
    }

    /// Counts a download that was given up.
    pub fn record_download_failure(&mut self)
        ensures
            final(self)@ == (FetchView {
                download_failures: next_count(old(self)@.download_failures),
                ..old(self)@
            }),
            old(self)@.counts_agree() ==> final(self)@.counts_agree(),
    {
        self.download_failures = self.download_failures.wrapping_add(1);
    }

    /// Adds bytes that were written.
    pub fn record_bytes(&mut self, n: u64)
        ensures
            final(self)@ == (FetchView {
                bytes_written: wrapped_sum(old(self)@.bytes_written, n),
                ..old(self)@
            }),
            old(self)@.counts_agree() ==> final(self)@.counts_agree(),
    {
        self.bytes_written = self.bytes_written.wrapping_add(n);
    }

    /// Counts what one attempt brought.
    pub fn record_attempt_bytes(&mut self, n: u64)
        ensures
            final(self)@ == (FetchView {
                bytes_per_attempt: observed(old(self)@.bytes_per_attempt, n),
                ..old(self)@
            }),
            old(self)@.counts_agree() ==> final(self)@.counts_agree(),
    {
        self.bytes_per_attempt.observe(n);
    }

    /// The counters as they are.
    pub fn snapshot(&self) -> (s: FetchSnapshot)
        ensures
            s@ == self@,
    {
        FetchSnapshot {
            attempts: self.attempts,
            retries: self.retries,
            stalls: self.stalls,
            range_416: self.range_416,
            download_starts: self.download_starts,
            download_completions: self.download_completions,
            download_failures: self.download_failures,
            bytes_written: self.bytes_written,
            download_ms: self.download_ms.snapshot(),
            bytes_per_attempt: self.bytes_per_attempt.snapshot(),
        }
    }
}

/// Counters of performance probes and PDFs.
#[derive(Debug)]
pub struct PerfMetrics {
    /// How long PDFs took, in milliseconds.
    pub pdf_ms: Histogram,
    /// How large PDFs were, in bytes.
    pub pdf_bytes: Histogram,
    /// How long print previews took.
    pub print_preview_ms: Histogram,
    /// How long heap snapshots took.
    pub heap_snapshot_ms: Histogram,
    /// How large heap snapshots were.
    pub heap_snapshot_bytes: Histogram,
    /// How long it took to stop a timeline.
    pub trace_ms: Histogram,
    /// How large timelines were.
    pub trace_bytes: Histogram,
    /// How long CPU profiles took.
    pub cpu_profile_ms: Histogram,
    /// How long allocation samples took.
    pub heap_sample_ms: Histogram,
    /// How long it took to take coverage.
    pub coverage_take_ms: Histogram,
    /// PDFs made.
    pub pdf_count: u64,
    /// Heap snapshots made.
    pub heap_snapshot_count: u64,
    /// Timelines stopped.
    pub trace_count: u64,
    /// Operations that failed.
    pub perf_failure_count: u64,
}

/// The counters of [`PerfMetrics`] as they were at one time.
#[derive(Debug)]
pub struct PerfSnapshot {
    pub pdf_ms: HistogramSnapshot,
    pub pdf_bytes: HistogramSnapshot,
    pub print_preview_ms: HistogramSnapshot,
    pub heap_snapshot_ms: HistogramSnapshot,
    pub heap_snapshot_bytes: HistogramSnapshot,
    pub trace_ms: HistogramSnapshot,
    pub trace_bytes: HistogramSnapshot,
    pub cpu_profile_ms: HistogramSnapshot,
    pub heap_sample_ms: HistogramSnapshot,
    pub coverage_take_ms: HistogramSnapshot,
    pub pdf_count: u64,
    pub heap_snapshot_count: u64,
    pub trace_count: u64,
    pub perf_failure_count: u64,
}

/// The mathematical content of [`PerfMetrics`].
pub struct PerfView {
    pub pdf_ms: HistogramView,
    pub pdf_bytes: HistogramView,
    pub print_preview_ms: HistogramView,
    pub heap_snapshot_ms: HistogramView,
    pub heap_snapshot_bytes: HistogramView,
    pub trace_ms: HistogramView,
    pub trace_bytes: HistogramView,
    pub cpu_profile_ms: HistogramView,
    pub heap_sample_ms: HistogramView,
    pub coverage_take_ms: HistogramView,
    pub pdf_count: u64,
    pub heap_snapshot_count: u64,
    pub trace_count: u64,
    pub perf_failure_count: u64,
}

impl PerfView {
    /// There is one duration and one size for each PDF, heap snapshot and timeline. This holds
    /// of new counters and whatever is recorded.
    pub open spec fn counts_agree(self) -> bool {
        &&& self.pdf_count == self.pdf_ms.count == self.pdf_bytes.count
        &&& self.heap_snapshot_count == self.heap_snapshot_ms.count
            == self.heap_snapshot_bytes.count
        &&& self.trace_count == self.trace_ms.count == self.trace_bytes.count
    }
}

impl View for PerfMetrics {
    type V = PerfView;

    open spec fn view(&self) -> PerfView {
        PerfView {
            pdf_ms: self.pdf_ms@,
            pdf_bytes: self.pdf_bytes@,
            print_preview_ms: self.print_preview_ms@,
            heap_snapshot_ms: self.heap_snapshot_ms@,
            heap_snapshot_bytes: self.heap_snapshot_bytes@,
            trace_ms: self.trace_ms@,
            trace_bytes: self.trace_bytes@,
            cpu_profile_ms: self.cpu_profile_ms@,
            heap_sample_ms: self.heap_sample_ms@,
            coverage_take_ms: self.coverage_take_ms@,
            pdf_count: self.pdf_count,
            heap_snapshot_count: self.heap_snapshot_count,
            trace_count: self.trace_count,
            perf_failure_count: self.perf_failure_count,
        }
    }
}

impl View for PerfSnapshot {
    type V = PerfView;

    open spec fn view(&self) -> PerfView {
        PerfView {
            pdf_ms: self.pdf_ms@,
            pdf_bytes: self.pdf_bytes@,
            print_preview_ms: self.print_preview_ms@,
            heap_snapshot_ms: self.heap_snapshot_ms@,
            heap_snapshot_bytes: self.heap_snapshot_bytes@,
            trace_ms: self.trace_ms@,
            trace_bytes: self.trace_bytes@,
            cpu_profile_ms: self.cpu_profile_ms@,
            heap_sample_ms: self.heap_sample_ms@,
            coverage_take_ms: self.coverage_take_ms@,
            pdf_count: self.pdf_count,
            heap_snapshot_count: self.heap_snapshot_count,
            trace_count: self.trace_count,
            perf_failure_count: self.perf_failure_count,
        }
    }
}

/// Counters that have counted nothing.
pub open spec fn no_perf() -> PerfView {
    PerfView {
        pdf_ms: no_samples(),
        pdf_bytes: no_samples(),
        print_preview_ms: no_samples(),
        heap_snapshot_ms: no_samples(),
        heap_snapshot_bytes: no_samples(),
        trace_ms: no_samples(),
        trace_bytes: no_samples(),
        cpu_profile_ms: no_samples(),
        heap_sample_ms: no_samples(),
        coverage_take_ms: no_samples(),
        pdf_count: 0,
        heap_snapshot_count: 0,
        trace_count: 0,
        perf_failure_count: 0,
    }
}

impl Default for PerfMetrics {
    fn default() -> (m: PerfMetrics)
        ensures
            m@ == no_perf(),
    {
        PerfMetrics {
            pdf_ms: Histogram::new(),
            pdf_bytes: Histogram::new(),
            print_preview_ms: Histogram::new(),
            heap_snapshot_ms: Histogram::new(),
            heap_snapshot_bytes: Histogram::new(),
            trace_ms: Histogram::new(),
            trace_bytes: Histogram::new(),
            cpu_profile_ms: Histogram::new(),
            heap_sample_ms: Histogram::new(),
            coverage_take_ms: Histogram::new(),
            pdf_count: 0,
            heap_snapshot_count: 0,
            trace_count: 0,
            perf_failure_count: 0,
        }
    }
}

impl PerfMetrics {
    pub fn new() -> (m: PerfMetrics)
        ensures
            m@ == no_perf(),
            m@.counts_agree(),
    {
        PerfMetrics::default()
    }

    /// Counts a PDF.
    pub fn record_pdf(&mut self, ms: u64, bytes: u64)
        ensures
            final(self)@ == (PerfView {
                pdf_ms: observed(old(self)@.pdf_ms, ms),
                pdf_bytes: observed(old(self)@.pdf_bytes, bytes),
                pdf_count: next_count(old(self)@.pdf_count),
                ..old(self)@
            }),
            old(self)@.counts_agree() ==> final(self)@.counts_agree(),
    {
        self.pdf_ms.observe(ms);
        self.pdf_bytes.observe(bytes);
        self.pdf_count = self.pdf_count.wrapping_add(1);
    }

    /// Counts a print preview.
    pub fn record_print_preview(&mut self, ms: u64)
        ensures
            final(self)@ == (PerfView {
                print_preview_ms: observed(old(self)@.print_preview_ms, ms),
                ..old(self)@
            }),
            old(self)@.counts_agree() ==> final(self)@.counts_agree(),
    {
        self.print_preview_ms.observe(ms);
    }

    /// Counts a heap snapshot.
    pub fn record_heap_snapshot(&mut self, ms: u64, bytes: u64)
        ensures
            final(self)@ == (PerfView {
                heap_snapshot_ms: observed(old(self)@.heap_snapshot_ms, ms),
                heap_snapshot_bytes: observed(old(self)@.heap_snapshot_bytes, bytes),
                heap_snapshot_count: next_count(old(self)@.heap_snapshot_count),
                ..old(self)@
            }),
            old(self)@.counts_agree() ==> final(self)@.counts_agree(),
    {
        self.heap_snapshot_ms.observe(ms);
        self.heap_snapshot_bytes.observe(bytes);
        self.heap_snapshot_count = self.heap_snapshot_count.wrapping_add(1);
    }

    /// Counts a timeline.
    pub fn record_trace(&mut self, ms: u64, bytes: u64)
        ensures
            final(self)@ == (PerfView {
                trace_ms: observed(old(self)@.trace_ms, ms),
                trace_bytes: observed(old(self)@.trace_bytes, bytes),
                trace_count: next_count(old(self)@.trace_count),
                ..old(self)@
            }),
            old(self)@.counts_agree() ==> final(self)@.counts_agree(),
    {
        self.trace_ms.observe(ms);
        self.trace_bytes.observe(bytes);
        self.trace_count = self.trace_count.wrapping_add(1);
    }

    /// Counts a CPU profile.
    pub fn record_cpu_profile(&mut self, ms: u64)
        ensures
            final(self)@ == (PerfView {
                cpu_profile_ms: observed(old(self)@.cpu_profile_ms, ms),
                ..old(self)@
            }),
            old(self)@.counts_agree() ==> final(self)@.counts_agree(),
    {
        self.cpu_profile_ms.observe(ms);
    }

    /// Counts an allocation sample.
    pub fn record_heap_sample(&mut self, ms: u64)
        ensures
            final(self)@ == (PerfView {
                heap_sample_ms: observed(old(self)@.heap_sample_ms, ms),
                ..old(self)@
            }),
            old(self)@.counts_agree() ==> final(self)@.counts_agree(),
    {
        self.heap_sample_ms.observe(ms);
    }

    /// Counts a coverage report.
    pub fn record_coverage_take(&mut self, ms: u64)
        ensures
            final(self)@ == (PerfView {
                coverage_take_ms: observed(old(self)@.coverage_take_ms, ms),
                ..old(self)@
            }),
            old(self)@.counts_agree() ==> final(self)@.counts_agree(),
    {
        self.coverage_take_ms.observe(ms);
    }

    /// Counts an operation that failed.
    pub fn record_failure(&mut self)
        ensures
            final(self)@ == (PerfView {
                perf_failure_count: next_count(old(self)@.perf_failure_count),
                ..old(self)@
            }),
            old(self)@.counts_agree() ==> final(self)@.counts_agree(),
    {
        self.perf_failure_count = self.perf_failure_count.wrapping_add(1);
    }

    /// The counters as they are.
    pub fn snapshot(&self) -> (s: PerfSnapshot)
        ensures
            s@ == self@,
    {
        PerfSnapshot {
            pdf_ms: self.pdf_ms.snapshot(),
            pdf_bytes: self.pdf_bytes.snapshot(),
            print_preview_ms: self.print_preview_ms.snapshot(),
            heap_snapshot_ms: self.heap_snapshot_ms.snapshot(),
            heap_snapshot_bytes: self.heap_snapshot_bytes.snapshot(),
            trace_ms: self.trace_ms.snapshot(),
            trace_bytes: self.trace_bytes.snapshot(),
            cpu_profile_ms: self.cpu_profile_ms.snapshot(),
            heap_sample_ms: self.heap_sample_ms.snapshot(),
            coverage_take_ms: self.coverage_take_ms.snapshot(),
            pdf_count: self.pdf_count,
            heap_snapshot_count: self.heap_snapshot_count,
            trace_count: self.trace_count,
            perf_failure_count: self.perf_failure_count,
        }
    }
}

/// Counters of the page change tracker.
#[derive(Debug)]
pub struct MutationMetrics {
    /// Times the log of a page could not be read.
    pub drain_failures: u64,
    /// Times the log had lost records.
    pub drain_overflows: u64,
    /// Times the place to go on from was gone.
    pub anchor_invalidations: u64,
}

/// The counters of [`MutationMetrics`] as they were at one time.
#[derive(Debug)]
pub struct MutationSnapshot {
    pub drain_failures: u64,
    pub drain_overflows: u64,
    pub anchor_invalidations: u64,
}

/// The mathematical content of [`MutationMetrics`].
pub struct MutationView {
    pub drain_failures: u64,
    pub drain_overflows: u64,
    pub anchor_invalidations: u64,
}

impl View for MutationMetrics {
    type V = MutationView;

    open spec fn view(&self) -> MutationView {
        MutationView {
            drain_failures: self.drain_failures,
            drain_overflows: self.drain_overflows,
            anchor_invalidations: self.anchor_invalidations,
        }
    }
}

impl View for MutationSnapshot {
    type V = MutationView;

    open spec fn view(&self) -> MutationView {
        MutationView {
            drain_failures: self.drain_failures,
            drain_overflows: self.drain_overflows,
            anchor_invalidations: self.anchor_invalidations,
        }
    }
}

/// Counters that have counted nothing.
pub open spec fn no_mutation() -> MutationView {
    MutationView {
        drain_failures: 0,
        drain_overflows: 0,
        anchor_invalidations: 0,
    }
}

impl Default for MutationMetrics {
    fn default() -> (m: MutationMetrics)
        ensures
            m@ == no_mutation(),
    {
        MutationMetrics {
            drain_failures: 0,
            drain_overflows: 0,
            anchor_invalidations: 0,
        }
    }
}

impl MutationMetrics {
    pub fn new() -> (m: MutationMetrics)
        ensures
            m@ == no_mutation(),
    {
        MutationMetrics::default()
    }

    /// Counts a log that could not be read.
    pub fn record_drain_failure(&mut self)
        ensures
            final(self)@ == (MutationView {
                drain_failures: next_count(old(self)@.drain_failures),
                ..old(self)@
            }),
    {
        self.drain_failures = self.drain_failures.wrapping_add(1);
    }

    /// Counts a log that had lost records.
    pub fn record_drain_overflow(&mut self)
        ensures
            final(self)@ == (MutationView {
                drain_overflows: next_count(old(self)@.drain_overflows),
                ..old(self)@
            }),
    {
        self.drain_overflows = self.drain_overflows.wrapping_add(1);
    }

    /// Counts a place to go on from that was gone.
    pub fn record_anchor_invalidation(&mut self)
        ensures
            final(self)@ == (MutationView {
                anchor_invalidations: next_count(old(self)@.anchor_invalidations),
                ..old(self)@
            }),
    {
        self.anchor_invalidations = self.anchor_invalidations.wrapping_add(1);
    }

    /// The counters as they are.
    pub fn snapshot(&self) -> (s: MutationSnapshot)
        ensures
            s@ == self@,
    {
        MutationSnapshot {
            drain_failures: self.drain_failures,
            drain_overflows: self.drain_overflows,
            anchor_invalidations: self.anchor_invalidations,
        }
    }
}

} // verus!
