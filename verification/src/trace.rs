//! Session traces: the events, the bounded buffer in front of the file, rotation and the
//! manifest.
use std::collections::VecDeque;
use vstd::prelude::*;

use crate::broker_client::{opt_text, texts};
use crate::digest::{
    compute_hmac_sha256, hex_bytes, hex_decode, hex_text, hmac_sha256_of, is_hex, sha256_hex,
    sha256_of,
};
use crate::error::opt_json;
use crate::json::{array_of, Json, JsonView, ObjectBuilder};
use crate::mcp::{copy_bytes, object_view};
use crate::redact::{
    denylist_clean, redact_value, redacted, redaction_is_denylist_clean, Redactor,
};
use crate::text::{
    chars_of, decimal, decimal_padded, decimal_text, ends_with_text, is_digit, join2,
    join3, lemma_decimal_reads_back, lemma_padded_reads_back, padded_text, parse_unsigned,
    parse_unsigned_chars, slice_chars, starts_with_text, string_of, text_ends_with,
    text_starts_with,
};
use crate::vision_frame::uint_view;

verus! {

/// The size at which a trace file is rotated: 100 MiB.
pub const DEFAULT_MAX_BYTES: u64 = 100 * 1024 * 1024;

/// The age at which a trace file is rotated: one hour.
pub const DEFAULT_MAX_AGE_SECS: u64 = 3_600;

/// How many events wait for the writer at most.
pub const TRACE_CHANNEL_CAP: usize = 1024;

/// The window in which drops are counted for the alarm, in milliseconds.
pub const DROP_ALARM_WINDOW_MILLIS: u64 = 60_000;

/// How many drops within the window raise the alarm.
pub const DROP_ALARM_THRESHOLD: usize = 100;

/// The shortest sleep of the writer, in nanoseconds.
pub const MIN_WAKE_NANOS: u128 = 50_000_000;

/// One record of a trace.
#[derive(Debug)]
pub enum TraceEvent {
    /// An outbound method call.
    CdpRequest {
        ts_ms: u64,
        session_id: String,
        target_id: Option<String>,
        id: i64,
        method: String,
        params: Json,
    },
    /// The reply to a call.
    CdpResponse {
        ts_ms: u64,
        session_id: String,
        target_id: Option<String>,
        id: i64,
        result: Option<Json>,
        error: Option<Json>,
    },
    /// An inbound event.
    CdpEvent {
        ts_ms: u64,
        session_id: String,
        target_id: Option<String>,
        method: String,
        params: Json,
    },
    /// The outcome of a tool call.
    Action {
        ts_ms: u64,
        session_id: String,
        tab_id: String,
        tool: String,
        args: Json,
        result: Json,
    },
    /// A screenshot that was saved beside the trace.
    Screenshot {
        ts_ms: u64,
        session_id: String,
        tab_id: String,
        after_action: String,
        png_path: String,
    },
    /// A snapshot of the page that was saved beside the trace.
    DomSnapshot {
        ts_ms: u64,
        session_id: String,
        tab_id: String,
        snapshot_seq: u64,
        hash: String,
        snapshot_path: String,
    },
}

/// What a trace event is.
pub enum TraceEventView {
    CdpRequest {
        ts_ms: u64,
        session_id: Seq<char>,
        target_id: Option<Seq<char>>,
        id: i64,
        method: Seq<char>,
        params: JsonView,
    },
    CdpResponse {
        ts_ms: u64,
        session_id: Seq<char>,
        target_id: Option<Seq<char>>,
        id: i64,
        result: Option<JsonView>,
        error: Option<JsonView>,
    },
    CdpEvent {
        ts_ms: u64,
        session_id: Seq<char>,
        target_id: Option<Seq<char>>,
        method: Seq<char>,
        params: JsonView,
    },
    Action {
        ts_ms: u64,
        session_id: Seq<char>,
        tab_id: Seq<char>,
        tool: Seq<char>,
        args: JsonView,
        result: JsonView,
    },
    Screenshot {
        ts_ms: u64,
        session_id: Seq<char>,
        tab_id: Seq<char>,
        after_action: Seq<char>,
        png_path: Seq<char>,
    },
    DomSnapshot {
        ts_ms: u64,
        session_id: Seq<char>,
        tab_id: Seq<char>,
        snapshot_seq: u64,
        hash: Seq<char>,
        snapshot_path: Seq<char>,
    },
}

impl View for TraceEvent {
    type V = TraceEventView;

    open spec fn view(&self) -> TraceEventView {
        match *self {
            TraceEvent::CdpRequest { ts_ms, session_id, target_id, id, method, params } => {
                TraceEventView::CdpRequest {
                    ts_ms,
                    session_id: session_id@,
                    target_id: opt_text(target_id),
                    id,
                    method: method@,
                    params: params@,
                }
            },
            TraceEvent::CdpResponse { ts_ms, session_id, target_id, id, result, error } => {
                TraceEventView::CdpResponse {
                    ts_ms,
                    session_id: session_id@,
                    target_id: opt_text(target_id),
                    id,
                    result: opt_json(result),
                    error: opt_json(error),
                }
            },
            TraceEvent::CdpEvent { ts_ms, session_id, target_id, method, params } => {
                TraceEventView::CdpEvent {
                    ts_ms,
                    session_id: session_id@,
                    target_id: opt_text(target_id),
                    method: method@,
                    params: params@,
                }
            },
            TraceEvent::Action { ts_ms, session_id, tab_id, tool, args, result } => {
                TraceEventView::Action {
                    ts_ms,
                    session_id: session_id@,
                    tab_id: tab_id@,
                    tool: tool@,
                    args: args@,
                    result: result@,
                }
            },
            TraceEvent::Screenshot { ts_ms, session_id, tab_id, after_action, png_path } => {
                TraceEventView::Screenshot {
                    ts_ms,
                    session_id: session_id@,
                    tab_id: tab_id@,
                    after_action: after_action@,
                    png_path: png_path@,
                }
            },
            TraceEvent::DomSnapshot {
                ts_ms,
                session_id,
                tab_id,
                snapshot_seq,
                hash,
                snapshot_path,
            } => {
                TraceEventView::DomSnapshot {
                    ts_ms,
                    session_id: session_id@,
                    tab_id: tab_id@,
                    snapshot_seq,
                    hash: hash@,
                    snapshot_path: snapshot_path@,
                }
            },
        }
    }
}

/// The name of an event's kind.
pub open spec fn kind_of(ev: TraceEventView) -> Seq<char> {
    match ev {
        TraceEventView::CdpRequest { .. } => "cdp_request"@,
        TraceEventView::CdpResponse { .. } => "cdp_response"@,
        TraceEventView::CdpEvent { .. } => "cdp_event"@,
        TraceEventView::Action { .. } => "action"@,
        TraceEventView::Screenshot { .. } => "screenshot"@,
        TraceEventView::DomSnapshot { .. } => "dom_snapshot"@,
    }
}

impl TraceEvent {
    /// The name of the event's kind.
    pub fn kind(&self) -> (s: &'static str)
        ensures
            s@ == kind_of(self@),
    {
        match self {
            TraceEvent::CdpRequest { .. } => "cdp_request",
            TraceEvent::CdpResponse { .. } => "cdp_response",
            TraceEvent::CdpEvent { .. } => "cdp_event",
            TraceEvent::Action { .. } => "action",
            TraceEvent::Screenshot { .. } => "screenshot",
            TraceEvent::DomSnapshot { .. } => "dom_snapshot",
        }
    }
}

pub open spec fn redacted_opt(patterns: Seq<Seq<char>>, v: Option<JsonView>) -> Option<JsonView> {
    match v {
        Some(j) => Some(redacted(patterns, j)),
        None => None,
    }
}

/// The event with its payload redacted: parameters, arguments, results and errors. All
/// other fields stay.
pub open spec fn redacted_event(patterns: Seq<Seq<char>>, ev: TraceEventView) -> TraceEventView {
    match ev {
        TraceEventView::CdpRequest { ts_ms, session_id, target_id, id, method, params } => {
            TraceEventView::CdpRequest {
                ts_ms,
                session_id,
                target_id,
                id,
                method,
                params: redacted(patterns, params),
            }
        },
        TraceEventView::CdpResponse { ts_ms, session_id, target_id, id, result, error } => {
            TraceEventView::CdpResponse {
                ts_ms,
                session_id,
                target_id,
                id,
                result: redacted_opt(patterns, result),
                error: redacted_opt(patterns, error),
            }
        },
        TraceEventView::CdpEvent { ts_ms, session_id, target_id, method, params } => {
            TraceEventView::CdpEvent {
                ts_ms,
                session_id,
                target_id,
                method,
                params: redacted(patterns, params),
            }
        },
        TraceEventView::Action { ts_ms, session_id, tab_id, tool, args, result } => {
            TraceEventView::Action {
                ts_ms,
                session_id,
                tab_id,
                tool,
                args: redacted(patterns, args),
                result: redacted(patterns, result),
            }
        },
        other => other,
    }
}

fn redact_opt(v: Option<Json>, r: &Redactor) -> (j: Option<Json>)
    requires
        r.wf(),
    ensures
        opt_json(j) == redacted_opt(r@, opt_json(v)),
{
    match v {
        Some(v) => Some(redact_value(&v, r)),
        None => None,
    }
}

/// Redacts the payload of an event.
pub fn redact_event(ev: TraceEvent, r: &Redactor) -> (out: TraceEvent)
    requires
        r.wf(),
    ensures
        out@ == redacted_event(r@, ev@),
{
    match ev {
        TraceEvent::CdpRequest { ts_ms, session_id, target_id, id, method, params } => {
            TraceEvent::CdpRequest {
                ts_ms,
                session_id,
                target_id,
                id,
                method,
                params: redact_value(&params, r),
            }
        },
        TraceEvent::CdpResponse { ts_ms, session_id, target_id, id, result, error } => {
            TraceEvent::CdpResponse {
                ts_ms,
                session_id,
                target_id,
                id,
                result: redact_opt(result, r),
                error: redact_opt(error, r),
            }
        },
        TraceEvent::CdpEvent { ts_ms, session_id, target_id, method, params } => {
            TraceEvent::CdpEvent {
                ts_ms,
                session_id,
                target_id,
                method,
                params: redact_value(&params, r),
            }
        },
        TraceEvent::Action { ts_ms, session_id, tab_id, tool, args, result } => {
            TraceEvent::Action {
                ts_ms,
                session_id,
                tab_id,
                tool,
                args: redact_value(&args, r),
                result: redact_value(&result, r),
            }
        },
        other => other,
    }
}

/// Redaction keeps the kind of an event and everything that is not payload: times, ids,
/// names, paths and digests.
pub proof fn redaction_keeps_metadata(patterns: Seq<Seq<char>>, ev: TraceEventView)
    ensures
        kind_of(redacted_event(patterns, ev)) == kind_of(ev),
        metadata_of(redacted_event(patterns, ev)) == metadata_of(ev),
{
}

/// The event without its payload.
pub open spec fn metadata_of(ev: TraceEventView) -> TraceEventView {
    match ev {
        TraceEventView::CdpRequest { ts_ms, session_id, target_id, id, method, .. } => {
            TraceEventView::CdpRequest {
                ts_ms,
                session_id,
                target_id,
                id,
                method,
                params: JsonView::Null,
            }
        },
        TraceEventView::CdpResponse { ts_ms, session_id, target_id, id, .. } => {
            TraceEventView::CdpResponse {
                ts_ms,
                session_id,
                target_id,
                id,
                result: None,
                error: None,
            }
        },
        TraceEventView::CdpEvent { ts_ms, session_id, target_id, method, .. } => {
            TraceEventView::CdpEvent {
                ts_ms,
                session_id,
                target_id,
                method,
                params: JsonView::Null,
            }
        },
        TraceEventView::Action { ts_ms, session_id, tab_id, tool, .. } => {
            TraceEventView::Action {
                ts_ms,
                session_id,
                tab_id,
                tool,
                args: JsonView::Null,
                result: JsonView::Null,
            }
        },
        other => other,
    }
}

/// The payload holds nothing under a sensitive key.
pub open spec fn payload_clean(ev: TraceEventView) -> bool {
    match ev {
        TraceEventView::CdpRequest { params, .. } => denylist_clean(params),
        TraceEventView::CdpResponse { result, error, .. } => {
            &&& result matches Some(v) ==> denylist_clean(v)
            &&& error matches Some(v) ==> denylist_clean(v)
        },
        TraceEventView::CdpEvent { params, .. } => denylist_clean(params),
        TraceEventView::Action { args, result, .. } => denylist_clean(args) && denylist_clean(
            result,
        ),
        _ => true,
    }
}

/// No event that was redacted carries the value of a sensitive key, whatever the patterns.
pub proof fn redacted_events_are_clean(patterns: Seq<Seq<char>>, ev: TraceEventView)
    ensures
        payload_clean(redacted_event(patterns, ev)),
{
    match ev {
        TraceEventView::CdpRequest { params, .. } => {
            redaction_is_denylist_clean(patterns, params);
        },
        TraceEventView::CdpResponse { result, error, .. } => {
            if let Some(v) = result {
                redaction_is_denylist_clean(patterns, v);
            }
            if let Some(v) = error {
                redaction_is_denylist_clean(patterns, v);
            }
        },
        TraceEventView::CdpEvent { params, .. } => {
            redaction_is_denylist_clean(patterns, params);
        },
        TraceEventView::Action { args, result, .. } => {
            redaction_is_denylist_clean(patterns, args);
            redaction_is_denylist_clean(patterns, result);
        },
        _ => {},
    }
}

/// How a trace is written.
#[derive(Debug)]
pub struct TraceOptions {
    pub max_bytes: u64,
    /// The age at which a file is rotated: whole seconds, and nanoseconds besides.
    pub max_age_secs: u64,
    pub max_age_nanos: u32,
    pub buffer_cap: usize,
    /// Regular expressions whose matches are replaced in payload strings.
    pub redact_patterns: Vec<String>,
    /// The key under which the manifest is signed.
    pub hmac_key: Option<Vec<u8>>,
}

impl Default for TraceOptions {
    fn default() -> (o: TraceOptions)
        ensures
            o.max_bytes == DEFAULT_MAX_BYTES,
            o.max_age_secs == DEFAULT_MAX_AGE_SECS,
            o.max_age_nanos == 0,
            o.buffer_cap == TRACE_CHANNEL_CAP,
            o.redact_patterns@.len() == 0,
            o.hmac_key is None,
    {
        TraceOptions {
            max_bytes: DEFAULT_MAX_BYTES,
            max_age_secs: DEFAULT_MAX_AGE_SECS,
            max_age_nanos: 0,
            buffer_cap: TRACE_CHANNEL_CAP,
            redact_patterns: Vec::new(),
            hmac_key: None,
        }
    }
}

/// The number that a variable holds, or the default where it is unset or holds none.
pub open spec fn number_or(raw: Option<Seq<char>>, default: u64) -> nat {
    match raw {
        Some(s) => match parse_unsigned(s, u64::MAX as nat) {
            Some(n) => n,
            None => default as nat,
        },
        None => default as nat,
    }
}

/// The view of an optional string slice.
pub open spec fn opt_str(s: Option<&str>) -> Option<Seq<char>> {
    match s {
        Some(t) => Some(t@),
        None => None,
    }
}

fn read_number_or(raw: Option<&str>, default: u64) -> (n: u64)
    ensures
        n == number_or(opt_str(raw), default),
{
    match raw {
        Some(s) => {
            let chars = chars_of(s);
            match parse_unsigned_chars(chars.as_slice(), u64::MAX) {
                Some(n) => n,
                None => default,
            }
        },
        None => default,
    }
}

/// The signing key that a variable holds: behind `hex:` its bytes in hexadecimal, else the
/// bytes of the text. What is not hexadecimal behind the prefix is taken as text.
pub open spec fn key_of(raw: Seq<char>) -> Option<Seq<u8>> {
    if raw.len() == 0 {
        None
    } else if starts_with_text(raw, "hex:"@) {
        let rest = vstd::utf8::encode_utf8(raw.skip(4));
        if is_hex(rest) {
            Some(hex_bytes(rest))
        } else {
            Some(rest)
        }
    } else {
        Some(vstd::utf8::encode_utf8(raw))
    }
}

/// The view of an optional byte vector.
pub open spec fn opt_bytes(b: Option<Vec<u8>>) -> Option<Seq<u8>> {
    match b {
        Some(v) => Some(v@),
        None => None,
    }
}

fn read_key(raw: &str) -> (r: Option<Vec<u8>>)
    ensures
        opt_bytes(r) == key_of(raw@),
{
    if raw.is_empty() {
        return None;
    }
    if text_starts_with(raw, "hex:") {
        proof {
            reveal_strlit("hex:");
        }
        let chars = chars_of(raw);
        let tail = slice_chars(chars.as_slice(), 4, chars.len());
        assert(tail@ =~= raw@.skip(4));
        let rest = string_of(tail.as_slice());
        let bytes = rest.as_str().as_bytes();
        match hex_decode(bytes) {
            Some(b) => Some(b),
            None => {
                let v = copy_bytes(bytes, 0, bytes.len());
                assert(v@ =~= bytes@);
                Some(v)
            },
        }
    } else {
        let bytes = raw.as_bytes();
        let v = copy_bytes(bytes, 0, bytes.len());
        assert(v@ =~= bytes@);
        Some(v)
    }
}

impl TraceOptions {
    /// The options that the environment asks for, given the values of its variables for the
    /// size, the age and the key.
    pub fn from_env(
        max_bytes: Option<&str>,
        max_age_secs: Option<&str>,
        hmac_key: Option<&str>,
    ) -> (o: TraceOptions)
        ensures
            o.max_bytes == number_or(opt_str(max_bytes), DEFAULT_MAX_BYTES),
            o.max_age_secs == number_or(opt_str(max_age_secs), DEFAULT_MAX_AGE_SECS),
            o.max_age_nanos == 0,
            o.buffer_cap == TRACE_CHANNEL_CAP,
            o.redact_patterns@.len() == 0,
            opt_bytes(o.hmac_key) == (match hmac_key {
                Some(k) => key_of(k@),
                None => None,
            }),
    {
        TraceOptions {
            max_bytes: read_number_or(max_bytes, DEFAULT_MAX_BYTES),
            max_age_secs: read_number_or(max_age_secs, DEFAULT_MAX_AGE_SECS),
            max_age_nanos: 0,
            buffer_cap: TRACE_CHANNEL_CAP,
            redact_patterns: Vec::new(),
            hmac_key: match hmac_key {
                Some(k) => read_key(k),
                None => None,
            },
        }
    }

    /// The age at which a file is rotated, in nanoseconds.
    pub fn max_age(&self) -> (nanos: u128)
        ensures
            nanos == self.max_age_secs * 1_000_000_000 + self.max_age_nanos,
    {
        self.max_age_secs as u128 * 1_000_000_000 + self.max_age_nanos as u128
    }
}

/// The drop times that are not older than the cutoff: those at the front that are older
/// are forgotten.
pub open spec fn recent_drops(times: Seq<u64>, cutoff: u64) -> Seq<u64>
    decreases times.len(),
{
    if times.len() > 0 && times[0] < cutoff {
        recent_drops(times.drop_first(), cutoff)
    } else {
        times
    }
}

/// The beginning of the window that ends at `now`.
pub open spec fn window_start(now_ms: u64) -> u64 {
    if now_ms >= DROP_ALARM_WINDOW_MILLIS {
        (now_ms - DROP_ALARM_WINDOW_MILLIS) as u64
    } else {
        0
    }
}

/// The drop times after a drop at `now`.
pub open spec fn drops_after(times: Seq<u64>, now_ms: u64) -> Seq<u64> {
    recent_drops(times, window_start(now_ms)).push(now_ms)
}

pub open spec fn is_power_of_two(n: u64) -> bool {
    exists|k: nat| n == #[trigger] vstd::arithmetic::power2::pow2(k)
}

fn power_of_two(n: u64) -> (r: bool)
    ensures
        r == is_power_of_two(n),
{
    let mut p: u64 = 1;
    let ghost mut k: nat = 0;
    proof {
        vstd::arithmetic::power2::lemma2_to64();
    }
    while p < n && p <= u64::MAX / 2
        invariant
            p >= 1,
            p == vstd::arithmetic::power2::pow2(k),
            forall|j: nat| j < k ==> #[trigger] vstd::arithmetic::power2::pow2(j) < n,
        decreases u64::MAX - p,
    {
        proof {
            vstd::arithmetic::power2::lemma_pow2_unfold((k + 1) as nat);
        }
        p = p * 2;
        proof {
            k = k + 1;
        }
    }
    proof {
        if p != n {
            assert forall|j: nat| n != #[trigger] vstd::arithmetic::power2::pow2(j) by {
                if j > k {
                    vstd::arithmetic::power2::lemma_pow2_strictly_increases(k, j);
                    if p < n {
                        vstd::arithmetic::power2::lemma_pow2_unfold((k + 1) as nat);
                        if j > k + 1 {
                            vstd::arithmetic::power2::lemma_pow2_strictly_increases(
                                (k + 1) as nat,
                                j,
                            );
                        }
                    }
                }
            }
        }
    }
    p == n
}

/// What recording an event led to.
#[derive(Clone, Copy, Debug, PartialEq, Eq, Structural)]
pub struct Recorded {
    /// Where this drop is to be logged, how many events were dropped so far.
    pub warn_total: Option<u64>,
    /// The drop-rate alarm went off.
    pub alarm_fired: bool,
}

/// The buffer of a session's trace: events wait here for the file, and the oldest ones
/// give way when it is full.
pub struct TraceWriter {
    session_id: String,
    buffer: VecDeque<TraceEvent>,
    buffer_cap: usize,
    dropped: u64,
    screenshot_seq: u64,
    shutting_down: bool,
    drop_window: VecDeque<u64>,
    drop_alarm_active: bool,
}

/// What waits after an event was taken in: a full buffer loses its oldest event.
pub open spec fn taken_in(waiting: Seq<TraceEvent>, ev: TraceEvent, cap: int) -> Seq<TraceEvent> {
    if waiting.len() >= cap {
        waiting.drop_first().push(ev)
    } else {
        waiting.push(ev)
    }
}

/// What recording an event does to the buffer: a full one loses its oldest event, and one
/// that shuts down takes in none.
pub open spec fn took_in(
    before: TraceWriter,
    after: TraceWriter,
    ev: TraceEvent,
    now_ms: u64,
    r: Recorded,
) -> bool {
    let taken = taken_in(before.events(), ev, before.cap() as int);
    &&& after.same_setup(before)
    &&& after.closing() == before.closing()
    &&& if before.closing() {
        &&& after.events() == before.events()
        &&& after.dropped() == next_count(before.dropped())
        &&& after.drop_times() == before.drop_times()
        &&& after.alarm() == before.alarm()
        &&& r == (Recorded { warn_total: None, alarm_fired: false })
    } else if before.events().len() < before.cap() {
        &&& after.events() == taken
        &&& after.dropped() == before.dropped()
        &&& after.drop_times() == before.drop_times()
        &&& after.alarm() == before.alarm()
        &&& r == (Recorded { warn_total: None, alarm_fired: false })
    } else {
        &&& after.events() == taken
        &&& after.dropped() == next_count(before.dropped())
        &&& after.drop_times() == drops_after(before.drop_times(), now_ms)
        &&& after.alarm() == (before.alarm() || after.drop_times().len() >= DROP_ALARM_THRESHOLD)
        &&& r.alarm_fired == (after.alarm() && !before.alarm())
        &&& r.warn_total == (if before.dropped() == 0 || is_power_of_two(before.dropped()) {
            Some(next_count(before.dropped()))
        } else {
            None
        })
    }
}

/// What the start of a shutdown does to the buffer.
pub open spec fn shut_down(before: TraceWriter, after: TraceWriter) -> bool {
    &&& after.same_setup(before)
    &&& after.events() == before.events()
    &&& after.dropped() == before.dropped()
    &&& after.drop_times() == before.drop_times()
    &&& after.alarm() == before.alarm()
    &&& after.closing()
}

impl TraceWriter {
    /// The events that wait, the oldest first.
    pub closed spec fn events(self) -> Seq<TraceEvent> {
        self.buffer@
    }

    pub closed spec fn cap(self) -> usize {
        self.buffer_cap
    }

    pub closed spec fn dropped(self) -> u64 {
        self.dropped
    }

    /// When the latest drops were.
    pub closed spec fn drop_times(self) -> Seq<u64> {
        self.drop_window@
    }

    pub closed spec fn alarm(self) -> bool {
        self.drop_alarm_active
    }

    pub closed spec fn closing(self) -> bool {
        self.shutting_down
    }

    pub closed spec fn shots(self) -> u64 {
        self.screenshot_seq
    }

    pub closed spec fn session(self) -> Seq<char> {
        self.session_id@
    }

    /// The buffer has room for an event, and never holds more than its capacity.
    pub closed spec fn wf(self) -> bool {
        self.buffer_cap >= 1 && self.buffer@.len() <= self.buffer_cap
    }

    /// Everything but the events and what counts drops is as in `other`.
    pub open spec fn same_setup(self, other: TraceWriter) -> bool {
        &&& self.cap() == other.cap()
        &&& self.session() == other.session()
        &&& self.shots() == other.shots()
    }

    /// Drops are counted as in `other`, the alarm is as there, and both shut down or neither.
    pub open spec fn same_drops(self, other: TraceWriter) -> bool {
        &&& self.dropped() == other.dropped()
        &&& self.drop_times() == other.drop_times()
        &&& self.alarm() == other.alarm()
        &&& self.closing() == other.closing()
    }

    /// A writer with an empty buffer of that capacity, of one event at least.
    pub fn new(session_id: &str, buffer_cap: usize) -> (w: TraceWriter)
        ensures
            w.wf(),
            w.events() == Seq::<TraceEvent>::empty(),
            w.cap() == (if buffer_cap == 0 {
                1
            } else {
                buffer_cap
            }),
            w.dropped() == 0,
            w.drop_times() == Seq::<u64>::empty(),
            !w.alarm(),
            !w.closing(),
            w.shots() == 0,
            w.session() == session_id@,
    {
        TraceWriter {
            session_id: session_id.to_owned(),
            buffer: VecDeque::new(),
            buffer_cap: if buffer_cap == 0 {
                1
            } else {
                buffer_cap
            },
            dropped: 0,
            screenshot_seq: 0,
            shutting_down: false,
            drop_window: VecDeque::new(),
            drop_alarm_active: false,
        }
    }

    pub fn session_id(&self) -> (s: &str)
        ensures
            s@ == self.session(),
    {
        self.session_id.as_str()
    }

    pub fn dropped_count(&self) -> (n: u64)
        ensures
            n == self.dropped(),
    {
        self.dropped
    }

    pub fn pending_len(&self) -> (n: usize)
        ensures
            n == self.events().len(),
    {
        self.buffer.len()
    }

    pub fn drop_alarm_active(&self) -> (r: bool)
        ensures
            r == self.alarm(),
    {
        self.drop_alarm_active
    }

    /// Releases the alarm.
    pub fn clear_alarm(&mut self)
        requires
            old(self).wf(),
        ensures
            final(self).wf(),
            final(self).same_setup(*old(self)),
            final(self).events() == old(self).events(),
            final(self).dropped() == old(self).dropped(),
            final(self).drop_times() == old(self).drop_times(),
            final(self).closing() == old(self).closing(),
            !final(self).alarm(),
    {
        self.drop_alarm_active = false;
    }

    /// Begins to shut down, and says whether that was the first time. Events that are
    /// recorded from now on are dropped.
    pub fn shutdown(&mut self) -> (first: bool)
        requires
            old(self).wf(),
        ensures
            final(self).wf(),
            shut_down(*old(self), *final(self)),
            first == !old(self).closing(),
    {
        let first = !self.shutting_down;
        self.shutting_down = true;
        first
    }

    /// Notes a drop and says whether it set off the alarm.
    fn note_drop_for_alarm(&mut self, now_ms: u64) -> (fired: bool)
        requires
            old(self).wf(),
        ensures
            final(self).wf(),
            final(self).same_setup(*old(self)),
            final(self).events() == old(self).events(),
            final(self).dropped() == old(self).dropped(),
            final(self).closing() == old(self).closing(),
            final(self).drop_times() == drops_after(old(self).drop_times(), now_ms),
            final(self).alarm() == (old(self).alarm() || final(self).drop_times().len()
                >= DROP_ALARM_THRESHOLD),
            fired == (final(self).alarm() && !old(self).alarm()),
    {
        let cutoff: u64 = now_ms.saturating_sub(DROP_ALARM_WINDOW_MILLIS);
        while self.drop_window.len() > 0 && self.drop_window[0] < cutoff
            invariant
                self.wf(),
                cutoff == window_start(now_ms),
                self.same_setup(*old(self)),
                self.events() == old(self).events(),
                self.dropped() == old(self).dropped(),
                self.closing() == old(self).closing(),
                self.alarm() == old(self).alarm(),
                recent_drops(self.drop_times(), cutoff) == recent_drops(
                    old(self).drop_times(),
                    cutoff,
                ),
            decreases self.drop_window@.len(),
        {
            let ghost before = self.drop_window@;
            let _ = self.drop_window.pop_front();
            assert(self.drop_window@ =~= before.drop_first());
        }
        self.drop_window.push_back(now_ms);
        if self.drop_window.len() >= DROP_ALARM_THRESHOLD && !self.drop_alarm_active {
            self.drop_alarm_active = true;
            true
        } else {
            false
        }
    }

    /// Takes in an event at the time `now_ms`. A full buffer loses its oldest event; a
    /// writer that shuts down takes in none.
    pub fn record(&mut self, ev: TraceEvent, now_ms: u64) -> (r: Recorded)
        requires
            old(self).wf(),
        ensures
            final(self).wf(),
            took_in(*old(self), *final(self), ev, now_ms, r),
    {
        if self.shutting_down {
            self.dropped = self.dropped.wrapping_add(1);
            return Recorded { warn_total: None, alarm_fired: false };
        }
        let mut warn_total: Option<u64> = None;
        let mut alarm_fired = false;
        if self.buffer.len() >= self.buffer_cap {
            let ghost before = self.buffer@;
            let _ = self.buffer.pop_front();
            assert(self.buffer@ =~= before.drop_first());
            let prev: u64 = self.dropped;
            self.dropped = prev.wrapping_add(1);
            if prev == 0 || power_of_two(prev) {
                warn_total = Some(self.dropped);
            }
            alarm_fired = self.note_drop_for_alarm(now_ms);
        }
        self.buffer.push_back(ev);
        Recorded { warn_total, alarm_fired }
    }

    /// Takes the oldest event out.
    pub fn pop(&mut self) -> (r: Option<TraceEvent>)
        requires
            old(self).wf(),
        ensures
            final(self).wf(),
            final(self).same_setup(*old(self)),
            final(self).same_drops(*old(self)),
            match r {
                Some(ev) => old(self).events().len() > 0 && ev == old(self).events()[0]
                    && final(self).events() == old(self).events().drop_first(),
                None => old(self).events().len() == 0 && final(self).events()
                    == old(self).events(),
            },
    {
        let ghost before = self.buffer@;
        let r = self.buffer.pop_front();
        assert(r is Some ==> self.buffer@ =~= before.drop_first());
        assert(r is None ==> self.buffer@ =~= before);
        r
    }

    /// The number of the next picture.
    fn next_shot(&mut self) -> (n: u64)
        requires
            old(self).wf(),
        ensures
            n == old(self).shots(),
            final(self).shots() == next_count(n),
            final(self).wf(),
            final(self).cap() == old(self).cap(),
            final(self).session() == old(self).session(),
            final(self).events() == old(self).events(),
            final(self).same_drops(*old(self)),
    {
        let n: u64 = self.screenshot_seq;
        self.screenshot_seq = n.wrapping_add(1);
        n
    }

    /// The file name for a screenshot behind a tool call, at the time `unix_ms`.
    pub fn screenshot_name(&mut self, tool: &str, unix_ms: u64) -> (name: String)
        requires
            old(self).wf(),
        ensures
            name@ == screenshot_name_of(tool@, unix_ms, old(self).shots()),
            final(self).shots() == next_count(old(self).shots()),
            final(self).wf(),
            final(self).cap() == old(self).cap(),
            final(self).session() == old(self).session(),
            final(self).events() == old(self).events(),
            final(self).same_drops(*old(self)),
    {
        let safe = sanitize_for_filename(tool);
        let seq: u64 = self.next_shot();
        let ms = decimal_text(unix_ms);
        let n = padded_text(seq, 6);
        let head = join3(safe.as_str(), "-", ms.as_str());
        let tail = join3("-", n.as_str(), ".png");
        let name = join2(head.as_str(), tail.as_str());
        assert(name@ =~= screenshot_name_of(tool@, unix_ms, old(self).shots()));
        name
    }

    /// The file name for a screencast frame with that extension, at the time `unix_ms`.
    pub fn screencast_name(&mut self, ext: &str, unix_ms: u64) -> (name: String)
        requires
            old(self).wf(),
        ensures
            name@ == screencast_name_of(ext@, unix_ms, old(self).shots()),
            final(self).shots() == next_count(old(self).shots()),
            final(self).wf(),
            final(self).cap() == old(self).cap(),
            final(self).session() == old(self).session(),
            final(self).events() == old(self).events(),
            final(self).same_drops(*old(self)),
    {
        let safe = sanitize_for_filename(ext);
        let seq: u64 = self.next_shot();
        let ms = decimal_text(unix_ms);
        let n = padded_text(seq, 6);
        let head = join3("vision.frame-", ms.as_str(), "-");
        let tail = join3(n.as_str(), ".", safe.as_str());
        let name = join2(head.as_str(), tail.as_str());
        assert(name@ =~= screencast_name_of(ext@, unix_ms, old(self).shots()));
        name
    }
}

/// A buffer has room for an event, and never holds more than its capacity.
pub proof fn lemma_capacity(w: TraceWriter)
    requires
        w.wf(),
    ensures
        w.cap() >= 1,
        w.events().len() <= w.cap(),
{
}

/// A counter one further; behind its last value it starts anew.
pub open spec fn next_count(n: u64) -> u64 {
    if n == u64::MAX {
        0
    } else {
        (n + 1) as u64
    }
}

/// A character that may stand in a file name.
pub open spec fn is_safe_char(c: char) -> bool {
    ||| 'a' <= c <= 'z'
    ||| 'A' <= c <= 'Z'
    ||| '0' <= c <= '9'
    ||| c == '-'
    ||| c == '_'
    ||| c == '.'
}

/// The text with every other character replaced by an underscore.
pub open spec fn sanitized(s: Seq<char>) -> Seq<char> {
    s.map_values(
        |c: char|
            if is_safe_char(c) {
                c
            } else {
                '_'
            },
    )
}

/// Makes a text fit for a file name.
pub fn sanitize_for_filename(s: &str) -> (r: String)
    ensures
        r@ == sanitized(s@),
{
    let chars = chars_of(s);
    let mut out: Vec<char> = Vec::new();
    let mut i: usize = 0;
    while i < chars.len()
        invariant
            i <= chars@.len(),
            chars@ == s@,
            out@ == sanitized(s@.take(i as int)),
        decreases chars@.len() - i,
    {
        let c = chars[i];
        if ('a' <= c && c <= 'z') || ('A' <= c && c <= 'Z') || ('0' <= c && c <= '9') || c == '-'
            || c == '_' || c == '.' {
            out.push(c);
        } else {
            out.push('_');
        }
        i += 1;
        assert(out@ =~= sanitized(s@.take(i as int)));
    }
    assert(s@.take(s@.len() as int) =~= s@);
    string_of(out.as_slice())
}

/// A sanitised text holds nothing that could leave its directory, and sanitising it again
/// changes nothing.
pub proof fn sanitized_is_safe(s: Seq<char>)
    ensures
        sanitized(s).len() == s.len(),
        forall|i: int| 0 <= i < s.len() ==> is_safe_char(#[trigger] sanitized(s)[i]),
        sanitized(sanitized(s)) == sanitized(s),
{
    assert(sanitized(sanitized(s)) =~= sanitized(s));
}

pub open spec fn screenshot_name_of(tool: Seq<char>, unix_ms: u64, seq: u64) -> Seq<char> {
    sanitized(tool) + "-"@ + decimal(unix_ms as nat) + "-"@ + decimal_padded(seq as nat, 6)
        + ".png"@
}

pub open spec fn screencast_name_of(ext: Seq<char>, unix_ms: u64, seq: u64) -> Seq<char> {
    "vision.frame-"@ + decimal(unix_ms as nat) + "-"@ + decimal_padded(seq as nat, 6) + "."@
        + sanitized(ext)
}

/// Screenshots of a session never share a file name, even where they were taken in the
/// same millisecond: their numbers tell the names apart.
pub proof fn screenshot_names_differ(
    tool1: Seq<char>,
    ms1: u64,
    n1: u64,
    tool2: Seq<char>,
    ms2: u64,
    n2: u64,
)
    requires
        n1 != n2,
    ensures
        screenshot_name_of(tool1, ms1, n1) != screenshot_name_of(tool2, ms2, n2),
{
    reveal_strlit("-");
    reveal_strlit(".png");
    let x = screenshot_name_of(tool1, ms1, n1);
    let y = screenshot_name_of(tool2, ms2, n2);
    let a = decimal_padded(n1 as nat, 6);
    let b = decimal_padded(n2 as nat, 6);
    lemma_padded_reads_back(n1 as nat, 6);
    lemma_padded_reads_back(n2 as nat, 6);
    assert(x[x.len() - 5 - a.len()] == '-');
    assert(y[y.len() - 5 - b.len()] == '-');
    assert(forall|i: int| 0 <= i < a.len() ==> x[x.len() - 4 - a.len() + i] == #[trigger] a[i]);
    assert(forall|i: int| 0 <= i < b.len() ==> y[y.len() - 4 - b.len() + i] == #[trigger] b[i]);
    if x == y {
        if a.len() < b.len() {
            assert(is_digit(b[b.len() - a.len() - 1]));
        } else if b.len() < a.len() {
            assert(is_digit(a[a.len() - b.len() - 1]));
        } else {
            assert(a =~= b);
        }
    }
}

/// Screencast frames of a session never share a file name either.
pub proof fn screencast_names_differ(
    ext1: Seq<char>,
    ms1: u64,
    n1: u64,
    ext2: Seq<char>,
    ms2: u64,
    n2: u64,
)
    requires
        n1 != n2,
    ensures
        screencast_name_of(ext1, ms1, n1) != screencast_name_of(ext2, ms2, n2),
{
    reveal_strlit("-");
    reveal_strlit(".");
    reveal_strlit("vision.frame-");
    let x = screencast_name_of(ext1, ms1, n1);
    let y = screencast_name_of(ext2, ms2, n2);
    let c = decimal(ms1 as nat);
    let d = decimal(ms2 as nat);
    let a = decimal_padded(n1 as nat, 6);
    let b = decimal_padded(n2 as nat, 6);
    lemma_decimal_reads_back(ms1 as nat);
    lemma_decimal_reads_back(ms2 as nat);
    lemma_padded_reads_back(n1 as nat, 6);
    lemma_padded_reads_back(n2 as nat, 6);
    assert(forall|i: int| 0 <= i < c.len() ==> x[13 + i] == #[trigger] c[i]);
    assert(forall|i: int| 0 <= i < d.len() ==> y[13 + i] == #[trigger] d[i]);
    assert(x[13int + c.len()] == '-' && y[13int + d.len()] == '-');
    assert(forall|i: int| 0 <= i < a.len() ==> x[14 + c.len() + i] == #[trigger] a[i]);
    assert(forall|i: int| 0 <= i < b.len() ==> y[14 + d.len() + i] == #[trigger] b[i]);
    assert(x[14int + c.len() + a.len()] == '.' && y[14int + d.len() + b.len()] == '.');
    if x == y {
        if c.len() < d.len() {
            assert(is_digit(d[c.len() as int]));
        } else if d.len() < c.len() {
            assert(is_digit(c[d.len() as int]));
        } else if a.len() < b.len() {
            assert(is_digit(b[a.len() as int]));
        } else if b.len() < a.len() {
            assert(is_digit(a[b.len() as int]));
        } else {
            assert(a =~= b);
        }
    }
}

/// The path of a picture, relative to the trace directory.
pub fn screenshot_path(name: &str) -> (s: String)
    ensures
        s@ == "screenshots/"@ + name@,
{
    join2("screenshots/", name)
}

/// The file name of a page snapshot.
pub fn snapshot_name(seq: u64) -> (s: String)
    ensures
        s@ == decimal_padded(seq as nat, 8) + ".json"@,
{
    let n = padded_text(seq, 8);
    join2(n.as_str(), ".json")
}

/// The path of a page snapshot relative to the trace directory, and the digest of its
/// content.
pub fn snapshot_record(seq: u64, content: &[u8]) -> (r: (String, String))
    ensures
        r.0@ == "snapshots/"@ + (decimal_padded(seq as nat, 8) + ".json"@),
        r.1@ == hex_text(sha256_of(content@)),
{
    let name = snapshot_name(seq);
    (join2("snapshots/", name.as_str()), sha256_hex(content))
}

/// The file name of the trace file with that number.
pub fn trace_file_name(seq: u64) -> (s: String)
    ensures
        s@ == decimal_padded(seq as nat, 4) + ".jsonl"@,
{
    let n = padded_text(seq, 4);
    join2(n.as_str(), ".jsonl")
}

/// A full buffer loses the oldest event and no other: what waits after recording is the
/// end of what waited with the new event behind it, as long as the capacity allows.
pub proof fn recording_keeps_the_newest(waiting: Seq<TraceEvent>, ev: TraceEvent, cap: int)
    requires
        1 <= cap,
        waiting.len() <= cap,
    ensures
        ({
            let all = waiting.push(ev);
            let after = taken_in(waiting, ev, cap);
            &&& after.len() <= cap
            &&& after == all.skip(all.len() - after.len())
            &&& after.last() == ev
        }),
{
    let all = waiting.push(ev);
    if waiting.len() >= cap {
        assert(waiting.drop_first().push(ev) =~= all.skip(1));
    } else {
        assert(all =~= all.skip(0));
    }
}

/// The integer that a decimal numeral stands for, if it fits in 64 bits: an optional sign
/// and at least one digit.
pub open spec fn parse_signed(s: Seq<char>) -> Option<int> {
    if s.len() > 0 && s[0] == '-' {
        let d = s.drop_first();
        if d.len() > 0 && crate::text::all_digits(d) && crate::text::digits_value(d) <= 0x8000_0000_0000_0000 {
            Some(-(crate::text::digits_value(d) as int))
        } else {
            None
        }
    } else {
        match parse_unsigned(s, 0x7fff_ffff_ffff_ffff) {
            Some(n) => Some(n as int),
            None => None,
        }
    }
}

fn parse_signed_chars(s: &[char]) -> (r: Option<i64>)
    ensures
        match r {
            Some(n) => parse_signed(s@) == Some(n as int),
            None => parse_signed(s@) is None,
        },
{
    if s.len() > 0 && s[0] == '-' {
        let d = slice_chars(s, 1, s.len());
        assert(d@ =~= s@.drop_first());
        if d.len() > 0 && d[0] == '+' {
            assert(!crate::text::is_digit(d@[0]));
            return None;
        }
        match parse_unsigned_chars(d.as_slice(), 0x8000_0000_0000_0000) {
            Some(v) => Some((-(v as i128)) as i64),
            None => None,
        }
    } else {
        match parse_unsigned_chars(s, 0x7fff_ffff_ffff_ffff) {
            Some(v) => Some(v as i64),
            None => None,
        }
    }
}

/// The number of a trace file, from its name: `<number>.jsonl`, or with `.gz` behind it
/// once it was rotated.
pub open spec fn file_number(name: Seq<char>) -> Option<int> {
    if ends_with_text(name, ".jsonl.gz"@) {
        parse_signed(name.take(name.len() - ".jsonl.gz"@.len()))
    } else if ends_with_text(name, ".jsonl"@) {
        parse_signed(name.take(name.len() - ".jsonl"@.len()))
    } else {
        None
    }
}

/// The number of a trace file, from its name.
pub fn file_number_of(name: &str) -> (r: Option<i64>)
    ensures
        match r {
            Some(n) => file_number(name@) == Some(n as int),
            None => file_number(name@) is None,
        },
{
    let chars = chars_of(name);
    if text_ends_with(name, ".jsonl.gz") {
        proof {
            reveal_strlit(".jsonl.gz");
        }
        let stem = slice_chars(chars.as_slice(), 0, chars.len() - 9);
        assert(stem@ =~= name@.take(name@.len() - ".jsonl.gz"@.len()));
        parse_signed_chars(stem.as_slice())
    } else if text_ends_with(name, ".jsonl") {
        proof {
            reveal_strlit(".jsonl");
        }
        let stem = slice_chars(chars.as_slice(), 0, chars.len() - 6);
        assert(stem@ =~= name@.take(name@.len() - ".jsonl"@.len()));
        parse_signed_chars(stem.as_slice())
    } else {
        None
    }
}

/// The highest number among the trace files of a directory, or -1 where there is none.
pub open spec fn highest_number(names: Seq<Seq<char>>) -> int
    decreases names.len(),
{
    if names.len() == 0 {
        -1
    } else {
        let before = highest_number(names.drop_last());
        match file_number(names.last()) {
            Some(n) => if n > before {
                n
            } else {
                before
            },
            None => before,
        }
    }
}

/// The number of the next trace file in a directory that holds files of these names.
pub fn scan_next_seq(names: &Vec<String>) -> (n: u64)
    ensures
        n == highest_number(texts(names@)) + 1,
{
    let mut highest: i64 = -1;
    let ghost all = texts(names@);
    let mut i: usize = 0;
    assert(all.take(0) =~= Seq::<Seq<char>>::empty());
    while i < names.len()
        invariant
            i <= names@.len(),
            all == texts(names@),
            highest >= -1,
            highest == highest_number(all.take(i as int)),
        decreases names@.len() - i,
    {
        assert(all.take(i + 1).drop_last() =~= all.take(i as int));
        assert(all.take(i + 1).last() == names@[i as int]@);
        match file_number_of(names[i].as_str()) {
            Some(n) => {
                if n > highest {
                    highest = n;
                }
            },
            None => {},
        }
        i += 1;
    }
    assert(all.take(all.len() as int) =~= all);
    if highest < 0 {
        0
    } else {
        highest as u64 + 1
    }
}

/// A new trace file never takes the number of one that is already there.
pub proof fn next_seq_is_fresh(names: Seq<Seq<char>>, i: int)
    requires
        0 <= i < names.len(),
    ensures
        file_number(names[i]) matches Some(n) ==> n < highest_number(names) + 1,
    decreases names.len(),
{
    if i < names.len() - 1 {
        next_seq_is_fresh(names.drop_last(), i);
        assert(names.drop_last()[i] == names[i]);
    }
}

/// Whether a file of that size and age, in nanoseconds, is full.
pub open spec fn is_full(bytes: u64, max_bytes: u64, age_nanos: u128, max_age_nanos: u128) -> bool {
    bytes >= max_bytes || age_nanos >= max_age_nanos
}

/// Whether a file of that size and age, in nanoseconds, is to be rotated.
pub fn should_rotate(bytes: u64, max_bytes: u64, age_nanos: u128, max_age_nanos: u128) -> (r: bool)
    ensures
        r == is_full(bytes, max_bytes, age_nanos, max_age_nanos),
{
    bytes >= max_bytes || age_nanos >= max_age_nanos
}

/// How long the writer sleeps when nothing wakes it: until the file is too old, and for
/// 50 ms at least.
pub fn wake_in(age_nanos: u128, max_age_nanos: u128) -> (nanos: u128)
    ensures
        nanos == (if max_age_nanos - age_nanos >= MIN_WAKE_NANOS {
            max_age_nanos - age_nanos
        } else {
            MIN_WAKE_NANOS as int
        }),
{
    if max_age_nanos >= age_nanos && max_age_nanos - age_nanos >= MIN_WAKE_NANOS {
        max_age_nanos - age_nanos
    } else {
        MIN_WAKE_NANOS
    }
}

/// One closed file in the manifest.
#[derive(Debug)]
pub struct ManifestFile {
    pub path: String,
    pub bytes: u64,
    pub sha256: String,
    pub gzipped: bool,
    pub seq: u64,
}

/// What a manifest entry is.
pub struct ManifestFileView {
    pub path: Seq<char>,
    pub bytes: u64,
    pub sha256: Seq<char>,
    pub gzipped: bool,
    pub seq: u64,
}

impl View for ManifestFile {
    type V = ManifestFileView;

    open spec fn view(&self) -> ManifestFileView {
        ManifestFileView {
            path: self.path@,
            bytes: self.bytes,
            sha256: self.sha256@,
            gzipped: self.gzipped,
            seq: self.seq,
        }
    }
}

/// The manifest entry of a closed file. `file_len` is its length where that could be
/// determined; else the number of bytes that were written counts.
pub fn manifest_for_closed(
    path: &str,
    content: &[u8],
    file_len: Option<u64>,
    seq: u64,
    bytes_hint: u64,
    gzipped: bool,
) -> (f: ManifestFile)
    ensures
        f@ == (ManifestFileView {
            path: path@,
            bytes: match file_len {
                Some(n) => n,
                None => bytes_hint,
            },
            sha256: hex_text(sha256_of(content@)),
            gzipped,
            seq,
        }),
{
    ManifestFile {
        path: path.to_owned(),
        bytes: match file_len {
            Some(n) => n,
            None => bytes_hint,
        },
        sha256: sha256_hex(content),
        gzipped,
        seq,
    }
}

pub open spec fn manifest_file_view(f: ManifestFileView) -> JsonView {
    object_view(
        seq![
            ("bytes"@, uint_view(f.bytes)),
            ("gzipped"@, JsonView::Bool(f.gzipped)),
            ("path"@, JsonView::String(f.path)),
            ("seq"@, uint_view(f.seq)),
            ("sha256"@, JsonView::String(f.sha256)),
        ],
    )
}

fn manifest_file_json(f: &ManifestFile) -> (j: Json)
    ensures
        j@ == manifest_file_view(f@),
{
    let mut b = ObjectBuilder::new();
    b.put("bytes", Json::uint(f.bytes));
    b.put("gzipped", Json::Bool(f.gzipped));
    b.put("path", Json::text(f.path.as_str()));
    b.put("seq", Json::uint(f.seq));
    b.put("sha256", Json::text(f.sha256.as_str()));
    assert(b@ =~= manifest_file_view(f@)->Object_0);
    b.done()
}

/// The manifest without its signature, its keys in alphabetical order.
pub open spec fn manifest_view(
    session_id: Seq<char>,
    started_ts_ms: u64,
    written_ts_ms: u64,
    files: Seq<ManifestFileView>,
) -> JsonView {
    object_view(
        seq![
            (
                "files"@,
                JsonView::Array(files.map_values(|f: ManifestFileView| manifest_file_view(f))),
            ),
            ("session_id"@, JsonView::String(session_id)),
            ("started_ts_ms"@, uint_view(started_ts_ms)),
            ("written_ts_ms"@, uint_view(written_ts_ms)),
        ],
    )
}

/// The views of manifest entries.
pub open spec fn file_views(files: Seq<ManifestFile>) -> Seq<ManifestFileView> {
    files.map_values(|f: ManifestFile| f@)
}

/// The manifest without its signature.
pub fn manifest_body(
    session_id: &str,
    started_ts_ms: u64,
    written_ts_ms: u64,
    files: &Vec<ManifestFile>,
) -> (j: Json)
    ensures
        j@ == manifest_view(session_id@, started_ts_ms, written_ts_ms, file_views(files@)),
{
    let mut items: Vec<Json> = Vec::new();
    let mut i: usize = 0;
    while i < files.len()
        invariant
            i <= files@.len(),
            items@.len() == i,
            forall|k: int| 0 <= k < i ==> (#[trigger] items@[k])@ == manifest_file_view(files@[k]@),
        decreases files@.len() - i,
    {
        items.push(manifest_file_json(&files[i]));
        i += 1;
    }
    let array = array_of(items);
    assert(array@->Array_0 =~= file_views(files@).map_values(
        |f: ManifestFileView| manifest_file_view(f),
    ));
    let mut b = ObjectBuilder::new();
    b.put("files", array);
    b.put("session_id", Json::text(session_id));
    b.put("started_ts_ms", Json::uint(started_ts_ms));
    b.put("written_ts_ms", Json::uint(written_ts_ms));
    assert(b@ =~= manifest_view(
        session_id@,
        started_ts_ms,
        written_ts_ms,
        file_views(files@),
    )->Object_0);
    b.done()
}

/// The manifest as it is written. With a key it carries the HMAC of `body_text`, the
/// serialised manifest without a signature, as its last member; else it is the body
/// itself.
pub open spec fn signed_manifest_view(
    body: JsonView,
    body_text: Seq<u8>,
    key: Option<Seq<u8>>,
) -> JsonView {
    match (body, key) {
        (JsonView::Object(m), Some(k)) => JsonView::Object(
            m.push(("hmac"@, JsonView::String(hex_text(hmac_sha256_of(k, body_text))))),
        ),
        _ => body,
    }
}

/// Signs a manifest body, whose serialised form is `body_text`, where there is a key.
pub fn sign_manifest(body: Json, body_text: &[u8], key: &Option<Vec<u8>>) -> (j: Json)
    ensures
        j@ == signed_manifest_view(body@, body_text@, opt_bytes(*key)),
{
    match key {
        None => body,
        Some(k) => {
            let ghost view = body@;
            match body {
                Json::Object(members) => {
                    let code = compute_hmac_sha256(k.as_slice(), body_text);
                    let mut members = members;
                    members.push(("hmac".to_owned(), Json::text(code.as_str())));
                    let j = Json::Object(members);
                    assert(j@->Object_0 =~= view->Object_0.push(
                        ("hmac"@, JsonView::String(hex_text(hmac_sha256_of(k@, body_text@)))),
                    ));
                    j
                },
                other => other,
            }
        },
    }
}

/// A verifier that takes the signature out of a signed manifest is left with exactly the
/// body that was signed, and finds under the signature the HMAC of that body's text.
pub proof fn signature_covers_the_body(
    m: Seq<(Seq<char>, JsonView)>,
    body_text: Seq<u8>,
    key: Seq<u8>,
)
    requires
        JsonView::Object(m).member("hmac"@) is None,
    ensures
        ({
            let signed = signed_manifest_view(JsonView::Object(m), body_text, Some(key));
            &&& signed is Object
            &&& signed->Object_0.drop_last() == m
            &&& signed.member("hmac"@) == Some(
                JsonView::String(hex_text(hmac_sha256_of(key, body_text))),
            )
        }),
{
    let v = JsonView::String(hex_text(hmac_sha256_of(key, body_text)));
    let signed = m.push(("hmac"@, v));
    assert(signed.drop_last() =~= m);
    crate::json::lemma_member_of_push(m, "hmac"@, v);
}

} // verus!
