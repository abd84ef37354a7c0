//! What a trace says and how its files are named, whatever is recorded.
use vstd::prelude::*;

use crate::digest::{hex_text, hmac_sha256_of};
use crate::json::{lemma_member_at, lemma_member_pushed, JsonNumber, JsonView};
use crate::mcp::is_number;
use crate::redact::{redacted, Redactor};
use crate::text::{
    decimal, decimal_padded, decimal_round_trip, ends_with_text, lemma_decimal_reads_back,
    numbers_are_read_strictly, parse_unsigned, starts_with_text,
};
use crate::trace::{
    file_number, highest_number, is_full, is_power_of_two, key_of, manifest_file_view,
    manifest_view, number_or, parse_signed, recent_drops, redacted_event, sanitized,
    screencast_name_of, screenshot_name_of, shut_down, signed_manifest_view, took_in,
    window_start, ManifestFile, ManifestFileView, Recorded, TraceEvent, TraceEventView,
    TraceWriter,
};
use crate::trace_file::{
    advanced, ended, opened_next, woke, written_form, wrote, Stage, TraceFileWriter, WriterStep,
};
use crate::trace_wire::wire_members;

verus! {

/// What is written of an event: the name of its kind, and every field under its own name. What
/// may be missing is left out just where it is missing.
#[verifier::rlimit(40)]
pub proof fn events_are_written_field_by_field(ev: TraceEvent)
    ensures
        ({
            let j = JsonView::Object(wire_members(ev@));
            match ev {
                TraceEvent::CdpRequest { ts_ms, session_id, target_id, id, method, params } => {
                    &&& j.member("kind"@) == Some(JsonView::String("cdp_request"@))
                    &&& j.member("ts_ms"@) == Some(JsonView::Number(JsonNumber::PosInt(ts_ms)))
                    &&& j.member("session_id"@) == Some(JsonView::String(session_id@))
                    &&& match target_id {
                        Some(t) => j.member("target_id"@) == Some(JsonView::String(t@)),
                        None => j.member("target_id"@) is None,
                    }
                    &&& is_number(j.member("id"@), id as int)
                    &&& j.member("method"@) == Some(JsonView::String(method@))
                    &&& j.member("params"@) == Some(params@)
                },
                TraceEvent::CdpResponse { ts_ms, session_id, target_id, id, result, error } => {
                    &&& j.member("kind"@) == Some(JsonView::String("cdp_response"@))
                    &&& j.member("ts_ms"@) == Some(JsonView::Number(JsonNumber::PosInt(ts_ms)))
                    &&& j.member("session_id"@) == Some(JsonView::String(session_id@))
                    &&& match target_id {
                        Some(t) => j.member("target_id"@) == Some(JsonView::String(t@)),
                        None => j.member("target_id"@) is None,
                    }
                    &&& is_number(j.member("id"@), id as int)
                    &&& match result {
                        Some(t) => j.member("result"@) == Some(t@),
                        None => j.member("result"@) is None,
                    }
                    &&& match error {
                        Some(t) => j.member("error"@) == Some(t@),
                        None => j.member("error"@) is None,
                    }
                },
                TraceEvent::CdpEvent { ts_ms, session_id, target_id, method, params } => {
                    &&& j.member("kind"@) == Some(JsonView::String("cdp_event"@))
                    &&& j.member("ts_ms"@) == Some(JsonView::Number(JsonNumber::PosInt(ts_ms)))
                    &&& j.member("session_id"@) == Some(JsonView::String(session_id@))
                    &&& match target_id {
                        Some(t) => j.member("target_id"@) == Some(JsonView::String(t@)),
                        None => j.member("target_id"@) is None,
                    }
                    &&& j.member("method"@) == Some(JsonView::String(method@))
                    &&& j.member("params"@) == Some(params@)
                },
                TraceEvent::Action { ts_ms, session_id, tab_id, tool, args, result } => {
                    &&& j.member("kind"@) == Some(JsonView::String("action"@))
                    &&& j.member("ts_ms"@) == Some(JsonView::Number(JsonNumber::PosInt(ts_ms)))
                    &&& j.member("session_id"@) == Some(JsonView::String(session_id@))
                    &&& j.member("tab_id"@) == Some(JsonView::String(tab_id@))
                    &&& j.member("tool"@) == Some(JsonView::String(tool@))
                    &&& j.member("args"@) == Some(args@)
                    &&& j.member("result"@) == Some(result@)
                },
                TraceEvent::Screenshot { ts_ms, session_id, tab_id, after_action, png_path } => {
                    &&& j.member("kind"@) == Some(JsonView::String("screenshot"@))
                    &&& j.member("ts_ms"@) == Some(JsonView::Number(JsonNumber::PosInt(ts_ms)))
                    &&& j.member("session_id"@) == Some(JsonView::String(session_id@))
                    &&& j.member("tab_id"@) == Some(JsonView::String(tab_id@))
                    &&& j.member("after_action"@) == Some(JsonView::String(after_action@))
                    &&& j.member("png_path"@) == Some(JsonView::String(png_path@))
                },
                TraceEvent::DomSnapshot { ts_ms, session_id, tab_id, snapshot_seq, hash, snapshot_path } => {
                    &&& j.member("kind"@) == Some(JsonView::String("dom_snapshot"@))
                    &&& j.member("ts_ms"@) == Some(JsonView::Number(JsonNumber::PosInt(ts_ms)))
                    &&& j.member("session_id"@) == Some(JsonView::String(session_id@))
                    &&& j.member("tab_id"@) == Some(JsonView::String(tab_id@))
                    &&& j.member("snapshot_seq"@) == Some(
                        JsonView::Number(JsonNumber::PosInt(snapshot_seq)),
                    )
                    &&& j.member("hash"@) == Some(JsonView::String(hash@))
                    &&& j.member("snapshot_path"@) == Some(JsonView::String(snapshot_path@))
                },
            }
        }),
{
    broadcast use lemma_member_pushed;

    reveal_strlit("kind");
    reveal_strlit("ts_ms");
    reveal_strlit("session_id");
    reveal_strlit("target_id");
    reveal_strlit("id");
    reveal_strlit("method");
    reveal_strlit("params");
    reveal_strlit("result");
    reveal_strlit("error");
    reveal_strlit("tab_id");
    reveal_strlit("tool");
    reveal_strlit("args");
    reveal_strlit("after_action");
    reveal_strlit("png_path");
    reveal_strlit("snapshot_seq");
    reveal_strlit("hash");
    reveal_strlit("snapshot_path");
    assert("kind"@.len() == 4 && "ts_ms"@.len() == 5 && "session_id"@.len() == 10
        && "target_id"@.len() == 9 && "id"@.len() == 2 && "method"@.len() == 6
        && "params"@.len() == 6 && "result"@.len() == 6 && "error"@.len() == 5
        && "tab_id"@.len() == 6 && "tool"@.len() == 4 && "args"@.len() == 4
        && "after_action"@.len() == 12 && "png_path"@.len() == 8 && "snapshot_seq"@.len() == 12
        && "hash"@.len() == 4 && "snapshot_path"@.len() == 13 && "kind"@[0] == 'k'
        && "tool"@[0] == 't' && "args"@[0] == 'a' && "hash"@[0] == 'h' && "ts_ms"@[0] == 't'
        && "error"@[0] == 'e' && "method"@[0] == 'm' && "params"@[0] == 'p' && "result"@[0] == 'r'
        && "tab_id"@[0] == 't' && "after_action"@[0] == 'a' && "snapshot_seq"@[0] == 's');
}

/// Every payload of an event is redacted, with all the patterns: parameters, arguments,
/// results and errors.
pub proof fn every_payload_is_redacted(patterns: Seq<Seq<char>>, ev: TraceEventView)
    ensures
        match (ev, redacted_event(patterns, ev)) {
            (
                TraceEventView::CdpRequest { params: a, .. },
                TraceEventView::CdpRequest { params: b, .. },
            ) => b == redacted(patterns, a),
            (
                TraceEventView::CdpResponse { result: a, error: c, .. },
                TraceEventView::CdpResponse { result: b, error: d, .. },
            ) => {
                &&& a is None <==> b is None
                &&& c is None <==> d is None
                &&& a matches Some(v) ==> b == Some(redacted(patterns, v))
                &&& c matches Some(v) ==> d == Some(redacted(patterns, v))
            },
            (
                TraceEventView::CdpEvent { params: a, .. },
                TraceEventView::CdpEvent { params: b, .. },
            ) => b == redacted(patterns, a),
            (
                TraceEventView::Action { args: a, result: c, .. },
                TraceEventView::Action { args: b, result: d, .. },
            ) => b == redacted(patterns, a) && d == redacted(patterns, c),
            (TraceEventView::Screenshot { .. }, b) => b == ev,
            (TraceEventView::DomSnapshot { .. }, b) => b == ev,
            _ => false,
        },
{
}

/// A limit is the number that its variable spells, and the default where the variable is unset
/// or spells no number.
pub proof fn limits_are_read_from_their_variables(n: nat, raw: Seq<char>, default: u64)
    ensures
        n <= u64::MAX ==> number_or(Some(decimal(n)), default) == n,
        number_or(None, default) == default,
        parse_unsigned(raw, u64::MAX as nat) is None ==> number_or(Some(raw), default) == default,
{
    if n <= u64::MAX {
        decimal_round_trip(n, u64::MAX as nat);
    }
}

/// A signing key is the bytes of its text; an empty text is none. Behind `hex:` it is the bytes
/// that the hexadecimal text spells, and the text itself where that is not hexadecimal.
pub proof fn signing_keys_are_read_as_they_are_written(text: Seq<char>, bytes: Seq<u8>)
    ensures
        key_of(Seq::empty()) is None,
        text.len() > 0 && !starts_with_text(text, "hex:"@) ==> key_of(text) == Some(
            vstd::utf8::encode_utf8(text),
        ),
        ({
            let spelled = vstd::utf8::encode_utf8(text);
            let key = key_of("hex:"@ + text);
            &&& spelled.len() == hex_text(bytes).len() && (forall|i: int|
                0 <= i < spelled.len() ==> spelled[i] == hex_text(bytes)[i] as u8) ==> key == Some(
                bytes,
            )
            &&& !crate::digest::is_hex(spelled) ==> key == Some(spelled)
        }),
{
    reveal_strlit("hex:");
    let raw = "hex:"@ + text;
    assert(raw.skip(4) =~= text);
    assert(raw.subrange(0, 4) =~= "hex:"@);
    let spelled = vstd::utf8::encode_utf8(text);
    if spelled.len() == hex_text(bytes).len() && (forall|i: int|
        0 <= i < spelled.len() ==> spelled[i] == hex_text(bytes)[i] as u8) {
        crate::digest::hex_round_trip(bytes, spelled);
    }
}

/// Where the times of drops ascend, those that count are just those that are not older than
/// the cutoff.
pub proof fn recent_drops_are_those_in_the_window(times: Seq<u64>, cutoff: u64)
    requires
        forall|i: int, j: int| 0 <= i < j < times.len() ==> times[i] <= times[j],
    ensures
        recent_drops(times, cutoff) == times.filter(|t: u64| t >= cutoff),
    decreases times.len(),
{
    let keep = |t: u64| t >= cutoff;
    if times.len() > 0 && times[0] < cutoff {
        let rest = times.drop_first();
        recent_drops_are_those_in_the_window(rest, cutoff);
        assert(times =~= seq![times[0]] + rest);
        Seq::filter_distributes_over_add(seq![times[0]], rest, keep);
        reveal(Seq::filter);
        let one = seq![times[0]];
        assert(one.drop_last() =~= Seq::<u64>::empty());
        assert(one.drop_last().filter(keep).len() == 0);
        assert(one.last() == times[0] && !keep(one.last()));
        assert(one.filter(keep) =~= Seq::<u64>::empty());
        assert(Seq::<u64>::empty() + rest.filter(keep) =~= rest.filter(keep));
    } else {
        assert forall|i: int| 0 <= i < times.len() implies times[i] >= cutoff by {
            if i > 0 {
                assert(times[0] <= times[i]);
            }
        }
        lemma_filter_all(times, cutoff);
    }
}

proof fn lemma_filter_all(times: Seq<u64>, cutoff: u64)
    requires
        forall|i: int| 0 <= i < times.len() ==> times[i] >= cutoff,
    ensures
        times.filter(|t: u64| t >= cutoff) == times,
    decreases times.len(),
{
    reveal(Seq::filter);
    if times.len() > 0 {
        lemma_filter_all(times.drop_last(), cutoff);
        assert(times.drop_last().push(times.last()) =~= times);
        assert(times.last() == times[times.len() - 1]);
    } else {
        assert(times.filter(|t: u64| t >= cutoff) =~= times);
    }
}

/// Drops are counted within a minute, and the hundredth among them raises the alarm, once.
/// Drops of a full buffer lose the oldest event; a buffer with room loses none; and one that
/// shuts down takes nothing in.
pub proof fn drops_raise_the_alarm(
    before: TraceWriter,
    after: TraceWriter,
    ev: TraceEvent,
    now_ms: u64,
    r: Recorded,
)
    requires
        took_in(before, after, ev, now_ms, r),
        before.cap() >= 1,
        forall|i: int, j: int|
            0 <= i < j < before.drop_times().len() ==> before.drop_times()[i]
                <= before.drop_times()[j],
    ensures
        !before.closing() && before.events().len() < before.cap() ==> after.events()
            == before.events().push(ev) && after.dropped() == before.dropped() && after.alarm()
            == before.alarm() && !r.alarm_fired && r.warn_total is None,
        !before.closing() && before.events().len() >= before.cap() ==> {
            let recent = before.drop_times().filter(
                |t: u64|
                    t >= (if now_ms >= 60_000 {
                        now_ms - 60_000
                    } else {
                        0
                    }),
            );
            &&& after.events() == before.events().drop_first().push(ev)
            &&& before.dropped() < u64::MAX ==> after.dropped() == before.dropped() + 1
            &&& after.drop_times() == recent.push(now_ms)
            &&& after.alarm() == (before.alarm() || recent.len() + 1 >= 100)
            &&& r.alarm_fired == (!before.alarm() && recent.len() + 1 >= 100)
        },
        before.closing() ==> after.events() == before.events() && !r.alarm_fired && r.warn_total
            is None && after.alarm() == before.alarm() && (before.dropped() < u64::MAX
            ==> after.dropped() == before.dropped() + 1),
{
    let cutoff = window_start(now_ms);
    recent_drops_are_those_in_the_window(before.drop_times(), cutoff);
    let a = |t: u64| t >= cutoff;
    let b = |t: u64|
        t >= (if now_ms >= 60_000 {
            now_ms - 60_000
        } else {
            0
        });
    assert(a =~= b);
}

/// Making a text safe for a file name keeps every character that is safe, in its place, and
/// puts an underscore in the place of every other one. Letters and digits of ASCII, hyphen,
/// underscore and dot are safe.
pub proof fn safe_characters_are_kept(s: Seq<char>, i: int)
    requires
        0 <= i < s.len(),
    ensures
        sanitized(s).len() == s.len(),
        sanitized(s)[i] == s[i] || sanitized(s)[i] == '_',
        sanitized(s)[i] == s[i] <==> ({
            ||| 'a' <= s[i] <= 'z'
            ||| 'A' <= s[i] <= 'Z'
            ||| '0' <= s[i] <= '9'
            ||| s[i] == '-'
            ||| s[i] == '_'
            ||| s[i] == '.'
        }),
{
}

/// A screenshot is named by its tool, the time and its number, a screencast frame by the time,
/// its number and its format.
pub proof fn pictures_are_named_by_time_and_number(tool: Seq<char>, unix_ms: u64, seq: u64)
    ensures
        ({
            let name = screenshot_name_of(tool, unix_ms, seq);
            let head = sanitized(tool) + "-"@ + decimal(unix_ms as nat) + "-"@;
            &&& starts_with_text(name, head)
            &&& ends_with_text(name, ".png"@)
            &&& name.subrange(head.len() as int, name.len() - 4) == decimal_padded(seq as nat, 6)
        }),
        ({
            let name = screencast_name_of(tool, unix_ms, seq);
            let head = "vision.frame-"@ + decimal(unix_ms as nat) + "-"@ + decimal_padded(
                seq as nat,
                6,
            ) + "."@;
            &&& starts_with_text(name, head)
            &&& name.skip(head.len() as int) == sanitized(tool)
        }),
{
    reveal_strlit(".png");
    let name = screenshot_name_of(tool, unix_ms, seq);
    let head = sanitized(tool) + "-"@ + decimal(unix_ms as nat) + "-"@;
    let number = decimal_padded(seq as nat, 6);
    assert(name =~= head + number + ".png"@);
    assert(name.subrange(0, head.len() as int) =~= head);
    assert(name.subrange(name.len() - 4, name.len() as int) =~= ".png"@);
    assert(name.subrange(head.len() as int, name.len() - 4) =~= number);
    let name2 = screencast_name_of(tool, unix_ms, seq);
    let head2 = "vision.frame-"@ + decimal(unix_ms as nat) + "-"@ + number + "."@;
    assert(name2 =~= head2 + sanitized(tool));
    assert(name2.subrange(0, head2.len() as int) =~= head2);
    assert(name2.skip(head2.len() as int) =~= sanitized(tool));
}

/// A trace file is numbered by its name, before and after it was compressed; the number is
/// read back from either.
pub proof fn file_numbers_are_read_back(n: nat)
    requires
        n <= i64::MAX,
    ensures
        file_number(decimal(n) + ".jsonl"@) == Some(n as int),
        file_number(decimal(n) + ".jsonl.gz"@) == Some(n as int),
        parse_signed(seq!['-'] + decimal(n)) == Some(-(n as int)),
{
    reveal_strlit(".jsonl");
    reveal_strlit(".jsonl.gz");
    lemma_decimal_reads_back(n);
    decimal_round_trip(n, 0x7fff_ffff_ffff_ffff);
    let d = decimal(n);
    assert(crate::text::is_digit(d[0]));
    let a = d + ".jsonl"@;
    let b = d + ".jsonl.gz"@;
    assert(a.take(a.len() - 6) =~= d);
    assert(b.take(b.len() - 9) =~= d);
    assert(a.subrange(a.len() - 6, a.len() as int) =~= ".jsonl"@);
    assert(b.subrange(b.len() - 9, b.len() as int) =~= ".jsonl.gz"@);
    assert(!ends_with_text(a, ".jsonl.gz"@)) by {
        assert(a[a.len() - 1] == 'l');
        if ends_with_text(a, ".jsonl.gz"@) {
            assert(a.subrange(a.len() - 9, a.len() as int)[8] == 'z');
        }
    }
    let m = seq!['-'] + d;
    assert(m.drop_first() =~= d);
}

/// The highest number belongs to one of the files, and no file has a higher one; it is -1
/// where no file has a number of zero or above.
pub proof fn the_highest_number_is_that_of_a_file(names: Seq<Seq<char>>)
    ensures
        forall|i: int|
            0 <= i < names.len() ==> (file_number(#[trigger] names[i]) matches Some(n) ==> n
                <= highest_number(names)),
        highest_number(names) >= -1,
        highest_number(names) >= 0 ==> exists|i: int|
            0 <= i < names.len() && #[trigger] file_number(names[i]) == Some(highest_number(names)),
    decreases names.len(),
{
    if names.len() > 0 {
        let rest = names.drop_last();
        the_highest_number_is_that_of_a_file(rest);
        let last = names.len() - 1;
        assert forall|i: int| 0 <= i < names.len() implies (file_number(
            #[trigger] names[i],
        ) matches Some(n) ==> n <= highest_number(names)) by {
            if i < last {
                assert(rest[i] == names[i]);
            }
        }
        if highest_number(names) >= 0 {
            if file_number(names.last()) == Some(highest_number(names)) {
                assert(file_number(names[last]) == Some(highest_number(names)));
            } else {
                assert(highest_number(names) == highest_number(rest));
                let i = choose|i: int|
                    0 <= i < rest.len() && #[trigger] file_number(rest[i]) == Some(
                        highest_number(rest),
                    );
                assert(file_number(names[i]) == Some(highest_number(names)));
            }
        }
    }
}

/// A file is full from the moment on that its size or its age reaches the limit, not before,
/// and stays so as it grows and ages.
pub proof fn files_fill_by_size_or_age(bytes: u64, max: u64, age: u128, max_age: u128, more: u64)
    ensures
        is_full(max, max, age, max_age),
        is_full(bytes, max, max_age, max_age),
        bytes < max && age < max_age ==> !is_full(bytes, max, age, max_age),
        is_full(bytes, max, age, max_age) && more >= bytes ==> is_full(more, max, age, max_age),
{
}

/// Events are written with their payload redacted where the session has patterns, and as they
/// are where it has none.
pub proof fn events_are_written_redacted(ev: TraceEvent, redactor: Option<Redactor>)
    ensures
        match redactor {
            Some(r) => written_form(ev, redactor) == redacted_event(r@, ev@),
            None => written_form(ev, redactor) == ev@,
        },
{
}

/// What the writer does while it drains the queue. The oldest event is taken out and written,
/// but first the file is rotated where it has reached its size or its age. Where nothing is
/// left it stops if it was asked to, rotates a file that is too old, or waits until that is
/// due, a twentieth of a second at least.
pub proof fn the_writer_takes_events_in_order(
    before: TraceFileWriter,
    after: TraceFileWriter,
    queue: TraceWriter,
    queue_after: TraceWriter,
    age_nanos: u128,
    redactor: Option<Redactor>,
    step: WriterStep,
)
    requires
        before.at() == Stage::Draining,
        advanced(before, after, queue, queue_after, age_nanos, redactor, step),
    ensures
        ({
            let full = before.size() >= before.limits().0 || age_nanos >= before.limits().1;
            let events = queue.events();
            &&& events.len() > 0 ==> queue_after.events() == events.drop_first()
            &&& events.len() == 0 ==> queue_after.events().len() == 0
            &&& events.len() > 0 && !full ==> (step matches WriterStep::Write(ev) && ev@
                == written_form(events[0], redactor))
            &&& events.len() > 0 && full ==> step is Rotate && after.waiting_event() == Some(
                events[0],
            )
            &&& events.len() == 0 && before.stopping() ==> step is Close
            &&& events.len() == 0 && !before.stopping() && full ==> step is Rotate
            &&& events.len() == 0 && !before.stopping() && !full ==> (step matches
                WriterStep::Wait { nanos } && nanos >= 50_000_000 && nanos >= before.limits().1
                - age_nanos && (nanos == 50_000_000 || nanos == before.limits().1 - age_nanos))
        }),
{
}

/// A file grows by what is written to it, and by nothing where the write failed.
pub proof fn files_grow_by_what_is_written(
    before: TraceFileWriter,
    after: TraceFileWriter,
    failed: TraceFileWriter,
    len: u64,
)
    requires
        wrote(before, after, Some(len)),
        wrote(before, failed, None),
        before.size() + len <= u64::MAX,
    ensures
        after.size() == before.size() + len,
        failed.size() == before.size(),
        after.number() == before.number(),
        after.closed_files() == before.closed_files(),
        after.at() == Stage::Draining,
{
}

/// The next file has the next number and the size that it was found with, and the closed one is
/// listed behind those before it. An event that waits for the file is written to it next.
pub proof fn files_follow_each_other(
    before: TraceFileWriter,
    after: TraceFileWriter,
    closed: ManifestFile,
    bytes: u64,
)
    requires
        before.at() is Rotating,
        opened_next(before, after, Some(closed), bytes),
        before.number() < u64::MAX,
    ensures
        after.number() == before.number() + 1,
        after.size() == bytes,
        after.closed_files() == before.closed_files().push(closed@),
        after.limits() == before.limits(),
        after.stopping() == before.stopping(),
        after.waiting_event() == before.waiting_event(),
        before.at() == (Stage::Rotating { for_event: true }) ==> after.at() == Stage::Pending,
        before.at() == (Stage::Rotating { for_event: false }) ==> after.at() == Stage::Ready,
{
}

/// Losses are reported ever more rarely: the first one, and each one behind a power of two.
pub proof fn losses_are_reported_ever_more_rarely(
    before: TraceWriter,
    after: TraceWriter,
    ev: TraceEvent,
    now_ms: u64,
    r: Recorded,
    n: u64,
)
    requires
        took_in(before, after, ev, now_ms, r),
        !before.closing(),
        before.events().len() >= before.cap(),
        before.dropped() < u64::MAX,
    ensures
        before.dropped() == 0 ==> r.warn_total == Some(1u64),
        r.warn_total matches Some(t) ==> t == before.dropped() + 1,
        before.dropped() > 0 ==> (r.warn_total is Some <==> is_power_of_two(before.dropped())),
        is_power_of_two(1),
        0 < n <= u64::MAX / 2 ==> is_power_of_two((2 * n) as u64) == is_power_of_two(n),
        n > 1 && n % 2 == 1 ==> !is_power_of_two(n),
        !is_power_of_two(0),
{
    vstd::arithmetic::power2::lemma2_to64();
    assert(1u64 == vstd::arithmetic::power2::pow2(0));
    if 0 < n <= u64::MAX / 2 {
        if is_power_of_two(n) {
            let k = choose|k: nat| n == #[trigger] vstd::arithmetic::power2::pow2(k);
            vstd::arithmetic::power2::lemma_pow2_unfold(k + 1);
            assert((2 * n) as u64 == vstd::arithmetic::power2::pow2(k + 1));
        }
        if is_power_of_two((2 * n) as u64) {
            let k = choose|k: nat| (2 * n) as u64 == #[trigger] vstd::arithmetic::power2::pow2(k);
            if k > 0 {
                vstd::arithmetic::power2::lemma_pow2_unfold(k);
                assert(n == vstd::arithmetic::power2::pow2((k - 1) as nat));
            }
        }
    }
    if is_power_of_two(n) && n > 1 {
        let k = choose|k: nat| n == #[trigger] vstd::arithmetic::power2::pow2(k);
        vstd::arithmetic::power2::lemma_pow2_unfold(k);
    }
    if is_power_of_two(0) {
        let k = choose|k: nat| 0u64 == #[trigger] vstd::arithmetic::power2::pow2(k);
        vstd::arithmetic::power2::lemma_pow2_pos(k);
    }
}

/// A shutdown takes nothing away: what waits is still there, and what was counted is counted.
/// The writer learns of it when it wakes, and goes on with the same file.
pub proof fn asking_for_the_end_loses_nothing(
    before: TraceWriter,
    after: TraceWriter,
    task: TraceFileWriter,
    woken: TraceFileWriter,
    shutdown: bool,
)
    requires
        shut_down(before, after),
        woke(task, woken, shutdown),
    ensures
        after.events() == before.events(),
        after.dropped() == before.dropped(),
        after.alarm() == before.alarm(),
        after.closing(),
        woken.stopping() == (task.stopping() || shutdown),
        woken.number() == task.number(),
        woken.size() == task.size(),
        woken.closed_files() == task.closed_files(),
        woken.at() == Stage::Draining,
{
}

/// The last file is listed behind the others when it is closed, and the writer stops.
pub proof fn the_last_file_is_listed_last(
    before: TraceFileWriter,
    after: TraceFileWriter,
    closed: ManifestFile,
)
    requires
        ended(before, after, Some(closed)),
    ensures
        after.closed_files() == before.closed_files().push(closed@),
        after.at() == Stage::Stopped,
        after.number() == before.number(),
        after.size() == before.size(),
{
}

/// A file number is written in digits, with a minus sign before them at most.
pub proof fn file_numbers_are_read_strictly(s: Seq<char>, i: int)
    ensures
        parse_signed(Seq::empty()) is None,
        parse_signed(seq!['-']) is None,
        0 < i < s.len() && !('0' <= s[i] <= '9') ==> parse_signed(s) is None,
        parse_signed(s) matches Some(n) ==> i64::MIN <= n <= i64::MAX,
{
    assert(seq!['-'].drop_first() =~= Seq::<char>::empty());
    if 0 < i < s.len() && !('0' <= s[i] <= '9') {
        assert(s.drop_first()[i - 1] == s[i]);
        assert(!crate::text::all_digits(s.drop_first()));
        numbers_are_read_strictly(0, 0x7fff_ffff_ffff_ffff, s, i);
    }
    numbers_are_read_strictly(0, 0x7fff_ffff_ffff_ffff, s, 0);
}

/// What the manifest says, its keys in alphabetical order: the session, when it began, when the
/// manifest was written, and of every file, in order, its path, size, digest, number and
/// whether it is compressed.
pub proof fn manifests_say_what_was_written(
    session_id: Seq<char>,
    started_ts_ms: u64,
    written_ts_ms: u64,
    files: Seq<ManifestFileView>,
    i: int,
)
    ensures
        ({
            let j = manifest_view(session_id, started_ts_ms, written_ts_ms, files);
            &&& j matches JsonView::Object(m)
            &&& m.len() == 4
            &&& m[0].0 == "files"@ && m[1].0 == "session_id"@ && m[2].0 == "started_ts_ms"@ && m[3].0
                == "written_ts_ms"@
            &&& j.member("session_id"@) == Some(JsonView::String(session_id))
            &&& j.member("started_ts_ms"@) == Some(
                JsonView::Number(JsonNumber::PosInt(started_ts_ms)),
            )
            &&& j.member("written_ts_ms"@) == Some(
                JsonView::Number(JsonNumber::PosInt(written_ts_ms)),
            )
            &&& j.member("files"@) matches Some(JsonView::Array(items))
            &&& items.len() == files.len()
            &&& 0 <= i < files.len() ==> {
                let f = files[i];
                &&& items[i].member("path"@) == Some(JsonView::String(f.path))
                &&& items[i].member("bytes"@) == Some(
                    JsonView::Number(JsonNumber::PosInt(f.bytes)),
                )
                &&& items[i].member("sha256"@) == Some(JsonView::String(f.sha256))
                &&& items[i].member("gzipped"@) == Some(JsonView::Bool(f.gzipped))
                &&& items[i].member("seq"@) == Some(JsonView::Number(JsonNumber::PosInt(f.seq)))
            }
        }),
{
    reveal_strlit("files");
    reveal_strlit("session_id");
    reveal_strlit("started_ts_ms");
    reveal_strlit("written_ts_ms");
    reveal_strlit("bytes");
    reveal_strlit("gzipped");
    reveal_strlit("path");
    reveal_strlit("seq");
    reveal_strlit("sha256");
    assert("files"@.len() == 5 && "session_id"@.len() == 10 && "started_ts_ms"@.len() == 13
        && "written_ts_ms"@.len() == 13 && "bytes"@.len() == 5 && "gzipped"@.len() == 7
        && "path"@.len() == 4 && "seq"@.len() == 3 && "sha256"@.len() == 6 && "files"@[0] == 'f'
        && "bytes"@[0] == 'b' && "started_ts_ms"@[0] == 's' && "written_ts_ms"@[0] == 'w');
    let m = manifest_view(session_id, started_ts_ms, written_ts_ms, files)->Object_0;
    assert(m[0].0 == "files"@ && m[1].0 == "session_id"@ && m[2].0 == "started_ts_ms"@
        && m[3].0 == "written_ts_ms"@);
    lemma_member_at(m, "files"@, 0);
    lemma_member_at(m, "session_id"@, 1);
    lemma_member_at(m, "started_ts_ms"@, 2);
    lemma_member_at(m, "written_ts_ms"@, 3);
    if 0 <= i < files.len() {
        let f = manifest_file_view(files[i])->Object_0;
        assert(f[0].0 == "bytes"@ && f[1].0 == "gzipped"@ && f[2].0 == "path"@ && f[3].0 == "seq"@
            && f[4].0 == "sha256"@);
        lemma_member_at(f, "bytes"@, 0);
        lemma_member_at(f, "gzipped"@, 1);
        lemma_member_at(f, "path"@, 2);
        lemma_member_at(f, "seq"@, 3);
        lemma_member_at(f, "sha256"@, 4);
    }
}

/// Signing adds one member, the code of the text under the key, in hexadecimal; every other
/// member stays. Without a key nothing is added.
pub proof fn signing_adds_the_code_only(
    m: Seq<(Seq<char>, JsonView)>,
    body_text: Seq<u8>,
    key: Option<Seq<u8>>,
    name: Seq<char>,
)
    requires
        JsonView::Object(m).member("hmac"@) is None,
    ensures
        ({
            let signed = signed_manifest_view(JsonView::Object(m), body_text, key);
            &&& name != "hmac"@ ==> signed.member(name) == JsonView::Object(m).member(name)
            &&& match key {
                Some(k) => signed.member("hmac"@) == Some(
                    JsonView::String(hex_text(hmac_sha256_of(k, body_text))),
                ),
                None => signed.member("hmac"@) is None,
            }
        }),
{
    broadcast use lemma_member_pushed;

}

} // verus!
