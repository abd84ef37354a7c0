//! What a session's trace comes to over a whole run, from the first file to the last.
use vstd::prelude::*;

use crate::redact::Redactor;
use crate::trace::{
    lemma_capacity, shut_down, took_in, ManifestFile, ManifestFileView, Recorded, TraceEvent, TraceEventView,
    TraceWriter,
};
use crate::trace_file::{
    advanced, ended, lemma_waiting, opened_next, with_closed, woke, written_form, wrote, Stage,
    TraceFileWriter, WriterStep,
};

verus! {

/// The state of a run: the task and its buffer, and what happened so far.
pub struct TraceRun {
    pub task: TraceFileWriter,
    pub queue: TraceWriter,
    /// The number of the first file.
    pub first: u64,
    /// The events that were recorded before the shutdown.
    pub recorded: Seq<TraceEvent>,
    /// Those among them that no overflow pushed out.
    pub kept: Seq<TraceEvent>,
    /// Whether the buffer ever overflowed.
    pub overflowed: bool,
    /// The event that is being written.
    pub in_hand: Option<TraceEventView>,
    /// The lines that were written, each with the number of its file.
    pub lines: Seq<(u64, TraceEventView)>,
}

/// What can happen in a run whose file operations succeed.
pub enum TraceOp {
    /// An event is recorded.
    Record { ev: TraceEvent, now_ms: u64, r: Recorded },
    /// The session asks for the shutdown.
    ShutDown,
    /// The task decides what to do next.
    Advance { age_nanos: u128, step: WriterStep },
    /// The wait of the task is over; it learns of the shutdown once there is one.
    Wake { shutdown: bool },
    /// A line was appended to the current file.
    Write { len: u64 },
    /// The current file was closed and the next one opened.
    Rotate { closed: ManifestFile, bytes: u64 },
    /// The last file was closed.
    Finish { closed: ManifestFile },
}

/// A run in which nothing has happened yet: the first file is open.
pub open spec fn starts(s: TraceRun) -> bool {
    &&& s.task.wf()
    &&& s.queue.wf()
    &&& s.task.at() == Stage::Ready
    &&& s.task.number() == s.first
    &&& !s.task.stopping()
    &&& s.task.closed_files() == Seq::<ManifestFileView>::empty()
    &&& s.queue.events() == Seq::<TraceEvent>::empty()
    &&& !s.queue.closing()
    &&& s.recorded == Seq::<TraceEvent>::empty()
    &&& s.kept == Seq::<TraceEvent>::empty()
    &&& !s.overflowed
    &&& s.in_hand is None
    &&& s.lines == Seq::<(u64, TraceEventView)>::empty()
}

/// An event is about to push another one out.
pub open spec fn overflows(q: TraceWriter) -> bool {
    !q.closing() && q.events().len() >= q.cap()
}

/// `op` takes the run from `s` to `t`. The task and the buffer change as the functions that
/// perform the operation say.
pub open spec fn happens(
    s: TraceRun,
    op: TraceOp,
    t: TraceRun,
    redactor: Option<Redactor>,
) -> bool {
    &&& t.task.wf()
    &&& t.queue.wf()
    &&& match op {
        TraceOp::Record { ev, now_ms, r } => {
            &&& took_in(s.queue, t.queue, ev, now_ms, r)
            &&& t == (TraceRun {
                queue: t.queue,
                recorded: if s.queue.closing() {
                    s.recorded
                } else {
                    s.recorded.push(ev)
                },
                kept: if s.queue.closing() {
                    s.kept
                } else if overflows(s.queue) {
                    s.kept.remove(s.kept.len() - s.queue.events().len()).push(ev)
                } else {
                    s.kept.push(ev)
                },
                overflowed: s.overflowed || overflows(s.queue),
                ..s
            })
        },
        TraceOp::ShutDown => {
            &&& shut_down(s.queue, t.queue)
            &&& t == (TraceRun { queue: t.queue, ..s })
        },
        TraceOp::Advance { age_nanos, step } => {
            &&& s.task.at() == Stage::Ready || s.task.at() == Stage::Draining || s.task.at()
                == Stage::Pending
            &&& advanced(s.task, t.task, s.queue, t.queue, age_nanos, redactor, step)
            &&& t == (TraceRun {
                task: t.task,
                queue: t.queue,
                in_hand: match step {
                    WriterStep::Write(ev) => Some(ev@),
                    _ => None,
                },
                ..s
            })
        },
        TraceOp::Wake { shutdown } => {
            &&& s.task.at() == Stage::Waiting
            &&& shutdown ==> s.queue.closing()
            &&& woke(s.task, t.task, shutdown)
            &&& t == (TraceRun { task: t.task, ..s })
        },
        TraceOp::Write { len } => {
            &&& s.task.at() == Stage::Writing
            &&& wrote(s.task, t.task, Some(len))
            &&& s.in_hand matches Some(line) && t == (TraceRun {
                task: t.task,
                in_hand: None,
                lines: s.lines.push((s.task.number(), line)),
                ..s
            })
        },
        TraceOp::Rotate { closed, bytes } => {
            &&& s.task.at() is Rotating
            &&& closed.seq == s.task.number()
            &&& opened_next(s.task, t.task, Some(closed), bytes)
            &&& t == (TraceRun { task: t.task, ..s })
        },
        TraceOp::Finish { closed } => {
            &&& s.task.at() == Stage::Closing
            &&& closed.seq == s.task.number()
            &&& ended(s.task, t.task, Some(closed))
            &&& t == (TraceRun { task: t.task, ..s })
        },
    }
}

/// `states` is a run: it starts, and each state comes from the one before by the operation
/// between them.
pub open spec fn is_run(
    states: Seq<TraceRun>,
    ops: Seq<TraceOp>,
    redactor: Option<Redactor>,
) -> bool {
    &&& states.len() == ops.len() + 1
    &&& starts(states[0])
    &&& forall|i: int|
        0 <= i < ops.len() ==> happens(states[i], #[trigger] ops[i], states[i + 1], redactor)
}

/// Events as they are written.
pub open spec fn written_forms(events: Seq<TraceEvent>, redactor: Option<Redactor>) -> Seq<
    TraceEventView,
> {
    events.map_values(|ev: TraceEvent| written_form(ev, redactor))
}

/// What the written lines hold, in the order of writing.
pub open spec fn line_events(lines: Seq<(u64, TraceEventView)>) -> Seq<TraceEventView> {
    lines.map_values(|l: (u64, TraceEventView)| l.1)
}

/// What is still to be written: the event in hand, the one that waits for the next file, and
/// those in the buffer.
pub open spec fn outstanding(s: TraceRun, redactor: Option<Redactor>) -> Seq<TraceEventView> {
    (match s.in_hand {
        Some(line) => seq![line],
        None => Seq::empty(),
    }) + (match s.task.waiting_event() {
        Some(ev) => seq![written_form(ev, redactor)],
        None => Seq::empty(),
    }) + written_forms(s.queue.events(), redactor)
}

/// The files are filled in the order of their numbers.
pub open spec fn in_file_order(s: TraceRun) -> bool {
    &&& forall|i: int, j: int|
        0 <= i <= j < s.lines.len() ==> (#[trigger] s.lines[i]).0 <= (#[trigger] s.lines[j]).0
    &&& forall|i: int|
        0 <= i < s.lines.len() ==> s.first <= (#[trigger] s.lines[i]).0 <= s.task.number()
}

/// The manifest lists every file that was closed, from the first one on, each once.
pub open spec fn lists_closed(s: TraceRun) -> bool {
    let files = s.task.closed_files();
    &&& s.first <= s.task.number()
    &&& s.task.number() < u64::MAX ==> {
        &&& files.len() == s.task.number() - s.first + (if s.task.at() == Stage::Stopped {
            1int
        } else {
            0
        })
        &&& forall|i: int| 0 <= i < files.len() ==> (#[trigger] files[i]).seq == s.first + i
    }
}

/// What holds in every state of a run.
pub open spec fn is_sound(s: TraceRun, redactor: Option<Redactor>) -> bool {
    &&& s.task.wf()
    &&& s.queue.wf()
    &&& s.in_hand is Some <==> s.task.at() == Stage::Writing
    &&& s.task.stopping() ==> s.queue.closing()
    &&& s.task.at() == Stage::Closing || s.task.at() == Stage::Stopped ==> {
        &&& s.task.stopping()
        &&& s.queue.events().len() == 0
    }
    &&& !s.overflowed ==> s.kept == s.recorded
    &&& s.kept.len() >= s.queue.events().len()
    &&& line_events(s.lines) + outstanding(s, redactor) == written_forms(s.kept, redactor)
    &&& in_file_order(s)
    &&& lists_closed(s)
}

proof fn lemma_start(s: TraceRun, redactor: Option<Redactor>)
    requires
        starts(s),
    ensures
        is_sound(s, redactor),
{
    lemma_waiting(s.task);
    assert(line_events(s.lines) + outstanding(s, redactor) =~= written_forms(s.kept, redactor));
}

proof fn lemma_record(s: TraceRun, op: TraceOp, t: TraceRun, redactor: Option<Redactor>)
    requires
        is_sound(s, redactor),
        happens(s, op, t, redactor),
        op is Record,
    ensures
        is_sound(t, redactor),
{
    lemma_capacity(s.queue);
    let done = line_events(s.lines);
    let before = s.queue.events();
    if !s.queue.closing() {
        let ev = op->ev;
        assert(written_forms(t.queue.events(), redactor) =~= (if overflows(s.queue) {
            written_forms(before, redactor).drop_first().push(written_form(ev, redactor))
        } else {
            written_forms(before, redactor).push(written_form(ev, redactor))
        }));
        let all = written_forms(s.kept, redactor);
        let k = s.kept.len() - before.len();
        assert(all.len() == s.kept.len());
        assert(done.len() + outstanding(s, redactor).len() == s.kept.len());
        if overflows(s.queue) {
            assert(written_forms(t.kept, redactor) =~= all.remove(k).push(
                written_form(ev, redactor),
            ));
            assert(line_events(t.lines) + outstanding(t, redactor) =~= (done + outstanding(
                s,
                redactor,
            )).remove(k).push(written_form(ev, redactor)));
        } else {
            assert(written_forms(t.kept, redactor) =~= all.push(written_form(ev, redactor)));
            assert(line_events(t.lines) + outstanding(t, redactor) =~= (done + outstanding(
                s,
                redactor,
            )).push(written_form(ev, redactor)));
        }
    }
}

proof fn lemma_advance(s: TraceRun, op: TraceOp, t: TraceRun, redactor: Option<Redactor>)
    requires
        is_sound(s, redactor),
        happens(s, op, t, redactor),
        op is Advance,
    ensures
        is_sound(t, redactor),
{
    lemma_waiting(s.task);
    lemma_waiting(t.task);
    let before = s.queue.events();
    if before.len() > 0 {
        assert(written_forms(before, redactor) =~= seq![written_form(before[0], redactor)]
            + written_forms(before.drop_first(), redactor));
    }
    assert(outstanding(t, redactor) =~= outstanding(s, redactor));
}

proof fn lemma_write(s: TraceRun, op: TraceOp, t: TraceRun, redactor: Option<Redactor>)
    requires
        is_sound(s, redactor),
        happens(s, op, t, redactor),
        op is Write,
    ensures
        is_sound(t, redactor),
{
    lemma_waiting(s.task);
    lemma_waiting(t.task);
    let line = s.in_hand->Some_0;
    assert(line_events(t.lines) =~= line_events(s.lines).push(line));
    assert(line_events(t.lines) + outstanding(t, redactor) =~= line_events(s.lines) + outstanding(
        s,
        redactor,
    ));
}

proof fn lemma_files(s: TraceRun, op: TraceOp, t: TraceRun, redactor: Option<Redactor>)
    requires
        is_sound(s, redactor),
        happens(s, op, t, redactor),
        op is Rotate || op is Finish,
    ensures
        is_sound(t, redactor),
{
    lemma_waiting(s.task);
    lemma_waiting(t.task);
    let closed = if op is Rotate {
        op->Rotate_closed
    } else {
        op->Finish_closed
    };
    let files = with_closed(s.task.closed_files(), Some(closed));
    assert(t.task.closed_files() == files);
    if t.task.number() < u64::MAX {
        assert forall|i: int| 0 <= i < files.len() implies (#[trigger] files[i]).seq == s.first
            + i by {
            if i < s.task.closed_files().len() {
                assert(files[i] == s.task.closed_files()[i]);
            } else {
                assert(files[i] == closed@);
            }
        }
    }
    assert(outstanding(t, redactor) =~= outstanding(s, redactor));
}

proof fn lemma_step(s: TraceRun, op: TraceOp, t: TraceRun, redactor: Option<Redactor>)
    requires
        is_sound(s, redactor),
        happens(s, op, t, redactor),
    ensures
        is_sound(t, redactor),
{
    match op {
        TraceOp::Record { .. } => {
            lemma_record(s, op, t, redactor);
        },
        TraceOp::ShutDown => {
            assert(outstanding(t, redactor) =~= outstanding(s, redactor));
        },
        TraceOp::Advance { .. } => {
            lemma_advance(s, op, t, redactor);
        },
        TraceOp::Wake { .. } => {
            lemma_waiting(s.task);
            lemma_waiting(t.task);
            assert(outstanding(t, redactor) =~= outstanding(s, redactor));
        },
        TraceOp::Write { .. } => {
            lemma_write(s, op, t, redactor);
        },
        TraceOp::Rotate { .. } => {
            lemma_files(s, op, t, redactor);
        },
        TraceOp::Finish { .. } => {
            lemma_files(s, op, t, redactor);
        },
    }
}

/// In every state of a run, what was written and what is still to be written are together the
/// events that were kept, in the order of recording, none lost and none repeated; the files
/// are filled in the order of their numbers; and the manifest lists every closed file once.
pub proof fn every_state_is_sound(
    states: Seq<TraceRun>,
    ops: Seq<TraceOp>,
    redactor: Option<Redactor>,
    k: int,
)
    requires
        is_run(states, ops, redactor),
        0 <= k < states.len(),
    ensures
        is_sound(states[k], redactor),
    decreases k,
{
    if k == 0 {
        lemma_start(states[0], redactor);
    } else {
        every_state_is_sound(states, ops, redactor, k - 1);
        assert(happens(states[k - 1], ops[k - 1], states[k], redactor));
        lemma_step(states[k - 1], ops[k - 1], states[k], redactor);
    }
}

/// A run that has ended, with any limits and over any number of rotations, has written every
/// event that was kept exactly once, in the order of recording and redacted as the session
/// asked. Read by their numbers, the files give the lines in that order, and the manifest
/// lists them all. Where the buffer never overflowed, every recorded event was kept.
pub proof fn a_finished_run_has_written_everything(
    states: Seq<TraceRun>,
    ops: Seq<TraceOp>,
    redactor: Option<Redactor>,
)
    requires
        is_run(states, ops, redactor),
        states.last().task.at() == Stage::Stopped,
    ensures
        line_events(states.last().lines) == written_forms(states.last().kept, redactor),
        !states.last().overflowed ==> line_events(states.last().lines) == written_forms(
            states.last().recorded,
            redactor,
        ),
        in_file_order(states.last()),
        lists_closed(states.last()),
{
    let s = states.last();
    every_state_is_sound(states, ops, redactor, states.len() - 1);
    lemma_waiting(s.task);
    assert(outstanding(s, redactor) =~= Seq::<TraceEventView>::empty());
    assert(line_events(s.lines) + outstanding(s, redactor) =~= line_events(s.lines));
}

} // verus!
