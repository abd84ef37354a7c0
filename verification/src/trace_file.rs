//! The task that moves a session's events from the buffer into numbered files: when it
//! waits, rotates, writes and stops.
use vstd::prelude::*;

use crate::redact::Redactor;
use crate::trace::{
    file_views, is_full, redact_event, redacted_event, should_rotate, wake_in, ManifestFile,
    ManifestFileView, TraceEvent, TraceWriter,
};

verus! {

/// What the task does next.
#[derive(Debug)]
pub enum WriterStep {
    /// Sleep that long, unless an event or the shutdown comes first.
    Wait { nanos: u128 },
    /// Close the current file and open the next one.
    Rotate,
    /// Append the event to the current file.
    Write(TraceEvent),
    /// Close the current file for good.
    Close,
}

/// What the task is at.
#[derive(Clone, Copy, Debug, PartialEq, Eq, Structural)]
pub enum Stage {
    /// The first file is open; nothing was done yet.
    Ready,
    Waiting,
    Draining,
    /// The next file is being opened, for an event that waits or because of its age.
    Rotating { for_event: bool },
    /// The next file is open for the event that waits.
    Pending,
    Writing,
    Closing,
    Stopped,
}

/// The state of the task.
pub struct TraceFileWriter {
    stage: Stage,
    seq: u64,
    bytes_written: u64,
    max_bytes: u64,
    max_age_nanos: u128,
    shutdown: bool,
    pending: Option<TraceEvent>,
    files: Vec<ManifestFile>,
}

/// The event as it is written: redacted where the session asked for it.
pub open spec fn written_form(
    ev: TraceEvent,
    redactor: Option<Redactor>,
) -> crate::trace::TraceEventView {
    match redactor {
        Some(r) => redacted_event(r@, ev@),
        None => ev@,
    }
}

fn to_written_form(ev: TraceEvent, redactor: &Option<Redactor>) -> (out: TraceEvent)
    requires
        redactor matches Some(r) ==> r.wf(),
    ensures
        out@ == written_form(ev, *redactor),
{
    match redactor {
        Some(r) => redact_event(ev, r),
        None => ev,
    }
}

/// A number one further, up to the last one.
pub open spec fn next_number(n: u64) -> u64 {
    if n == u64::MAX {
        n
    } else {
        (n + 1) as u64
    }
}

/// What a step of the task does, where the current file is `age_nanos` nanoseconds old.
pub open spec fn advanced(
    before: TraceFileWriter,
    after: TraceFileWriter,
    queue: TraceWriter,
    queue_after: TraceWriter,
    age_nanos: u128,
    redactor: Option<Redactor>,
    step: WriterStep,
) -> bool {
    let events = queue.events();
    &&& after.same_files(before)
    &&& after.stopping() == before.stopping()
    &&& queue_after.same_setup(queue)
    &&& queue_after.same_drops(queue)
    &&& match before.at() {
        Stage::Ready => {
            &&& queue_after.events() == events
            &&& step is Wait
            &&& after.at() == Stage::Waiting
        },
        Stage::Pending => {
            &&& queue_after.events() == events
            &&& step matches WriterStep::Write(ev) && ev@ == written_form(
                before.waiting_event()->Some_0,
                redactor,
            )
            &&& after.at() == Stage::Writing
        },
        _ => if events.len() > 0 {
            &&& queue_after.events() == events.drop_first()
            &&& if before.full_at(age_nanos) {
                &&& step is Rotate
                &&& after.at() == (Stage::Rotating { for_event: true })
                &&& after.waiting_event() == Some(events[0])
            } else {
                &&& step matches WriterStep::Write(ev) && ev@ == written_form(events[0], redactor)
                &&& after.at() == Stage::Writing
            }
        } else {
            &&& queue_after.events() == events
            &&& if before.stopping() {
                step is Close && after.at() == Stage::Closing
            } else if before.full_at(age_nanos) {
                step is Rotate && after.at() == (Stage::Rotating { for_event: false })
            } else {
                step is Wait && after.at() == Stage::Waiting
            }
        },
    }
    &&& step matches WriterStep::Wait { nanos } ==> nanos == (if before.limits().1 - age_nanos
        >= crate::trace::MIN_WAKE_NANOS {
        before.limits().1 - age_nanos
    } else {
        crate::trace::MIN_WAKE_NANOS as int
    })
}

/// What the end of a wait does.
pub open spec fn woke(before: TraceFileWriter, after: TraceFileWriter, shutdown: bool) -> bool {
    &&& after.at() == Stage::Draining
    &&& after.same_files(before)
    &&& after.stopping() == (before.stopping() || shutdown)
}

/// What the end of a write does: of a line of `len` bytes, or of none where it failed.
pub open spec fn wrote(before: TraceFileWriter, after: TraceFileWriter, len: Option<u64>) -> bool {
    &&& after.at() == Stage::Draining
    &&& after.number() == before.number()
    &&& after.limits() == before.limits()
    &&& after.closed_files() == before.closed_files()
    &&& after.stopping() == before.stopping()
    &&& after.size() == (match len {
        Some(n) => if before.size() + n > u64::MAX {
            u64::MAX as int
        } else {
            before.size() + n
        },
        None => before.size() as int,
    })
}

/// The closed files with one more behind them, where there is an entry for it.
pub open spec fn with_closed(files: Seq<ManifestFileView>, closed: Option<ManifestFile>) -> Seq<
    ManifestFileView,
> {
    match closed {
        Some(f) => files.push(f@),
        None => files,
    }
}

/// What opening the next file does; it holds `bytes` already.
pub open spec fn opened_next(
    before: TraceFileWriter,
    after: TraceFileWriter,
    closed: Option<ManifestFile>,
    bytes: u64,
) -> bool {
    &&& after.at() == (if before.at() == (Stage::Rotating { for_event: true }) {
        Stage::Pending
    } else {
        Stage::Ready
    })
    &&& after.number() == next_number(before.number())
    &&& after.size() == bytes
    &&& after.limits() == before.limits()
    &&& after.stopping() == before.stopping()
    &&& after.waiting_event() == before.waiting_event()
    &&& after.closed_files() == with_closed(before.closed_files(), closed)
}

/// What closing the last file does.
pub open spec fn ended(
    before: TraceFileWriter,
    after: TraceFileWriter,
    closed: Option<ManifestFile>,
) -> bool {
    &&& after.at() == Stage::Stopped
    &&& after.number() == before.number()
    &&& after.size() == before.size()
    &&& after.limits() == before.limits()
    &&& after.stopping() == before.stopping()
    &&& after.closed_files() == with_closed(before.closed_files(), closed)
}

impl TraceFileWriter {
    pub closed spec fn at(self) -> Stage {
        self.stage
    }

    /// The number of the current file.
    pub closed spec fn number(self) -> u64 {
        self.seq
    }

    /// The size of the current file.
    pub closed spec fn size(self) -> u64 {
        self.bytes_written
    }

    pub closed spec fn limits(self) -> (u64, u128) {
        (self.max_bytes, self.max_age_nanos)
    }

    pub closed spec fn stopping(self) -> bool {
        self.shutdown
    }

    /// The event that waits for the next file.
    pub closed spec fn waiting_event(self) -> Option<TraceEvent> {
        self.pending
    }

    /// The closed files, in the order in which they were closed.
    pub closed spec fn closed_files(self) -> Seq<ManifestFileView> {
        file_views(self.files@)
    }

    /// Whether the current file is full at that age.
    pub open spec fn full_at(self, age_nanos: u128) -> bool {
        is_full(self.size(), self.limits().0, age_nanos, self.limits().1)
    }

    /// An event waits exactly while the file for it is opened. The closed files are listed
    /// by number, each once, and the current file comes behind them, unless the numbers have
    /// run out.
    pub closed spec fn wf(self) -> bool {
        &&& (self.pending is Some <==> self.stage == Stage::Pending || self.stage
            == (Stage::Rotating { for_event: true }))
        &&& forall|i: int|
            0 <= i < self.files@.len() ==> {
                ||| (#[trigger] self.files@[i]).seq < self.seq
                ||| self.seq == u64::MAX
                ||| self.stage == Stage::Stopped && i == self.files@.len() - 1
                    && self.files@[i].seq == self.seq
            }
        &&& forall|i: int, j: int|
            0 <= i < j < self.files@.len() ==> (#[trigger] self.files@[i]).seq < (
            #[trigger] self.files@[j]).seq || self.files@[j].seq == u64::MAX
    }

    /// The task after the file with that number was opened; it holds `bytes` already.
    pub fn start(seq: u64, bytes: u64, max_bytes: u64, max_age_nanos: u128) -> (w: TraceFileWriter)
        ensures
            w.wf(),
            w.at() == Stage::Ready,
            w.number() == seq,
            w.size() == bytes,
            w.limits() == (max_bytes, max_age_nanos),
            !w.stopping(),
            w.waiting_event() is None,
            w.closed_files() == Seq::<ManifestFileView>::empty(),
    {
        let w = TraceFileWriter {
            stage: Stage::Ready,
            seq,
            bytes_written: bytes,
            max_bytes,
            max_age_nanos,
            shutdown: false,
            pending: None,
            files: Vec::new(),
        };
        assert(w.closed_files() =~= Seq::<ManifestFileView>::empty());
        w
    }

    /// The files and the limits are those of `other`.
    pub open spec fn same_files(self, other: TraceFileWriter) -> bool {
        &&& self.number() == other.number()
        &&& self.size() == other.size()
        &&& self.limits() == other.limits()
        &&& self.closed_files() == other.closed_files()
    }

    /// What the task does next, where the current file is `age_nanos` nanoseconds old. Events leave
    /// the buffer oldest first. A file that is full is rotated before an event goes into
    /// it; an idle task rotates a file that is too old; a task that shuts down first
    /// empties the buffer.
    pub fn advance(
        &mut self,
        queue: &mut TraceWriter,
        age_nanos: u128,
        redactor: &Option<Redactor>,
    ) -> (step: WriterStep)
        requires
            old(self).wf(),
            old(queue).wf(),
            old(self).at() == Stage::Ready || old(self).at() == Stage::Draining || old(self).at()
                == Stage::Pending,
            redactor matches Some(r) ==> r.wf(),
        ensures
            final(self).wf(),
            final(queue).wf(),
            advanced(
                *old(self),
                *final(self),
                *old(queue),
                *final(queue),
                age_nanos,
                *redactor,
                step,
            ),
    {
        match self.stage {
            Stage::Ready => {
                self.stage = Stage::Waiting;
                WriterStep::Wait { nanos: wake_in(age_nanos, self.max_age_nanos) }
            },
            Stage::Pending => {
                let pending = self.pending.take();
                self.stage = Stage::Writing;
                match pending {
                    Some(ev) => WriterStep::Write(to_written_form(ev, redactor)),
                    None => WriterStep::Close,
                }
            },
            _ => {
                let full = should_rotate(
                    self.bytes_written,
                    self.max_bytes,
                    age_nanos,
                    self.max_age_nanos,
                );
                match queue.pop() {
                    Some(ev) => {
                        if full {
                            self.pending = Some(ev);
                            self.stage = Stage::Rotating { for_event: true };
                            WriterStep::Rotate
                        } else {
                            self.stage = Stage::Writing;
                            WriterStep::Write(to_written_form(ev, redactor))
                        }
                    },
                    None => {
                        if self.shutdown {
                            self.stage = Stage::Closing;
                            WriterStep::Close
                        } else if full {
                            self.stage = Stage::Rotating { for_event: false };
                            WriterStep::Rotate
                        } else {
                            self.stage = Stage::Waiting;
                            WriterStep::Wait { nanos: wake_in(age_nanos, self.max_age_nanos) }
                        }
                    },
                }
            },
        }
    }

    /// The wait is over, perhaps because the task is to shut down.
    pub fn woken(&mut self, shutdown: bool)
        requires
            old(self).wf(),
            old(self).at() == Stage::Waiting,
        ensures
            final(self).wf(),
            woke(*old(self), *final(self), shutdown),
    {
        self.stage = Stage::Draining;
        if shutdown {
            self.shutdown = true;
        }
    }

    /// The event was appended as a line of `len` bytes, or, without a length, could not be
    /// and is lost.
    pub fn written(&mut self, len: Option<u64>)
        requires
            old(self).wf(),
            old(self).at() == Stage::Writing,
        ensures
            final(self).wf(),
            wrote(*old(self), *final(self), len),
    {
        self.stage = Stage::Draining;
        match len {
            Some(n) => {
                self.bytes_written = self.bytes_written.saturating_add(n);
            },
            None => {},
        }
    }

    fn list_closed(&mut self, closed: Option<ManifestFile>)
        ensures
            final(self).files@ == (match closed {
                Some(f) => old(self).files@.push(f),
                None => old(self).files@,
            }),
            final(self).closed_files() == with_closed(old(self).closed_files(), closed),
            final(self).stage == old(self).stage,
            final(self).seq == old(self).seq,
            final(self).bytes_written == old(self).bytes_written,
            final(self).max_bytes == old(self).max_bytes,
            final(self).max_age_nanos == old(self).max_age_nanos,
            final(self).shutdown == old(self).shutdown,
            final(self).pending == old(self).pending,
    {
        match closed {
            Some(f) => {
                let ghost before = self.files@;
                self.files.push(f);
                assert(file_views(self.files@) =~= file_views(before).push(f@));
            },
            None => {},
        }
    }

    /// The next file is open; it holds `bytes` already. `closed` is the manifest entry of
    /// the file before, where one could be made.
    pub fn rotated(&mut self, closed: Option<ManifestFile>, bytes: u64)
        requires
            old(self).wf(),
            old(self).at() is Rotating,
            closed matches Some(f) ==> f.seq == old(self).number(),
        ensures
            final(self).wf(),
            opened_next(*old(self), *final(self), closed, bytes),
    {
        self.list_closed(closed);
        self.seq = self.seq.saturating_add(1);
        self.bytes_written = bytes;
        self.stage = match self.stage {
            Stage::Rotating { for_event: true } => Stage::Pending,
            _ => Stage::Ready,
        };
    }

    /// The next file could not be opened: the task ends.
    pub fn rotate_failed(&mut self)
        requires
            old(self).wf(),
            old(self).at() is Rotating,
        ensures
            final(self).wf(),
            final(self).at() == Stage::Stopped,
            final(self).same_files(*old(self)),
    {
        self.stage = Stage::Stopped;
        self.pending = None;
    }

    /// The last file is closed: the task ends.
    pub fn finished(&mut self, closed: Option<ManifestFile>)
        requires
            old(self).wf(),
            old(self).at() == Stage::Closing,
            closed matches Some(f) ==> f.seq == old(self).number(),
        ensures
            final(self).wf(),
            ended(*old(self), *final(self), closed),
    {
        self.list_closed(closed);
        self.stage = Stage::Stopped;
    }

    /// The number of the current file.
    pub fn seq(&self) -> (n: u64)
        ensures
            n == self.number(),
    {
        self.seq
    }

    /// The size of the current file.
    pub fn bytes_written(&self) -> (n: u64)
        ensures
            n == self.size(),
    {
        self.bytes_written
    }

    /// What the task is at.
    pub fn stage(&self) -> (s: Stage)
        ensures
            s == self.at(),
    {
        self.stage
    }

    /// The closed files, in the order in which they were closed.
    pub fn files(&self) -> (v: &Vec<ManifestFile>)
        ensures
            file_views(v@) == self.closed_files(),
    {
        &self.files
    }
}

/// The manifest lists the closed files by their numbers, each once, and none above that of
/// the file that is open, until the numbers have run out.
pub proof fn manifest_is_in_file_order(w: TraceFileWriter, i: int, j: int)
    requires
        w.wf(),
        w.number() < u64::MAX,
        0 <= i < j < w.closed_files().len(),
    ensures
        w.closed_files()[i].seq < w.closed_files()[j].seq <= w.number(),
{
    let a = w.files@[i];
    let b = w.files@[j];
    assert(w.closed_files()[i] == a@ && w.closed_files()[j] == b@);
}

/// An event waits exactly while the file for it is opened.
pub proof fn lemma_waiting(w: TraceFileWriter)
    requires
        w.wf(),
    ensures
        w.waiting_event() is Some <==> w.at() == Stage::Pending || w.at() == (Stage::Rotating {
            for_event: true,
        }),
{
}

} // verus!
