//! The trace writers of all sessions.
use vstd::prelude::*;

use crate::slots::SlotMap;

verus! {

/// What writes the trace of a session, under the id of that session.
pub struct TraceRegistry<W> {
    writers: SlotMap<W>,
}

impl<W> View for TraceRegistry<W> {
    type V = Map<Seq<char>, W>;

    closed spec fn view(&self) -> Map<Seq<char>, W> {
        self.writers@
    }
}

/// The writers after one was asked for: a session that has a writer keeps it; another gets
/// the one that was started for it, if the start succeeded.
pub open spec fn asked<W, E>(
    writers: Map<Seq<char>, W>,
    session_id: Seq<char>,
    started: Result<W, E>,
) -> Map<Seq<char>, W> {
    if writers.contains_key(session_id) {
        writers
    } else {
        match started {
            Ok(w) => writers.insert(session_id, w),
            Err(_) => writers,
        }
    }
}

/// A session keeps its first writer, however often one is asked for and whatever was started
/// for it later.
pub proof fn asking_again_keeps_the_writer<W, E>(
    writers: Map<Seq<char>, W>,
    session_id: Seq<char>,
    first: W,
    later: Result<W, E>,
)
    ensures
        ({
            let once = asked(writers, session_id, Ok::<W, E>(first));
            &&& once.contains_key(session_id)
            &&& !writers.contains_key(session_id) ==> once[session_id] == first
            &&& asked(once, session_id, later) == once
        }),
{
}

impl<W> TraceRegistry<W> {
    pub closed spec fn wf(self) -> bool {
        self.writers.wf()
    }

    pub fn new() -> (r: TraceRegistry<W>)
        ensures
            r.wf(),
            r@ == Map::<Seq<char>, W>::empty(),
    {
        TraceRegistry { writers: SlotMap::new() }
    }

    /// The writer of a session.
    pub fn get<'a>(&'a self, session_id: &str) -> (r: Option<&'a W>)
        requires
            self.wf(),
        ensures
            match r {
                Some(w) => self@.contains_key(session_id@) && *w == self@[session_id@],
                None => !self@.contains_key(session_id@),
            },
    {
        self.writers.get(session_id)
    }

    /// The writer of a session. One that is registered already stays; else the one that was
    /// started is registered, and an error of the start is handed on.
    pub fn get_or_start<'a, E>(&'a mut self, session_id: &str, started: Result<W, E>) -> (r: Result<
        &'a W,
        E,
    >)
        requires
            old(self).wf(),
        ensures
            final(self).wf(),
            final(self)@ == asked(old(self)@, session_id@, started),
            match r {
                Ok(w) => final(self)@.contains_key(session_id@) && *w == final(self)@[session_id@],
                Err(e) => !old(self)@.contains_key(session_id@) && started == Err::<W, E>(e),
            },
    {
        if self.writers.get(session_id).is_none() {
            match started {
                Ok(w) => {
                    self.writers.insert(session_id, w);
                },
                Err(e) => {
                    return Err(e);
                },
            }
        }
        let found = self.writers.get(session_id);
        Ok(found.unwrap())
    }

    /// Registers the writer of a session, in place of the one before.
    pub fn insert(&mut self, session_id: &str, writer: W)
        requires
            old(self).wf(),
        ensures
            final(self).wf(),
            final(self)@ == old(self)@.insert(session_id@, writer),
    {
        self.writers.insert(session_id, writer)
    }

    /// Forgets a session.
    pub fn remove(&mut self, session_id: &str) -> (r: Option<W>)
        requires
            old(self).wf(),
        ensures
            final(self).wf(),
            final(self)@ == old(self)@.remove(session_id@),
            match r {
                Some(w) => old(self)@.contains_key(session_id@) && w == old(self)@[session_id@],
                None => !old(self)@.contains_key(session_id@),
            },
    {
        self.writers.remove(session_id)
    }

    /// All sessions with their writers, each once.
    pub fn iter<'a>(&'a self) -> (all: Vec<(&'a str, &'a W)>)
        requires
            self.wf(),
        ensures
            forall|i: int, j: int|
                0 <= i < j < all@.len() ==> (#[trigger] all@[i]).0@ != (#[trigger] all@[j]).0@,
            forall|i: int|
                0 <= i < all@.len() ==> self@.contains_key((#[trigger] all@[i]).0@) && *all@[i].1
                    == self@[all@[i].0@],
            forall|k: Seq<char>| #[trigger]
                self@.contains_key(k) ==> exists|i: int|
                    0 <= i < all@.len() && (#[trigger] all@[i]).0@ == k,
    {
        proof {
            self.writers.lemma_order();
        }
        let ghost order = self.writers.order();
        let mut all: Vec<(&'a str, &'a W)> = Vec::new();
        let mut i: usize = 0;
        while i < self.writers.len()
            invariant
                self.wf(),
                order == self.writers.order(),
                i <= order.len(),
                all@.len() == i,
                forall|j: int|
                    0 <= j < i ==> (#[trigger] all@[j]).0@ == order[j] && self@.contains_key(
                        all@[j].0@,
                    ) && *all@[j].1 == self@[all@[j].0@],
            decreases order.len() - i,
        {
            all.push(self.writers.at(i));
            i += 1;
        }
        assert forall|k: Seq<char>| #[trigger] self@.contains_key(k) implies exists|i: int|
            0 <= i < all@.len() && (#[trigger] all@[i]).0@ == k by {
            let j = order.index_of(k);
            assert(all@[j].0@ == order[j]);
        }
        all
    }
}

} // verus!
