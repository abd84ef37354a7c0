//! Latencies and outcomes of browser calls, method by method.
use vstd::multiset::Multiset;
use vstd::prelude::*;

use crate::latency::{clamped, summarizes, whole_micros, LatencyHistogram, LatencySnapshot};
use crate::metrics::wrapped_sum;
use crate::slots::SlotMap;
use crate::text_map::TextMap;
use crate::trace::next_count;

verus! {

/// The metric name under which methods without a name of their own are counted.
pub const DYNAMIC_METHOD_METRIC_NAME: &'static str = "cdp.raw.dynamic";

/// How a call ended.
#[derive(Clone, Copy, Debug, PartialEq, Eq, Structural)]
pub enum Outcome {
    Success,
    ProtocolError,
    Transport,
    Internal,
}

/// The counters of one method.
pub struct MethodMetrics {
    latency: LatencyHistogram,
    ok: u64,
    protocol_error: u64,
    transport_error: u64,
    internal_error: u64,
    retries: u64,
}

/// What the counters of a method hold.
pub struct MethodView {
    pub latencies: Multiset<u64>,
    pub ok: u64,
    pub protocol_error: u64,
    pub transport_error: u64,
    pub internal_error: u64,
    pub retries: u64,
}

/// What is shown of one method.
#[derive(Clone, Copy, Debug, PartialEq, Eq, Structural)]
pub struct CdpMethodSnapshot {
    pub latency: LatencySnapshot,
    pub ok: u64,
    pub protocol_error: u64,
    pub transport_error: u64,
    pub internal_error: u64,
    pub retries: u64,
}

/// A method that was never called.
pub open spec fn no_calls() -> MethodView {
    MethodView {
        latencies: Multiset::empty(),
        ok: 0,
        protocol_error: 0,
        transport_error: 0,
        internal_error: 0,
        retries: 0,
    }
}

/// One call more. What came before the last attempt counts as retries.
pub open spec fn called(
    m: MethodView,
    secs: u64,
    nanos: u32,
    outcome: Outcome,
    attempts: u32,
) -> MethodView {
    MethodView {
        latencies: if m.latencies.len() < u64::MAX {
            m.latencies.insert(clamped(whole_micros(secs, nanos)))
        } else {
            m.latencies
        },
        ok: if outcome == Outcome::Success {
            next_count(m.ok)
        } else {
            m.ok
        },
        protocol_error: if outcome == Outcome::ProtocolError {
            next_count(m.protocol_error)
        } else {
            m.protocol_error
        },
        transport_error: if outcome == Outcome::Transport {
            next_count(m.transport_error)
        } else {
            m.transport_error
        },
        internal_error: if outcome == Outcome::Internal {
            next_count(m.internal_error)
        } else {
            m.internal_error
        },
        retries: if attempts > 1 {
            wrapped_sum(m.retries, (attempts - 1) as u64)
        } else {
            m.retries
        },
    }
}

/// `s` shows the counters of a method.
pub open spec fn shows_method(s: CdpMethodSnapshot, m: MethodView) -> bool {
    &&& summarizes(s.latency, m.latencies)
    &&& s.ok == m.ok
    &&& s.protocol_error == m.protocol_error
    &&& s.transport_error == m.transport_error
    &&& s.internal_error == m.internal_error
    &&& s.retries == m.retries
}

impl View for MethodMetrics {
    type V = MethodView;

    closed spec fn view(&self) -> MethodView {
        MethodView {
            latencies: self.latency@,
            ok: self.ok,
            protocol_error: self.protocol_error,
            transport_error: self.transport_error,
            internal_error: self.internal_error,
            retries: self.retries,
        }
    }
}

impl MethodMetrics {
    pub closed spec fn wf(self) -> bool {
        self.latency.wf()
    }

    /// Counters of a method that was never called, with that name for the histogram.
    fn with_histogram_name(name: &'static str) -> (m: MethodMetrics)
        ensures
            m.wf(),
            m@ == no_calls(),
            m.latency.label() == name@,
    {
        MethodMetrics {
            latency: LatencyHistogram::shared(name),
            ok: 0,
            protocol_error: 0,
            transport_error: 0,
            internal_error: 0,
            retries: 0,
        }
    }

    /// Counts a call.
    fn record(&mut self, secs: u64, nanos: u32, outcome: Outcome, attempts: u32)
        requires
            old(self).wf(),
        ensures
            final(self).wf(),
            final(self)@ == called(old(self)@, secs, nanos, outcome, attempts),
    {
        self.latency.record_duration(secs, nanos);
        match outcome {
            Outcome::Success => {
                self.ok = self.ok.wrapping_add(1);
            },
            Outcome::ProtocolError => {
                self.protocol_error = self.protocol_error.wrapping_add(1);
            },
            Outcome::Transport => {
                self.transport_error = self.transport_error.wrapping_add(1);
            },
            Outcome::Internal => {
                self.internal_error = self.internal_error.wrapping_add(1);
            },
        }
        let extra: u64 = attempts.saturating_sub(1) as u64;
        if extra > 0 {
            self.retries = self.retries.wrapping_add(extra);
        }
    }

    fn snapshot(&self) -> (s: CdpMethodSnapshot)
        requires
            self.wf(),
        ensures
            shows_method(s, self@),
    {
        CdpMethodSnapshot {
            latency: self.latency.snapshot(),
            ok: self.ok,
            protocol_error: self.protocol_error,
            transport_error: self.transport_error,
            internal_error: self.internal_error,
            retries: self.retries,
        }
    }

    fn reset(&mut self)
        requires
            old(self).wf(),
        ensures
            final(self).wf(),
            final(self)@ == no_calls(),
    {
        self.latency.reset();
        self.ok = 0;
        self.protocol_error = 0;
        self.transport_error = 0;
        self.internal_error = 0;
        self.retries = 0;
    }
}

/// The counters of all methods.
pub struct CdpMetricsSink {
    methods: SlotMap<MethodMetrics>,
    dynamic_methods: SlotMap<MethodMetrics>,
}

/// What is shown of all methods, by name.
pub struct CdpMethodsSnapshot {
    pub methods: TextMap<CdpMethodSnapshot>,
}

/// The contents of the counters under names.
pub open spec fn contents(m: Map<Seq<char>, MethodMetrics>) -> Map<Seq<char>, MethodView> {
    m.map_values(|x: MethodMetrics| x@)
}

/// The counters with one call more under a name.
pub open spec fn with_call(
    m: Map<Seq<char>, MethodView>,
    method: Seq<char>,
    secs: u64,
    nanos: u32,
    outcome: Outcome,
    attempts: u32,
) -> Map<Seq<char>, MethodView> {
    let before = if m.contains_key(method) {
        m[method]
    } else {
        no_calls()
    };
    m.insert(method, called(before, secs, nanos, outcome, attempts))
}

proof fn lemma_take_contains(s: Seq<Seq<char>>, j: int, k: Seq<char>)
    requires
        0 <= j < s.len(),
    ensures
        s.take(j + 1).contains(k) <==> s.take(j).contains(k) || s[j] == k,
{
    let a = s.take(j);
    let b = s.take(j + 1);
    if a.contains(k) {
        assert(b[a.index_of(k)] == k);
    }
    if s[j] == k {
        assert(b[j] == k);
    }
    if b.contains(k) {
        let x = b.index_of(k);
        if x < j {
            assert(a[x] == k);
        }
    }
}

fn record_in(
    map: &mut SlotMap<MethodMetrics>,
    method: &str,
    metric_name: &'static str,
    secs: u64,
    nanos: u32,
    outcome: Outcome,
    attempts: u32,
)
    requires
        old(map).wf(),
        forall|k: Seq<char>| #[trigger] old(map)@.contains_key(k) ==> old(map)@[k].wf(),
    ensures
        final(map).wf(),
        forall|k: Seq<char>| #[trigger] final(map)@.contains_key(k) ==> final(map)@[k].wf(),
        contents(final(map)@) == with_call(
            contents(old(map)@),
            method@,
            secs,
            nanos,
            outcome,
            attempts,
        ),
{
    let ghost before = map@;
    if map.get(method).is_none() {
        map.insert(method, MethodMetrics::with_histogram_name(metric_name));
    }
    match map.get_mut(method) {
        Some(m) => {
            m.record(secs, nanos, outcome, attempts);
        },
        None => {},
    }
    assert(contents(map@) =~= with_call(contents(before), method@, secs, nanos, outcome, attempts));
}

fn reset_in(map: &mut SlotMap<MethodMetrics>)
    requires
        old(map).wf(),
        forall|k: Seq<char>| #[trigger] old(map)@.contains_key(k) ==> old(map)@[k].wf(),
    ensures
        final(map).wf(),
        forall|k: Seq<char>| #[trigger] final(map)@.contains_key(k) ==> final(map)@[k].wf(),
        final(map)@.dom() == old(map)@.dom(),
        forall|k: Seq<char>| #[trigger] final(map)@.contains_key(k) ==> final(map)@[k]@
            == no_calls(),
{
    let ghost before = *map;
    let mut i: usize = 0;
    while i < map.len()
        invariant
            map.wf(),
            before.wf(),
            map.order() == before.order(),
            i <= map.order().len(),
            map@.dom() == before@.dom(),
            forall|k: Seq<char>| #[trigger] map@.contains_key(k) ==> map@[k].wf(),
            forall|j: int|
                0 <= j < i ==> map@.contains_key(#[trigger] map.order()[j])
                    && map@[map.order()[j]]@ == no_calls(),
        decreases map.order().len() - i,
    {
        let name = {
            let (n, _) = map.at(i);
            n.to_owned()
        };
        proof {
            map.lemma_order();
        }
        match map.get_mut(name.as_str()) {
            Some(m) => {
                m.reset();
            },
            None => {},
        }
        assert(map@.dom() =~= before@.dom());
        i += 1;
    }
    proof {
        map.lemma_order();
        assert forall|k: Seq<char>| #[trigger] map@.contains_key(k) implies map@[k]@
            == no_calls() by {
            let j = map.order().index_of(k);
            assert(map.order()[j] == k);
        }
    }
}

impl CdpMetricsSink {
    pub closed spec fn wf(self) -> bool {
        &&& self.methods.wf()
        &&& self.dynamic_methods.wf()
        &&& forall|k: Seq<char>| #[trigger]
            self.methods@.contains_key(k) ==> self.methods@[k].wf()
        &&& forall|k: Seq<char>| #[trigger]
            self.dynamic_methods@.contains_key(k) ==> self.dynamic_methods@[k].wf()
    }

    /// The counters of the methods that the generated code knows.
    pub closed spec fn known(self) -> Map<Seq<char>, MethodView> {
        contents(self.methods@)
    }

    /// The counters of the methods that callers named at run time.
    pub closed spec fn dynamic(self) -> Map<Seq<char>, MethodView> {
        contents(self.dynamic_methods@)
    }

    pub fn new() -> (s: CdpMetricsSink)
        ensures
            s.wf(),
            s.known() == Map::<Seq<char>, MethodView>::empty(),
            s.dynamic() == Map::<Seq<char>, MethodView>::empty(),
    {
        let s = CdpMetricsSink { methods: SlotMap::new(), dynamic_methods: SlotMap::new() };
        assert(s.known() =~= Map::<Seq<char>, MethodView>::empty());
        assert(s.dynamic() =~= Map::<Seq<char>, MethodView>::empty());
        s
    }

    /// Counts a call of a method that the generated code knows.
    pub fn record_call(
        &mut self,
        method: &'static str,
        secs: u64,
        nanos: u32,
        outcome: Outcome,
        attempts: u32,
    )
        requires
            old(self).wf(),
        ensures
            final(self).wf(),
            final(self).known() == with_call(
                old(self).known(),
                method@,
                secs,
                nanos,
                outcome,
                attempts,
            ),
            final(self).dynamic() == old(self).dynamic(),
    {
        record_in(&mut self.methods, method, method, secs, nanos, outcome, attempts);
    }

    /// Counts a call of a method that the caller named.
    pub fn record_dynamic_call(
        &mut self,
        method: &str,
        secs: u64,
        nanos: u32,
        outcome: Outcome,
        attempts: u32,
    )
        requires
            old(self).wf(),
        ensures
            final(self).wf(),
            final(self).known() == old(self).known(),
            final(self).dynamic() == with_call(
                old(self).dynamic(),
                method@,
                secs,
                nanos,
                outcome,
                attempts,
            ),
    {
        record_in(
            &mut self.dynamic_methods,
            method,
            DYNAMIC_METHOD_METRIC_NAME,
            secs,
            nanos,
            outcome,
            attempts,
        );
    }

    /// Sets every counter back; the methods stay known.
    pub fn reset(&mut self)
        requires
            old(self).wf(),
        ensures
            final(self).wf(),
            final(self).known().dom() == old(self).known().dom(),
            final(self).dynamic().dom() == old(self).dynamic().dom(),
            forall|k: Seq<char>| #[trigger]
                final(self).known().contains_key(k) ==> final(self).known()[k] == no_calls(),
            forall|k: Seq<char>| #[trigger]
                final(self).dynamic().contains_key(k) ==> final(self).dynamic()[k] == no_calls(),
    {
        reset_in(&mut self.methods);
        reset_in(&mut self.dynamic_methods);
        assert(self.known().dom() =~= old(self).known().dom());
        assert(self.dynamic().dom() =~= old(self).dynamic().dom());
    }

    /// What every method that was called has counted, in the order of the names. Where the
    /// same name was counted both ways, what the callers named is shown.
    pub fn snapshot(&self) -> (s: CdpMethodsSnapshot)
        requires
            self.wf(),
        ensures
            s.methods.wf(),
            s.methods@.dom() == self.known().dom().union(self.dynamic().dom()),
            forall|k: Seq<char>| #[trigger]
                s.methods@.contains_key(k) ==> shows_method(
                    s.methods@[k],
                    if self.dynamic().contains_key(k) {
                        self.dynamic()[k]
                    } else {
                        self.known()[k]
                    },
                ),
    {
        let mut out: TextMap<CdpMethodSnapshot> = TextMap::new();
        let ghost known = self.methods.order();
        let mut i: usize = 0;
        while i < self.methods.len()
            invariant
                self.wf(),
                out.wf(),
                known == self.methods.order(),
                i <= known.len(),
                forall|k: Seq<char>| #[trigger]
                    out@.contains_key(k) <==> known.take(i as int).contains(k),
                forall|k: Seq<char>| #[trigger]
                    out@.contains_key(k) ==> self.methods@.contains_key(k) && shows_method(
                        out@[k],
                        self.methods@[k]@,
                    ),
            decreases known.len() - i,
        {
            let (name, m) = self.methods.at(i);
            out.insert(name.to_owned(), m.snapshot());
            proof {
                assert forall|k: Seq<char>| #[trigger] out@.contains_key(k) <==> known.take(
                    i + 1,
                ).contains(k) by {
                    lemma_take_contains(known, i as int, k);
                }
            }
            i += 1;
        }
        proof {
            self.methods.lemma_order();
            assert(known.take(known.len() as int) =~= known);
        }
        let ghost first = out@;
        let ghost dynamic = self.dynamic_methods.order();
        let mut j: usize = 0;
        while j < self.dynamic_methods.len()
            invariant
                self.wf(),
                out.wf(),
                dynamic == self.dynamic_methods.order(),
                j <= dynamic.len(),
                forall|k: Seq<char>| #[trigger]
                    out@.contains_key(k) <==> first.contains_key(k) || dynamic.take(
                        j as int,
                    ).contains(k),
                forall|k: Seq<char>| #[trigger]
                    out@.contains_key(k) ==> if dynamic.take(j as int).contains(k) {
                        self.dynamic_methods@.contains_key(k) && shows_method(
                            out@[k],
                            self.dynamic_methods@[k]@,
                        )
                    } else {
                        first.contains_key(k) && out@[k] == first[k]
                    },
            decreases dynamic.len() - j,
        {
            let (name, m) = self.dynamic_methods.at(j);
            let ghost prior = out@;
            out.insert(name.to_owned(), m.snapshot());
            proof {
                assert forall|k: Seq<char>| #[trigger]
                    out@.contains_key(k) <==> first.contains_key(k) || dynamic.take(
                        j + 1,
                    ).contains(k) by {
                    lemma_take_contains(dynamic, j as int, k);
                    assert(prior.contains_key(k) || k == name@ <==> out@.contains_key(k));
                }
                assert forall|k: Seq<char>| #[trigger] out@.contains_key(k) implies if dynamic.take(
                    j + 1,
                ).contains(k) {
                    self.dynamic_methods@.contains_key(k) && shows_method(
                        out@[k],
                        self.dynamic_methods@[k]@,
                    )
                } else {
                    first.contains_key(k) && out@[k] == first[k]
                } by {
                    lemma_take_contains(dynamic, j as int, k);
                    assert(prior.contains_key(k) || k == name@ <==> out@.contains_key(k));
                }
            }
            j += 1;
        }
        proof {
            self.dynamic_methods.lemma_order();
            assert(dynamic.take(dynamic.len() as int) =~= dynamic);
            assert(out@.dom() =~= self.known().dom().union(self.dynamic().dom()));
        }
        CdpMethodsSnapshot { methods: out }
    }
}

} // verus!
