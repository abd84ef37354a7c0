//! Slot numbers under names, in a concurrent map.
use dashmap::DashMap;
use vstd::prelude::*;

verus! {

/// A concurrent map of the `dashmap` crate.
#[verifier::external_type_specification]
#[verifier::external_body]
#[verifier::reject_recursive_types(K)]
#[verifier::reject_recursive_types(V)]
#[verifier::reject_recursive_types(S)]
pub struct ExDashMap<K, V, S>(dashmap::DashMap<K, V, S>);

/// What a map of slots holds.
pub uninterp spec fn slots_in(m: DashMap<String, usize>) -> Map<Seq<char>, usize>;

/// The map that holds nothing.
pub open spec fn nothing() -> Map<Seq<char>, usize> {
    Map::empty()
}

/// `dashmap::DashMap::new`: an empty map.
#[verifier::external_body]
pub(crate) fn no_slots() -> (m: DashMap<String, usize>)
    ensures
        slots_in(m) == nothing(),
{
    DashMap::new()
}

/// `dashmap::DashMap::get`: what stands under a name. The reference into the map is given
/// up at once.
#[verifier::external_body]
pub(crate) fn slot_of(m: &DashMap<String, usize>, name: &str) -> (r: Option<usize>)
    ensures
        r == (if slots_in(*m).contains_key(name@) {
            Some(slots_in(*m)[name@])
        } else {
            None
        }),
{
    m.get(name).map(|slot| *slot.value())
}

/// `dashmap::DashMap::insert`: puts a slot under a name, in place of what stood there. The
/// map is borrowed for change, so nobody else sees it change.
#[verifier::external_body]
pub(crate) fn put_slot(m: &mut DashMap<String, usize>, name: String, slot: usize)
    ensures
        slots_in(*final(m)) == slots_in(*old(m)).insert(name@, slot),
{
    m.insert(name, slot);
}

/// `dashmap::DashMap::remove`: takes a name out of the map. The map is borrowed for change,
/// so nobody else sees it change.
#[verifier::external_body]
pub(crate) fn drop_slot(m: &mut DashMap<String, usize>, name: &str)
    ensures
        slots_in(*final(m)) == slots_in(*old(m)).remove(name@),
{
    m.remove(name);
}

/// Values under names, each in a slot of its own.
pub struct SlotMap<V> {
    slots: DashMap<String, usize>,
    names: Vec<String>,
    values: Vec<V>,
}

impl<V> View for SlotMap<V> {
    type V = Map<Seq<char>, V>;

    closed spec fn view(&self) -> Map<Seq<char>, V> {
        Map::new(
            |k: Seq<char>| slots_in(self.slots).contains_key(k),
            |k: Seq<char>| self.values@[slots_in(self.slots)[k] as int],
        )
    }
}

impl<V> SlotMap<V> {
    /// Every name has a slot of its own, and every slot a name.
    pub closed spec fn wf(self) -> bool {
        &&& self.names@.len() == self.values@.len()
        &&& forall|k: Seq<char>|
            #[trigger] slots_in(self.slots).contains_key(k) ==> slots_in(self.slots)[k]
                < self.names@.len() && self.names@[slots_in(self.slots)[k] as int]@ == k
        &&& forall|i: int|
            0 <= i < self.names@.len() ==> slots_in(self.slots).contains_key(
                (#[trigger] self.names@[i])@,
            ) && slots_in(self.slots)[self.names@[i]@] == i
    }

    /// The names in the order in which they came.
    pub closed spec fn order(self) -> Seq<Seq<char>> {
        self.names@.map_values(|s: String| s@)
    }

    pub fn new() -> (m: SlotMap<V>)
        ensures
            m.wf(),
            m@ == Map::<Seq<char>, V>::empty(),
            m.order() == Seq::<Seq<char>>::empty(),
    {
        let m = SlotMap { slots: no_slots(), names: Vec::new(), values: Vec::new() };
        assert(m@ =~= Map::<Seq<char>, V>::empty());
        assert(m.order() =~= Seq::<Seq<char>>::empty());
        m
    }

    pub fn len(&self) -> (n: usize)
        ensures
            n == self.order().len(),
    {
        self.names.len()
    }

    /// The names in order are the names of the map, each once.
    pub proof fn lemma_order(self)
        requires
            self.wf(),
        ensures
            forall|k: Seq<char>| #[trigger] self@.contains_key(k) <==> self.order().contains(k),
            self.order().no_duplicates(),
    {
        let o = self.order();
        assert forall|k: Seq<char>| #[trigger] self@.contains_key(k) <==> o.contains(k) by {
            if self@.contains_key(k) {
                assert(o[slots_in(self.slots)[k] as int] == k);
            }
            if o.contains(k) {
                let i = o.index_of(k);
                assert(o[i] == self.names@[i]@);
            }
        }
        assert forall|i: int, j: int| 0 <= i < o.len() && 0 <= j < o.len() && i != j implies o[i]
            != o[j] by {
            assert(slots_in(self.slots)[self.names@[i]@] == i);
            assert(slots_in(self.slots)[self.names@[j]@] == j);
        }
    }

    /// What stands under a name.
    pub fn get<'a>(&'a self, name: &str) -> (r: Option<&'a V>)
        requires
            self.wf(),
        ensures
            match r {
                Some(v) => self@.contains_key(name@) && *v == self@[name@],
                None => !self@.contains_key(name@),
            },
    {
        match slot_of(&self.slots, name) {
            Some(slot) => Some(&self.values[slot]),
            None => None,
        }
    }

    /// The `i`-th entry, in the order in which they came.
    pub fn at<'a>(&'a self, i: usize) -> (r: (&'a str, &'a V))
        requires
            self.wf(),
            i < self.order().len(),
        ensures
            r.0@ == self.order()[i as int],
            self@.contains_key(r.0@),
            *r.1 == self@[r.0@],
    {
        assert(self.order()[i as int] == self.names@[i as int]@);
        (self.names[i].as_str(), &self.values[i])
    }

    /// The value under a name, for change.
    pub fn get_mut<'a>(&'a mut self, name: &str) -> (r: Option<&'a mut V>)
        requires
            old(self).wf(),
        ensures
            final(self).wf(),
            final(self).order() == old(self).order(),
            match r {
                Some(v) => old(self)@.contains_key(name@) && *v == old(self)@[name@]
                    && final(self)@ == old(self)@.insert(name@, *final(v)),
                None => !old(self)@.contains_key(name@) && final(self)@ == old(self)@,
            },
    {
        let ghost before = *self;
        match slot_of(&self.slots, name) {
            Some(slot) => {
                let r = &mut self.values[slot];
                proof {
                    let after = *after_borrow(self);
                    assert(after.slots == before.slots && after.names == before.names);
                    assert(after@ =~= before@.insert(name@, *final(r)));
                }
                Some(r)
            },
            None => None,
        }
    }

    /// Puts a value under a name, in place of what stood there.
    pub fn insert(&mut self, name: &str, v: V)
        requires
            old(self).wf(),
        ensures
            final(self).wf(),
            final(self)@ == old(self)@.insert(name@, v),
            final(self).order() == (if old(self)@.contains_key(name@) {
                old(self).order()
            } else {
                old(self).order().push(name@)
            }),
    {
        let ghost before = *self;
        match slot_of(&self.slots, name) {
            Some(slot) => {
                self.values.set(slot, v);
                assert(self@ =~= before@.insert(name@, v));
                assert(self.order() =~= before.order());
            },
            None => {
                let slot: usize = self.values.len();
                put_slot(&mut self.slots, name.to_owned(), slot);
                self.names.push(name.to_owned());
                self.values.push(v);
                proof {
                    assert forall|k: Seq<char>| #[trigger]
                        slots_in(self.slots).contains_key(k) implies slots_in(self.slots)[k]
                        < self.names@.len() && self.names@[slots_in(self.slots)[k] as int]@ == k by {
                        if k != name@ {
                            assert(slots_in(before.slots).contains_key(k));
                        }
                    }
                    assert forall|i: int| 0 <= i < self.names@.len() implies slots_in(
                        self.slots,
                    ).contains_key((#[trigger] self.names@[i])@) && slots_in(
                        self.slots,
                    )[self.names@[i]@] == i by {
                        if i < before.names@.len() {
                            assert(self.names@[i] == before.names@[i]);
                            assert(before.names@[i]@ != name@);
                        }
                    }
                    assert(self.order() =~= before.order().push(name@));
                    assert(self@ =~= before@.insert(name@, v));
                }
            },
        }
    }

    /// Takes out what stands under a name. The value that came last takes its slot.
    pub fn remove(&mut self, name: &str) -> (r: Option<V>)
        requires
            old(self).wf(),
        ensures
            final(self).wf(),
            final(self)@ == old(self)@.remove(name@),
            match r {
                Some(v) => old(self)@.contains_key(name@) && v == old(self)@[name@],
                None => !old(self)@.contains_key(name@),
            },
    {
        let ghost before = *self;
        let slot: usize = match slot_of(&self.slots, name) {
            Some(slot) => slot,
            None => {
                assert(self@ =~= before@.remove(name@));
                return None;
            },
        };
        let last: usize = self.names.len() - 1;
        drop_slot(&mut self.slots, name);
        let _ = self.names.swap_remove(slot);
        let v = self.values.swap_remove(slot);
        if slot < last {
            let moved = self.names[slot].clone();
            assert(moved@ == before.names@[last as int]@);
            put_slot(&mut self.slots, moved, slot);
        }
        proof {
            let m0 = slots_in(before.slots);
            let m1 = slots_in(self.slots);
            assert(m0[name@] == slot && before.names@[slot as int]@ == name@);
            assert forall|k: Seq<char>| #[trigger] m1.contains_key(k) implies m1[k]
                < self.names@.len() && self.names@[m1[k] as int]@ == k by {
                assert(m0.contains_key(before.names@[last as int]@));
                if slot < last && k == before.names@[last as int]@ {
                    assert(m1[k] == slot);
                } else {
                    assert(m0.contains_key(k) && m1[k] == m0[k]);
                    assert(before.names@[m0[k] as int]@ == k);
                    assert(m0[k] != last);
                    assert(m0[k] != slot);
                }
            }
            assert forall|i: int| 0 <= i < self.names@.len() implies m1.contains_key(
                (#[trigger] self.names@[i])@,
            ) && m1[self.names@[i]@] == i by {
                if i != slot {
                    assert(self.names@[i] == before.names@[i]);
                    assert(m0[before.names@[i]@] == i);
                    assert(m0[before.names@[last as int]@] == last);
                }
            }
            assert forall|k: Seq<char>| #[trigger] self@.contains_key(k) == before@.remove(
                name@,
            ).contains_key(k) by {
                assert(m0.contains_key(before.names@[last as int]@));
                assert(m0[before.names@[last as int]@] == last);
            }
            assert forall|k: Seq<char>| #[trigger] self@.contains_key(k) implies self@[k]
                == before@.remove(name@)[k] by {
                assert(m0.contains_key(k));
                assert(before.names@[m0[k] as int]@ == k);
                assert(m0[before.names@[last as int]@] == last);
            }
            assert(self@ =~= before@.remove(name@));
        }
        Some(v)
    }
}

} // verus!
