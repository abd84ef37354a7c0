//! Maps from texts, kept in the order of their keys.
use vstd::prelude::*;

use crate::text::{lemma_text_lt_total, lemma_text_lt_trans, same_text, text_before, text_lt};

verus! {

/// Every text comes before those behind it.
pub open spec fn in_order(keys: Seq<Seq<char>>) -> bool {
    forall|i: int, j: int|
        0 <= i < j < keys.len() ==> text_lt(#[trigger] keys[i], #[trigger] keys[j])
}

/// A map from texts whose entries stand in the order of their keys.
pub struct TextMap<V> {
    entries: Vec<(String, V)>,
}

spec fn keys_of<V>(e: Seq<(String, V)>) -> Seq<Seq<char>> {
    e.map_values(|p: (String, V)| p.0@)
}

impl<V> View for TextMap<V> {
    type V = Map<Seq<char>, V>;

    closed spec fn view(&self) -> Map<Seq<char>, V> {
        Map::new(
            |k: Seq<char>| keys_of(self.entries@).contains(k),
            |k: Seq<char>| self.entries@[keys_of(self.entries@).index_of(k)].1,
        )
    }
}

proof fn lemma_key_at<V>(m: TextMap<V>, i: int)
    requires
        m.wf(),
        0 <= i < m.entries@.len(),
    ensures
        m@.contains_key(m.entries@[i].0@),
        m@[m.entries@[i].0@] == m.entries@[i].1,
        m.keys()[i] == m.entries@[i].0@,
{
    let keys = keys_of(m.entries@);
    let k = keys[i];
    assert(keys.contains(k));
    let j = keys.index_of(k);
    lemma_text_lt_total(k, k);
    assert(keys[j] == k);
    if j < i {
        assert(text_lt(keys[j], keys[i]));
    } else if i < j {
        assert(text_lt(keys[i], keys[j]));
    }
}

impl<V> TextMap<V> {
    /// The keys, in order.
    pub closed spec fn keys(self) -> Seq<Seq<char>> {
        keys_of(self.entries@)
    }

    pub closed spec fn wf(self) -> bool {
        in_order(keys_of(self.entries@))
    }

    pub fn new() -> (m: TextMap<V>)
        ensures
            m.wf(),
            m@ == Map::<Seq<char>, V>::empty(),
            m.keys() == Seq::<Seq<char>>::empty(),
    {
        let m = TextMap { entries: Vec::new() };
        assert(m.keys() =~= Seq::<Seq<char>>::empty());
        assert(m@ =~= Map::<Seq<char>, V>::empty());
        m
    }

    /// The keys stand in order, and they are the keys of the map.
    pub proof fn lemma_order(self)
        requires
            self.wf(),
        ensures
            in_order(self.keys()),
            forall|k: Seq<char>| #[trigger] self@.contains_key(k) <==> self.keys().contains(k),
    {
    }

    pub fn len(&self) -> (n: usize)
        ensures
            n == self.keys().len(),
    {
        self.entries.len()
    }

    /// The entry with the `i`-th key.
    pub fn at<'a>(&'a self, i: usize) -> (r: (&'a str, &'a V))
        requires
            self.wf(),
            i < self.keys().len(),
        ensures
            r.0@ == self.keys()[i as int],
            self@.contains_key(r.0@),
            *r.1 == self@[r.0@],
    {
        proof {
            lemma_key_at(*self, i as int);
        }
        (self.entries[i].0.as_str(), &self.entries[i].1)
    }

    /// Where a key is or would stand: all keys before that place come before it.
    fn place(&self, key: &str) -> (r: (usize, bool))
        requires
            self.wf(),
        ensures
            r.0 <= self.entries@.len(),
            forall|k: int| 0 <= k < r.0 ==> text_lt(#[trigger] self.keys()[k], key@),
            r.1 ==> r.0 < self.entries@.len() && self.keys()[r.0 as int] == key@,
            !r.1 ==> forall|k: int|
                r.0 <= k < self.entries@.len() ==> text_lt(key@, #[trigger] self.keys()[k]),
            r.1 == self@.contains_key(key@),
    {
        let mut i: usize = 0;
        while i < self.entries.len() && text_before(self.entries[i].0.as_str(), key)
            invariant
                self.wf(),
                i <= self.entries@.len(),
                forall|k: int| 0 <= k < i ==> text_lt(#[trigger] self.keys()[k], key@),
            decreases self.entries@.len() - i,
        {
            assert(self.keys()[i as int] == self.entries@[i as int].0@);
            i += 1;
        }
        if i < self.entries.len() && same_text(self.entries[i].0.as_str(), key) {
            proof {
                lemma_key_at(*self, i as int);
            }
            (i, true)
        } else {
            proof {
                let keys = self.keys();
                assert forall|k: int| i <= k < self.entries@.len() implies text_lt(
                    key@,
                    #[trigger] keys[k],
                ) by {
                    assert(keys[i as int] == self.entries@[i as int].0@);
                    lemma_text_lt_total(keys[i as int], key@);
                    if i < k {
                        lemma_text_lt_trans(key@, keys[i as int], keys[k]);
                    }
                }
                if keys.contains(key@) {
                    let k = keys.index_of(key@);
                    assert(keys[k] == key@);
                    lemma_text_lt_total(key@, key@);
                }
            }
            (i, false)
        }
    }

    /// What stands under a key.
    pub fn get<'a>(&'a self, key: &str) -> (r: Option<&'a V>)
        requires
            self.wf(),
        ensures
            match r {
                Some(v) => self@.contains_key(key@) && *v == self@[key@],
                None => !self@.contains_key(key@),
            },
    {
        let (i, found) = self.place(key);
        if found {
            proof {
                lemma_key_at(*self, i as int);
            }
            Some(&self.entries[i].1)
        } else {
            None
        }
    }

    proof fn lemma_inserted(before: TextMap<V>, after: TextMap<V>, i: int, key: Seq<char>, v: V)
        requires
            before.wf(),
            0 <= i <= before.entries@.len(),
            forall|k: int| 0 <= k < i ==> text_lt(#[trigger] before.keys()[k], key),
            forall|k: int|
                i <= k < before.entries@.len() ==> text_lt(key, #[trigger] before.keys()[k]),
            after.entries@.len() == before.entries@.len() + 1,
            forall|k: int| 0 <= k < i ==> #[trigger] after.entries@[k] == before.entries@[k],
            after.entries@[i].0@ == key,
            after.entries@[i].1 == v,
            forall|k: int|
                i < k < after.entries@.len() ==> #[trigger] after.entries@[k]
                    == before.entries@[k - 1],
        ensures
            after.wf(),
            after@ == before@.insert(key, v),
            after.keys() == before.keys().insert(i, key),
    {
        let a = after.keys();
        let b = before.keys();
        assert(a =~= b.insert(i, key));
        assert forall|x: int, y: int| 0 <= x < y < a.len() implies text_lt(
            #[trigger] a[x],
            #[trigger] a[y],
        ) by {
            if x < i && y > i {
                assert(a[x] == b[x] && a[y] == b[y - 1]);
            } else if x < i && y < i {
                assert(a[x] == b[x] && a[y] == b[y]);
            } else if x > i {
                assert(a[x] == b[x - 1] && a[y] == b[y - 1]);
            } else if x == i {
                assert(a[y] == b[y - 1]);
            } else {
                assert(a[x] == b[x]);
            }
        }
        assert(after.wf());
        assert forall|k: Seq<char>|
            #![trigger after@.contains_key(k)]
            after@.contains_key(k) == before@.insert(key, v).contains_key(k) && (
            after@.contains_key(k) ==> after@[k] == before@.insert(key, v)[k]) by {
            if a.contains(k) {
                let x = a.index_of(k);
                assert(a[x] == k);
                lemma_key_at(after, x);
                if x < i {
                    assert(a[x] == b[x]);
                    lemma_key_at(before, x);
                    lemma_text_lt_total(k, k);
                } else if x > i {
                    assert(a[x] == b[x - 1]);
                    lemma_key_at(before, x - 1);
                    lemma_text_lt_total(k, k);
                }
            }
            if b.contains(k) {
                let x = b.index_of(k);
                assert(b[x] == k);
                if x < i {
                    assert(a[x] == k);
                } else {
                    assert(a[x + 1] == k);
                }
            }
            if k == key {
                assert(a[i] == key);
            }
        }
        assert(after@ =~= before@.insert(key, v));
    }

    /// Puts a value under a key, in place of what stood there.
    pub fn insert(&mut self, key: String, v: V)
        requires
            old(self).wf(),
        ensures
            final(self).wf(),
            final(self)@ == old(self)@.insert(key@, v),
    {
        let (i, found) = self.place(key.as_str());
        if found {
            let ghost before = *self;
            proof {
                lemma_key_at(before, i as int);
            }
            let ghost k = key@;
            self.entries.set(i, (key, v));
            proof {
                assert(self.keys() =~= before.keys());
                Self::lemma_replaced(before, *self, i as int, v);
            }
        } else {
            let ghost before = *self;
            let ghost k = key@;
            self.entries.insert(i, (key, v));
            proof {
                Self::lemma_inserted(before, *self, i as int, k, v);
            }
        }
    }

    proof fn lemma_replaced(before: TextMap<V>, after: TextMap<V>, i: int, v: V)
        requires
            before.wf(),
            0 <= i < before.entries@.len(),
            after.entries@.len() == before.entries@.len(),
            after.keys() == before.keys(),
            forall|k: int|
                0 <= k < before.entries@.len() && k != i ==> (#[trigger] after.entries@[k]).1
                    == before.entries@[k].1,
            after.entries@[i].1 == v,
        ensures
            after.wf(),
            after@ == before@.insert(before.keys()[i], v),
    {
        let key = before.keys()[i];
        assert forall|k: Seq<char>|
            #![trigger after@.contains_key(k)]
            after@.contains_key(k) == before@.insert(key, v).contains_key(k) && (
            after@.contains_key(k) ==> after@[k] == before@.insert(key, v)[k]) by {
            if after.keys().contains(k) {
                let x = after.keys().index_of(k);
                lemma_key_at(after, x);
                lemma_key_at(before, x);
                if x == i {
                } else {
                    lemma_text_lt_total(k, k);
                    if x < i {
                        assert(text_lt(before.keys()[x], before.keys()[i]));
                    } else {
                        assert(text_lt(before.keys()[i], before.keys()[x]));
                    }
                }
            }
            if k == key {
                assert(after.keys()[i] == key);
            }
        }
        assert(after@ =~= before@.insert(key, v));
    }

    /// Takes out what stands under a key.
    pub fn remove(&mut self, key: &str) -> (r: Option<V>)
        requires
            old(self).wf(),
        ensures
            final(self).wf(),
            final(self)@ == old(self)@.remove(key@),
            match r {
                Some(v) => old(self)@.contains_key(key@) && v == old(self)@[key@],
                None => !old(self)@.contains_key(key@),
            },
    {
        let (i, found) = self.place(key);
        if !found {
            assert(self@ =~= old(self)@.remove(key@));
            return None;
        }
        let ghost before = *self;
        proof {
            lemma_key_at(before, i as int);
        }
        let (_, v) = self.entries.remove(i);
        proof {
            let a = self.keys();
            let b = before.keys();
            assert(a =~= b.remove(i as int));
            assert forall|x: int, y: int| 0 <= x < y < a.len() implies text_lt(
                #[trigger] a[x],
                #[trigger] a[y],
            ) by {
                let x2 = if x < i {
                    x
                } else {
                    x + 1
                };
                let y2 = if y < i {
                    y
                } else {
                    y + 1
                };
                assert(a[x] == b[x2] && a[y] == b[y2]);
            }
            assert(self.wf());
            assert forall|k: Seq<char>|
                #![trigger self@.contains_key(k)]
                self@.contains_key(k) == before@.remove(key@).contains_key(k) && (
                self@.contains_key(k) ==> self@[k] == before@.remove(key@)[k]) by {
                if a.contains(k) {
                    let x = a.index_of(k);
                    assert(a[x] == k);
                    let x2 = if x < i {
                        x
                    } else {
                        x + 1
                    };
                    assert(b[x2] == k);
                    lemma_key_at(*self, x);
                    lemma_key_at(before, x2);
                    lemma_text_lt_total(k, k);
                    if x2 < i {
                        assert(text_lt(b[x2], b[i as int]));
                    } else {
                        assert(text_lt(b[i as int], b[x2]));
                    }
                }
                if b.contains(k) && k != key@ {
                    let x = b.index_of(k);
                    assert(b[x] == k);
                    if x < i {
                        assert(a[x] == k);
                    } else {
                        assert(a[x - 1] == k);
                    }
                }
            }
            assert(self@ =~= before@.remove(key@));
        }
        Some(v)
    }

    /// The value under a key, for change; `fresh` is put there first where nothing stands.
    pub fn entry<'a>(&'a mut self, key: &str, fresh: V) -> (r: &'a mut V)
        requires
            old(self).wf(),
        ensures
            *r == (if old(self)@.contains_key(key@) {
                old(self)@[key@]
            } else {
                fresh
            }),
            final(self).wf(),
            final(self)@ == old(self)@.insert(key@, *final(r)),
    {
        let (i, found) = self.place(key);
        let ghost before = *self;
        if found {
            proof {
                lemma_key_at(before, i as int);
            }
        } else {
            self.entries.insert(i, (key.to_owned(), fresh));
            proof {
                Self::lemma_inserted(before, *self, i as int, key@, fresh);
                lemma_key_at(*self, i as int);
                assert(before@.insert(key@, fresh).insert(key@, fresh) =~= before@.insert(key@, fresh));
            }
        }
        let ghost mid = *self;
        let r = &mut self.entries[i].1;
        proof {
            let after = *after_borrow(self);
            assert(after.keys() =~= mid.keys());
            Self::lemma_replaced(mid, after, i as int, *final(r));
            assert(mid@.insert(key@, *final(r)) =~= before@.insert(key@, *final(r)));
        }
        r
    }
}

} // verus!
