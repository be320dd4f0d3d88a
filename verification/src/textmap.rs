//! A map from texts to texts that is kept sorted by key.
use crate::sort::{text_le, text_le_total, text_le_transitive, text_not_after};
use crate::text::{same, texts};
use vstd::prelude::*;

verus! {

/// Keys in strictly ascending order.
pub open spec fn ascending(keys: Seq<Seq<char>>) -> bool {
    forall|i: int, j: int|
        #![trigger keys[i], keys[j]]
        0 <= i < j < keys.len() ==> text_le(keys[i], keys[j]) && keys[i] != keys[j]
}

/// The map that pairs keys with values.
pub open spec fn paired(keys: Seq<Seq<char>>, values: Seq<Seq<char>>) -> Map<Seq<char>, Seq<char>> {
    Map::new(|k: Seq<char>| keys.contains(k), |k: Seq<char>| values[keys.index_of(k)])
}

/// A map from texts to texts.
#[derive(Debug, PartialEq, Eq)]
pub struct TextMap {
    keys: Vec<String>,
    values: Vec<String>,
}

impl View for TextMap {
    type V = Map<Seq<char>, Seq<char>>;

    closed spec fn view(&self) -> Map<Seq<char>, Seq<char>> {
        paired(texts(self.keys@), texts(self.values@))
    }
}

proof fn paired_at(keys: Seq<Seq<char>>, values: Seq<Seq<char>>, i: int)
    requires
        ascending(keys),
        0 <= i < keys.len(),
    ensures
        keys.contains(keys[i]),
        keys.index_of(keys[i]) == i,
        paired(keys, values)[keys[i]] == values[i],
        paired(keys, values).contains_key(keys[i]),
{
    let k = keys.index_of(keys[i]);
    assert(keys[i] == keys[i]);
    assert(0 <= k < keys.len() && keys[k] == keys[i]);
    if k < i {
        assert(keys[k] != keys[i]);
    } else if i < k {
        assert(keys[i] != keys[k]);
    }
}

impl TextMap {
    /// The keys are sorted and unique, and each has a value.
    pub closed spec fn wf(self) -> bool {
        self.keys@.len() == self.values@.len() && ascending(texts(self.keys@))
    }

    /// The keys in ascending order.
    pub closed spec fn order(self) -> Seq<Seq<char>> {
        texts(self.keys@)
    }

    /// An empty map.
    pub fn new() -> (r: Self)
        ensures
            r.wf(),
            r@ == Map::<Seq<char>, Seq<char>>::empty(),
            r.order() == Seq::<Seq<char>>::empty(),
            r.column() == Seq::<Seq<char>>::empty(),
    {
        let r = TextMap { keys: Vec::new(), values: Vec::new() };
        assert(r.column() =~= Seq::<Seq<char>>::empty());
        assert(r.order() =~= Seq::<Seq<char>>::empty());
        assert(r@ =~= Map::<Seq<char>, Seq<char>>::empty());
        r
    }

    /// A map from keys in ascending order and their values.
    pub fn of(keys: Vec<String>, values: Vec<String>) -> (r: Self)
        requires
            keys@.len() == values@.len(),
            ascending(texts(keys@)),
        ensures
            r.wf(),
            r@ == paired(texts(keys@), texts(values@)),
            r.order() == texts(keys@),
    {
        TextMap { keys, values }
    }

    /// The values in the order of their keys.
    pub closed spec fn column(self) -> Seq<Seq<char>> {
        texts(self.values@)
    }

    /// The values in the order of their keys.
    pub fn values(&self) -> (r: Vec<String>)
        requires
            self.wf(),
        ensures
            texts(r@) == self.column(),
            r@.len() == self.order().len(),
            paired(self.order(), texts(r@)) == self@,
    {
        let r = crate::error::copy_texts(&self.values);
        assert(r@.len() == texts(r@).len());
        r
    }

    /// Number of entries.
    pub fn len(&self) -> (r: usize)
        requires
            self.wf(),
        ensures
            r == self.order().len(),
    {
        self.keys.len()
    }

    /// Where a key stands, or would stand.
    fn find(&self, key: &str) -> (r: (usize, bool))
        requires
            self.wf(),
        ensures
            r.0 <= self.keys@.len(),
            r.1 ==> r.0 < self.keys@.len() && self.keys@[r.0 as int]@ == key@,
            r.1 == texts(self.keys@).contains(key@),
            forall|k: int|
                0 <= k < r.0 ==> text_le((#[trigger] self.keys@[k])@, key@) && self.keys@[k]@ != key@,
            !r.1 ==> forall|k: int|
                r.0 <= k < self.keys@.len() ==> text_le(key@, (#[trigger] self.keys@[k])@)
                    && self.keys@[k]@ != key@,
    {
        let ghost all = texts(self.keys@);
        let mut i: usize = 0;
        while i < self.keys.len()
            invariant
                i <= self.keys@.len(),
                all == texts(self.keys@),
                ascending(all),
                forall|k: int|
                    0 <= k < i ==> text_le((#[trigger] self.keys@[k])@, key@) && self.keys@[k]@
                        != key@,
            decreases self.keys.len() - i,
        {
            if same(self.keys[i].as_str(), key) {
                assert(all[i as int] == key@);
                return (i, true);
            }
            if !text_not_after(self.keys[i].as_str(), key) {
                proof {
                    text_le_total(self.keys@[i as int]@, key@);
                    assert forall|k: int| i <= k < self.keys@.len() implies text_le(
                        key@,
                        (#[trigger] self.keys@[k])@,
                    ) && self.keys@[k]@ != key@ by {
                        if k > i {
                            assert(text_le(all[i as int], all[k]) && all[i as int] != all[k]);
                            text_le_transitive(key@, all[i as int], all[k]);
                            if all[k] == key@ {
                                text_le_total(all[i as int], key@);
                            }
                        }
                    }
                    assert forall|k: int| 0 <= k < all.len() implies all[k] != key@ by {
                        assert(all[k] == self.keys@[k]@);
                    }
                }
                return (i, false);
            }
            i = i + 1;
        }
        assert forall|k: int| 0 <= k < all.len() implies all[k] != key@ by {
            assert(all[k] == self.keys@[k]@);
        }
        (i, false)
    }

    /// Looks a key up.
    pub fn get(&self, key: &str) -> (r: Option<&str>)
        requires
            self.wf(),
        ensures
            r is Some <==> self@.contains_key(key@),
            r is Some ==> r->0@ == self@[key@],
    {
        let (at, found) = self.find(key);
        if found {
            proof {
                paired_at(texts(self.keys@), texts(self.values@), at as int);
                assert(texts(self.values@)[at as int] == self.values@[at as int]@);
                assert(texts(self.keys@)[at as int] == key@);
            }
            Some(self.values[at].as_str())
        } else {
            None
        }
    }

    /// Inserts or replaces an entry.
    pub fn insert(&mut self, key: &str, value: &str)
        requires
            old(self).wf(),
        ensures
            final(self).wf(),
            final(self)@ == old(self)@.insert(key@, value@),
            final(self).order().len() == old(self).order().len() + if old(self)@.contains_key(
                key@,
            ) {
                0nat
            } else {
                1
            },
    {
        let (at, found) = self.find(key);
        let ghost keys = texts(self.keys@);
        let ghost values = texts(self.values@);
        let ghost before = self@;
        if found {
            self.values[at] = value.to_owned();
            assert(texts(self.values@) =~= values.update(at as int, value@));
            proof {
                assert(keys[at as int] == key@);
                assert forall|k: Seq<char>| keys.contains(k) implies #[trigger] self@[k]
                    == before.insert(key@, value@)[k] by {
                    let i = keys.index_of(k);
                    paired_at(keys, values, i);
                    paired_at(keys, texts(self.values@), i);
                    if k == key@ {
                        paired_at(keys, values, at as int);
                    }
                }
                assert(self@ =~= before.insert(key@, value@));
            }
        } else {
            self.keys.insert(at, key.to_owned());
            self.values.insert(at, value.to_owned());
            proof {
                let after = texts(self.keys@);
                let after_values = texts(self.values@);
                assert(after =~= keys.insert(at as int, key@));
                assert(after_values =~= values.insert(at as int, value@));
                assert forall|i: int, j: int|
                    #![trigger after[i], after[j]]
                    0 <= i < j < after.len() implies text_le(after[i], after[j]) && after[i]
                    != after[j] by {
                    let x = if i < at { i } else { i - 1 };
                    let y = if j < at { j } else { j - 1 };
                    if i == at {
                        assert(after[j] == keys[y]);
                        assert(keys[y] == old(self).keys@[y]@);
                    } else if j == at {
                        assert(after[i] == keys[x]);
                        assert(keys[x] == old(self).keys@[x]@);
                    } else {
                        assert(after[i] == keys[x] && after[j] == keys[y]);
                    }
                }
                assert forall|k: Seq<char>| #[trigger] after.contains(k) <==> keys.contains(k) || k
                    == key@ by {
                    if keys.contains(k) {
                        let i = keys.index_of(k);
                        assert(keys[i] == k);
                        assert(after[if i < at { i } else { i + 1 }] == k);
                    }
                    if k == key@ {
                        assert(after[at as int] == k);
                    }
                    if after.contains(k) {
                        let i = after.index_of(k);
                        assert(after[i] == k);
                        if i != at {
                            assert(keys[if i < at { i } else { i - 1 }] == k);
                        }
                    }
                }
                assert forall|k: Seq<char>| after.contains(k) implies #[trigger] self@[k]
                    == before.insert(key@, value@)[k] by {
                    let i = after.index_of(k);
                    paired_at(after, after_values, i);
                    if i != at {
                        let x = if i < at { i } else { i - 1 };
                        assert(after[i] == keys[x]);
                        paired_at(keys, values, x);
                    }
                }
                assert(self@ =~= before.insert(key@, value@));
            }
        }
    }

    /// Removes an entry, returning whether one existed.
    pub fn remove(&mut self, key: &str) -> (r: bool)
        requires
            old(self).wf(),
        ensures
            final(self).wf(),
            r == old(self)@.contains_key(key@),
            final(self)@ == old(self)@.remove(key@),
            final(self).order().len() == old(self).order().len() - if r {
                1int
            } else {
                0
            },
    {
        let (at, found) = self.find(key);
        let ghost keys = texts(self.keys@);
        let ghost values = texts(self.values@);
        let ghost before = self@;
        if !found {
            assert(self@ =~= before.remove(key@));
            return false;
        }
        let _key = self.keys.remove(at);
        let _value = self.values.remove(at);
        proof {
            let after = texts(self.keys@);
            let after_values = texts(self.values@);
            assert(keys[at as int] == key@);
            assert(after =~= keys.remove(at as int));
            assert(after_values =~= values.remove(at as int));
            assert forall|i: int, j: int|
                #![trigger after[i], after[j]]
                0 <= i < j < after.len() implies text_le(after[i], after[j]) && after[i]
                != after[j] by {
                let x = if i < at { i } else { i + 1 };
                let y = if j < at { j } else { j + 1 };
                assert(after[i] == keys[x] && after[j] == keys[y]);
            }
            assert forall|k: Seq<char>| #[trigger] after.contains(k) <==> keys.contains(k) && k
                != key@ by {
                if keys.contains(k) && k != key@ {
                    let i = keys.index_of(k);
                    assert(keys[i] == k);
                    assert(after[if i < at { i } else { i - 1 }] == k);
                }
                if after.contains(k) {
                    let i = after.index_of(k);
                    let x = if i < at { i } else { i + 1 };
                    assert(after[i] == k);
                    assert(keys[x] == k);
                    assert(keys[x] != keys[at as int]) by {
                        if x < at {
                            assert(keys[x] != keys[at as int]);
                        } else {
                            assert(keys[at as int] != keys[x]);
                        }
                    }
                }
            }
            assert forall|k: Seq<char>| after.contains(k) implies #[trigger] self@[k]
                == before.remove(key@)[k] by {
                let i = after.index_of(k);
                let x = if i < at { i } else { i + 1 };
                paired_at(after, after_values, i);
                assert(after[i] == keys[x]);
                paired_at(keys, values, x);
            }
            assert(self@ =~= before.remove(key@));
        }
        true
    }

    /// The keys in ascending order.
    pub fn keys(&self) -> (r: Vec<String>)
        requires
            self.wf(),
        ensures
            texts(r@) == self.order(),
            r@.len() == self.order().len(),
            ascending(texts(r@)),
            forall|k: Seq<char>| #[trigger] texts(r@).contains(k) <==> self@.contains_key(k),
    {
        let r = crate::error::copy_texts(&self.keys);
        assert(r@.len() == texts(r@).len());
        r
    }

    /// The key at a position in ascending order, with its value.
    pub fn entry(&self, at: usize) -> (r: (&str, &str))
        requires
            self.wf(),
            at < self.order().len(),
        ensures
            r.0@ == self.order()[at as int],
            self@.contains_key(r.0@),
            r.1@ == self@[r.0@],
    {
        proof {
            paired_at(texts(self.keys@), texts(self.values@), at as int);
        }
        (self.keys[at].as_str(), self.values[at].as_str())
    }

    /// Removes every entry.
    pub fn clear(&mut self)
        ensures
            final(self).wf(),
            final(self)@ == Map::<Seq<char>, Seq<char>>::empty(),
            final(self).order() == Seq::<Seq<char>>::empty(),
    {
        *self = TextMap::new();
    }
}

/// The keys of a map in ascending order are the keys that the map has.
pub proof fn order_lists_the_keys(m: TextMap)
    requires
        m.wf(),
    ensures
        ascending(m.order()),
        forall|k: Seq<char>| #[trigger] m.order().contains(k) <==> m@.contains_key(k),
{
}

impl Clone for TextMap {
    fn clone(&self) -> (r: Self)
        ensures
            r@ == self@,
            r.order() == self.order(),
            self.wf() ==> r.wf(),
    {
        let keys = crate::error::copy_texts(&self.keys);
        let values = crate::error::copy_texts(&self.values);
        proof {
            assert(keys@.len() == texts(keys@).len());
            assert(values@.len() == texts(values@).len());
            assert(self.keys@.len() == texts(self.keys@).len());
            assert(self.values@.len() == texts(self.values@).len());
        }
        TextMap { keys, values }
    }
}

} // verus!
