//! A map from sku to record, walked in the order in which the skus first came.
use vstd::prelude::*;
use vstd::hash_map::StringHashMap;

verus! {

/// One entry of a map by sku.
pub struct Entry<V> {
    pub sku: String,
    pub value: V,
}

/// The skus of `entries`, in order.
pub open spec fn entry_skus<V>(entries: Seq<Entry<V>>) -> Seq<Seq<char>> {
    Seq::new(entries.len(), |i: int| entries[i].sku@)
}

/// A map from sku to a record of type `V`.
///
/// No sku occurs twice. Consumers look records up by sku, through a hash index; where
/// the map is walked, the skus come in the order in which each was first inserted.
pub struct BySku<V> {
    entries: Vec<Entry<V>>,
    index: StringHashMap<usize>,
}

impl<V> View for BySku<V> {
    type V = Map<Seq<char>, V>;

    closed spec fn view(&self) -> Map<Seq<char>, V> {
        Map::new(
            |sku: Seq<char>| entry_skus(self.entries@).contains(sku),
            |sku: Seq<char>| self.entries@[entry_skus(self.entries@).index_of(sku)].value,
        )
    }
}

impl<V> BySku<V> {
    #[verifier::type_invariant]
    spec fn well_formed(self) -> bool {
        &&& entry_skus(self.entries@).no_duplicates()
        &&& forall|sku: Seq<char>|
            self.index@.contains_key(sku) <==> entry_skus(self.entries@).contains(sku)
        &&& forall|i: int|
            0 <= i < self.entries@.len() ==> self.index@[#[trigger] self.entries@[i].sku@] == i
    }

    /// The skus of the map, in the order in which it is walked.
    pub closed spec fn keys(&self) -> Seq<Seq<char>> {
        entry_skus(self.entries@)
    }

    proof fn lemma_view(self)
        requires
            self.well_formed(),
        ensures
            self@.dom() == self.keys().to_set(),
            self@.dom().finite(),
            self@.dom().len() == self.keys().len(),
            forall|i: int|
                0 <= i < self.entries@.len() ==> self@.contains_key(
                    #[trigger] self.entries@[i].sku@,
                ) && self@[self.entries@[i].sku@] == self.entries@[i].value,
    {
        let keys = entry_skus(self.entries@);
        assert(self@.dom() =~= keys.to_set());
        keys.unique_seq_to_set();
        vstd::seq_lib::seq_to_set_is_finite(keys);
        assert forall|i: int| 0 <= i < self.entries@.len() implies self@.contains_key(
            #[trigger] self.entries@[i].sku@,
        ) && self@[self.entries@[i].sku@] == self.entries@[i].value by {
            assert(keys[i] == self.entries@[i].sku@);
            let j = keys.index_of(keys[i]);
            assert(keys[j] == keys[i]);
        }
    }

    /// The empty map.
    pub fn new() -> (map: BySku<V>)
        ensures
            map@ == Map::<Seq<char>, V>::empty(),
            map.keys() == Seq::<Seq<char>>::empty(),
    {
        let map = BySku { entries: Vec::new(), index: StringHashMap::new() };
        assert(map@ =~= Map::<Seq<char>, V>::empty());
        assert(map.keys() =~= Seq::<Seq<char>>::empty());
        map
    }

    /// The number of skus in the map. The walk names each sku of the map once.
    pub fn len(&self) -> (n: usize)
        ensures
            n == self@.dom().len(),
            n == self.keys().len(),
            self@.dom().finite(),
            self.keys().no_duplicates(),
            self.keys().to_set() == self@.dom(),
    {
        proof {
            use_type_invariant(self);
            self.lemma_view();
        }
        self.entries.len()
    }

    /// The position of `sku` among the entries, if it is there.
    fn position(&self, sku: &str) -> (at: Option<usize>)
        ensures
            match at {
                Some(i) => i < self.entries@.len() && self.entries@[i as int].sku@ == sku@,
                None => !self.keys().contains(sku@),
            },
    {
        proof {
            use_type_invariant(self);
        }
        match self.index.get(sku) {
            Some(at) => {
                proof {
                    let keys = entry_skus(self.entries@);
                    let j = choose|j: int| 0 <= j < keys.len() && keys[j] == sku@;
                    assert(self.entries@[j].sku@ == sku@);
                }
                Some(*at)
            },
            None => None,
        }
    }

    /// The record under `sku`, if the map has one.
    pub fn get(&self, sku: &str) -> (found: Option<&V>)
        ensures
            match found {
                Some(value) => self@.contains_key(sku@) && *value == self@[sku@],
                None => !self@.contains_key(sku@),
            },
    {
        proof {
            use_type_invariant(self);
            self.lemma_view();
        }
        match self.position(sku) {
            Some(i) => Some(&self.entries[i].value),
            None => None,
        }
    }

    /// Whether the map has a record under `sku`.
    pub fn contains_key(&self, sku: &str) -> (yes: bool)
        ensures
            yes == self@.contains_key(sku@),
    {
        self.get(sku).is_some()
    }

    /// Puts `value` under `sku`. A record that was there before is replaced: the
    /// last one wins.
    pub fn insert(&mut self, sku: String, value: V)
        ensures
            final(self)@ == old(self)@.insert(sku@, value),
            final(self).keys() == if old(self).keys().contains(sku@) {
                old(self).keys()
            } else {
                old(self).keys().push(sku@)
            },
    {
        proof {
            use_type_invariant(&*self);
            self.lemma_view();
        }
        let ghost before = *self;
        let ghost old_keys = entry_skus(self.entries@);
        let at = self.position(sku.as_str());
        let mut taken: BySku<V> = BySku::new();
        core::mem::swap(self, &mut taken);
        let BySku { mut entries, mut index } = taken;
        match at {
            Some(i) => {
                entries.set(i, Entry { sku, value });
                assert(entry_skus(entries@) =~= old_keys);
            },
            None => {
                index.insert(sku.clone(), entries.len());
                entries.push(Entry { sku, value });
                assert(entry_skus(entries@) =~= old_keys.push(sku@));
                assert forall|k: Seq<char>| index@.contains_key(k) <==> entry_skus(
                    entries@,
                ).contains(k) by {
                    if old_keys.contains(k) {
                        let j = choose|j: int| 0 <= j < old_keys.len() && old_keys[j] == k;
                        assert(entry_skus(entries@)[j] == k);
                    }
                    if entry_skus(entries@).contains(k) && k != sku@ {
                        let j = choose|j: int|
                            0 <= j < entries@.len() && entry_skus(entries@)[j] == k;
                        assert(old_keys[j] == k);
                    }
                    if k == sku@ {
                        assert(entry_skus(entries@)[old_keys.len() as int] == k);
                    }
                }
                assert forall|i: int| 0 <= i < entries@.len() implies index@[#[trigger] entries@[i].sku@]
                    == i by {
                    if i < old_keys.len() {
                        assert(old_keys[i] == before.entries@[i].sku@);
                        assert(entries@[i] == before.entries@[i]);
                    }
                }
            },
        }
        *self = BySku { entries, index };
        proof {
            let keys = entry_skus(self.entries@);
            self.lemma_view();
            before.lemma_view();
            assert(self@.dom() =~= before@.insert(sku@, value).dom()) by {
                assert forall|k: Seq<char>| keys.contains(k) <==> (old_keys.contains(k) || k
                    == sku@) by {
                    if keys.contains(k) {
                        let j = choose|j: int| 0 <= j < keys.len() && keys[j] == k;
                        if k != sku@ {
                            assert(old_keys[j] == k);
                        }
                    }
                    if old_keys.contains(k) {
                        let j = choose|j: int| 0 <= j < old_keys.len() && old_keys[j] == k;
                        assert(keys[j] == k);
                    }
                    if k == sku@ {
                        match at {
                            Some(i) => {
                                assert(keys[i as int] == k);
                            },
                            None => {
                                assert(keys[keys.len() - 1] == k);
                            },
                        }
                    }
                }
            }
            assert forall|k: Seq<char>| self@.dom().contains(k) implies #[trigger] self@[k]
                == before@.insert(sku@, value)[k] by {
                let j = choose|j: int| 0 <= j < keys.len() && keys[j] == k;
                assert(self.entries@[j].sku@ == k);
                assert(self@[self.entries@[j].sku@] == self.entries@[j].value);
                if k != sku@ {
                    assert(old_keys[j] == k);
                    assert(before.entries@[j].sku@ == k);
                    assert(before@[before.entries@[j].sku@] == before.entries@[j].value);
                } else {
                    match at {
                        Some(i) => {
                            assert(keys[i as int] == k);
                        },
                        None => {
                            assert(keys[keys.len() - 1] == k);
                        },
                    }
                }
            }
            assert(self@ =~= before@.insert(sku@, value));
        }
    }

    /// The entry at `position` of the walk, if the walk is that long.
    pub fn entry_at(&self, position: usize) -> (entry: Option<&Entry<V>>)
        ensures
            match entry {
                Some(e) => {
                    &&& position < self.keys().len()
                    &&& e.sku@ == self.keys()[position as int]
                    &&& self@.contains_key(e.sku@)
                    &&& self@[e.sku@] == e.value
                },
                None => position >= self.keys().len(),
            },
    {
        proof {
            use_type_invariant(self);
            self.lemma_view();
        }
        if position < self.entries.len() {
            Some(&self.entries[position])
        } else {
            None
        }
    }

    /// The skus of the map, in the order in which it is walked.
    pub fn skus(&self) -> (skus: Vec<String>)
        ensures
            crate::text::texts(skus@) == self.keys(),
    {
        let mut skus: Vec<String> = Vec::new();
        let mut i: usize = 0;
        while i < self.entries.len()
            invariant
                i <= self.entries.len(),
                crate::text::texts(skus@) == entry_skus(self.entries@).take(i as int),
            decreases self.entries.len() - i,
        {
            let ghost before = crate::text::texts(skus@);
            skus.push(self.entries[i].sku.clone());
            assert(crate::text::texts(skus@) =~= before.push(self.entries@[i as int].sku@));
            assert(entry_skus(self.entries@).take(i + 1) =~= before.push(
                self.entries@[i as int].sku@,
            ));
            i += 1;
        }
        assert(entry_skus(self.entries@).take(i as int) == entry_skus(self.entries@));
        skus
    }
}

} // verus!
