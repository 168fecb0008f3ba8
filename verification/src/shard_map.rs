//! Maps keyed by shard identifier.

use vstd::hash_map::StringHashMap;
use vstd::prelude::*;

use crate::strings::texts;

verus! {

/// `ids` lists every element of `set`, each once.
pub open spec fn enumerates(ids: Seq<Seq<char>>, set: Set<Seq<char>>) -> bool {
    &&& ids.no_duplicates()
    &&& ids.to_set() == set
}

/// A map from shard identifiers that can list its keys.
#[verifier::reject_recursive_types(V)]
pub struct ShardMap<V: View> {
    values: StringHashMap<V>,
    /// The keys of `values`, in the order in which they first came in.
    ids: Vec<String>,
}

impl<V: View> View for ShardMap<V> {
    type V = Map<Seq<char>, V::V>;

    closed spec fn view(&self) -> Map<Seq<char>, V::V> {
        self.values@.map_values(|value: V| value@)
    }
}

impl<V: View> ShardMap<V> {
    /// The listed keys are the keys of the map.
    pub closed spec fn wf(&self) -> bool {
        enumerates(texts(self.ids@), self.values@.dom())
    }

    /// The empty map.
    pub fn new() -> (res: Self)
        ensures
            res.wf(),
            res@ == Map::<Seq<char>, V::V>::empty(),
    {
        let res = ShardMap { values: StringHashMap::new(), ids: Vec::new() };
        proof {
            assert(texts(res.ids@).to_set() =~= res.values@.dom());
            assert(res@ =~= Map::<Seq<char>, V::V>::empty());
        }
        res
    }

    /// The number of keys.
    pub fn len(&self) -> (res: usize)
        requires
            self.wf(),
        ensures
            self@.dom().finite(),
            res == self@.dom().len(),
    {
        proof {
            self.lemma_dom();
            texts(self.ids@).unique_seq_to_set();
        }
        self.ids.len()
    }

    /// The value under `id`, if there is one.
    pub fn get(&self, id: &str) -> (res: Option<&V>)
        ensures
            (match res {
                Some(value) => self@.contains_key(id@) && value@ == self@[id@],
                None => !self@.contains_key(id@),
            }),
    {
        self.values.get(id)
    }

    /// Puts `value` under `id`, in place of what was there.
    pub fn insert(&mut self, id: String, value: V)
        requires
            old(self).wf(),
        ensures
            final(self).wf(),
            final(self)@ == old(self)@.insert(id@, value@),
    {
        let ghost ids_before = texts(self.ids@);
        let ghost values_before = self.values@;
        if !self.values.contains_key(id.as_str()) {
            self.ids.push(id.clone());
            proof {
                assert(texts(self.ids@) == ids_before.push(id@));
                assert(!ids_before.contains(id@)) by {
                    assert(ids_before.to_set().contains(id@) == ids_before.contains(id@));
                }
                assert(ids_before.push(id@).to_set() =~= ids_before.to_set().insert(id@)) by {
                    broadcast use vstd::seq_lib::group_seq_properties;
                }
            }
        }
        self.values.insert(id, value);
        proof {
            assert(self.values@.dom() =~= values_before.dom().insert(id@));
            assert(texts(self.ids@).to_set() =~= self.values@.dom());
            assert(self@ =~= old(self)@.insert(id@, value@));
        }
    }

    /// The keys, each once.
    pub fn ids(&self) -> (res: Vec<String>)
        requires
            self.wf(),
        ensures
            enumerates(texts(res@), self@.dom()),
    {
        proof {
            self.lemma_dom();
        }
        let res = self.ids.clone();
        assert(texts(res@) =~= texts(self.ids@));
        res
    }

    proof fn lemma_dom(&self)
        ensures
            self@.dom() == self.values@.dom(),
    {
        assert(self@.dom() =~= self.values@.dom());
    }
}

} // verus!
