//! Per-user access control: the access entry attached to one entity and the
//! map from entity ids to such entries.

use vstd::prelude::*;

use crate::assoc::{map_of, unique_keys, lemma_map_of_dom, lemma_map_of_index, lemma_map_of_push,
    lemma_map_of_remove, lemma_map_of_update};
use crate::cloning::{copy_strings, strings_view};
use crate::types::{EntityId, EntityTag, Revision};

verus! {

/// One user's rights and bookkeeping for one entity.
#[derive(Debug)]
pub struct EntityAccess {
    pub read_only: bool,
    pub local_name: String,
    pub tags: Vec<EntityTag>,
    pub last_seen_rev: Revision,
}

/// Mathematical image of an access entry.
#[verifier::ext_equal]
pub ghost struct AccessView {
    pub read_only: bool,
    pub local_name: Seq<char>,
    pub tags: Seq<Seq<char>>,
    pub last_seen_rev: Revision,
}

impl View for EntityAccess {
    type V = AccessView;

    open spec fn view(&self) -> AccessView {
        AccessView {
            read_only: self.read_only,
            local_name: self.local_name@,
            tags: strings_view(self.tags@),
            last_seen_rev: self.last_seen_rev,
        }
    }
}

impl EntityAccess {
    /// Copies the entry; the copy reads the same.
    #[verifier::loop_isolation(false)]
    pub fn duplicate(&self) -> (r: Self)
        ensures
            r@ == self@,
    {
        EntityAccess {
            read_only: self.read_only,
            local_name: self.local_name.clone(),
            tags: copy_strings(&self.tags),
            last_seen_rev: self.last_seen_rev,
        }
    }
}

/// The ghost pairs described by a stored entry list.
pub open spec fn access_pairs(s: Seq<(EntityId, EntityAccess)>) -> Seq<(EntityId, AccessView)> {
    s.map_values(|p: (EntityId, EntityAccess)| (p.0, p.1@))
}

/// A user's access entries, one per entity id. Reads and writes are gated on
/// the entry found here, never on the entity's own guest list.
#[derive(Debug)]
pub struct AccessMap {
    entries: Vec<(EntityId, EntityAccess)>,
}

impl AccessMap {
    #[verifier::type_invariant]
    spec fn wf(self) -> bool {
        unique_keys(access_pairs(self.entries@))
    }

    /// The entity ids of the entries, in storage order.
    pub closed spec fn keys_seq(&self) -> Seq<EntityId> {
        self.entries@.map_values(|p: (EntityId, EntityAccess)| p.0)
    }

    /// An empty access map.
    pub fn new() -> (r: Self)
        ensures
            r@ == Map::<EntityId, AccessView>::empty(),
    {
        let r = AccessMap { entries: Vec::new() };
        proof {
            assert(access_pairs(r.entries@) =~= Seq::<(EntityId, AccessView)>::empty());
        }
        r
    }

    /// How many entities the user has an entry for. The key positions
    /// enumerate the map's domain, each key exactly once.
    #[verifier::loop_isolation(false)]
    pub fn count(&self) -> (n: usize)
        ensures
            n == self.keys_seq().len(),
            forall|i: int, j: int|
                0 <= i < j < self.keys_seq().len() ==> #[trigger] self.keys_seq()[i]
                    != #[trigger] self.keys_seq()[j],
            forall|i: int|
                0 <= i < self.keys_seq().len() ==> self@.dom().contains(
                    #[trigger] self.keys_seq()[i],
                ),
            forall|k: EntityId|
                self@.dom().contains(k) ==> exists|i: int|
                    0 <= i < self.keys_seq().len() && #[trigger] self.keys_seq()[i] == k,
    {
        proof {
            use_type_invariant(&*self);
            lemma_map_of_dom(access_pairs(self.entries@));
            assert forall|i: int|
                0 <= i < self.keys_seq().len() implies self@.dom().contains(
                #[trigger] self.keys_seq()[i],
            ) by {
                assert(access_pairs(self.entries@)[i].0 == self.keys_seq()[i]);
            }
            assert forall|k: EntityId| self@.dom().contains(k) implies exists|i: int|
                0 <= i < self.keys_seq().len() && #[trigger] self.keys_seq()[i] == k by {
                let i = choose|i: int|
                    0 <= i < access_pairs(self.entries@).len() && (#[trigger] access_pairs(
                        self.entries@,
                    )[i]).0 == k;
                assert(self.keys_seq()[i] == k);
            }
            assert forall|i: int, j: int|
                0 <= i < j < self.keys_seq().len() implies #[trigger] self.keys_seq()[i]
                != #[trigger] self.keys_seq()[j] by {
                assert(access_pairs(self.entries@)[i].0 == self.keys_seq()[i]);
                assert(access_pairs(self.entries@)[j].0 == self.keys_seq()[j]);
            }
        }
        self.entries.len()
    }

    /// The entry for one entity, if the user has one.
    #[verifier::loop_isolation(false)]
    pub fn get(&self, k: EntityId) -> (r: Option<&EntityAccess>)
        ensures
            match r {
                Some(a) => self@.dom().contains(k) && a@ == self@[k],
                None => !self@.dom().contains(k),
            },
    {
        proof {
            use_type_invariant(&*self);
            lemma_map_of_dom(access_pairs(self.entries@));
        }
        let n = self.entries.len();
        let mut i: usize = 0;
        while i < n
            invariant
                n == self.entries@.len(),
                i <= n,
                unique_keys(access_pairs(self.entries@)),
                forall|j: int| 0 <= j < i ==> (#[trigger] self.entries@[j]).0 != k,
            decreases n - i,
        {
            if self.entries[i].0 == k {
                proof {
                    assert(access_pairs(self.entries@)[i as int].0 == k);
                    lemma_map_of_index(access_pairs(self.entries@), i as int);
                }
                return Some(&self.entries[i].1);
            }
            i += 1;
        }
        proof {
            assert forall|j: int| 0 <= j < access_pairs(self.entries@).len() implies (
            #[trigger] access_pairs(self.entries@)[j]).0 != k by {
                assert(self.entries@[j].0 != k);
            }
        }
        None
    }

    /// Whether the user has any entry for the entity.
    pub fn contains(&self, k: EntityId) -> (r: bool)
        ensures
            r == self@.dom().contains(k),
    {
        self.get(k).is_some()
    }

    /// Grants or replaces the entry for one entity.
    #[verifier::loop_isolation(false)]
    pub fn insert(&mut self, k: EntityId, v: EntityAccess)
        ensures
            final(self)@ == old(self)@.insert(k, v@),
    {
        proof {
            use_type_invariant(&*self);
        }
        let ghost vv = v@;
        let mut entries: Vec<(EntityId, EntityAccess)> = Vec::new();
        core::mem::swap(&mut entries, &mut self.entries);
        proof {
            assert(access_pairs(Seq::<(EntityId, EntityAccess)>::empty())
                =~= Seq::<(EntityId, AccessView)>::empty());
        }
        let ghost oldpairs = access_pairs(entries@);
        let n = entries.len();
        let mut i: usize = 0;
        while i < n
            invariant
                n == entries@.len(),
                i <= n,
                unique_keys(oldpairs),
                oldpairs == access_pairs(entries@),
                forall|j: int| 0 <= j < i ==> (#[trigger] entries@[j]).0 != k,
            decreases n - i,
        {
            if entries[i].0 == k {
                proof {
                    assert(oldpairs[i as int].0 == k);
                    lemma_map_of_update(oldpairs, i as int, k, vv);
                }
                entries[i] = (k, v);
                proof {
                    assert(access_pairs(entries@) =~= oldpairs.update(i as int, (k, vv)));
                }
                core::mem::swap(&mut entries, &mut self.entries);
                return;
            }
            i += 1;
        }
        proof {
            assert forall|j: int| 0 <= j < oldpairs.len() implies (#[trigger] oldpairs[j]).0 != k by {
                assert(entries@[j].0 != k);
            }
            lemma_map_of_push(oldpairs, k, vv);
        }
        entries.push((k, v));
        proof {
            assert(access_pairs(entries@) =~= oldpairs.push((k, vv)));
        }
        core::mem::swap(&mut entries, &mut self.entries);
    }

    /// Withdraws the entry for one entity; absence is not an error.
    #[verifier::loop_isolation(false)]
    pub fn remove(&mut self, k: EntityId)
        ensures
            final(self)@ == old(self)@.remove(k),
    {
        proof {
            use_type_invariant(&*self);
        }
        let mut entries: Vec<(EntityId, EntityAccess)> = Vec::new();
        core::mem::swap(&mut entries, &mut self.entries);
        proof {
            assert(access_pairs(Seq::<(EntityId, EntityAccess)>::empty())
                =~= Seq::<(EntityId, AccessView)>::empty());
        }
        let ghost oldpairs = access_pairs(entries@);
        let n = entries.len();
        let mut i: usize = 0;
        while i < n
            invariant
                n == entries@.len(),
                i <= n,
                unique_keys(oldpairs),
                oldpairs == access_pairs(entries@),
                forall|j: int| 0 <= j < i ==> (#[trigger] entries@[j]).0 != k,
            decreases n - i,
        {
            if entries[i].0 == k {
                proof {
                    assert(oldpairs[i as int].0 == k);
                    lemma_map_of_remove(oldpairs, i as int);
                }
                entries.remove(i);
                proof {
                    assert(access_pairs(entries@) =~= oldpairs.remove(i as int));
                }
                core::mem::swap(&mut entries, &mut self.entries);
                return;
            }
            i += 1;
        }
        proof {
            lemma_map_of_dom(oldpairs);
            assert forall|j: int| 0 <= j < oldpairs.len() implies (#[trigger] oldpairs[j]).0 != k by {
                assert(entries@[j].0 != k);
            }
            assert(map_of(oldpairs) =~= map_of(oldpairs).remove(k));
        }
        core::mem::swap(&mut entries, &mut self.entries);
    }

    /// The entity id of the entry at one position; positions enumerate the
    /// map's keys without repetition.
    pub fn key_at(&self, i: usize) -> (k: EntityId)
        requires
            i < self.keys_seq().len(),
        ensures
            k == self.keys_seq()[i as int],
            self@.dom().contains(k),
    {
        proof {
            use_type_invariant(&*self);
            assert(access_pairs(self.entries@)[i as int].0 == self.entries@[i as int].0);
            lemma_map_of_index(access_pairs(self.entries@), i as int);
        }
        self.entries[i].0
    }

    /// Copies the map; the copy reads the same.
    #[verifier::loop_isolation(false)]
    pub fn duplicate(&self) -> (r: Self)
        ensures
            r@ == self@,
    {
        proof {
            use_type_invariant(&*self);
        }
        let mut entries: Vec<(EntityId, EntityAccess)> = Vec::new();
        let n = self.entries.len();
        let mut i: usize = 0;
        while i < n
            invariant
                n == self.entries@.len(),
                i <= n,
                entries@.len() == i,
                forall|j: int|
                    0 <= j < i ==> (#[trigger] entries@[j]).0 == self.entries@[j].0
                        && entries@[j].1@ == self.entries@[j].1@,
            decreases n - i,
        {
            let pair = (self.entries[i].0, self.entries[i].1.duplicate());
            entries.push(pair);
            i += 1;
        }
        proof {
            assert(access_pairs(entries@) =~= access_pairs(self.entries@));
        }
        let r = AccessMap { entries };
        r
    }
}

impl View for AccessMap {
    type V = Map<EntityId, AccessView>;

    closed spec fn view(&self) -> Map<EntityId, AccessView> {
        map_of(access_pairs(self.entries@))
    }
}

} // verus!
