//! The entity store: per-kind growable containers of revisioned entities.
//!
//! Ids are never reused or removed: a vacated entity's payload resets to the
//! default and its author becomes the "no author" sentinel, but the slot
//! stays.

use vstd::prelude::*;

use crate::assoc::remove_first;
use crate::cloning::{copy_values, copy_vec, seq_view, Dup};
use crate::objects::{AssociatedImage, ImageView, Payload};
use crate::types::{OpError, Revision, UserId, NO_AUTHOR};

verus! {

/// The ownership metadata carried by every entity.
#[derive(Debug)]
pub struct EntityData {
    pub image: AssociatedImage,
    pub author: UserId,
    pub guests: Vec<UserId>,
    pub revision: Revision,
}

/// Mathematical image of entity metadata.
#[verifier::ext_equal]
pub ghost struct EntityDataView {
    pub image: ImageView,
    pub author: UserId,
    pub guests: Seq<UserId>,
    pub revision: Revision,
}

impl View for EntityData {
    type V = EntityDataView;

    open spec fn view(&self) -> EntityDataView {
        EntityDataView {
            image: self.image@,
            author: self.author,
            guests: self.guests@,
            revision: self.revision,
        }
    }
}

impl Dup for EntityData {
    fn duplicate(&self) -> (r: Self)
        ensures
            r@ == self@,
    {
        EntityData {
            image: self.image.duplicate(),
            author: self.author,
            guests: copy_values(&self.guests),
            revision: self.revision,
        }
    }
}

/// One stored entity: its payload and its metadata.
pub struct Entity<T> {
    pub inner: T,
    pub metadata: EntityData,
}

/// Mathematical image of a stored entity.
#[verifier::ext_equal]
pub ghost struct EntityView<V> {
    pub inner: V,
    pub metadata: EntityDataView,
}

impl<T: View> View for Entity<T> {
    type V = EntityView<T::V>;

    open spec fn view(&self) -> EntityView<T::V> {
        EntityView { inner: self.inner@, metadata: self.metadata@ }
    }
}

impl<T: Dup> Dup for Entity<T> {
    fn duplicate(&self) -> (r: Self)
        ensures
            r@ == self@,
    {
        Entity { inner: self.inner.duplicate(), metadata: self.metadata.duplicate() }
    }
}

/// The per-kind container. The position of an entity is its stable id.
pub struct Entities<T> {
    pub inner: Vec<Entity<T>>,
}

impl<T: View> View for Entities<T> {
    type V = Seq<EntityView<T::V>>;

    open spec fn view(&self) -> Seq<EntityView<T::V>> {
        seq_view(self.inner@)
    }
}

impl<T: Payload> Entities<T> {
    /// An empty container.
    pub fn init() -> (r: Self)
        ensures
            r@ == Seq::<EntityView<T::V>>::empty(),
    {
        let r = Entities { inner: Vec::new() };
        proof {
            assert(r@ =~= Seq::<EntityView<T::V>>::empty());
        }
        r
    }

    /// How many ids have been handed out.
    pub fn len(&self) -> (n: usize)
        ensures
            n == self@.len(),
    {
        self.inner.len()
    }

    /// The entity under one id; ids at or past the length resolve to nothing.
    pub fn find(&self, raw_id: usize) -> (r: Option<&Entity<T>>)
        ensures
            match r {
                Some(e) => raw_id < self@.len() && e@ == self@[raw_id as int],
                None => raw_id >= self@.len(),
            },
    {
        if raw_id < self.inner.len() {
            proof {
                assert(self@[raw_id as int] == self.inner@[raw_id as int]@);
            }
            Some(&self.inner[raw_id])
        } else {
            None
        }
    }

    /// A snapshot of one entity's metadata.
    pub fn metadata(&self, raw_id: usize) -> (r: Option<EntityData>)
        ensures
            match r {
                Some(d) => raw_id < self@.len() && d@ == self@[raw_id as int].metadata,
                None => raw_id >= self@.len(),
            },
    {
        match self.find(raw_id) {
            Some(e) => Some(e.metadata.duplicate()),
            None => None,
        }
    }

    /// Appends a new entity with the default payload under a freshly
    /// allocated, stable, increasing id; never fails.
    pub fn new_entity(&mut self, metadata: EntityData) -> (raw_id: usize)
        ensures
            raw_id == old(self)@.len(),
            final(self)@ == old(self)@.push(
                EntityView { inner: T::default_view(), metadata: metadata@ },
            ),
    {
        let ghost mdv = metadata@;
        let entity = Entity { inner: T::fresh(), metadata };
        let raw_id = self.inner.len();
        self.inner.push(entity);
        proof {
            assert(self@ =~= old(self)@.push(
                EntityView { inner: T::default_view(), metadata: mdv },
            ));
        }
        raw_id
    }

    /// Appends a guest to the entity's guest list; the list is not
    /// deduplicated, so a repeated call leaves a duplicate entry. An unknown
    /// id changes nothing.
    pub fn try_push_guest(&mut self, raw_id: usize, guest: UserId)
        ensures
            raw_id < old(self)@.len() ==> final(self)@ == old(self)@.update(
                raw_id as int,
                EntityView {
                    inner: old(self)@[raw_id as int].inner,
                    metadata: EntityDataView {
                        guests: old(self)@[raw_id as int].metadata.guests.push(guest),
                        ..old(self)@[raw_id as int].metadata
                    },
                },
            ),
            raw_id >= old(self)@.len() ==> final(self)@ == old(self)@,
    {
        if raw_id < self.inner.len() {
            let entity = &mut self.inner[raw_id];
            entity.metadata.guests.push(guest);
            proof {
                assert(self@ =~= old(self)@.update(
                    raw_id as int,
                    EntityView {
                        inner: old(self)@[raw_id as int].inner,
                        metadata: EntityDataView {
                            guests: old(self)@[raw_id as int].metadata.guests.push(guest),
                            ..old(self)@[raw_id as int].metadata
                        },
                    },
                ));
            }
        }
    }

    /// Takes one user's access away. A departing author hands the entity to
    /// its oldest guest; with no guests left the payload resets to the
    /// default and the entity becomes ownerless. A departing guest loses its
    /// one occurrence; an absent guest or an unknown id changes nothing.
    pub fn try_drop_access(&mut self, raw_id: usize, user_id: UserId)
        ensures
            raw_id >= old(self)@.len() ==> final(self)@ == old(self)@,
            raw_id < old(self)@.len() ==> final(self)@ == old(self)@.update(
                raw_id as int,
                Self::dropped_view(old(self)@[raw_id as int], user_id),
            ),
    {
        if raw_id >= self.inner.len() {
            return;
        }
        let ghost before = self@[raw_id as int];
        let entity = &mut self.inner[raw_id];
        if entity.metadata.author == user_id {
            if entity.metadata.guests.len() == 0 {
                entity.inner = T::fresh();
                entity.metadata.author = NO_AUTHOR;
            } else {
                let new_author = entity.metadata.guests.swap_remove(0);
                entity.metadata.author = new_author;
            }
        } else {
            remove_guest(&mut entity.metadata.guests, user_id);
        }
        proof {
            assert(self@ =~= old(self)@.update(
                raw_id as int,
                Self::dropped_view(before, user_id),
            ));
        }
    }

    /// What one entity looks like after a user drops their access to it.
    pub open spec fn dropped_view(e: EntityView<T::V>, user_id: UserId) -> EntityView<T::V> {
        if e.metadata.author == user_id {
            if e.metadata.guests.len() == 0 {
                EntityView {
                    inner: T::default_view(),
                    metadata: EntityDataView { author: NO_AUTHOR, ..e.metadata },
                }
            } else {
                EntityView {
                    inner: e.inner,
                    metadata: EntityDataView {
                        author: e.metadata.guests[0],
                        guests: e.metadata.guests.update(
                            0,
                            e.metadata.guests.last(),
                        ).drop_last(),
                        ..e.metadata
                    },
                }
            }
        } else {
            EntityView {
                inner: e.inner,
                metadata: EntityDataView {
                    guests: remove_first(e.metadata.guests, user_id),
                    ..e.metadata
                },
            }
        }
    }

    /// Wholesale content replacement, used only at snapshot load.
    pub fn restore(&mut self, other: Self)
        ensures
            final(self)@ == other@,
    {
        self.inner = other.inner;
    }

    /// Copies the whole container; the copy reads the same.
    pub fn duplicate(&self) -> (r: Self)
        ensures
            r@ == self@,
    {
        let r = Entities { inner: copy_vec(&self.inner) };
        proof {
            assert(r@ =~= self@);
        }
        r
    }
}

/// Removes a user's first occurrence from a guest list; an absent user leaves
/// the list unchanged.
#[verifier::loop_isolation(false)]
pub fn remove_guest(guests: &mut Vec<UserId>, user_id: UserId)
    ensures
        final(guests)@ == remove_first(old(guests)@, user_id),
{
    let n = guests.len();
    let mut i: usize = 0;
    while i < n
        invariant
            i <= n,
            n == guests@.len(),
            guests@ == old(guests)@,
            forall|j: int| 0 <= j < i ==> guests@[j] != user_id,
        decreases n - i,
    {
        if guests[i] == user_id {
            proof {
                crate::assoc::lemma_remove_first(guests@, user_id, i as int);
            }
            guests.remove(i);
            return;
        }
        i += 1;
    }
    proof {
        crate::assoc::lemma_remove_first_absent(guests@, user_id);
    }
}

/// The optimistic-concurrency primitive: compares the caller's expected
/// revision with the live one; on a match the revision advances by exactly
/// one, otherwise nothing changes. A revision at the counter's ceiling can no
/// longer advance and fails the same way.
pub fn bump_revision(data: &mut EntityData, expected: Revision) -> (r: Result<Revision, OpError>)
    ensures
        match r {
            Ok(nr) => old(data)@.revision == expected && expected < u32::MAX && nr == expected + 1
                && final(data)@ == EntityDataView { revision: nr, ..old(data)@ },
            Err(e) => e == OpError::OutOfDate && *final(data) == *old(data) && (old(
                data,
            )@.revision != expected || expected == u32::MAX),
        },
{
    if data.revision == expected && expected < u32::MAX {
        data.revision = expected + 1;
        Ok(data.revision)
    } else {
        Err(OpError::OutOfDate)
    }
}

} // verus!
