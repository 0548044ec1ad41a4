//! The whole entity store: one container per kind, the username index and the
//! file reference-count table, plus update fan-out and blob collection.

use vstd::prelude::*;

use crate::assoc::concat_all;
use crate::cloning::copy_values;
use crate::entities::{Entities, EntityData, EntityDataView, EntityView};
use crate::objects::{Bucket, Conversation, Document, FileView, ElementView, MessageView, Payload};
use crate::sheet::{CellView, Sheet};
use crate::strmap::{str_map_contents, str_map_entries, str_map_get, str_map_insert, str_map_new};
use crate::types::{EntityId, IndexInEntity, SessionId, UserId};
use crate::update::Update;
use crate::user::{User, UserView};

verus! {

/// The process-wide store: every collaborative object lives here.
pub struct Database {
    pub conversations: Entities<Conversation>,
    pub buckets: Entities<Bucket>,
    pub sheets: Entities<Sheet>,
    pub documents: Entities<Document>,
    pub users: Entities<User>,
    pub usernames: litemap::LiteMap<String, usize>,
    pub file_rc: litemap::LiteMap<String, usize>,
}

/// Mathematical image of the whole store.
#[verifier::ext_equal]
pub ghost struct DatabaseView {
    pub conversations: Seq<EntityView<Seq<MessageView>>>,
    pub buckets: Seq<EntityView<Seq<FileView>>>,
    pub sheets: Seq<EntityView<Map<IndexInEntity, CellView>>>,
    pub documents: Seq<EntityView<Seq<ElementView>>>,
    pub users: Seq<EntityView<UserView>>,
    pub usernames: Map<Seq<char>, usize>,
    pub file_rc: Map<Seq<char>, usize>,
}

impl View for Database {
    type V = DatabaseView;

    open spec fn view(&self) -> DatabaseView {
        DatabaseView {
            conversations: self.conversations@,
            buckets: self.buckets@,
            sheets: self.sheets@,
            documents: self.documents@,
            users: self.users@,
            usernames: str_map_contents(self.usernames),
            file_rc: str_map_contents(self.file_rc),
        }
    }
}

/// The metadata of the entity an id addresses, if the id resolves.
pub open spec fn entity_metadata(dbv: DatabaseView, id: EntityId) -> Option<EntityDataView> {
    match id {
        EntityId::Conversation(raw) => if raw < dbv.conversations.len() {
            Some(dbv.conversations[raw as int].metadata)
        } else {
            None
        },
        EntityId::Bucket(raw) => if raw < dbv.buckets.len() {
            Some(dbv.buckets[raw as int].metadata)
        } else {
            None
        },
        EntityId::Spreadsheet(raw) => if raw < dbv.sheets.len() {
            Some(dbv.sheets[raw as int].metadata)
        } else {
            None
        },
        EntityId::Document(raw) => if raw < dbv.documents.len() {
            Some(dbv.documents[raw as int].metadata)
        } else {
            None
        },
        EntityId::User(raw) => if raw < dbv.users.len() {
            Some(dbv.users[raw as int].metadata)
        } else {
            None
        },
    }
}

/// The sessions one user id owns; an id that does not resolve owns none.
pub open spec fn user_sessions(dbv: DatabaseView, uid: UserId) -> Seq<SessionId> {
    if uid < dbv.users.len() {
        dbv.users[uid as int].inner.sessions
    } else {
        Seq::empty()
    }
}

/// Who a mutation of an entity is fanned out to: its guests, then its author.
pub open spec fn recipients(md: EntityDataView) -> Seq<UserId> {
    md.guests.push(md.author)
}

/// Every live session an update to the entity reaches, in delivery order: for
/// each recipient in turn, that user's sessions. An id that does not resolve
/// reaches nobody, and a recipient id that does not resolve is skipped.
pub open spec fn fanout_sessions(dbv: DatabaseView, id: EntityId) -> Seq<SessionId> {
    match entity_metadata(dbv, id) {
        None => Seq::empty(),
        Some(md) => concat_all(recipients(md).map_values(|u: UserId| user_sessions(dbv, u))),
    }
}

/// One fan-out batch: the update and the sessions it is to be enqueued on.
pub struct Batch {
    pub update: Update,
    pub sessions: Vec<SessionId>,
}

impl Database {
    /// An empty store.
    pub fn init() -> (r: Self)
        ensures
            r@.conversations == Seq::<EntityView<Seq<MessageView>>>::empty(),
            r@.buckets == Seq::<EntityView<Seq<FileView>>>::empty(),
            r@.sheets == Seq::<EntityView<Map<IndexInEntity, CellView>>>::empty(),
            r@.documents == Seq::<EntityView<Seq<ElementView>>>::empty(),
            r@.users == Seq::<EntityView<UserView>>::empty(),
            r@.usernames == crate::strmap::empty_str_map(),
            r@.file_rc == crate::strmap::empty_str_map(),
    {
        Database {
            conversations: Entities::init(),
            buckets: Entities::init(),
            sheets: Entities::init(),
            documents: Entities::init(),
            users: Entities::init(),
            usernames: str_map_new(),
            file_rc: str_map_new(),
        }
    }

    /// A snapshot of one entity's metadata, whatever its kind.
    pub fn metadata(&self, entity_id: EntityId) -> (r: Option<EntityData>)
        ensures
            match r {
                Some(d) => entity_metadata(self@, entity_id) == Some(d@),
                None => entity_metadata(self@, entity_id) is None,
            },
    {
        match entity_id {
            EntityId::Conversation(raw) => self.conversations.metadata(raw),
            EntityId::Bucket(raw) => self.buckets.metadata(raw),
            EntityId::Spreadsheet(raw) => self.sheets.metadata(raw),
            EntityId::Document(raw) => self.documents.metadata(raw),
            EntityId::User(raw) => self.users.metadata(raw),
        }
    }

    /// Appends a guest to the addressed entity's guest list; an id that does
    /// not resolve changes nothing.
    pub fn push_guest(&mut self, entity_id: EntityId, guest: UserId)
        ensures
            final(self)@ == db_pushed_guest(old(self)@, entity_id, guest),
    {
        match entity_id {
            EntityId::Conversation(raw) => self.conversations.try_push_guest(raw, guest),
            EntityId::Bucket(raw) => self.buckets.try_push_guest(raw, guest),
            EntityId::Spreadsheet(raw) => self.sheets.try_push_guest(raw, guest),
            EntityId::Document(raw) => self.documents.try_push_guest(raw, guest),
            EntityId::User(raw) => self.users.try_push_guest(raw, guest),
        }
    }

    /// Takes one user's access to the addressed entity away, as
    /// `Entities::try_drop_access` does; an id that does not resolve changes
    /// nothing.
    pub fn drop_access(&mut self, entity_id: EntityId, user_id: UserId)
        ensures
            final(self)@ == db_dropped_access(old(self)@, entity_id, user_id),
    {
        match entity_id {
            EntityId::Conversation(raw) => self.conversations.try_drop_access(raw, user_id),
            EntityId::Bucket(raw) => self.buckets.try_drop_access(raw, user_id),
            EntityId::Spreadsheet(raw) => self.sheets.try_drop_access(raw, user_id),
            EntityId::Document(raw) => self.documents.try_drop_access(raw, user_id),
            EntityId::User(raw) => self.users.try_drop_access(raw, user_id),
        }
    }

    /// Counts one more reference to a content hash; the first reference sets
    /// the count to one. A count at the machine ceiling stays there.
    pub fn inc_file_rc(&mut self, hash: &String)
        ensures
            final(self)@ == (DatabaseView { file_rc: rc_inc(old(self)@.file_rc, hash@), ..old(
                self,
            )@ }),
    {
        match str_map_get(&self.file_rc, hash) {
            Some(c) => {
                let nc = if c < usize::MAX {
                    c + 1
                } else {
                    c
                };
                str_map_insert(&mut self.file_rc, hash.clone(), nc);
            },
            None => {
                str_map_insert(&mut self.file_rc, hash.clone(), 1);
            },
        }
    }

    /// Counts one reference to a content hash gone; a hash with no count, or
    /// a count already at zero, changes nothing.
    pub fn dec_file_rc(&mut self, hash: &String)
        ensures
            final(self)@ == (DatabaseView { file_rc: rc_dec(old(self)@.file_rc, hash@), ..old(
                self,
            )@ }),
    {
        match str_map_get(&self.file_rc, hash) {
            Some(c) => {
                if c > 0 {
                    str_map_insert(&mut self.file_rc, hash.clone(), c - 1);
                }
            },
            None => {},
        }
    }

    /// The collection pass: every hash whose count is zero leaves the table
    /// and is returned, each exactly once, so the caller can delete its blob;
    /// every hash with a positive count stays, its count untouched.
    #[verifier::loop_isolation(false)]
    #[verifier::rlimit(100)]
    pub fn collect_garbage(&mut self) -> (doomed: Vec<String>)
        ensures
            forall|k: Seq<char>|
                final(self)@.file_rc.dom().contains(k) <==> old(self)@.file_rc.dom().contains(k)
                    && old(self)@.file_rc[k] > 0,
            forall|k: Seq<char>|
                final(self)@.file_rc.dom().contains(k) ==> final(self)@.file_rc[k] == old(
                    self,
                )@.file_rc[k],
            forall|i: int|
                0 <= i < doomed@.len() ==> old(self)@.file_rc.contains_pair(
                    (#[trigger] doomed@[i])@,
                    0,
                ),
            forall|k: Seq<char>|
                old(self)@.file_rc.dom().contains(k) && old(self)@.file_rc[k] == 0 ==> exists|
                    i: int,
                |
                    0 <= i < doomed@.len() && (#[trigger] doomed@[i])@ == k,
            forall|i: int, j: int|
                0 <= i < j < doomed@.len() ==> (#[trigger] doomed@[i])@ != (
                #[trigger] doomed@[j])@,
            final(self)@.conversations == old(self)@.conversations,
            final(self)@.buckets == old(self)@.buckets,
            final(self)@.sheets == old(self)@.sheets,
            final(self)@.documents == old(self)@.documents,
            final(self)@.users == old(self)@.users,
            final(self)@.usernames == old(self)@.usernames,
    {
        let ghost before = str_map_contents(self.file_rc);
        let entries = str_map_entries(&self.file_rc);
        let doomed = zero_hashes(&entries);
        let mut kept = str_map_new();
        let n = entries.len();
        let mut i: usize = 0;
        while i < n
            invariant
                i <= n,
                n == entries@.len(),
                str_map_contents(self.file_rc) == before,
                forall|k: Seq<char>|
                    str_map_contents(kept).dom().contains(k) <==> exists|j: int|
                        0 <= j < i && (#[trigger] entries@[j]).0@ == k && entries@[j].1 > 0,
                forall|j: int|
                    0 <= j < i && (#[trigger] entries@[j]).1 > 0 ==> str_map_contents(
                        kept,
                    ).contains_pair(entries@[j].0@, entries@[j].1),
            decreases n - i,
        {
            let v = entries[i].1;
            if v > 0 {
                let k = entries[i].0.clone();
                str_map_insert(&mut kept, k, v);
                proof {
                    assert forall|k2: Seq<char>|
                        str_map_contents(kept).dom().contains(k2) implies exists|j: int|
                        0 <= j < i + 1 && (#[trigger] entries@[j]).0@ == k2 && entries@[j].1
                            > 0 by {
                        if k2 == entries@[i as int].0@ {
                            assert(entries@[i as int].0@ == k2 && entries@[i as int].1 > 0);
                        } else {
                            let j = choose|j: int|
                                0 <= j < i && (#[trigger] entries@[j]).0@ == k2 && entries@[j].1
                                    > 0;
                            assert(entries@[j].0@ == k2 && entries@[j].1 > 0);
                        }
                    }
                }
            }
            i += 1;
        }
        self.file_rc = kept;
        proof {
            assert forall|k: Seq<char>|
                str_map_contents(kept).dom().contains(k) <==> before.dom().contains(k) && before[k]
                    > 0 by {
                if str_map_contents(kept).dom().contains(k) {
                    let j = choose|j: int|
                        0 <= j < n && (#[trigger] entries@[j]).0@ == k && entries@[j].1 > 0;
                    assert(before.contains_pair(entries@[j].0@, entries@[j].1));
                }
                if before.dom().contains(k) && before[k] > 0 {
                    let j = choose|j: int| 0 <= j < entries@.len() && (#[trigger] entries@[j]).0@
                        == k;
                    assert(before.contains_pair(entries@[j].0@, entries@[j].1));
                    assert(entries@[j].1 == before[k]);
                }
            }
            assert forall|k: Seq<char>|
                str_map_contents(kept).dom().contains(k) implies str_map_contents(kept)[k]
                == before[k] by {
                let j = choose|j: int|
                    0 <= j < n && (#[trigger] entries@[j]).0@ == k && entries@[j].1 > 0;
                assert(str_map_contents(kept).contains_pair(entries@[j].0@, entries@[j].1));
                assert(before.contains_pair(entries@[j].0@, entries@[j].1));
            }
            assert forall|i2: int| 0 <= i2 < doomed@.len() implies before.contains_pair(
                (#[trigger] doomed@[i2])@,
                0,
            ) by {
                assert(has_zero_key(entries@, doomed@[i2]@));
                let j = choose|j: int|
                    0 <= j < entries@.len() && (#[trigger] entries@[j]).0@ == doomed@[i2]@
                        && entries@[j].1 == 0;
                assert(before.contains_pair(entries@[j].0@, entries@[j].1));
            }
            assert forall|k: Seq<char>|
                before.dom().contains(k) && before[k] == 0 implies exists|d: int|
                0 <= d < doomed@.len() && (#[trigger] doomed@[d])@ == k by {
                let j = choose|j: int| 0 <= j < entries@.len() && (#[trigger] entries@[j]).0@ == k;
                assert(before.contains_pair(entries@[j].0@, entries@[j].1));
                assert(entries@[j].1 == 0);
            }
        }
        doomed
    }

    /// Builds the fan-out batch for one accepted mutation: the update and
    /// every live session of every user in the target's guest list or author
    /// seat. Delivery itself is the caller's work.
    #[verifier::loop_isolation(false)]
    pub fn notify_users(&self, update: Update) -> (r: Batch)
        ensures
            r.update == update,
            r.sessions@ == fanout_sessions(self@, update.id),
    {
        let maybe_metadata = self.metadata(update.id);
        let mut sessions: Vec<SessionId> = Vec::new();
        match maybe_metadata {
            None => {
                proof {
                    assert(sessions@ =~= fanout_sessions(self@, update.id));
                }
                Batch { update, sessions }
            },
            Some(md) => {
                let ghost lists = recipients(md@).map_values(
                    |u: UserId| user_sessions(self@, u),
                );
                let guest_count = md.guests.len();
                let mut i: usize = 0;
                while i < guest_count
                    invariant
                        i <= guest_count,
                        guest_count == md.guests@.len(),
                        lists == recipients(md@).map_values(|u: UserId| user_sessions(self@, u)),
                        sessions@ == concat_all(lists.take(i as int)),
                    decreases guest_count - i,
                {
                    let uid = md.guests[i];
                    proof {
                        assert(recipients(md@)[i as int] == uid);
                        assert(lists[i as int] == user_sessions(self@, uid));
                        assert(lists.take(i + 1).drop_last() =~= lists.take(i as int));
                    }
                    match self.users.find(uid) {
                        Some(user) => {
                            let mut more = copy_values(&user.inner.sessions);
                            sessions.append(&mut more);
                        },
                        None => {
                            proof {
                                assert(user_sessions(self@, uid) =~= Seq::<SessionId>::empty());
                                assert(sessions@ =~= concat_all(lists.take(i as int))
                                    + lists[i as int]);
                            }
                        },
                    }
                    i += 1;
                }
                proof {
                    assert(recipients(md@)[guest_count as int] == md@.author);
                    assert(lists[guest_count as int] == user_sessions(self@, md@.author));
                    assert(lists.take(guest_count + 1).drop_last() =~= lists.take(
                        guest_count as int,
                    ));
                }
                match self.users.find(md.author) {
                    Some(user) => {
                        let mut more = copy_values(&user.inner.sessions);
                        sessions.append(&mut more);
                    },
                    None => {
                        proof {
                            assert(user_sessions(self@, md@.author) =~= Seq::<
                                SessionId,
                            >::empty());
                            assert(sessions@ =~= concat_all(lists.take(guest_count as int))
                                + lists[guest_count as int]);
                        }
                    },
                }
                proof {
                    assert(lists.take(guest_count + 1) =~= lists);
                }
                Batch { update, sessions }
            },
        }
    }
}

/// What the store looks like after a guest was pushed onto one entity.
pub open spec fn db_pushed_guest(dbv: DatabaseView, id: EntityId, guest: UserId) -> DatabaseView {
    match id {
        EntityId::Conversation(raw) => DatabaseView {
            conversations: pushed_guest_seq(dbv.conversations, raw as int, guest),
            ..dbv
        },
        EntityId::Bucket(raw) => DatabaseView {
            buckets: pushed_guest_seq(dbv.buckets, raw as int, guest),
            ..dbv
        },
        EntityId::Spreadsheet(raw) => DatabaseView {
            sheets: pushed_guest_seq(dbv.sheets, raw as int, guest),
            ..dbv
        },
        EntityId::Document(raw) => DatabaseView {
            documents: pushed_guest_seq(dbv.documents, raw as int, guest),
            ..dbv
        },
        EntityId::User(raw) => DatabaseView {
            users: pushed_guest_seq(dbv.users, raw as int, guest),
            ..dbv
        },
    }
}

/// One container after a guest was pushed onto the entity at one position.
pub open spec fn pushed_guest_seq<V>(s: Seq<EntityView<V>>, raw: int, guest: UserId) -> Seq<
    EntityView<V>,
> {
    if 0 <= raw < s.len() {
        s.update(
            raw,
            EntityView {
                inner: s[raw].inner,
                metadata: EntityDataView { guests: s[raw].metadata.guests.push(guest), ..s[raw].metadata },
            },
        )
    } else {
        s
    }
}

/// What the store looks like after one user dropped access to one entity.
pub open spec fn db_dropped_access(dbv: DatabaseView, id: EntityId, user_id: UserId) -> DatabaseView {
    match id {
        EntityId::Conversation(raw) => DatabaseView {
            conversations: dropped_seq::<Conversation>(dbv.conversations, raw as int, user_id),
            ..dbv
        },
        EntityId::Bucket(raw) => DatabaseView {
            buckets: dropped_seq::<Bucket>(dbv.buckets, raw as int, user_id),
            ..dbv
        },
        EntityId::Spreadsheet(raw) => DatabaseView {
            sheets: dropped_seq::<Sheet>(dbv.sheets, raw as int, user_id),
            ..dbv
        },
        EntityId::Document(raw) => DatabaseView {
            documents: dropped_seq::<Document>(dbv.documents, raw as int, user_id),
            ..dbv
        },
        EntityId::User(raw) => DatabaseView {
            users: dropped_seq::<User>(dbv.users, raw as int, user_id),
            ..dbv
        },
    }
}

/// One container after the user at one position dropped access.
pub open spec fn dropped_seq<T: Payload>(
    s: Seq<EntityView<T::V>>,
    raw: int,
    user_id: UserId,
) -> Seq<EntityView<T::V>> {
    if 0 <= raw < s.len() {
        s.update(raw, Entities::<T>::dropped_view(s[raw], user_id))
    } else {
        s
    }
}

/// A reference-count table after one more reference to a hash.
pub open spec fn rc_inc(m: Map<Seq<char>, usize>, h: Seq<char>) -> Map<Seq<char>, usize> {
    m.insert(
        h,
        if m.dom().contains(h) {
            if m[h] < usize::MAX {
                (m[h] + 1) as usize
            } else {
                m[h]
            }
        } else {
            1
        },
    )
}

/// A reference-count table after one reference to a hash went away.
pub open spec fn rc_dec(m: Map<Seq<char>, usize>, h: Seq<char>) -> Map<Seq<char>, usize> {
    if m.dom().contains(h) && m[h] > 0 {
        m.insert(h, (m[h] - 1) as usize)
    } else {
        m
    }
}

/// Some entry carries this key with a zero count.
pub open spec fn has_zero_key(s: Seq<(String, usize)>, k: Seq<char>) -> bool {
    exists|j: int| 0 <= j < s.len() && (#[trigger] s[j]).0@ == k && s[j].1 == 0
}

/// The hashes among the entries whose count is zero, each exactly once.
#[verifier::loop_isolation(false)]
fn zero_hashes(entries: &Vec<(String, usize)>) -> (doomed: Vec<String>)
    requires
        forall|a: int, b: int|
            0 <= a < b < entries@.len() ==> (#[trigger] entries@[a]).0@ != (
            #[trigger] entries@[b]).0@,
    ensures
        forall|d: int|
            0 <= d < doomed@.len() ==> has_zero_key(entries@, (#[trigger] doomed@[d])@),
        forall|j: int|
            0 <= j < entries@.len() && (#[trigger] entries@[j]).1 == 0 ==> exists|d: int|
                0 <= d < doomed@.len() && (#[trigger] doomed@[d])@ == entries@[j].0@,
        forall|a: int, b: int|
            0 <= a < b < doomed@.len() ==> (#[trigger] doomed@[a])@ != (#[trigger] doomed@[b])@,
{
    let mut doomed: Vec<String> = Vec::new();
    let ghost mut src: Seq<int> = Seq::empty();
    let n = entries.len();
    let mut i: usize = 0;
    while i < n
        invariant
            i <= n,
            n == entries@.len(),
            doomed@.len() == src.len(),
            forall|d: int|
                0 <= d < src.len() ==> 0 <= #[trigger] src[d] < i && entries@[src[d]].1 == 0
                    && doomed@[d]@ == entries@[src[d]].0@,
            forall|a: int, b: int| 0 <= a < b < src.len() ==> #[trigger] src[a] < #[trigger] src[b],
            forall|j: int|
                0 <= j < i && (#[trigger] entries@[j]).1 == 0 ==> exists|d: int|
                    0 <= d < src.len() && #[trigger] src[d] == j,
        decreases n - i,
    {
        if entries[i].1 == 0 {
            doomed.push(entries[i].0.clone());
            proof {
                let prev = src;
                src = src.push(i as int);
                assert(src[prev.len() as int] == i as int);
                assert forall|j: int|
                    0 <= j < i + 1 && (#[trigger] entries@[j]).1 == 0 implies exists|d: int|
                    0 <= d < src.len() && #[trigger] src[d] == j by {
                    if j == i as int {
                        assert(src[prev.len() as int] == j);
                    } else {
                        let d = choose|d: int| 0 <= d < prev.len() && #[trigger] prev[d] == j;
                        assert(src[d] == j);
                    }
                }
            }
        }
        i += 1;
    }
    proof {
        assert forall|d: int| 0 <= d < doomed@.len() implies has_zero_key(
            entries@,
            (#[trigger] doomed@[d])@,
        ) by {
            assert(0 <= src[d] < entries@.len());
            assert(entries@[src[d]].0@ == doomed@[d]@ && entries@[src[d]].1 == 0);
        }
        assert forall|j: int|
            0 <= j < entries@.len() && (#[trigger] entries@[j]).1 == 0 implies exists|d: int|
            0 <= d < doomed@.len() && (#[trigger] doomed@[d])@ == entries@[j].0@ by {
            let d = choose|d: int| 0 <= d < src.len() && #[trigger] src[d] == j;
            assert(doomed@[d]@ == entries@[j].0@);
        }
        assert forall|a: int, b: int| 0 <= a < b < doomed@.len() implies (
        #[trigger] doomed@[a])@ != (#[trigger] doomed@[b])@ by {
            assert(src[a] < src[b]);
            assert(doomed@[a]@ == entries@[src[a]].0@);
            assert(doomed@[b]@ == entries@[src[b]].0@);
        }
    }
    doomed
}

} // verus!
