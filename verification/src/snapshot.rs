//! Snapshots: a globally consistent copy of the whole store, taken for the
//! periodic backup, and the wholesale reload at startup. Live session
//! registrations are ephemeral and stay out of the copy; everything else
//! reads back identically.

use vstd::prelude::*;

use crate::cloning::{copy_strings, copy_vec, Dup};
use crate::entities::{Entities, EntityView};
use crate::store::{Database, DatabaseView};
use crate::strmap::str_map_clone;
use crate::user::{SecretUserData, User, UserView};

verus! {

/// The store as a snapshot sees it: the same in every part, except that no
/// user has live sessions.
pub open spec fn strip_sessions(dbv: DatabaseView) -> DatabaseView {
    DatabaseView {
        users: dbv.users.map_values(
            |u: EntityView<UserView>| EntityView {
                inner: UserView { sessions: Seq::empty(), ..u.inner },
                ..u
            },
        ),
        ..dbv
    }
}

/// Copies the user container with every session list left out.
#[verifier::loop_isolation(false)]
fn users_snapshot(users: &Entities<User>) -> (r: Entities<User>)
    ensures
        r@ == strip_sessions_users(users@),
{
    let mut inner: Vec<crate::entities::Entity<User>> = Vec::new();
    let n = users.inner.len();
    let mut i: usize = 0;
    while i < n
        invariant
            i <= n,
            inner@.len() == i,
            forall|j: int|
                0 <= j < i ==> (#[trigger] inner@[j])@ == (EntityView {
                    inner: UserView { sessions: Seq::empty(), ..users.inner@[j]@.inner },
                    ..users.inner@[j]@
                }),
        decreases n - i,
    {
        let e = &users.inner[i];
        let copy = crate::entities::Entity {
            inner: User {
                public: e.inner.public.duplicate(),
                secret: e.inner.secret.duplicate(),
                tokens: copy_strings(&e.inner.tokens),
                sessions: Vec::new(),
            },
            metadata: e.metadata.duplicate(),
        };
        inner.push(copy);
        i += 1;
    }
    let r = Entities { inner };
    proof {
        assert(r@ =~~= strip_sessions_users(users@));
    }
    r
}

/// One user container's view with every session list left out.
pub open spec fn strip_sessions_users(users: Seq<EntityView<UserView>>) -> Seq<
    EntityView<UserView>,
> {
    users.map_values(
        |u: EntityView<UserView>| EntityView {
            inner: UserView { sessions: Seq::empty(), ..u.inner },
            ..u
        },
    )
}

/// A consistent full copy of the store: every entity, every revision, every
/// access map and the reference-count table read back identically; only the
/// ephemeral per-session registrations are absent. Loading this copy with
/// `Database::restore` yields exactly this view again: the round trip loses
/// nothing else.
pub fn take_snapshot(db: &Database) -> (s: Database)
    ensures
        s@ == strip_sessions(db@),
{
    let s = Database {
        conversations: db.conversations.duplicate(),
        buckets: db.buckets.duplicate(),
        sheets: db.sheets.duplicate(),
        documents: db.documents.duplicate(),
        users: users_snapshot(&db.users),
        usernames: str_map_clone(&db.usernames),
        file_rc: str_map_clone(&db.file_rc),
    };
    proof {
        assert(s@.users =~~= strip_sessions(db@).users);
    }
    s
}

impl Database {
    /// Wholesale content replacement, used only at snapshot load.
    pub fn restore(&mut self, other: Database)
        ensures
            final(self)@ == other@,
    {
        let Database { conversations, buckets, sheets, documents, users, usernames, file_rc } =
            other;
        self.conversations.restore(conversations);
        self.buckets.restore(buckets);
        self.sheets.restore(sheets);
        self.documents.restore(documents);
        self.users.restore(users);
        self.usernames = usernames;
        self.file_rc = file_rc;
    }
}

} // verus!
