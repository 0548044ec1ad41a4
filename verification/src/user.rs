//! Stored users: public profile, private account data and live sessions.

use vstd::prelude::*;

use crate::access::{AccessMap, AccessView};
use crate::assoc::{remove_first, lemma_remove_first, lemma_remove_first_absent};
use crate::cloning::{copy_strings, copy_values, copy_vec, seq_view, strings_view, Dup};
use crate::objects::{InviteData, InviteView, Payload, UserData, UserDataView};
use crate::types::{EntityId, SessionId, Token};

verus! {

/// A user's account data, visible only to that user.
#[derive(Debug)]
pub struct SecretUserData {
    pub invites: Vec<InviteData>,
    pub entities: AccessMap,
    pub password_hash: String,
    pub server_admin: bool,
}

/// Mathematical image of the account data.
#[verifier::ext_equal]
pub ghost struct SecretView {
    pub invites: Seq<InviteView>,
    pub entities: Map<EntityId, AccessView>,
    pub password_hash: Seq<char>,
    pub server_admin: bool,
}

impl View for SecretUserData {
    type V = SecretView;

    open spec fn view(&self) -> SecretView {
        SecretView {
            invites: seq_view(self.invites@),
            entities: self.entities@,
            password_hash: self.password_hash@,
            server_admin: self.server_admin,
        }
    }
}

impl Dup for SecretUserData {
    fn duplicate(&self) -> (r: Self)
        ensures
            r@ == self@,
    {
        SecretUserData {
            invites: copy_vec(&self.invites),
            entities: self.entities.duplicate(),
            password_hash: self.password_hash.clone(),
            server_admin: self.server_admin,
        }
    }
}

/// A stored user. The sessions list holds the ids of the user's live
/// connections; updates to entities the user can reach are fanned out to
/// each of them.
#[derive(Debug)]
pub struct User {
    pub public: UserData,
    pub secret: SecretUserData,
    pub tokens: Vec<Token>,
    pub sessions: Vec<SessionId>,
}

/// Mathematical image of a stored user.
#[verifier::ext_equal]
pub ghost struct UserView {
    pub public: UserDataView,
    pub secret: SecretView,
    pub tokens: Seq<Seq<char>>,
    pub sessions: Seq<SessionId>,
}

impl View for User {
    type V = UserView;

    open spec fn view(&self) -> UserView {
        UserView {
            public: self.public@,
            secret: self.secret@,
            tokens: strings_view(self.tokens@),
            sessions: self.sessions@,
        }
    }
}

impl Dup for User {
    fn duplicate(&self) -> (r: Self)
        ensures
            r@ == self@,
    {
        User {
            public: self.public.duplicate(),
            secret: self.secret.duplicate(),
            tokens: copy_strings(&self.tokens),
            sessions: copy_values(&self.sessions),
        }
    }
}

impl Payload for User {
    open spec fn default_view() -> UserView {
        UserView {
            public: UserDataView {
                name: Seq::empty(),
                email: Seq::empty(),
                status: Seq::empty(),
            },
            secret: SecretView {
                invites: Seq::empty(),
                entities: Map::empty(),
                password_hash: Seq::empty(),
                server_admin: false,
            },
            tokens: Seq::empty(),
            sessions: Seq::empty(),
        }
    }

    fn fresh() -> (r: Self)
        ensures
            r@ == Self::default_view(),
    {
        let r = User {
            public: UserData { name: String::new(), email: String::new(), status: String::new() },
            secret: SecretUserData {
                invites: Vec::new(),
                entities: AccessMap::new(),
                password_hash: String::new(),
                server_admin: false,
            },
            tokens: Vec::new(),
            sessions: Vec::new(),
        };
        proof {
            assert(seq_view(r.secret.invites@) =~= Seq::<InviteView>::empty());
            assert(strings_view(r.tokens@) =~= Seq::<Seq<char>>::empty());
        }
        r
    }
}

impl User {
    /// Registers a live session so future updates reach it.
    pub fn set_tx_update(&mut self, session_id: SessionId)
        ensures
            final(self).sessions@ == old(self).sessions@.push(session_id),
            final(self).public == old(self).public,
            final(self).secret == old(self).secret,
            final(self).tokens == old(self).tokens,
    {
        self.sessions.push(session_id);
    }

    /// Withdraws a closed session; updates no longer reach it.
    #[verifier::loop_isolation(false)]
    pub fn end_of_session(&mut self, session_id: SessionId)
        ensures
            final(self).sessions@ == remove_first(old(self).sessions@, session_id),
            final(self).public == old(self).public,
            final(self).secret == old(self).secret,
            final(self).tokens == old(self).tokens,
    {
        let n = self.sessions.len();
        let mut i: usize = 0;
        while i < n
            invariant
                i <= n,
                n == self.sessions@.len(),
                self == old(self),
                forall|j: int| 0 <= j < i ==> self.sessions@[j] != session_id,
            decreases n - i,
        {
            if self.sessions[i] == session_id {
                proof {
                    lemma_remove_first(self.sessions@, session_id, i as int);
                }
                self.sessions.remove(i);
                return;
            }
            i += 1;
        }
        proof {
            lemma_remove_first_absent(self.sessions@, session_id);
        }
    }
}

} // verus!
