//! Account handlers: creation, authentication, sessions, profile data.

use vstd::prelude::*;

use vstd::string::StringExecFns;

use crate::cloning::Dup;
use crate::crypto::{crypto_hash, password_digest, random_token};
use crate::entities::{bump_revision, EntityData, EntityDataView, EntityView};
use crate::objects::{AssociatedImage, contains_string, Payload, UserData};
use crate::replies::{Reply, ReplyData, ReplyDataView, ReplyView};
use crate::session::{user_check, SessionState};
use crate::store::{entity_metadata, fanout_sessions, Batch, Database, DatabaseView};
use crate::strmap::{str_map_contains, str_map_get, str_map_insert};
use crate::types::{EntityId, OpError, Revision, UserId, Username};
use crate::update::{Update, UpdateDataView, UpdateType, UpdateView};
use crate::user::UserView;

verus! {

/// Everything an account creation promises of its outcome.
pub open spec fn create_account_outcome(
    dbv0: DatabaseView,
    dbvf: DatabaseView,
    num: usize,
    name: Username,
    password: String,
    r: Result<Reply, OpError>,
) -> bool {
    &&& dbv0.usernames.dom().contains(name@) ==> r == Err::<Reply, OpError>(
        OpError::UsernameTaken,
    ) && dbvf == dbv0
    &&& !dbv0.usernames.dom().contains(name@) ==> {
            let uid = dbv0.users.len() as UserId;
            let u = dbvf.users.last();
            &&& r is Ok
            &&& r.unwrap()@ == (ReplyView { num, data: ReplyDataView::ValidUsername(uid) })
            &&& dbvf.users.len() == dbv0.users.len() + 1
            &&& dbvf.users.drop_last() == dbv0.users
            &&& u.metadata.author == uid
            &&& u.metadata.guests == Seq::<UserId>::empty()
            &&& u.metadata.revision == 0
            &&& u.metadata.image is Gradient
            &&& u.inner.public.name == name@
            &&& u.inner.public.email == Seq::<char>::empty()
            &&& u.inner.public.status == "Exploring"@
            &&& u.inner.secret.password_hash == password_digest(password@)
            &&& u.inner.secret.server_admin == (uid == 0)
            &&& u.inner.secret.invites == Seq::<crate::objects::InviteView>::empty()
            &&& u.inner.secret.entities =~= Map::<EntityId, crate::access::AccessView>::empty()
            &&& u.inner.tokens == Seq::<Seq<char>>::empty()
            &&& u.inner.sessions == Seq::<crate::types::SessionId>::empty()
            &&& dbvf.usernames == dbv0.usernames.insert(name@, uid)
            &&& dbvf.conversations == dbv0.conversations
            &&& dbvf.buckets == dbv0.buckets
            &&& dbvf.sheets == dbv0.sheets
            &&& dbvf.documents == dbv0.documents
            &&& dbvf.file_rc == dbv0.file_rc
        }
}

/// Creates an account: a fresh user entity under a new id, indexed by its
/// username. The first account ever created is the server admin. A taken
/// username is rejected and nothing changes.
pub fn handle_create_account(
    db: &mut Database,
    num: usize,
    name: Username,
    password: String,
) -> (r: Result<Reply, OpError>)
    ensures
        create_account_outcome(old(db)@, final(db)@, num, name, password, r),
{
    let password_hash = crypto_hash(password);
    if str_map_contains(&db.usernames, &name) {
        return Err(OpError::UsernameTaken);
    }
    let metadata = EntityData {
        image: AssociatedImage::random_gradient(),
        author: 0,
        guests: Vec::new(),
        revision: 0,
    };
    let user_id = db.users.new_entity(metadata);
    str_map_insert(&mut db.usernames, name.clone(), user_id);
    let ghost users_mid = db.users@;
    let ghost inner_mid = db.users.inner@;
    proof {
        assert(db.users.inner@.len() == db.users@.len());
    }
    let user = &mut db.users.inner[user_id];
    user.inner.secret.server_admin = user_id == 0;
    user.inner.secret.password_hash = password_hash;
    user.metadata.author = user_id;
    user.inner.public = UserData {
        name,
        email: String::new(),
        status: "Exploring".to_owned(),
    };
    proof {
        assert(db@.users == db.users@);
        assert(db.users.inner@[user_id as int]@ == db.users@[user_id as int]);
        assert forall|j: int| 0 <= j < user_id implies db.users@[j] == users_mid[j] by {
            assert(db.users.inner@[j] == inner_mid[j]);
            assert(users_mid[j] == inner_mid[j]@);
            assert(db.users@[j] == db.users.inner@[j]@);
        }
        assert(db@.users.len() == users_mid.len());
        assert(users_mid.len() == old(db)@.users.len() + 1);
        assert forall|j: int| 0 <= j < user_id implies users_mid[j] == old(db)@.users[j] by {
            assert(users_mid == old(db)@.users.push(users_mid.last()));
        }
        assert forall|i: int| 0 <= i < user_id implies db@.users.drop_last()[i] == old(
            db,
        )@.users[i] by {
            assert(db@.users.drop_last()[i] == db@.users[i]);
            assert(db.users@[i] == users_mid[i]);
            assert(users_mid[i] == old(db)@.users[i]);
        }
        assert(db@.users.drop_last() =~= old(db)@.users);
        assert(db@.users.last() == db.users.inner@[user_id as int]@);
        assert(inner_mid[user_id as int]@ == users_mid[user_id as int]);
        assert(users_mid[user_id as int] == users_mid.last());
        assert(users_mid.last().inner == crate::user::User::default_view());
        assert(db@.users.last().inner.secret.invites =~= Seq::<
            crate::objects::InviteView,
        >::empty());
        assert(db@.users.last().inner.tokens =~= Seq::<Seq<char>>::empty());
        assert(db@.users.last().inner.sessions =~= Seq::<crate::types::SessionId>::empty());
        assert(db@.users.last().metadata.guests =~= Seq::<UserId>::empty());
    }
    Ok(Reply::new(num, ReplyData::ValidUsername(user_id)))
}

/// Whether a token grant goes through.
pub open spec fn get_token_check(
    dbv: DatabaseView,
    user_id: UserId,
    password: Seq<char>,
) -> Result<UserId, OpError> {
    if user_id >= dbv.users.len() {
        Err(OpError::NoSuchUser)
    } else if dbv.users[user_id as int].inner.secret.password_hash != password_digest(password) {
        Err(OpError::WrongPassword)
    } else {
        Ok(user_id)
    }
}

/// Everything a token grant promises of its outcome.
pub open spec fn get_token_outcome(
    dbv0: DatabaseView,
    dbvf: DatabaseView,
    num: usize,
    user_id: UserId,
    password: String,
    r: Result<Reply, OpError>,
) -> bool {
    match get_token_check(dbv0, user_id, password@) {
        Err(e) => r == Err::<Reply, OpError>(e) && dbvf == dbv0,
        Ok(_) => {
            let u0 = dbv0.users[user_id as int];
            &&& r is Ok
            &&& r.unwrap()@.num == num
            &&& r.unwrap()@.data matches ReplyDataView::AuthenticationToken(t)
                && t.len() == 64 && dbvf == (DatabaseView {
                users: dbv0.users.update(
                    user_id as int,
                    EntityView {
                        inner: UserView { tokens: u0.inner.tokens.push(t), ..u0.inner },
                        ..u0
                    },
                ),
                ..dbv0
            })
        },
    }
}

/// Grants a fresh authentication token against the stored password digest.
pub fn handle_get_token(db: &mut Database, num: usize, user_id: UserId, password: String) -> (r:
    Result<Reply, OpError>)
    ensures
        get_token_outcome(old(db)@, final(db)@, num, user_id, password, r),
{
    let password_hash = crypto_hash(password);
    if user_id >= db.users.len() {
        return Err(OpError::NoSuchUser);
    }
    {
        let user = &db.users.inner[user_id];
        if !String::eq(&user.inner.secret.password_hash, &password_hash) {
            return Err(OpError::WrongPassword);
        }
    }
    let token = random_token();
    let echo = token.clone();
    let user = &mut db.users.inner[user_id];
    user.inner.tokens.push(token);
    proof {
        assert(db@ =~~= (DatabaseView {
            users: old(db)@.users.update(
                user_id as int,
                EntityView {
                    inner: UserView {
                        tokens: old(db)@.users[user_id as int].inner.tokens.push(echo@),
                        ..old(db)@.users[user_id as int].inner
                    },
                    ..old(db)@.users[user_id as int]
                },
            ),
            ..old(db)@
        }));
    }
    Ok(Reply::new(num, ReplyData::AuthenticationToken(echo)))
}

/// Whether a session open goes through.
pub open spec fn open_session_check(
    dbv: DatabaseView,
    bound: Option<UserId>,
    user_id: UserId,
    token: Seq<char>,
) -> Result<UserId, OpError> {
    if bound is Some {
        Err(OpError::SessionOpen)
    } else if user_id >= dbv.users.len() {
        Err(OpError::NoSuchUser)
    } else if !dbv.users[user_id as int].inner.tokens.contains(token) {
        Err(OpError::WrongToken)
    } else {
        Ok(user_id)
    }
}

/// Everything a session open promises of its outcome.
pub open spec fn open_session_outcome(
    dbv0: DatabaseView,
    dbvf: DatabaseView,
    sess0: SessionState,
    sessf: SessionState,
    num: usize,
    user_id: UserId,
    token: String,
    r: Result<Reply, OpError>,
) -> bool {
    &&& sessf.session_id == sess0.session_id
    &&& match open_session_check(dbv0, sess0.user_id, user_id, token@) {
            Err(e) => r == Err::<Reply, OpError>(e) && dbvf == dbv0 && sessf
                == sess0,
            Ok(_) => {
                let u0 = dbv0.users[user_id as int];
                &&& r is Ok
                &&& r.unwrap()@ == (ReplyView { num, data: ReplyDataView::GenericSuccess })
                &&& sessf.user_id == Some(user_id)
                &&& dbvf == (DatabaseView {
                    users: dbv0.users.update(
                        user_id as int,
                        EntityView {
                            inner: UserView {
                                sessions: u0.inner.sessions.push(sess0.session_id),
                                ..u0.inner
                            },
                            ..u0
                        },
                    ),
                    ..dbv0
                })
            },
        }
}

/// Binds a user to this session against one of the user's tokens, and
/// registers the session for update fan-out.
pub fn handle_open_session(
    db: &mut Database,
    sess: &mut SessionState,
    num: usize,
    user_id: UserId,
    token: String,
) -> (r: Result<Reply, OpError>)
    ensures
        open_session_outcome(
            old(db)@,
            final(db)@,
            *old(sess),
            *final(sess),
            num,
            user_id,
            token,
            r,
        ),
{
    if sess.user_id.is_some() {
        return Err(OpError::SessionOpen);
    }
    if user_id >= db.users.len() {
        return Err(OpError::NoSuchUser);
    }
    let has_token = contains_string(&db.users.inner[user_id].inner.tokens, &token);
    if !has_token {
        return Err(OpError::WrongToken);
    }
    let id = sess.session_id;
    let user = &mut db.users.inner[user_id];
    user.inner.set_tx_update(id);
    sess.user_id = Some(user_id);
    proof {
        assert(db@ =~~= (DatabaseView {
            users: old(db)@.users.update(
                user_id as int,
                EntityView {
                    inner: UserView {
                        sessions: old(db)@.users[user_id as int].inner.sessions.push(
                            old(sess).session_id,
                        ),
                        ..old(db)@.users[user_id as int].inner
                    },
                    ..old(db)@.users[user_id as int]
                },
            ),
            ..old(db)@
        }));
    }
    Ok(Reply::new(num, ReplyData::GenericSuccess))
}

/// Whether a profile write goes through, and as which user.
pub open spec fn set_user_data_check(
    dbv: DatabaseView,
    user_id: Option<UserId>,
    rev: Revision,
) -> Result<UserId, OpError> {
    match user_check(dbv, user_id) {
        Err(e) => Err(e),
        Ok(uid) => if dbv.users[uid as int].metadata.revision != rev || rev == u32::MAX {
            Err(OpError::OutOfDate)
        } else {
            Ok(uid)
        },
    }
}

/// Everything a profile write promises of its outcome.
pub open spec fn set_user_data_outcome(
    dbv0: DatabaseView,
    dbvf: DatabaseView,
    user_id: Option<UserId>,
    num: usize,
    rev: Revision,
    data: UserData,
    out0: Seq<Batch>,
    outf: Seq<Batch>,
    r: Result<Reply, OpError>,
) -> bool {
    match set_user_data_check(dbv0, user_id, rev) {
        Err(e) => r == Err::<Reply, OpError>(e) && dbvf == dbv0 && outf
            == out0,
        Ok(uid) => {
            let u0 = dbv0.users[uid as int];
            let dbv1 = DatabaseView {
                users: dbv0.users.update(
                    uid as int,
                    EntityView {
                        inner: UserView { public: data@, ..u0.inner },
                        metadata: EntityDataView {
                            revision: (rev + 1) as Revision,
                            ..u0.metadata
                        },
                    },
                ),
                ..dbv0
            };
            &&& r is Ok
            &&& r.unwrap()@ == (ReplyView { num, data: ReplyDataView::GenericSuccess })
            &&& dbvf == dbv1
            &&& outf == out0.push(outf.last())
            &&& outf.last().update@ == (UpdateView {
                update_type: UpdateType::SetUser,
                id: EntityId::User(uid),
                new_revision: (rev + 1) as Revision,
                index: 0,
                data: UpdateDataView::Profile(data@),
            })
            &&& outf.last().sessions@ == fanout_sessions(dbv1, EntityId::User(uid))
        },
    }
}

/// Replaces the caller's public profile under the optimistic revision check.
pub fn handle_set_user_data(
    db: &mut Database,
    sess: &SessionState,
    num: usize,
    rev: Revision,
    data: UserData,
    out: &mut Vec<Batch>,
) -> (r: Result<Reply, OpError>)
    ensures
        set_user_data_outcome(
            old(db)@,
            final(db)@,
            sess.user_id,
            num,
            rev,
            data,
            old(out)@,
            final(out)@,
            r,
        ),
{
    let uid = match crate::session::require_user(db, sess) {
        Ok(uid) => uid,
        Err(e) => {
            return Err(e);
        },
    };
    let ghost dbv0 = db@;
    let entity = &mut db.users.inner[uid];
    let nr = match bump_revision(&mut entity.metadata, rev) {
        Ok(nr) => nr,
        Err(e) => {
            proof {
                assert(db@.users =~~= dbv0.users);
            }
            return Err(e);
        },
    };
    let echo = data.duplicate();
    entity.inner.public = data;
    proof {
        assert(db@.users =~~= dbv0.users.update(
            uid as int,
            EntityView {
                inner: UserView { public: echo@, ..dbv0.users[uid as int].inner },
                metadata: EntityDataView { revision: nr, ..dbv0.users[uid as int].metadata },
            },
        ));
    }
    let update = Update::user(uid, nr, echo);
    let batch = db.notify_users(update);
    out.push(batch);
    Ok(Reply::new(num, ReplyData::GenericSuccess))
}

/// Everything a username lookup promises of its outcome.
pub open spec fn who_is_outcome(
    dbv: DatabaseView,
    num: usize,
    username: Username,
    r: Result<Reply, OpError>,
) -> bool {
    match r {
        Ok(reply) => dbv.usernames.dom().contains(username@) && reply@ == (ReplyView {
            num,
            data: ReplyDataView::ValidUsername(dbv.usernames[username@] as UserId),
        }),
        Err(e) => e == OpError::InvalidUsername && !dbv.usernames.dom().contains(username@),
    }
}

/// Looks a username up.
pub fn handle_who_is(db: &Database, num: usize, username: &Username) -> (r: Result<
    Reply,
    OpError,
>)
    ensures
        who_is_outcome(db@, num, *username, r),
{
    match str_map_get(&db.usernames, username) {
        Some(user_id) => Ok(Reply::new(num, ReplyData::ValidUsername(user_id))),
        None => Err(OpError::InvalidUsername),
    }
}

/// Whether an entity creation goes through, and under which kind.
pub open spec fn create_entity_check(
    dbv: DatabaseView,
    user_id: Option<UserId>,
    entity_type: Seq<char>,
) -> Result<UserId, OpError> {
    match user_check(dbv, user_id) {
        Err(e) => Err(e),
        Ok(uid) => if entity_type == "conv"@ || entity_type == "doc"@ || entity_type == "sheet"@
            || entity_type == "bucket"@ {
            Ok(uid)
        } else {
            Err(OpError::InvalidEntityType)
        },
    }
}

/// Everything an entity creation promises of its outcome.
pub open spec fn create_entity_outcome(
    dbv0: DatabaseView,
    dbvf: DatabaseView,
    user_id: Option<UserId>,
    num: usize,
    entity_type: String,
    local_name: String,
    r: Result<Reply, OpError>,
) -> bool {
    match create_entity_check(dbv0, user_id, entity_type@) {
        Err(e) => r == Err::<Reply, OpError>(e) && dbvf == dbv0,
        Ok(uid) => {
            &&& r is Ok
            &&& r.unwrap()@.num == num
            &&& r.unwrap()@.data matches ReplyDataView::EntityCreated(id)
                && created_entity_ok(dbv0, dbvf, uid, entity_type@, local_name@, id)
        },
    }
}

/// Creates a fresh entity of the named kind, authored by the caller, and
/// grants the caller a writable access entry for it under the given name.
pub fn handle_create_entity(
    db: &mut Database,
    sess: &SessionState,
    num: usize,
    entity_type: &String,
    local_name: String,
) -> (r: Result<Reply, OpError>)
    ensures
        create_entity_outcome(
            old(db)@,
            final(db)@,
            sess.user_id,
            num,
            *entity_type,
            local_name,
            r,
        ),
{
    let uid = match crate::session::require_user(db, sess) {
        Ok(uid) => uid,
        Err(e) => {
            return Err(e);
        },
    };
    let metadata = EntityData {
        image: AssociatedImage::random_gradient(),
        author: uid,
        guests: Vec::new(),
        revision: 0,
    };
    let entity_id: EntityId = if String::eq(entity_type, &"conv".to_owned()) {
        EntityId::Conversation(db.conversations.new_entity(metadata))
    } else if String::eq(entity_type, &"doc".to_owned()) {
        EntityId::Document(db.documents.new_entity(metadata))
    } else if String::eq(entity_type, &"sheet".to_owned()) {
        EntityId::Spreadsheet(db.sheets.new_entity(metadata))
    } else if String::eq(entity_type, &"bucket".to_owned()) {
        EntityId::Bucket(db.buckets.new_entity(metadata))
    } else {
        return Err(OpError::InvalidEntityType);
    };
    let ghost dbv_mid = db@;
    let access = crate::access::EntityAccess {
        read_only: false,
        local_name,
        tags: Vec::new(),
        last_seen_rev: 0,
    };
    let ghost accv = access@;
    proof {
        assert(db.users.inner@.len() == db.users@.len());
        assert(accv.tags =~= Seq::<Seq<char>>::empty());
    }
    let user = &mut db.users.inner[uid];
    user.inner.secret.entities.insert(entity_id, access);
    proof {
        assert(db@.users =~~= old(db)@.users.update(
            uid as int,
            EntityView {
                inner: UserView {
                    secret: crate::user::SecretView {
                        entities: old(db)@.users[uid as int].inner.secret.entities.insert(
                            entity_id,
                            crate::access::AccessView {
                                read_only: false,
                                local_name: accv.local_name,
                                tags: Seq::empty(),
                                last_seen_rev: 0,
                            },
                        ),
                        ..old(db)@.users[uid as int].inner.secret
                    },
                    ..old(db)@.users[uid as int].inner
                },
                ..old(db)@.users[uid as int]
            },
        ));
        if entity_id is Conversation {
            assert(db@.conversations.drop_last() =~~= old(db)@.conversations);
        }
        if entity_id is Document {
            assert(db@.documents.drop_last() =~~= old(db)@.documents);
        }
        if entity_id is Spreadsheet {
            assert(db@.sheets.drop_last() =~~= old(db)@.sheets);
        }
        if entity_id is Bucket {
            assert(db@.buckets.drop_last() =~~= old(db)@.buckets);
        }
    }
    Ok(Reply::new(num, ReplyData::EntityCreated(entity_id)))
}

/// What a successful entity creation leaves behind: one new entity of the
/// named kind at the end of its container, authored by the caller, at
/// revision zero with an empty guest list and default payload, plus a
/// writable access entry under the caller.
pub open spec fn created_entity_ok(
    dbv0: DatabaseView,
    dbv1: DatabaseView,
    uid: UserId,
    entity_type: Seq<char>,
    local_name: Seq<char>,
    id: EntityId,
) -> bool {
    let access = crate::access::AccessView {
        read_only: false,
        local_name,
        tags: Seq::empty(),
        last_seen_rev: 0,
    };
    let u0 = dbv0.users[uid as int];
    let users1 = dbv0.users.update(
        uid as int,
        EntityView {
            inner: UserView {
                secret: crate::user::SecretView {
                    entities: u0.inner.secret.entities.insert(id, access),
                    ..u0.inner.secret
                },
                ..u0.inner
            },
            ..u0
        },
    );
    &&& dbv1.usernames == dbv0.usernames
    &&& dbv1.file_rc == dbv0.file_rc
    &&& dbv1.users == users1
    &&& match id {
        EntityId::Conversation(raw) => {
            &&& entity_type == "conv"@
            &&& raw == dbv0.conversations.len()
            &&& dbv1.conversations.len() == dbv0.conversations.len() + 1
            &&& dbv1.conversations.drop_last() == dbv0.conversations
            &&& new_entity_ok(dbv1.conversations.last().metadata, uid)
            &&& dbv1.conversations.last().inner == Seq::<crate::objects::MessageView>::empty()
            &&& dbv1.buckets == dbv0.buckets
            &&& dbv1.sheets == dbv0.sheets
            &&& dbv1.documents == dbv0.documents
        },
        EntityId::Document(raw) => {
            &&& entity_type == "doc"@
            &&& raw == dbv0.documents.len()
            &&& dbv1.documents.len() == dbv0.documents.len() + 1
            &&& dbv1.documents.drop_last() == dbv0.documents
            &&& new_entity_ok(dbv1.documents.last().metadata, uid)
            &&& dbv1.documents.last().inner == Seq::<crate::objects::ElementView>::empty()
            &&& dbv1.buckets == dbv0.buckets
            &&& dbv1.sheets == dbv0.sheets
            &&& dbv1.conversations == dbv0.conversations
        },
        EntityId::Spreadsheet(raw) => {
            &&& entity_type == "sheet"@
            &&& raw == dbv0.sheets.len()
            &&& dbv1.sheets.len() == dbv0.sheets.len() + 1
            &&& dbv1.sheets.drop_last() == dbv0.sheets
            &&& new_entity_ok(dbv1.sheets.last().metadata, uid)
            &&& dbv1.sheets.last().inner =~= Map::<u64, crate::sheet::CellView>::empty()
            &&& dbv1.buckets == dbv0.buckets
            &&& dbv1.documents == dbv0.documents
            &&& dbv1.conversations == dbv0.conversations
        },
        EntityId::Bucket(raw) => {
            &&& entity_type == "bucket"@
            &&& raw == dbv0.buckets.len()
            &&& dbv1.buckets.len() == dbv0.buckets.len() + 1
            &&& dbv1.buckets.drop_last() == dbv0.buckets
            &&& new_entity_ok(dbv1.buckets.last().metadata, uid)
            &&& dbv1.buckets.last().inner == Seq::<crate::objects::FileView>::empty()
            &&& dbv1.sheets == dbv0.sheets
            &&& dbv1.documents == dbv0.documents
            &&& dbv1.conversations == dbv0.conversations
        },
        EntityId::User(_) => false,
    }
}

/// A freshly created entity's metadata: the creator as author, no guests,
/// revision zero.
pub open spec fn new_entity_ok(md: EntityDataView, uid: UserId) -> bool {
    &&& md.author == uid
    &&& md.guests == Seq::<UserId>::empty()
    &&& md.revision == 0
    &&& md.image is Gradient
}

/// Everything a shutdown trigger promises of its outcome.
pub open spec fn server_shutdown_outcome(
    dbv: DatabaseView,
    user_id: Option<UserId>,
    num: usize,
    r: Result<Reply, OpError>,
) -> bool {
    match user_check(dbv, user_id) {
        Err(e) => r == Err::<Reply, OpError>(e),
        Ok(uid) => if dbv.users[uid as int].inner.secret.server_admin {
            r is Ok && r.unwrap()@ == (ReplyView { num, data: ReplyDataView::GenericSuccess })
        } else {
            r == Err::<Reply, OpError>(OpError::NotAnAdmin)
        },
    }
}

/// Triggers an immediate snapshot, allowed to server admins only; the caller
/// performs the snapshot and exits on success.
pub fn handle_server_shutdown(db: &Database, sess: &SessionState, num: usize) -> (r: Result<
    Reply,
    OpError,
>)
    ensures
        server_shutdown_outcome(db@, sess.user_id, num, r),
{
    let uid = match crate::session::require_user(db, sess) {
        Ok(uid) => uid,
        Err(e) => {
            return Err(e);
        },
    };
    if db.users.inner[uid].inner.secret.server_admin {
        Ok(Reply::new(num, ReplyData::GenericSuccess))
    } else {
        Err(OpError::NotAnAdmin)
    }
}

/// Whether a profile load goes through, for which user, and whether it is a
/// self load.
pub open spec fn load_user_data_check(
    dbv: DatabaseView,
    bound: Option<UserId>,
    maybe_user_id: Option<UserId>,
) -> Result<(UserId, bool), OpError> {
    let is_self = maybe_user_id is None;
    match if maybe_user_id is Some {
        maybe_user_id
    } else {
        bound
    } {
        None => Err(OpError::NotLoggedIn),
        Some(uid) => if uid >= dbv.users.len() {
            Err(OpError::NoSuchUser)
        } else {
            Ok((uid, is_self))
        },
    }
}

/// Whether every entity the user has an entry for still resolves.
pub open spec fn access_entries_resolve(dbv: DatabaseView, uid: UserId) -> bool {
    forall|id: EntityId|
        dbv.users[uid as int].inner.secret.entities.dom().contains(id)
            ==> #[trigger] entity_metadata(dbv, id) is Some
}

/// Everything a profile load promises of its outcome.
pub open spec fn load_user_data_outcome(
    dbv: DatabaseView,
    user_id: Option<UserId>,
    num: usize,
    maybe_user_id: Option<UserId>,
    r: Result<Reply, OpError>,
) -> bool {
    match load_user_data_check(dbv, user_id, maybe_user_id) {
        Err(e) => r == Err::<Reply, OpError>(e),
        Ok((uid, is_self)) => {
            let u = dbv.users[uid as int];
            if !is_self {
                r is Ok && r.unwrap()@ == (ReplyView {
                    num,
                    data: ReplyDataView::UserData(
                        u.metadata.revision,
                        u.inner.public,
                        u.metadata.image,
                    ),
                })
            } else if !access_entries_resolve(dbv, uid) {
                r == Err::<Reply, OpError>(OpError::InternalInconsistency)
            } else {
                &&& r is Ok
                &&& r.unwrap()@.num == num
                &&& r.unwrap()@.data matches ReplyDataView::SelfData(rev, pubv, ents, secret)
                &&& r.unwrap()@.data == ReplyDataView::SelfData(
                    u.metadata.revision,
                    u.inner.public,
                    self_data_entries(r.unwrap()),
                    u.inner.secret,
                )
                &&& self_entries_ok(dbv, uid, self_data_entries(r.unwrap()))
            }
        },
    }
}

/// Serves profile data. Without an argument it serves the caller's own data:
/// profile, account data and the metadata of every entity the caller has an
/// access entry for, plus the caller's own user entity. With an argument it
/// serves that user's public profile and image. An access entry whose entity
/// no longer resolves is a store inconsistency and rejects the load.
#[verifier::loop_isolation(false)]
pub fn handle_load_user_data(
    db: &Database,
    sess: &SessionState,
    num: usize,
    maybe_user_id: Option<UserId>,
) -> (r: Result<Reply, OpError>)
    ensures
        load_user_data_outcome(db@, sess.user_id, num, maybe_user_id, r),
{
    let is_self = maybe_user_id.is_none();
    let uid = match maybe_user_id {
        Some(uid) => uid,
        None => match sess.user_id {
            Some(uid) => uid,
            None => {
                return Err(OpError::NotLoggedIn);
            },
        },
    };
    if uid >= db.users.len() {
        return Err(OpError::NoSuchUser);
    }
    let user = &db.users.inner[uid];
    let revision = user.metadata.revision;
    if !is_self {
        let public = user.inner.public.duplicate();
        let image = user.metadata.image.duplicate();
        return Ok(Reply::new(num, ReplyData::UserData(revision, public, image)));
    }
    let count = user.inner.secret.entities.count();
    let mut entity_map: Vec<(EntityId, EntityData)> = Vec::new();
    let mut i: usize = 0;
    while i < count
        invariant
            i <= count,
            entity_map@.len() == i,
            forall|j: int|
                0 <= j < i ==> (#[trigger] entity_map@[j]).0
                    == user.inner.secret.entities.keys_seq()[j] && entity_metadata(
                    db@,
                    entity_map@[j].0,
                ) == Some(entity_map@[j].1@),
        decreases count - i,
    {
        let id = user.inner.secret.entities.key_at(i);
        let data = match db.metadata(id) {
            Some(data) => data,
            None => {
                return Err(OpError::InternalInconsistency);
            },
        };
        entity_map.push((id, data));
        i += 1;
    }
    let own = EntityId::User(uid);
    let own_data = match db.metadata(own) {
        Some(data) => data,
        None => {
            return Err(OpError::InternalInconsistency);
        },
    };
    entity_map.push((own, own_data));
    let public = user.inner.public.duplicate();
    let secret = user.inner.secret.duplicate();
    proof {
        assert(access_entries_resolve(db@, uid)) by {
            assert forall|id: EntityId|
                db@.users[uid as int].inner.secret.entities.dom().contains(
                    id,
                ) implies #[trigger] entity_metadata(db@, id) is Some by {
                let keys = user.inner.secret.entities.keys_seq();
                let j = choose|j: int| 0 <= j < keys.len() && #[trigger] keys[j] == id;
                assert(entity_metadata(db@, entity_map@[j].0) is Some);
            }
        }
    }
    let ghost em = entity_map@;
    let reply = Reply::new(num, ReplyData::SelfData(revision, public, entity_map, secret));
    proof {
        let ents = self_data_entries(reply);
        assert(ents.len() == em.len());
        assert(ents.last().0 == EntityId::User(uid));
        assert forall|j: int| 0 <= j < ents.len() implies entity_metadata(
            db@,
            (#[trigger] ents[j]).0,
        ) == Some(ents[j].1) by {
            assert(ents[j] == (em[j].0, em[j].1@));
        }
        assert forall|id: EntityId|
            db@.users[uid as int].inner.secret.entities.dom().contains(id) implies exists|j: int|
            0 <= j < ents.len() && (#[trigger] ents[j]).0 == id by {
            let keys = user.inner.secret.entities.keys_seq();
            let j = choose|j: int| 0 <= j < keys.len() && #[trigger] keys[j] == id;
            assert(em[j].0 == id);
            assert(ents[j].0 == id);
        }
    }
    Ok(reply)
}

/// The entity pairs inside a self-data reply, paired with their views.
pub open spec fn self_data_entries(r: Reply) -> Seq<(EntityId, EntityDataView)> {
    match r.data {
        ReplyData::SelfData(_, _, ents, _) => ents@.map_values(
            |p: (EntityId, EntityData)| (p.0, p.1@),
        ),
        _ => Seq::empty(),
    }
}

/// The served entity list is the user's access keys in storage order, each
/// bound to its entity's live metadata, with the user's own entity at the
/// end.
pub open spec fn self_entries_ok(
    dbv: DatabaseView,
    uid: UserId,
    ents: Seq<(EntityId, EntityDataView)>,
) -> bool {
    &&& ents.len() > 0
    &&& ents.last().0 == EntityId::User(uid)
    &&& forall|j: int|
        0 <= j < ents.len() ==> entity_metadata(dbv, (#[trigger] ents[j]).0) == Some(ents[j].1)
    &&& forall|id: EntityId|
        dbv.users[uid as int].inner.secret.entities.dom().contains(id) ==> exists|j: int|
            0 <= j < ents.len() && (#[trigger] ents[j]).0 == id
}

/// Authentication challenges are not served.
pub fn handle_send_challenge(num: usize) -> (r: Result<Reply, OpError>)
    ensures
        r == Err::<Reply, OpError>(OpError::Unsupported),
{
    Err(OpError::Unsupported)
}

/// Challenge completion is not served.
pub fn handle_complete_challenge(num: usize) -> (r: Result<Reply, OpError>)
    ensures
        r == Err::<Reply, OpError>(OpError::Unsupported),
{
    Err(OpError::Unsupported)
}

} // verus!
