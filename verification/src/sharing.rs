//! Sharing handlers: invites, access-entry upkeep and leaving an entity.
//!
//! An invite is consumed exactly once: accepting it grants the recipient an
//! access entry and a guest seat; discarding it grants nothing. Accepting a
//! friend request additionally grants the sender a reciprocal read-only
//! entry — the one action that touches two users' access data, and it is not
//! atomic across them: if the sender is gone the recipient's half stays.

use vstd::prelude::*;

use vstd::string::StringExecFns;

use crate::access::{AccessView, EntityAccess};
use crate::cloning::{copy_values, strings_view, Dup};
use crate::entities::{EntityDataView, EntityView};
use crate::objects::{InviteData, InviteView};
use crate::replies::{Reply, ReplyData, ReplyDataView, ReplyView};
use crate::session::{user_check, SessionState};
use crate::store::{db_dropped_access, db_pushed_guest, entity_metadata, fanout_sessions,
    user_sessions, Batch, Database, DatabaseView};
use crate::types::{EntityId, EntityTag, OpError, Revision, UserId};
use crate::update::{Update, UpdateData, UpdateDataView, UpdateType, UpdateView};
use crate::user::{SecretView, UserView};

verus! {

/// Whether an access-entry update goes through, and as which user.
pub open spec fn entry_update_check(
    dbv: DatabaseView,
    user_id: Option<UserId>,
    entity_id: EntityId,
) -> Result<UserId, OpError> {
    match user_check(dbv, user_id) {
        Err(e) => Err(e),
        Ok(uid) => if !dbv.users[uid as int].inner.secret.entities.dom().contains(entity_id) {
            Err(OpError::NoAccessEntry)
        } else {
            Ok(uid)
        },
    }
}

/// One user's access map replaced, everything else as it was.
pub open spec fn with_entities(
    dbv: DatabaseView,
    uid: UserId,
    entities: Map<EntityId, AccessView>,
) -> DatabaseView {
    DatabaseView {
        users: dbv.users.update(
            uid as int,
            EntityView {
                inner: UserView {
                    secret: SecretView { entities, ..dbv.users[uid as int].inner.secret },
                    ..dbv.users[uid as int].inner
                },
                ..dbv.users[uid as int]
            },
        ),
        ..dbv
    }
}

/// Everything a tag update promises of its outcome.
pub open spec fn set_entity_tags_outcome(
    dbv0: DatabaseView,
    dbvf: DatabaseView,
    user_id: Option<UserId>,
    num: usize,
    entity_id: EntityId,
    tags: Vec<EntityTag>,
    r: Result<Reply, OpError>,
) -> bool {
    match entry_update_check(dbv0, user_id, entity_id) {
        Err(e) => r == Err::<Reply, OpError>(e) && dbvf == dbv0,
        Ok(uid) => {
            let ents = dbv0.users[uid as int].inner.secret.entities;
            &&& r is Ok
            &&& r.unwrap()@ == (ReplyView { num, data: ReplyDataView::GenericSuccess })
            &&& dbvf == with_entities(
                dbv0,
                uid,
                ents.insert(
                    entity_id,
                    AccessView { tags: strings_view(tags@), ..ents[entity_id] },
                ),
            )
        },
    }
}

/// Replaces the tags of the caller's access entry for one entity.
pub fn handle_set_entity_tags(
    db: &mut Database,
    sess: &SessionState,
    num: usize,
    entity_id: EntityId,
    tags: Vec<EntityTag>,
) -> (r: Result<Reply, OpError>)
    ensures
        set_entity_tags_outcome(old(db)@, final(db)@, sess.user_id, num, entity_id, tags, r),
{
    let uid = match crate::session::require_user(db, sess) {
        Ok(uid) => uid,
        Err(e) => {
            return Err(e);
        },
    };
    proof {
        assert(db.users.inner@.len() == db.users@.len());
    }
    let user = &mut db.users.inner[uid];
    let access = match user.inner.secret.entities.get(entity_id) {
        Some(access) => access,
        None => {
            proof {
                assert(db@ =~~= old(db)@);
            }
            return Err(OpError::NoAccessEntry);
        },
    };
    let updated = EntityAccess {
        read_only: access.read_only,
        local_name: access.local_name.clone(),
        tags,
        last_seen_rev: access.last_seen_rev,
    };
    user.inner.secret.entities.insert(entity_id, updated);
    proof {
        assert(db@.users =~~= with_entities(
            old(db)@,
            uid,
            old(db)@.users[uid as int].inner.secret.entities.insert(
                entity_id,
                AccessView {
                    tags: strings_view(tags@),
                    ..old(db)@.users[uid as int].inner.secret.entities[entity_id]
                },
            ),
        ).users);
    }
    Ok(Reply::new(num, ReplyData::GenericSuccess))
}

/// Everything a rename promises of its outcome.
pub open spec fn rename_entity_outcome(
    dbv0: DatabaseView,
    dbvf: DatabaseView,
    user_id: Option<UserId>,
    num: usize,
    entity_id: EntityId,
    name: String,
    r: Result<Reply, OpError>,
) -> bool {
    match entry_update_check(dbv0, user_id, entity_id) {
        Err(e) => r == Err::<Reply, OpError>(e) && dbvf == dbv0,
        Ok(uid) => {
            let ents = dbv0.users[uid as int].inner.secret.entities;
            &&& r is Ok
            &&& r.unwrap()@ == (ReplyView { num, data: ReplyDataView::GenericSuccess })
            &&& dbvf == with_entities(
                dbv0,
                uid,
                ents.insert(entity_id, AccessView { local_name: name@, ..ents[entity_id] }),
            )
        },
    }
}

/// Renames the caller's access entry for one entity; the name is local to the
/// caller.
pub fn handle_rename_entity(
    db: &mut Database,
    sess: &SessionState,
    num: usize,
    entity_id: EntityId,
    name: String,
) -> (r: Result<Reply, OpError>)
    ensures
        rename_entity_outcome(old(db)@, final(db)@, sess.user_id, num, entity_id, name, r),
{
    let uid = match crate::session::require_user(db, sess) {
        Ok(uid) => uid,
        Err(e) => {
            return Err(e);
        },
    };
    proof {
        assert(db.users.inner@.len() == db.users@.len());
    }
    let user = &mut db.users.inner[uid];
    let access = match user.inner.secret.entities.get(entity_id) {
        Some(access) => access,
        None => {
            proof {
                assert(db@ =~~= old(db)@);
            }
            return Err(OpError::NoAccessEntry);
        },
    };
    let updated = EntityAccess {
        read_only: access.read_only,
        local_name: name,
        tags: crate::cloning::copy_strings(&access.tags),
        last_seen_rev: access.last_seen_rev,
    };
    user.inner.secret.entities.insert(entity_id, updated);
    proof {
        assert(db@.users =~~= with_entities(
            old(db)@,
            uid,
            old(db)@.users[uid as int].inner.secret.entities.insert(
                entity_id,
                AccessView {
                    local_name: name@,
                    ..old(db)@.users[uid as int].inner.secret.entities[entity_id]
                },
            ),
        ).users);
    }
    Ok(Reply::new(num, ReplyData::GenericSuccess))
}

/// Everything an access relinquishment promises of its outcome.
pub open spec fn drop_outcome(
    dbv0: DatabaseView,
    dbvf: DatabaseView,
    user_id: Option<UserId>,
    num: usize,
    entity_id: EntityId,
    out0: Seq<Batch>,
    outf: Seq<Batch>,
    r: Result<Reply, OpError>,
) -> bool {
    match user_check(dbv0, user_id) {
        Err(e) => r == Err::<Reply, OpError>(e) && dbvf == dbv0 && outf
            == out0,
        Ok(uid) => {
            let dbv1 = db_dropped_access(dbv0, entity_id, uid);
            let ents1 = dbv1.users[uid as int].inner.secret.entities;
            &&& r is Ok
            &&& r.unwrap()@ == (ReplyView { num, data: ReplyDataView::GenericSuccess })
            &&& dbvf == with_entities(dbv1, uid, ents1.remove(entity_id))
            &&& outf == out0.push(outf.last())
            &&& outf.last().update@ == (UpdateView {
                update_type: UpdateType::ByeGuest,
                id: entity_id,
                new_revision: 0,
                index: 0,
                data: UpdateDataView::Actor(uid),
            })
            &&& outf.last().sessions@ == fanout_sessions(dbv1, entity_id)
        },
    }
}

/// Relinquishes the caller's access to one entity: the entity's side follows
/// `Entities::try_drop_access` (author hand-over or guest removal), every
/// reachable session learns of the departure, and the caller's access entry
/// goes away.
pub fn handle_drop(
    db: &mut Database,
    sess: &SessionState,
    num: usize,
    entity_id: EntityId,
    out: &mut Vec<Batch>,
) -> (r: Result<Reply, OpError>)
    ensures
        drop_outcome(
            old(db)@,
            final(db)@,
            sess.user_id,
            num,
            entity_id,
            old(out)@,
            final(out)@,
            r,
        ),
{
    let uid = match crate::session::require_user(db, sess) {
        Ok(uid) => uid,
        Err(e) => {
            return Err(e);
        },
    };
    db.drop_access(entity_id, uid);
    let update = Update::new(UpdateType::ByeGuest, entity_id, 0, 0, UpdateData::Actor(uid));
    let batch = db.notify_users(update);
    out.push(batch);
    proof {
        assert(db.users.inner@.len() == db.users@.len());
        assert(uid < db.users@.len());
    }
    let ghost dbv1 = db@;
    let user = &mut db.users.inner[uid];
    user.inner.secret.entities.remove(entity_id);
    proof {
        assert(db@.users =~~= with_entities(
            dbv1,
            uid,
            dbv1.users[uid as int].inner.secret.entities.remove(entity_id),
        ).users);
    }
    Ok(Reply::new(num, ReplyData::GenericSuccess))
}

/// Entity histories are not served.
pub fn handle_load_history(num: usize) -> (r: Result<Reply, OpError>)
    ensures
        r == Err::<Reply, OpError>(OpError::Unsupported),
{
    Err(OpError::Unsupported)
}

/// Ownership transfer by name is not served.
pub fn handle_transfer_ownership(num: usize) -> (r: Result<Reply, OpError>)
    ensures
        r == Err::<Reply, OpError>(OpError::Unsupported),
{
    Err(OpError::Unsupported)
}

/// Banning a guest by name is not served.
pub fn handle_ban_guest(num: usize) -> (r: Result<Reply, OpError>)
    ensures
        r == Err::<Reply, OpError>(OpError::Unsupported),
{
    Err(OpError::Unsupported)
}

/// Whether an invite open goes through: as which user and which invite.
pub open spec fn open_invite_check(
    dbv: DatabaseView,
    user_id: Option<UserId>,
    revision: Revision,
    invite: int,
) -> Result<(UserId, InviteView), OpError> {
    match user_check(dbv, user_id) {
        Err(e) => Err(e),
        Ok(uid) => {
            let invites = dbv.users[uid as int].inner.secret.invites;
            if invite < 0 || invite >= invites.len() {
                Err(OpError::InvalidInvite)
            } else if dbv.users[uid as int].metadata.revision != revision || revision
                == u32::MAX {
                Err(OpError::BadRevision)
            } else {
                Ok((uid, invites[invite]))
            }
        },
    }
}

/// The recipient's side of opening an invite: the invite leaves the list, the
/// user's revision advances, and unless the invite is discarded an access
/// entry for the target appears.
pub open spec fn invite_consumed(
    dbv: DatabaseView,
    uid: UserId,
    invite: int,
    data: InviteView,
    discard: bool,
) -> DatabaseView {
    let u0 = dbv.users[uid as int];
    let granted = AccessView {
        read_only: data.read_only,
        local_name: data.orig_name,
        tags: Seq::empty(),
        last_seen_rev: 0,
    };
    DatabaseView {
        users: dbv.users.update(
            uid as int,
            EntityView {
                inner: UserView {
                    secret: SecretView {
                        invites: u0.inner.secret.invites.remove(invite),
                        entities: if discard {
                            u0.inner.secret.entities
                        } else {
                            u0.inner.secret.entities.insert(data.target, granted)
                        },
                        ..u0.inner.secret
                    },
                    ..u0.inner
                },
                metadata: EntityDataView {
                    revision: (u0.metadata.revision + 1) as Revision,
                    ..u0.metadata
                },
            },
        ),
        ..dbv
    }
}

/// The sender's side of an accepted friend request: a reciprocal read-only
/// entry for the recipient, and the sender's revision advances (stopping at
/// the counter's ceiling).
pub open spec fn friendship_granted(dbv: DatabaseView, friend_id: UserId, uid: UserId)
    -> DatabaseView {
    let f0 = dbv.users[friend_id as int];
    let granted = AccessView {
        read_only: true,
        local_name: "Friend Request"@,
        tags: Seq::empty(),
        last_seen_rev: 0,
    };
    DatabaseView {
        users: dbv.users.update(
            friend_id as int,
            EntityView {
                inner: UserView {
                    secret: SecretView {
                        entities: f0.inner.secret.entities.insert(EntityId::User(uid), granted),
                        ..f0.inner.secret
                    },
                    ..f0.inner
                },
                metadata: EntityDataView {
                    revision: if f0.metadata.revision < u32::MAX {
                        (f0.metadata.revision + 1) as Revision
                    } else {
                        f0.metadata.revision
                    },
                    ..f0.metadata
                },
            },
        ),
        ..dbv
    }
}

/// Everything an invite open promises of its outcome.
pub open spec fn open_invite_outcome(
    dbv0: DatabaseView,
    dbvf: DatabaseView,
    user_id: Option<UserId>,
    num: usize,
    revision: Revision,
    invite: usize,
    discard: bool,
    out0: Seq<Batch>,
    outf: Seq<Batch>,
    r: Result<Reply, OpError>,
) -> bool {
    match open_invite_check(dbv0, user_id, revision, invite as int) {
        Err(e) => r == Err::<Reply, OpError>(e) && dbvf == dbv0 && outf
            == out0,
        Ok((uid, data)) => {
            let dbv1 = invite_consumed(dbv0, uid, invite as int, data, discard);
            if discard {
                r is Ok && r.unwrap()@ == (ReplyView {
                    num,
                    data: ReplyDataView::GenericSuccess,
                }) && dbvf == dbv1 && outf == out0
            } else {
                match data.target {
                    EntityId::User(friend_id) => if friend_id >= dbv1.users.len() {
                        r == Err::<Reply, OpError>(OpError::FriendGone) && dbvf == dbv1
                            && outf == out0
                    } else {
                        let dbv2 = friendship_granted(dbv1, friend_id, uid);
                        let dbv3 = db_pushed_guest(dbv2, EntityId::User(uid), friend_id);
                        let dbv4 = db_pushed_guest(dbv3, EntityId::User(friend_id), uid);
                        &&& r is Ok
                        &&& r.unwrap()@ == (ReplyView {
                            num,
                            data: ReplyDataView::GenericSuccess,
                        })
                        &&& dbvf == dbv4
                        &&& outf == out0.push(outf.last())
                        &&& outf.last().update@ == (UpdateView {
                            update_type: UpdateType::NewFriend,
                            id: EntityId::User(friend_id),
                            new_revision: 0,
                            index: uid as u64,
                            data: UpdateDataView::Nothing,
                        })
                        &&& outf.last().sessions@
                            == dbv1.users[friend_id as int].inner.sessions
                    },
                    _ => {
                        let dbv2 = db_pushed_guest(dbv1, data.target, uid);
                        &&& r is Ok
                        &&& r.unwrap()@ == (ReplyView {
                            num,
                            data: ReplyDataView::GenericSuccess,
                        })
                        &&& dbvf == dbv2
                        &&& outf == out0.push(outf.last())
                        &&& outf.last().update@ == (UpdateView {
                            update_type: UpdateType::NewGuest,
                            id: data.target,
                            new_revision: 0,
                            index: 0,
                            data: UpdateDataView::Actor(uid),
                        })
                        &&& outf.last().sessions@ == fanout_sessions(dbv1, data.target)
                    },
                }
            }
        },
    }
}

/// Opens one pending invite, consuming it. Accepting grants the caller an
/// access entry and a guest seat on the target; discarding grants nothing.
/// Accepting a friend request also grants the sender a reciprocal read-only
/// entry, puts the sender on the caller's guest list, and tells the sender's
/// sessions; this second half is not atomic with the first: a vanished sender
/// leaves the caller's half applied and reports the sender gone.
pub fn handle_open_invite(
    db: &mut Database,
    sess: &SessionState,
    num: usize,
    revision: Revision,
    invite: usize,
    discard: bool,
    out: &mut Vec<Batch>,
) -> (r: Result<Reply, OpError>)
    ensures
        open_invite_outcome(
            old(db)@,
            final(db)@,
            sess.user_id,
            num,
            revision,
            invite,
            discard,
            old(out)@,
            final(out)@,
            r,
        ),
{
    let uid = match crate::session::require_user(db, sess) {
        Ok(uid) => uid,
        Err(e) => {
            return Err(e);
        },
    };
    proof {
        assert(db.users.inner@.len() == db.users@.len());
    }
    let ghost dbv0 = db@;
    let user = &mut db.users.inner[uid];
    if invite >= user.inner.secret.invites.len() {
        proof {
            assert(db@ =~~= old(db)@);
        }
        return Err(OpError::InvalidInvite);
    }
    if user.metadata.revision != revision || revision == u32::MAX {
        proof {
            assert(db@ =~~= old(db)@);
        }
        return Err(OpError::BadRevision);
    }
    let data = user.inner.secret.invites[invite].duplicate();
    let granted = EntityAccess {
        read_only: data.read_only,
        local_name: data.orig_name.clone(),
        tags: Vec::new(),
        last_seen_rev: 0,
    };
    if !discard {
        user.inner.secret.entities.insert(data.target, granted);
    }
    user.metadata.revision = revision + 1;
    user.inner.secret.invites.remove(invite);
    proof {
        assert(db@.users =~~= invite_consumed(
            dbv0,
            uid,
            invite as int,
            dbv0.users[uid as int].inner.secret.invites[invite as int],
            discard,
        ).users);
    }
    let ghost dbv1 = db@;
    if discard {
        return Ok(Reply::new(num, ReplyData::GenericSuccess));
    }
    match data.target {
        EntityId::User(friend_id) => {
            proof {
                assert(db.users.inner@.len() == db.users@.len());
            }
            if friend_id >= db.users.len() {
                return Err(OpError::FriendGone);
            }
            let friend = &mut db.users.inner[friend_id];
            if friend.metadata.revision < u32::MAX {
                let fr = friend.metadata.revision;
                friend.metadata.revision = fr + 1;
            }
            let reciprocal = EntityAccess {
                read_only: true,
                local_name: "Friend Request".to_owned(),
                tags: Vec::new(),
                last_seen_rev: 0,
            };
            friend.inner.secret.entities.insert(EntityId::User(uid), reciprocal);
            let sessions = copy_values(&friend.inner.sessions);
            proof {
                assert(db@.users =~~= friendship_granted(dbv1, friend_id, uid).users);
            }
            let ghost dbv2 = db@;
            db.push_guest(EntityId::User(uid), friend_id);
            db.push_guest(EntityId::User(friend_id), uid);
            let update = Update::friend(friend_id, uid);
            out.push(Batch { update, sessions });
            Ok(Reply::new(num, ReplyData::GenericSuccess))
        },
        _ => {
            let update = Update::new(
                UpdateType::NewGuest,
                data.target,
                0,
                0,
                UpdateData::Actor(uid),
            );
            let batch = db.notify_users(update);
            out.push(batch);
            db.push_guest(data.target, uid);
            Ok(Reply::new(num, ReplyData::GenericSuccess))
        },
    }
}

/// Why inviting one guest is refused, if it is: a non-friend (only checked
/// when the target is not itself a user), a guest already seated, an unknown
/// id, or a pending invite for the same target.
pub open spec fn guest_err(
    dbv: DatabaseView,
    friends: Seq<UserId>,
    need_friend: bool,
    md_guests: Seq<UserId>,
    target: EntityId,
    guest: UserId,
) -> Option<OpError> {
    if need_friend && !friends.contains(guest) {
        Some(OpError::NotAFriend)
    } else if md_guests.contains(guest) {
        Some(OpError::GuestHasAccess)
    } else if guest >= dbv.users.len() {
        Some(OpError::NoSuchGuest)
    } else if exists|j: int|
        0 <= j < dbv.users[guest as int].inner.secret.invites.len() && (
        #[trigger] dbv.users[guest as int].inner.secret.invites[j]).target == target {
        Some(OpError::GuestAlreadyInvited)
    } else {
        None
    }
}

/// The first refusal among the guests, scanned in order.
pub open spec fn guests_scan(
    dbv: DatabaseView,
    friends: Seq<UserId>,
    need_friend: bool,
    md_guests: Seq<UserId>,
    target: EntityId,
    guests: Seq<UserId>,
) -> Option<OpError>
    decreases guests.len(),
{
    if guests.len() == 0 {
        None
    } else {
        match guest_err(dbv, friends, need_friend, md_guests, target, guests[0]) {
            Some(e) => Some(e),
            None => guests_scan(dbv, friends, need_friend, md_guests, target, guests.drop_first()),
        }
    }
}

/// Whether a batch of invites goes through: as which sender, under which
/// shared name.
pub open spec fn create_invite_check(
    dbv: DatabaseView,
    user_id: Option<UserId>,
    target: EntityId,
    guests: Seq<UserId>,
) -> Result<(UserId, Seq<char>), OpError> {
    match user_check(dbv, user_id) {
        Err(e) => Err(e),
        Ok(uid) => match entity_metadata(dbv, target) {
            None => Err(OpError::NoSuchEntity),
            Some(md) => if md.author != uid {
                Err(OpError::NotTheAuthor)
            } else {
                let ents = dbv.users[uid as int].inner.secret.entities;
                let orig_name: Seq<char> = if ents.dom().contains(target) {
                    ents[target].local_name
                } else {
                    "Friend Request"@
                };
                let friends = dbv.users[uid as int].metadata.guests;
                let need_friend = !(target is User);
                match guests_scan(dbv, friends, need_friend, md.guests, target, guests) {
                    Some(e) => Err(e),
                    None => Ok((uid, orig_name)),
                }
            },
        },
    }
}

/// The store after one user gained a pending invite.
pub open spec fn with_invite(
    users: Seq<EntityView<crate::user::UserView>>,
    guest: UserId,
    inv: InviteView,
) -> Seq<EntityView<crate::user::UserView>> {
    if guest < users.len() {
        users.update(
            guest as int,
            EntityView {
                inner: UserView {
                    secret: SecretView {
                        invites: users[guest as int].inner.secret.invites.push(inv),
                        ..users[guest as int].inner.secret
                    },
                    ..users[guest as int].inner
                },
                ..users[guest as int]
            },
        )
    } else {
        users
    }
}

/// The store after every guest, in order, gained the invite.
pub open spec fn with_invites(
    users: Seq<EntityView<crate::user::UserView>>,
    guests: Seq<UserId>,
    inv: InviteView,
) -> Seq<EntityView<crate::user::UserView>>
    decreases guests.len(),
{
    if guests.len() == 0 {
        users
    } else {
        with_invite(with_invites(users, guests.drop_last(), inv), guests.last(), inv)
    }
}

/// Granting invites moves no sessions, no metadata and no container lengths.
pub proof fn lemma_with_invites_frame(
    users: Seq<EntityView<crate::user::UserView>>,
    guests: Seq<UserId>,
    inv: InviteView,
)
    ensures
        with_invites(users, guests, inv).len() == users.len(),
        forall|u: int|
            0 <= u < users.len() ==> (#[trigger] with_invites(users, guests, inv)[u]).inner.sessions
                == users[u].inner.sessions && with_invites(users, guests, inv)[u].metadata
                == users[u].metadata,
    decreases guests.len(),
{
    if guests.len() > 0 {
        lemma_with_invites_frame(users, guests.drop_last(), inv);
    }
}

/// Everything an invite batch promises of its outcome.
pub open spec fn create_invite_outcome(
    dbv0: DatabaseView,
    dbvf: DatabaseView,
    user_id: Option<UserId>,
    num: usize,
    target: EntityId,
    read_only: bool,
    guests: Vec<UserId>,
    out0: Seq<Batch>,
    outf: Seq<Batch>,
    r: Result<Reply, OpError>,
) -> bool {
    match create_invite_check(dbv0, user_id, target, guests@) {
        Err(e) => r == Err::<Reply, OpError>(e) && dbvf == dbv0 && outf
            == out0,
        Ok((uid, orig_name)) => {
            let inv = InviteView { orig_name, sender: uid, target, read_only };
            &&& r is Ok
            &&& r.unwrap()@ == (ReplyView { num, data: ReplyDataView::GenericSuccess })
            &&& dbvf == (DatabaseView {
                users: with_invites(dbv0.users, guests@, inv),
                ..dbv0
            })
            &&& outf.len() == out0.len() + guests@.len()
            &&& outf.take(out0.len() as int) == out0
            &&& forall|k: int|
                0 <= k < guests@.len() ==> (#[trigger] outf[out0.len() + k]).update@
                    == (UpdateView {
                    update_type: UpdateType::NewInvite,
                    id: EntityId::User(guests@[k]),
                    new_revision: 0,
                    index: 0,
                    data: UpdateDataView::Grant(inv),
                }) && outf[out0.len() + k].sessions@ == user_sessions(
                    dbv0,
                    guests@[k],
                )
        },
    }
}

/// Invites every listed guest to one entity. All guests are vetted against
/// the store as it stands — each must be a friend of the caller (unless the
/// target is itself a user), must not already sit on the target's guest list,
/// must resolve, and must not already hold an invite for the target — and
/// only then does every guest gain the invite, so the batch lands whole or
/// not at all. Each invited guest's sessions are told.
#[verifier::loop_isolation(false)]
pub fn handle_create_invite(
    db: &mut Database,
    sess: &SessionState,
    num: usize,
    target: EntityId,
    read_only: bool,
    guests: Vec<UserId>,
    out: &mut Vec<Batch>,
) -> (r: Result<Reply, OpError>)
    ensures
        create_invite_outcome(
            old(db)@,
            final(db)@,
            sess.user_id,
            num,
            target,
            read_only,
            guests,
            old(out)@,
            final(out)@,
            r,
        ),
{
    let uid = match crate::session::require_user(db, sess) {
        Ok(uid) => uid,
        Err(e) => {
            return Err(e);
        },
    };
    let md = match db.metadata(target) {
        Some(md) => md,
        None => {
            return Err(OpError::NoSuchEntity);
        },
    };
    if md.author != uid {
        return Err(OpError::NotTheAuthor);
    }
    let need_friend = !(matches!(target, EntityId::User(_)));
    proof {
        assert(db.users.inner@.len() == db.users@.len());
    }
    let caller = &db.users.inner[uid];
    let friends = copy_values(&caller.metadata.guests);
    let orig_name: String = match caller.inner.secret.entities.get(target) {
        Some(access) => access.local_name.clone(),
        None => "Friend Request".to_owned(),
    };
    let n = guests.len();
    let mut i: usize = 0;
    while i < n
        invariant
            i <= n,
            n == guests@.len(),
            forall|k: int|
                0 <= k < i ==> guest_err(
                    db@,
                    friends@,
                    need_friend,
                    md@.guests,
                    target,
                    #[trigger] guests@[k],
                ) is None,
            guests_scan(db@, friends@, need_friend, md@.guests, target, guests@.take(i as int))
                is None,
        decreases n - i,
    {
        let g = guests[i];
        if need_friend && !contains_user(&friends, g) {
            proof {
                lemma_guests_scan_stops(
                    db@,
                    friends@,
                    need_friend,
                    md@.guests,
                    target,
                    guests@,
                    i as int,
                );
            }
            return Err(OpError::NotAFriend);
        }
        if contains_user(&md.guests, g) {
            proof {
                lemma_guests_scan_stops(
                    db@,
                    friends@,
                    need_friend,
                    md@.guests,
                    target,
                    guests@,
                    i as int,
                );
            }
            return Err(OpError::GuestHasAccess);
        }
        if g >= db.users.len() {
            proof {
                lemma_guests_scan_stops(
                    db@,
                    friends@,
                    need_friend,
                    md@.guests,
                    target,
                    guests@,
                    i as int,
                );
            }
            return Err(OpError::NoSuchGuest);
        }
        if has_invite_for(&db.users.inner[g].inner.secret.invites, target) {
            proof {
                assert(db@.users[g as int] == db.users.inner@[g as int]@);
                let j = choose|j: int|
                    0 <= j < db.users.inner@[g as int].inner.secret.invites@.len() && (
                    #[trigger] db.users.inner@[g as int].inner.secret.invites@[j])@.target
                        == target;
                assert(db@.users[g as int].inner.secret.invites[j].target == target);
                lemma_guests_scan_stops(
                    db@,
                    friends@,
                    need_friend,
                    md@.guests,
                    target,
                    guests@,
                    i as int,
                );
            }
            return Err(OpError::GuestAlreadyInvited);
        }
        proof {
            lemma_guests_scan_extends(
                db@,
                friends@,
                need_friend,
                md@.guests,
                target,
                guests@,
                i as int,
            );
        }
        i += 1;
    }
    proof {
        assert(guests@.take(n as int) =~= guests@);
    }
    let invite = InviteData { orig_name, sender: uid, target, read_only };
    let ghost inv = invite@;
    let ghost dbv0 = db@;
    let mut i: usize = 0;
    while i < n
        invariant
            i <= n,
            n == guests@.len(),
            db@.users == with_invites(dbv0.users, guests@.take(i as int), inv),
            db@.conversations == dbv0.conversations,
            db@.buckets == dbv0.buckets,
            db@.sheets == dbv0.sheets,
            db@.documents == dbv0.documents,
            db@.usernames == dbv0.usernames,
            db@.file_rc == dbv0.file_rc,
            invite@ == inv,
            forall|k: int| 0 <= k < guests@.len() ==> #[trigger] guests@[k] < dbv0.users.len(),
            out@.len() == old(out)@.len() + i,
            out@.take(old(out)@.len() as int) == old(out)@,
            forall|k: int|
                0 <= k < i ==> (#[trigger] out@[old(out)@.len() + k]).update@ == (UpdateView {
                    update_type: UpdateType::NewInvite,
                    id: EntityId::User(guests@[k]),
                    new_revision: 0,
                    index: 0,
                    data: UpdateDataView::Grant(inv),
                }) && out@[old(out)@.len() + k].sessions@ == user_sessions(dbv0, guests@[k]),
        decreases n - i,
    {
        let g = guests[i];
        proof {
            lemma_with_invites_frame(dbv0.users, guests@.take(i as int), inv);
            assert(db.users.inner@.len() == db.users@.len());
        }
        let guest = &mut db.users.inner[g];
        let copy = invite.duplicate();
        guest.inner.secret.invites.push(copy);
        proof {
            assert(guests@.take(i + 1).drop_last() =~= guests@.take(i as int));
            assert(guests@.take(i + 1).last() == guests@[i as int]);
            assert(db@.users =~~= with_invites(dbv0.users, guests@.take(i + 1), inv));
        }
        let sessions = copy_values(&db.users.inner[g].inner.sessions);
        proof {
            lemma_with_invites_frame(dbv0.users, guests@.take(i + 1), inv);
            assert(sessions@ == user_sessions(dbv0, g));
        }
        let update = Update::new(
            UpdateType::NewInvite,
            EntityId::User(g),
            0,
            0,
            UpdateData::Grant(invite.duplicate()),
        );
        out.push(Batch { update, sessions });
        i += 1;
        proof {
            assert(out@.take(old(out)@.len() as int) =~= old(out)@);
        }
    }
    proof {
        assert(guests@.take(n as int) =~= guests@);
        assert(out@.take(old(out)@.len() as int) == old(out)@);
    }
    Ok(Reply::new(num, ReplyData::GenericSuccess))
}

/// Whether a user id sits in the list.
pub fn contains_user(v: &Vec<UserId>, x: UserId) -> (r: bool)
    ensures
        r == v@.contains(x),
{
    let n = v.len();
    let mut i: usize = 0;
    while i < n
        invariant
            i <= n,
            n == v@.len(),
            forall|j: int| 0 <= j < i ==> v@[j] != x,
        decreases n - i,
    {
        if v[i] == x {
            return true;
        }
        i += 1;
    }
    false
}

/// Whether any pending invite points at the target.
pub fn has_invite_for(v: &Vec<InviteData>, target: EntityId) -> (r: bool)
    ensures
        r == exists|j: int| 0 <= j < v@.len() && (#[trigger] v@[j])@.target == target,
{
    let n = v.len();
    let mut i: usize = 0;
    while i < n
        invariant
            i <= n,
            n == v@.len(),
            forall|j: int| 0 <= j < i ==> (#[trigger] v@[j])@.target != target,
        decreases n - i,
    {
        if v[i].target == target {
            proof {
                assert(v@[i as int]@.target == target);
            }
            return true;
        }
        i += 1;
    }
    false
}

/// A clean prefix scan that hits a refused guest stops with that refusal.
pub proof fn lemma_guests_scan_stops(
    dbv: DatabaseView,
    friends: Seq<UserId>,
    need_friend: bool,
    md_guests: Seq<UserId>,
    target: EntityId,
    guests: Seq<UserId>,
    i: int,
)
    requires
        0 <= i < guests.len(),
        forall|k: int|
            0 <= k < i ==> guest_err(
                dbv,
                friends,
                need_friend,
                md_guests,
                target,
                #[trigger] guests[k],
            ) is None,
        guest_err(dbv, friends, need_friend, md_guests, target, guests[i]) is Some,
    ensures
        guests_scan(dbv, friends, need_friend, md_guests, target, guests) == Some(
            guest_err(dbv, friends, need_friend, md_guests, target, guests[i]).unwrap(),
        ),
    decreases guests.len(),
{
    if i == 0 {
    } else {
        assert forall|k: int|
            0 <= k < i - 1 implies guest_err(
            dbv,
            friends,
            need_friend,
            md_guests,
            target,
            #[trigger] guests.drop_first()[k],
        ) is None by {
            assert(guests.drop_first()[k] == guests[k + 1]);
        }
        assert(guests.drop_first()[i - 1] == guests[i]);
        lemma_guests_scan_stops(dbv, friends, need_friend, md_guests, target, guests.drop_first(), i - 1);
    }
}

/// A clean prefix stays clean one step further when the next guest passes.
pub proof fn lemma_guests_scan_extends(
    dbv: DatabaseView,
    friends: Seq<UserId>,
    need_friend: bool,
    md_guests: Seq<UserId>,
    target: EntityId,
    guests: Seq<UserId>,
    i: int,
)
    requires
        0 <= i < guests.len(),
        guests_scan(dbv, friends, need_friend, md_guests, target, guests.take(i)) is None,
        forall|k: int|
            0 <= k <= i ==> guest_err(
                dbv,
                friends,
                need_friend,
                md_guests,
                target,
                #[trigger] guests[k],
            ) is None,
    ensures
        guests_scan(dbv, friends, need_friend, md_guests, target, guests.take(i + 1)) is None,
    decreases i,
{
    lemma_guests_scan_clean(dbv, friends, need_friend, md_guests, target, guests.take(i + 1));
}

/// A sequence whose every guest passes scans clean.
pub proof fn lemma_guests_scan_clean(
    dbv: DatabaseView,
    friends: Seq<UserId>,
    need_friend: bool,
    md_guests: Seq<UserId>,
    target: EntityId,
    guests: Seq<UserId>,
)
    requires
        forall|k: int|
            0 <= k < guests.len() ==> guest_err(
                dbv,
                friends,
                need_friend,
                md_guests,
                target,
                #[trigger] guests[k],
            ) is None,
    ensures
        guests_scan(dbv, friends, need_friend, md_guests, target, guests) is None,
    decreases guests.len(),
{
    if guests.len() > 0 {
        assert forall|k: int|
            0 <= k < guests.drop_first().len() implies guest_err(
            dbv,
            friends,
            need_friend,
            md_guests,
            target,
            #[trigger] guests.drop_first()[k],
        ) is None by {
            assert(guests.drop_first()[k] == guests[k + 1]);
        }
        lemma_guests_scan_clean(dbv, friends, need_friend, md_guests, target, guests.drop_first());
    }
}

} // verus!
