//! One connection's session state, and the access gates every request passes
//! through. Reads require any access entry for the target; writes require one
//! that is not read-only. Absence of an entry denies access whatever the
//! entity's own guest list says.

use vstd::prelude::*;

use crate::replies::{Reply, ReplyData, ReplyDataView, ReplyView};
use crate::requests::{Request, RequestData};
use crate::store::{Batch, Database, DatabaseView};
use crate::types::{EntityId, OpError, SessionId, Stamp, UserId};

verus! {

/// The store-facing state of one live connection.
pub struct SessionState {
    pub session_id: SessionId,
    pub user_id: Option<UserId>,
}

impl SessionState {
    /// A fresh session: no user bound yet.
    pub fn new(session_id: SessionId) -> (r: Self)
        ensures
            r.session_id == session_id,
            r.user_id is None,
    {
        SessionState { session_id, user_id: None }
    }
}

/// Whether the session has a user and the store still resolves it.
pub open spec fn user_check(dbv: DatabaseView, user_id: Option<UserId>) -> Result<
    UserId,
    OpError,
> {
    match user_id {
        None => Err(OpError::NotLoggedIn),
        Some(uid) => if uid >= dbv.users.len() {
            Err(OpError::NoSuchUser)
        } else {
            Ok(uid)
        },
    }
}

/// Whether the session's user may touch the entity: reads need any access
/// entry, writes one that is not read-only.
pub open spec fn access_check(
    dbv: DatabaseView,
    user_id: Option<UserId>,
    id: EntityId,
    write: bool,
) -> Result<UserId, OpError> {
    match user_check(dbv, user_id) {
        Err(e) => Err(e),
        Ok(uid) => {
            let entities = dbv.users[uid as int].inner.secret.entities;
            if !entities.dom().contains(id) {
                Err(OpError::NoAccessEntry)
            } else if write && entities[id].read_only {
                Err(OpError::ReadOnlyAccess)
            } else {
                Ok(uid)
            }
        },
    }
}

/// The session's user id, if one is bound and still resolves.
pub fn require_user(db: &Database, sess: &SessionState) -> (r: Result<UserId, OpError>)
    ensures
        r == user_check(db@, sess.user_id),
{
    match sess.user_id {
        None => Err(OpError::NotLoggedIn),
        Some(uid) => {
            if db.users.len() <= uid {
                Err(OpError::NoSuchUser)
            } else {
                Ok(uid)
            }
        },
    }
}

/// Gates one operation on the caller's access entry for the target.
pub fn check_access(db: &Database, sess: &SessionState, id: EntityId, write: bool) -> (r: Result<
    UserId,
    OpError,
>)
    ensures
        r == access_check(db@, sess.user_id, id, write),
{
    let uid = match require_user(db, sess) {
        Ok(uid) => uid,
        Err(e) => {
            return Err(e);
        },
    };
    let user = match db.users.find(uid) {
        Some(user) => user,
        None => {
            return Err(OpError::NoSuchUser);
        },
    };
    match user.inner.secret.entities.get(id) {
        None => Err(OpError::NoAccessEntry),
        Some(access) => {
            if write && access.read_only {
                Err(OpError::ReadOnlyAccess)
            } else {
                Ok(uid)
            }
        },
    }
}

/// Maps one decoded request to its store operation, promising per operation
/// kind exactly what that operation's handler promises: how the store
/// changed, which reply came back (on success always carrying the request's
/// own number), and which fan-out batches were queued. `upload` carries the
/// content hash and size of the caller's finished upload, computed by the
/// transport layer as the bytes streamed in. A failed operation yields its
/// reason; nothing here ever ends the session or the store.
pub fn handle_request(
    db: &mut Database,
    sess: &mut SessionState,
    req: Request,
    now: Stamp,
    upload: (String, usize),
    out: &mut Vec<Batch>,
) -> (r: Result<Reply, OpError>)
    ensures
        final(sess).session_id == old(sess).session_id,
        !(req.data is OpenSession) ==> *final(sess) == *old(sess),
        match req.data {
            RequestData::SendChallenge(_, _) => r == Err::<Reply, OpError>(OpError::Unsupported)
                && final(db)@ == old(db)@ && final(out)@ == old(out)@,
            RequestData::CompleteChallenge(_) => r == Err::<Reply, OpError>(OpError::Unsupported)
                && final(db)@ == old(db)@ && final(out)@ == old(out)@,
            RequestData::CreateAccount(name, password) => crate::account::create_account_outcome(
                old(db)@,
                final(db)@,
                req.num,
                name,
                password,
                r,
            ) && final(out)@ == old(out)@,
            RequestData::GetToken(user_id, password) => crate::account::get_token_outcome(
                old(db)@,
                final(db)@,
                req.num,
                user_id,
                password,
                r,
            ) && final(out)@ == old(out)@,
            RequestData::OpenSession(user_id, token) => crate::account::open_session_outcome(
                old(db)@,
                final(db)@,
                *old(sess),
                *final(sess),
                req.num,
                user_id,
                token,
                r,
            ) && final(out)@ == old(out)@,
            RequestData::LoadUserData(maybe_user_id) => crate::account::load_user_data_outcome(
                old(db)@,
                old(sess).user_id,
                req.num,
                maybe_user_id,
                r,
            ) && final(db)@ == old(db)@ && final(out)@ == old(out)@,
            RequestData::SetUserData(rev, data) => crate::account::set_user_data_outcome(
                old(db)@,
                final(db)@,
                old(sess).user_id,
                req.num,
                rev,
                data,
                old(out)@,
                final(out)@,
                r,
            ),
            RequestData::OpenInvite(revision, invite, discard) => crate::sharing::open_invite_outcome(
                old(db)@,
                final(db)@,
                old(sess).user_id,
                req.num,
                revision,
                invite,
                discard,
                old(out)@,
                final(out)@,
                r,
            ),
            RequestData::WhoIs(username) => crate::account::who_is_outcome(
                old(db)@,
                req.num,
                username,
                r,
            ) && final(db)@ == old(db)@ && final(out)@ == old(out)@,
            RequestData::CreateEntity(entity_type, local_name) => crate::account::create_entity_outcome(
                old(db)@,
                final(db)@,
                old(sess).user_id,
                req.num,
                entity_type,
                local_name,
                r,
            ) && final(out)@ == old(out)@,
            RequestData::ServerShutdown => crate::account::server_shutdown_outcome(
                old(db)@,
                old(sess).user_id,
                req.num,
                r,
            ) && final(db)@ == old(db)@ && final(out)@ == old(out)@,
            RequestData::LoadHistory(_) => r == Err::<Reply, OpError>(OpError::Unsupported)
                && final(db)@ == old(db)@ && final(out)@ == old(out)@,
            RequestData::SetEntityTags(entity_id, tags) => crate::sharing::set_entity_tags_outcome(
                old(db)@,
                final(db)@,
                old(sess).user_id,
                req.num,
                entity_id,
                tags,
                r,
            ) && final(out)@ == old(out)@,
            RequestData::RenameEntity(entity_id, name) => crate::sharing::rename_entity_outcome(
                old(db)@,
                final(db)@,
                old(sess).user_id,
                req.num,
                entity_id,
                name,
                r,
            ) && final(out)@ == old(out)@,
            RequestData::CreateInvite(target, read_only, guests) => crate::sharing::create_invite_outcome(
                old(db)@,
                final(db)@,
                old(sess).user_id,
                req.num,
                target,
                read_only,
                guests,
                old(out)@,
                final(out)@,
                r,
            ),
            RequestData::TransferOwnership(_, _) => r == Err::<Reply, OpError>(
                OpError::Unsupported,
            ) && final(db)@ == old(db)@ && final(out)@ == old(out)@,
            RequestData::BanGuest(_, _) => r == Err::<Reply, OpError>(OpError::Unsupported)
                && final(db)@ == old(db)@ && final(out)@ == old(out)@,
            RequestData::Drop(entity_id) => crate::sharing::drop_outcome(
                old(db)@,
                final(db)@,
                old(sess).user_id,
                req.num,
                entity_id,
                old(out)@,
                final(out)@,
                r,
            ),
            RequestData::LoadMessagesBefore(conv_id, cursor) => crate::content::load_messages_outcome(
                old(db)@,
                old(sess).user_id,
                req.num,
                conv_id,
                cursor,
                r,
            ) && final(db)@ == old(db)@ && final(out)@ == old(out)@,
            RequestData::PostMessage(conv_id, rev, content) => crate::content::post_message_outcome(
                old(db)@,
                final(db)@,
                old(sess).user_id,
                req.num,
                conv_id,
                rev,
                content,
                now,
                old(out)@,
                final(out)@,
                r,
            ),
            RequestData::EditMessage(conv_id, rev, index, content) => crate::content::edit_message_outcome(
                old(db)@,
                final(db)@,
                old(sess).user_id,
                req.num,
                conv_id,
                rev,
                index,
                content,
                now,
                old(out)@,
                final(out)@,
                r,
            ),
            RequestData::LoadSpreadsheet(sheet_id) => crate::content::load_spreadsheet_outcome(
                old(db)@,
                old(sess).user_id,
                req.num,
                sheet_id,
                r,
            ) && final(db)@ == old(db)@ && final(out)@ == old(out)@,
            RequestData::SetCell(sheet_id, rev, index, cell) => crate::content::set_cell_outcome(
                old(db)@,
                final(db)@,
                old(sess).user_id,
                req.num,
                sheet_id,
                rev,
                index,
                cell,
                old(out)@,
                final(out)@,
                r,
            ),
            RequestData::LoadDocument(doc_id) => crate::content::load_document_outcome(
                old(db)@,
                old(sess).user_id,
                req.num,
                doc_id,
                r,
            ) && final(db)@ == old(db)@ && final(out)@ == old(out)@,
            RequestData::InsertElement(doc_id, rev, index, element) => crate::content::insert_element_outcome(
                old(db)@,
                final(db)@,
                old(sess).user_id,
                req.num,
                doc_id,
                rev,
                index,
                element,
                old(out)@,
                final(out)@,
                r,
            ),
            RequestData::DeleteElement(doc_id, rev, index) => crate::content::delete_element_outcome(
                old(db)@,
                final(db)@,
                old(sess).user_id,
                req.num,
                doc_id,
                rev,
                index,
                old(out)@,
                final(out)@,
                r,
            ),
            RequestData::SetElement(doc_id, rev, index, element) => crate::content::set_element_outcome(
                old(db)@,
                final(db)@,
                old(sess).user_id,
                req.num,
                doc_id,
                rev,
                index,
                element,
                old(out)@,
                final(out)@,
                r,
            ),
            RequestData::LoadBucket(bucket_id) => crate::content::load_bucket_outcome(
                old(db)@,
                old(sess).user_id,
                req.num,
                bucket_id,
                r,
            ) && final(db)@ == old(db)@ && final(out)@ == old(out)@,
            RequestData::DeleteFile(bucket_id, rev, index) => crate::content::delete_file_outcome(
                old(db)@,
                final(db)@,
                old(sess).user_id,
                req.num,
                bucket_id,
                rev,
                index,
                old(out)@,
                final(out)@,
                r,
            ),
            RequestData::FinishFile(bucket_id, rev, name) => crate::content::finish_file_outcome(
                old(db)@,
                final(db)@,
                old(sess).user_id,
                req.num,
                bucket_id,
                rev,
                name,
                upload.0,
                upload.1,
                now,
                old(out)@,
                final(out)@,
                r,
            ),
        },
{
    let n = req.num;
    match req.data {
        RequestData::SendChallenge(_, _) => crate::account::handle_send_challenge(n),
        RequestData::CompleteChallenge(_) => crate::account::handle_complete_challenge(n),
        RequestData::CreateAccount(name, password) => crate::account::handle_create_account(
            db,
            n,
            name,
            password,
        ),
        RequestData::GetToken(user_id, password) => crate::account::handle_get_token(
            db,
            n,
            user_id,
            password,
        ),
        RequestData::OpenSession(user_id, token) => crate::account::handle_open_session(
            db,
            sess,
            n,
            user_id,
            token,
        ),
        RequestData::LoadUserData(maybe_user_id) => crate::account::handle_load_user_data(
            db,
            sess,
            n,
            maybe_user_id,
        ),
        RequestData::SetUserData(rev, data) => crate::account::handle_set_user_data(
            db,
            sess,
            n,
            rev,
            data,
            out,
        ),
        RequestData::OpenInvite(rev, invite, discard) => crate::sharing::handle_open_invite(
            db,
            sess,
            n,
            rev,
            invite,
            discard,
            out,
        ),
        RequestData::WhoIs(username) => crate::account::handle_who_is(db, n, &username),
        RequestData::CreateEntity(entity_type, local_name) => crate::account::handle_create_entity(
            db,
            sess,
            n,
            &entity_type,
            local_name,
        ),
        RequestData::ServerShutdown => crate::account::handle_server_shutdown(db, sess, n),
        RequestData::LoadHistory(_) => crate::sharing::handle_load_history(n),
        RequestData::SetEntityTags(entity_id, tags) => crate::sharing::handle_set_entity_tags(
            db,
            sess,
            n,
            entity_id,
            tags,
        ),
        RequestData::RenameEntity(entity_id, name) => crate::sharing::handle_rename_entity(
            db,
            sess,
            n,
            entity_id,
            name,
        ),
        RequestData::CreateInvite(target, read_only, guests) => crate::sharing::handle_create_invite(
            db,
            sess,
            n,
            target,
            read_only,
            guests,
            out,
        ),
        RequestData::TransferOwnership(_, _) => crate::sharing::handle_transfer_ownership(n),
        RequestData::BanGuest(_, _) => crate::sharing::handle_ban_guest(n),
        RequestData::Drop(entity_id) => crate::sharing::handle_drop(db, sess, n, entity_id, out),
        RequestData::LoadMessagesBefore(conv_id, cursor) => crate::content::handle_load_messages_before(
            db,
            sess,
            n,
            conv_id,
            cursor,
        ),
        RequestData::PostMessage(conv_id, rev, content) => crate::content::handle_post_message(
            db,
            sess,
            n,
            conv_id,
            rev,
            content,
            now,
            out,
        ),
        RequestData::EditMessage(conv_id, rev, index, content) => crate::content::handle_edit_message(
            db,
            sess,
            n,
            conv_id,
            rev,
            index,
            content,
            now,
            out,
        ),
        RequestData::LoadSpreadsheet(sheet_id) => crate::content::handle_load_spreadsheet(
            db,
            sess,
            n,
            sheet_id,
        ),
        RequestData::SetCell(sheet_id, rev, index, cell) => crate::content::handle_set_cell(
            db,
            sess,
            n,
            sheet_id,
            rev,
            index,
            cell,
            out,
        ),
        RequestData::LoadDocument(doc_id) => crate::content::handle_load_document(
            db,
            sess,
            n,
            doc_id,
        ),
        RequestData::InsertElement(doc_id, rev, index, element) => crate::content::handle_insert_element(
            db,
            sess,
            n,
            doc_id,
            rev,
            index,
            element,
            out,
        ),
        RequestData::DeleteElement(doc_id, rev, index) => crate::content::handle_delete_element(
            db,
            sess,
            n,
            doc_id,
            rev,
            index,
            out,
        ),
        RequestData::SetElement(doc_id, rev, index, element) => crate::content::handle_set_element(
            db,
            sess,
            n,
            doc_id,
            rev,
            index,
            element,
            out,
        ),
        RequestData::LoadBucket(bucket_id) => crate::content::handle_load_bucket(
            db,
            sess,
            n,
            bucket_id,
        ),
        RequestData::DeleteFile(bucket_id, rev, index) => crate::content::handle_delete_file(
            db,
            sess,
            n,
            bucket_id,
            rev,
            index,
            out,
        ),
        RequestData::FinishFile(bucket_id, rev, name) => crate::content::handle_finish_file(
            db,
            sess,
            n,
            bucket_id,
            rev,
            name,
            upload.0,
            upload.1,
            now,
            out,
        ),
    }
}

/// The wire reply for one operation outcome: the success payload as it is, a
/// failure as its textual reason.
pub fn reply_for(num: usize, outcome: Result<Reply, OpError>) -> (r: Reply)
    ensures
        match outcome {
            Ok(reply) => r == reply,
            Err(e) => r.num == num && r.data@ == ReplyDataView::GenericFailure(
                e.spec_message()@,
            ),
        },
{
    match outcome {
        Ok(reply) => reply,
        Err(e) => Reply { num, data: ReplyData::GenericFailure(e.message().to_owned()) },
    }
}

} // verus!
