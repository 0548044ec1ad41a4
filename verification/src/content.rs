//! The request handlers that read and mutate conversations, spreadsheets,
//! documents and buckets. Every accepted mutation advances the target's
//! revision by exactly one and yields one fan-out batch; every rejected one
//! leaves the store untouched.

use vstd::prelude::*;

use crate::entities::{bump_revision, EntityDataView, EntityView};
use crate::cloning::Dup;
use crate::cloning::copy_vec_range;
use crate::objects::Message;
use crate::requests::MessageCursor;
use crate::replies::{Reply, ReplyData, ReplyDataView, ReplyView};
use crate::session::{access_check, check_access, SessionState};
use crate::objects::File;
use crate::store::{fanout_sessions, rc_dec, rc_inc, Batch, Database, DatabaseView};
use crate::types::{BucketId, ConversationId, DocumentId, EntityId, OpError, Revision, SheetId, Stamp, UserId};
use crate::update::{Update, UpdateData, UpdateDataView, UpdateType, UpdateView};

verus! {

/// Whether a message post goes through, and as which user.
pub open spec fn post_message_check(
    dbv: DatabaseView,
    user_id: Option<UserId>,
    conv_id: ConversationId,
    rev: Revision,
) -> Result<UserId, OpError> {
    match access_check(dbv, user_id, EntityId::Conversation(conv_id), true) {
        Err(e) => Err(e),
        Ok(uid) => if conv_id >= dbv.conversations.len() {
            Err(OpError::NoSuchConversation)
        } else if dbv.conversations[conv_id as int].metadata.revision != rev || rev == u32::MAX {
            Err(OpError::OutOfDate)
        } else {
            Ok(uid)
        },
    }
}

/// Everything a message post promises of its outcome.
pub open spec fn post_message_outcome(
    dbv0: DatabaseView,
    dbvf: DatabaseView,
    user_id: Option<UserId>,
    num: usize,
    conv_id: ConversationId,
    rev: Revision,
    content: String,
    now: Stamp,
    out0: Seq<Batch>,
    outf: Seq<Batch>,
    r: Result<Reply, OpError>,
) -> bool {
    match post_message_check(dbv0, user_id, conv_id, rev) {
        Err(e) => r == Err::<Reply, OpError>(e) && dbvf == dbv0 && outf
            == out0,
        Ok(uid) => {
            let msg = crate::objects::MessageView {
                author: uid,
                content: content@,
                created: now,
                edited: None,
            };
            let conv0 = dbv0.conversations[conv_id as int];
            let dbv1 = DatabaseView {
                conversations: dbv0.conversations.update(
                    conv_id as int,
                    EntityView {
                        inner: conv0.inner.push(msg),
                        metadata: EntityDataView {
                            revision: (rev + 1) as Revision,
                            ..conv0.metadata
                        },
                    },
                ),
                ..dbv0
            };
            &&& r is Ok
            &&& r.unwrap()@ == (ReplyView { num, data: ReplyDataView::GenericSuccess })
            &&& dbvf == dbv1
            &&& outf == out0.push(outf.last())
            &&& outf.last().update@ == (UpdateView {
                update_type: UpdateType::NewMessage,
                id: EntityId::Conversation(conv_id),
                new_revision: (rev + 1) as Revision,
                index: conv0.inner.len() as u64,
                data: UpdateDataView::Post(msg),
            })
            &&& outf.last().sessions@ == fanout_sessions(dbv1, EntityId::Conversation(conv_id))
        },
    }
}

/// Appends a message to a conversation under the optimistic revision check.
/// On success the conversation gains the message at its end, its revision
/// becomes one more, and one batch carrying the new-message update joins the
/// fan-out queue.
pub fn handle_post_message(
    db: &mut Database,
    sess: &SessionState,
    num: usize,
    conv_id: ConversationId,
    rev: Revision,
    content: String,
    now: Stamp,
    out: &mut Vec<Batch>,
) -> (r: Result<Reply, OpError>)
    ensures
        post_message_outcome(
            old(db)@,
            final(db)@,
            sess.user_id,
            num,
            conv_id,
            rev,
            content,
            now,
            old(out)@,
            final(out)@,
            r,
        ),
{
    let entity_id = EntityId::Conversation(conv_id);
    let uid = match check_access(db, sess, entity_id, true) {
        Ok(uid) => uid,
        Err(e) => {
            return Err(e);
        },
    };
    if conv_id >= db.conversations.len() {
        return Err(OpError::NoSuchConversation);
    }
    let ghost dbv0 = db@;
    let entity = &mut db.conversations.inner[conv_id];
    let nr = match bump_revision(&mut entity.metadata, rev) {
        Ok(nr) => nr,
        Err(e) => {
            proof {
                assert(db@.conversations =~= dbv0.conversations);
            }
            return Err(e);
        },
    };
    let message = Message { author: uid, content, created: now, edited: None };
    let index = entity.inner.messages.len() as u64;
    let echo = message.duplicate();
    entity.inner.messages.push(message);
    proof {
        assert(db@.conversations =~~= dbv0.conversations.update(
            conv_id as int,
            EntityView {
                inner: dbv0.conversations[conv_id as int].inner.push(echo@),
                metadata: EntityDataView {
                    revision: nr,
                    ..dbv0.conversations[conv_id as int].metadata
                },
            },
        ));
    }
    let update = Update::new(UpdateType::NewMessage, entity_id, nr, index, UpdateData::Post(echo));
    let batch = db.notify_users(update);
    out.push(batch);
    Ok(Reply::new(num, ReplyData::GenericSuccess))
}

/// Whether a backwards message load goes through: the cursor must not point
/// past the end of the conversation.
pub open spec fn load_messages_check(
    dbv: DatabaseView,
    user_id: Option<UserId>,
    conv_id: ConversationId,
    cursor: MessageCursor,
) -> Result<int, OpError> {
    match access_check(dbv, user_id, EntityId::Conversation(conv_id), false) {
        Err(e) => Err(e),
        Ok(uid) => if conv_id >= dbv.conversations.len() {
            Err(OpError::NoSuchConversation)
        } else {
            let max = dbv.conversations[conv_id as int].inner.len();
            match cursor {
                MessageCursor::Specific(index) => if index > max {
                    Err(OpError::InvalidCursor)
                } else {
                    Ok(index as int)
                },
                MessageCursor::Latest => Ok(max as int),
            }
        },
    }
}

/// The start of the window a cursor asks for: up to fifty messages back.
pub open spec fn window_start(stop: int) -> int {
    if stop >= 50 {
        stop - 50
    } else {
        0
    }
}

/// Everything a backwards message load promises of its outcome.
pub open spec fn load_messages_outcome(
    dbv: DatabaseView,
    user_id: Option<UserId>,
    num: usize,
    conv_id: ConversationId,
    cursor: MessageCursor,
    r: Result<Reply, OpError>,
) -> bool {
    match load_messages_check(dbv, user_id, conv_id, cursor) {
        Err(e) => r == Err::<Reply, OpError>(e),
        Ok(stop) => {
            let conv = dbv.conversations[conv_id as int];
            &&& r is Ok
            &&& r.unwrap()@ == (ReplyView {
                num,
                data: ReplyDataView::Messages(
                    conv.metadata.revision,
                    window_start(stop) as u64,
                    conv.inner.subrange(window_start(stop), stop),
                ),
            })
        },
    }
}

/// Serves up to fifty messages ending just before the cursor, with the
/// conversation's revision and the window's first index.
pub fn handle_load_messages_before(
    db: &Database,
    sess: &SessionState,
    num: usize,
    conv_id: ConversationId,
    cursor: MessageCursor,
) -> (r: Result<Reply, OpError>)
    ensures
        load_messages_outcome(
            db@, sess.user_id, num, conv_id, cursor, r,
        ),
{
    let entity_id = EntityId::Conversation(conv_id);
    match check_access(db, sess, entity_id, false) {
        Ok(_) => (),
        Err(e) => {
            return Err(e);
        },
    };
    if conv_id >= db.conversations.len() {
        return Err(OpError::NoSuchConversation);
    }
    let entity = match db.conversations.find(conv_id) {
        Some(e) => e,
        None => {
            return Err(OpError::NoSuchConversation);
        },
    };
    let max = entity.inner.messages.len();
    let stop: usize = match cursor {
        MessageCursor::Specific(index) => {
            if index > max as u64 {
                return Err(OpError::InvalidCursor);
            }
            index as usize
        },
        MessageCursor::Latest => max,
    };
    let start: usize = if stop >= 50 {
        stop - 50
    } else {
        0
    };
    let slice = copy_vec_range(&entity.inner.messages, start, stop);
    let rev = entity.metadata.revision;
    Ok(Reply::new(num, ReplyData::Messages(rev, start as u64, slice)))
}

/// Whether a whole-payload read of one entity goes through.
pub open spec fn read_check(
    dbv: DatabaseView,
    user_id: Option<UserId>,
    id: EntityId,
    found: bool,
    missing: OpError,
) -> Result<UserId, OpError> {
    match access_check(dbv, user_id, id, false) {
        Err(e) => Err(e),
        Ok(uid) => if !found {
            Err(missing)
        } else {
            Ok(uid)
        },
    }
}

/// Everything a spreadsheet load promises of its outcome.
pub open spec fn load_spreadsheet_outcome(
    dbv: DatabaseView,
    user_id: Option<UserId>,
    num: usize,
    sheet_id: SheetId,
    r: Result<Reply, OpError>,
) -> bool {
    match read_check(
        dbv,
        user_id,
        EntityId::Spreadsheet(sheet_id),
        sheet_id < dbv.sheets.len(),
        OpError::NoSuchSpreadsheet,
    ) {
        Err(e) => r == Err::<Reply, OpError>(e),
        Ok(_) => {
            let sheet = dbv.sheets[sheet_id as int];
            &&& r is Ok
            &&& r.unwrap()@.num == num
            &&& r.unwrap()@.data matches ReplyDataView::Spreadsheet(rev, cells)
            &&& r.unwrap()@.data == ReplyDataView::Spreadsheet(
                sheet.metadata.revision,
                spec_cell_seq(r.unwrap()),
            )
            &&& crate::assoc::unique_keys(spec_cell_seq(r.unwrap()))
            &&& crate::assoc::map_of(spec_cell_seq(r.unwrap())) == sheet.inner
        },
    }
}

/// Serves a spreadsheet's cells with its revision.
pub fn handle_load_spreadsheet(db: &Database, sess: &SessionState, num: usize, sheet_id: SheetId)
    -> (r: Result<Reply, OpError>)
    ensures
        load_spreadsheet_outcome(
            db@, sess.user_id, num, sheet_id, r,
        ),
{
    match check_access(db, sess, EntityId::Spreadsheet(sheet_id), false) {
        Ok(_) => (),
        Err(e) => {
            return Err(e);
        },
    };
    let entity = match db.sheets.find(sheet_id) {
        Some(e) => e,
        None => {
            return Err(OpError::NoSuchSpreadsheet);
        },
    };
    let cells = entity.inner.cells.to_pairs();
    let rev = entity.metadata.revision;
    Ok(Reply::new(num, ReplyData::Spreadsheet(rev, cells)))
}

/// The cell pairs inside a spreadsheet reply, paired with their views.
pub open spec fn spec_cell_seq(r: Reply) -> Seq<(u64, crate::sheet::CellView)> {
    match r.data {
        ReplyData::Spreadsheet(_, cells) => crate::sheet::cell_pairs(cells@),
        _ => Seq::empty(),
    }
}

/// Everything a document load promises of its outcome.
pub open spec fn load_document_outcome(
    dbv: DatabaseView,
    user_id: Option<UserId>,
    num: usize,
    doc_id: DocumentId,
    r: Result<Reply, OpError>,
) -> bool {
    match read_check(
        dbv,
        user_id,
        EntityId::Document(doc_id),
        doc_id < dbv.documents.len(),
        OpError::NoSuchDocument,
    ) {
        Err(e) => r == Err::<Reply, OpError>(e),
        Ok(_) => {
            let doc = dbv.documents[doc_id as int];
            &&& r is Ok
            &&& r.unwrap()@ == (ReplyView {
                num,
                data: ReplyDataView::Document(doc.metadata.revision, doc.inner),
            })
        },
    }
}

/// Serves a document's elements with its revision.
pub fn handle_load_document(db: &Database, sess: &SessionState, num: usize, doc_id: DocumentId)
    -> (r: Result<Reply, OpError>)
    ensures
        load_document_outcome(
            db@, sess.user_id, num, doc_id, r,
        ),
{
    match check_access(db, sess, EntityId::Document(doc_id), false) {
        Ok(_) => (),
        Err(e) => {
            return Err(e);
        },
    };
    let entity = match db.documents.find(doc_id) {
        Some(e) => e,
        None => {
            return Err(OpError::NoSuchDocument);
        },
    };
    let elements = crate::cloning::copy_vec(&entity.inner.elements);
    let rev = entity.metadata.revision;
    Ok(Reply::new(num, ReplyData::Document(rev, elements)))
}

/// Everything a bucket load promises of its outcome.
pub open spec fn load_bucket_outcome(
    dbv: DatabaseView,
    user_id: Option<UserId>,
    num: usize,
    bucket_id: BucketId,
    r: Result<Reply, OpError>,
) -> bool {
    match read_check(
        dbv,
        user_id,
        EntityId::Bucket(bucket_id),
        bucket_id < dbv.buckets.len(),
        OpError::NoSuchBucket,
    ) {
        Err(e) => r == Err::<Reply, OpError>(e),
        Ok(_) => {
            let bucket = dbv.buckets[bucket_id as int];
            &&& r is Ok
            &&& r.unwrap()@ == (ReplyView {
                num,
                data: ReplyDataView::Bucket(bucket.metadata.revision, bucket.inner),
            })
        },
    }
}

/// Serves a bucket's file list with its revision.
pub fn handle_load_bucket(db: &Database, sess: &SessionState, num: usize, bucket_id: BucketId)
    -> (r: Result<Reply, OpError>)
    ensures
        load_bucket_outcome(
            db@, sess.user_id, num, bucket_id, r,
        ),
{
    match check_access(db, sess, EntityId::Bucket(bucket_id), false) {
        Ok(_) => (),
        Err(e) => {
            return Err(e);
        },
    };
    let entity = match db.buckets.find(bucket_id) {
        Some(e) => e,
        None => {
            return Err(OpError::NoSuchBucket);
        },
    };
    let files = crate::cloning::copy_vec(&entity.inner.files);
    let rev = entity.metadata.revision;
    Ok(Reply::new(num, ReplyData::Bucket(rev, files)))
}

/// Whether an in-place message edit goes through, and as which user: the
/// revision and index must be current and the caller must be the message's
/// author.
pub open spec fn edit_message_check(
    dbv: DatabaseView,
    user_id: Option<UserId>,
    conv_id: ConversationId,
    rev: Revision,
    index: u64,
) -> Result<UserId, OpError> {
    match access_check(dbv, user_id, EntityId::Conversation(conv_id), true) {
        Err(e) => Err(e),
        Ok(uid) => if conv_id >= dbv.conversations.len() {
            Err(OpError::NoSuchConversation)
        } else if dbv.conversations[conv_id as int].metadata.revision != rev || index
            >= dbv.conversations[conv_id as int].inner.len() || rev == u32::MAX {
            Err(OpError::BadIndex)
        } else if dbv.conversations[conv_id as int].inner[index as int].author != uid {
            Err(OpError::NotTheAuthor)
        } else {
            Ok(uid)
        },
    }
}

/// Everything a message edit promises of its outcome.
pub open spec fn edit_message_outcome(
    dbv0: DatabaseView,
    dbvf: DatabaseView,
    user_id: Option<UserId>,
    num: usize,
    conv_id: ConversationId,
    rev: Revision,
    index: u64,
    new_content: String,
    now: Stamp,
    out0: Seq<Batch>,
    outf: Seq<Batch>,
    r: Result<Reply, OpError>,
) -> bool {
    match edit_message_check(dbv0, user_id, conv_id, rev, index) {
        Err(e) => r == Err::<Reply, OpError>(e) && dbvf == dbv0 && outf
            == out0,
        Ok(uid) => {
            let conv0 = dbv0.conversations[conv_id as int];
            let msg = crate::objects::MessageView {
                author: conv0.inner[index as int].author,
                content: new_content@,
                created: conv0.inner[index as int].created,
                edited: Some(now),
            };
            let dbv1 = DatabaseView {
                conversations: dbv0.conversations.update(
                    conv_id as int,
                    EntityView {
                        inner: conv0.inner.update(index as int, msg),
                        metadata: EntityDataView {
                            revision: (rev + 1) as Revision,
                            ..conv0.metadata
                        },
                    },
                ),
                ..dbv0
            };
            &&& r is Ok
            &&& r.unwrap()@ == (ReplyView { num, data: ReplyDataView::GenericSuccess })
            &&& dbvf == dbv1
            &&& outf == out0.push(outf.last())
            &&& outf.last().update@ == (UpdateView {
                update_type: UpdateType::SetMessage,
                id: EntityId::Conversation(conv_id),
                new_revision: (rev + 1) as Revision,
                index,
                data: UpdateDataView::Post(msg),
            })
            &&& outf.last().sessions@ == fanout_sessions(dbv1, EntityId::Conversation(conv_id))
        },
    }
}

/// Replaces one message's text, stamping it edited, under the optimistic
/// revision check; only the message's author may edit it.
pub fn handle_edit_message(
    db: &mut Database,
    sess: &SessionState,
    num: usize,
    conv_id: ConversationId,
    rev: Revision,
    index: u64,
    new_content: String,
    now: Stamp,
    out: &mut Vec<Batch>,
) -> (r: Result<Reply, OpError>)
    ensures
        edit_message_outcome(
            old(db)@,
            final(db)@,
            sess.user_id,
            num,
            conv_id,
            rev,
            index,
            new_content,
            now,
            old(out)@,
            final(out)@,
            r,
        ),
{
    let entity_id = EntityId::Conversation(conv_id);
    let uid = match check_access(db, sess, entity_id, true) {
        Ok(uid) => uid,
        Err(e) => {
            return Err(e);
        },
    };
    if conv_id >= db.conversations.len() {
        return Err(OpError::NoSuchConversation);
    }
    let ghost dbv0 = db@;
    let entity = &mut db.conversations.inner[conv_id];
    let len = entity.inner.messages.len();
    if entity.metadata.revision != rev || index >= len as u64 || rev == u32::MAX {
        proof {
            assert(db@.conversations =~~= dbv0.conversations);
        }
        return Err(OpError::BadIndex);
    }
    let idx = index as usize;
    if entity.inner.messages[idx].author != uid {
        proof {
            assert(db@.conversations =~~= dbv0.conversations);
        }
        return Err(OpError::NotTheAuthor);
    }
    entity.metadata.revision = rev + 1;
    let message = &mut entity.inner.messages[idx];
    message.content = new_content;
    message.edited = Some(now);
    let echo = entity.inner.messages[idx].duplicate();
    proof {
        assert(db@.conversations =~~= dbv0.conversations.update(
            conv_id as int,
            EntityView {
                inner: dbv0.conversations[conv_id as int].inner.update(index as int, echo@),
                metadata: EntityDataView {
                    revision: (rev + 1) as Revision,
                    ..dbv0.conversations[conv_id as int].metadata
                },
            },
        ));
    }
    let update = Update::new(
        UpdateType::SetMessage,
        entity_id,
        rev + 1,
        index,
        UpdateData::Post(echo),
    );
    let batch = db.notify_users(update);
    out.push(batch);
    Ok(Reply::new(num, ReplyData::GenericSuccess))
}

/// Whether a cell write goes through, and as which user.
pub open spec fn set_cell_check(
    dbv: DatabaseView,
    user_id: Option<UserId>,
    sheet_id: SheetId,
    rev: Revision,
) -> Result<UserId, OpError> {
    match access_check(dbv, user_id, EntityId::Spreadsheet(sheet_id), true) {
        Err(e) => Err(e),
        Ok(uid) => if sheet_id >= dbv.sheets.len() {
            Err(OpError::NoSuchSpreadsheet)
        } else if dbv.sheets[sheet_id as int].metadata.revision != rev || rev == u32::MAX {
            Err(OpError::OutOfDate)
        } else {
            Ok(uid)
        },
    }
}

/// Everything a cell write promises of its outcome.
pub open spec fn set_cell_outcome(
    dbv0: DatabaseView,
    dbvf: DatabaseView,
    user_id: Option<UserId>,
    num: usize,
    sheet_id: SheetId,
    rev: Revision,
    index: u64,
    cell: crate::sheet::Cell,
    out0: Seq<Batch>,
    outf: Seq<Batch>,
    r: Result<Reply, OpError>,
) -> bool {
    match set_cell_check(dbv0, user_id, sheet_id, rev) {
        Err(e) => r == Err::<Reply, OpError>(e) && dbvf == dbv0 && outf
            == out0,
        Ok(uid) => {
            let sheet0 = dbv0.sheets[sheet_id as int];
            let dbv1 = DatabaseView {
                sheets: dbv0.sheets.update(
                    sheet_id as int,
                    EntityView {
                        inner: sheet0.inner.insert(index, cell@),
                        metadata: EntityDataView {
                            revision: (rev + 1) as Revision,
                            ..sheet0.metadata
                        },
                    },
                ),
                ..dbv0
            };
            &&& r is Ok
            &&& r.unwrap()@ == (ReplyView { num, data: ReplyDataView::GenericSuccess })
            &&& dbvf == dbv1
            &&& outf == out0.push(outf.last())
            &&& outf.last().update@ == (UpdateView {
                update_type: UpdateType::SetCell,
                id: EntityId::Spreadsheet(sheet_id),
                new_revision: (rev + 1) as Revision,
                index,
                data: UpdateDataView::CellValue(cell@),
            })
            &&& outf.last().sessions@ == fanout_sessions(dbv1, EntityId::Spreadsheet(sheet_id))
        },
    }
}

/// Sets one cell, adding it if the position was empty, under the optimistic
/// revision check.
pub fn handle_set_cell(
    db: &mut Database,
    sess: &SessionState,
    num: usize,
    sheet_id: SheetId,
    rev: Revision,
    index: u64,
    cell: crate::sheet::Cell,
    out: &mut Vec<Batch>,
) -> (r: Result<Reply, OpError>)
    ensures
        set_cell_outcome(
            old(db)@,
            final(db)@,
            sess.user_id,
            num,
            sheet_id,
            rev,
            index,
            cell,
            old(out)@,
            final(out)@,
            r,
        ),
{
    let entity_id = EntityId::Spreadsheet(sheet_id);
    match check_access(db, sess, entity_id, true) {
        Ok(_) => (),
        Err(e) => {
            return Err(e);
        },
    };
    if sheet_id >= db.sheets.len() {
        return Err(OpError::NoSuchSpreadsheet);
    }
    let ghost dbv0 = db@;
    let entity = &mut db.sheets.inner[sheet_id];
    let nr = match bump_revision(&mut entity.metadata, rev) {
        Ok(nr) => nr,
        Err(e) => {
            proof {
                assert(db@.sheets =~~= dbv0.sheets);
            }
            return Err(e);
        },
    };
    let echo = cell.duplicate();
    entity.inner.cells.set(index, cell);
    proof {
        assert(db@.sheets =~~= dbv0.sheets.update(
            sheet_id as int,
            EntityView {
                inner: dbv0.sheets[sheet_id as int].inner.insert(index, echo@),
                metadata: EntityDataView {
                    revision: nr,
                    ..dbv0.sheets[sheet_id as int].metadata
                },
            },
        ));
    }
    let update = Update::cell(sheet_id, nr, index, echo);
    let batch = db.notify_users(update);
    out.push(batch);
    Ok(Reply::new(num, ReplyData::GenericSuccess))
}

/// Whether a document edit at one position goes through: `limit` is the first
/// position the operation may not touch.
pub open spec fn doc_write_check(
    dbv: DatabaseView,
    user_id: Option<UserId>,
    doc_id: DocumentId,
    rev: Revision,
    index: u64,
    limit: int,
) -> Result<UserId, OpError> {
    match access_check(dbv, user_id, EntityId::Document(doc_id), true) {
        Err(e) => Err(e),
        Ok(uid) => if doc_id >= dbv.documents.len() {
            Err(OpError::NoSuchDocument)
        } else if dbv.documents[doc_id as int].metadata.revision != rev || index >= limit || rev
            == u32::MAX {
            Err(OpError::BadIndex)
        } else {
            Ok(uid)
        },
    }
}

/// Everything an element insertion promises of its outcome.
pub open spec fn insert_element_outcome(
    dbv0: DatabaseView,
    dbvf: DatabaseView,
    user_id: Option<UserId>,
    num: usize,
    doc_id: DocumentId,
    rev: Revision,
    index: u64,
    element: crate::objects::Element,
    out0: Seq<Batch>,
    outf: Seq<Batch>,
    r: Result<Reply, OpError>,
) -> bool {
    match doc_write_check(
        dbv0,
        user_id,
        doc_id,
        rev,
        index,
        if doc_id < dbv0.documents.len() {
            dbv0.documents[doc_id as int].inner.len() as int + 1
        } else {
            0
        },
    ) {
        Err(e) => r == Err::<Reply, OpError>(e) && dbvf == dbv0 && outf
            == out0,
        Ok(uid) => {
            let doc0 = dbv0.documents[doc_id as int];
            let dbv1 = DatabaseView {
                documents: dbv0.documents.update(
                    doc_id as int,
                    EntityView {
                        inner: doc0.inner.insert(index as int, element@),
                        metadata: EntityDataView {
                            revision: (rev + 1) as Revision,
                            ..doc0.metadata
                        },
                    },
                ),
                ..dbv0
            };
            &&& r is Ok
            &&& r.unwrap()@ == (ReplyView { num, data: ReplyDataView::GenericSuccess })
            &&& dbvf == dbv1
            &&& outf == out0.push(outf.last())
            &&& outf.last().update@ == (UpdateView {
                update_type: UpdateType::NewElement,
                id: EntityId::Document(doc_id),
                new_revision: (rev + 1) as Revision,
                index,
                data: UpdateDataView::Item(element@),
            })
            &&& outf.last().sessions@ == fanout_sessions(dbv1, EntityId::Document(doc_id))
        },
    }
}

/// Inserts an element at one position under the optimistic revision check;
/// inserting at the end is allowed.
pub fn handle_insert_element(
    db: &mut Database,
    sess: &SessionState,
    num: usize,
    doc_id: DocumentId,
    rev: Revision,
    index: u64,
    element: crate::objects::Element,
    out: &mut Vec<Batch>,
) -> (r: Result<Reply, OpError>)
    ensures
        insert_element_outcome(
            old(db)@,
            final(db)@,
            sess.user_id,
            num,
            doc_id,
            rev,
            index,
            element,
            old(out)@,
            final(out)@,
            r,
        ),
{
    let entity_id = EntityId::Document(doc_id);
    match check_access(db, sess, entity_id, true) {
        Ok(_) => (),
        Err(e) => {
            return Err(e);
        },
    };
    if doc_id >= db.documents.len() {
        return Err(OpError::NoSuchDocument);
    }
    let ghost dbv0 = db@;
    let entity = &mut db.documents.inner[doc_id];
    let len = entity.inner.elements.len();
    if entity.metadata.revision != rev || index > len as u64 || rev == u32::MAX {
        proof {
            assert(db@.documents =~~= dbv0.documents);
        }
        return Err(OpError::BadIndex);
    }
    entity.metadata.revision = rev + 1;
    let echo = element.duplicate();
    entity.inner.elements.insert(index as usize, element);
    proof {
        assert(db@.documents =~~= dbv0.documents.update(
            doc_id as int,
            EntityView {
                inner: dbv0.documents[doc_id as int].inner.insert(index as int, echo@),
                metadata: EntityDataView {
                    revision: (rev + 1) as Revision,
                    ..dbv0.documents[doc_id as int].metadata
                },
            },
        ));
    }
    let update = Update::new(
        UpdateType::NewElement,
        entity_id,
        rev + 1,
        index,
        UpdateData::Item(echo),
    );
    let batch = db.notify_users(update);
    out.push(batch);
    Ok(Reply::new(num, ReplyData::GenericSuccess))
}

/// Everything an element removal promises of its outcome.
pub open spec fn delete_element_outcome(
    dbv0: DatabaseView,
    dbvf: DatabaseView,
    user_id: Option<UserId>,
    num: usize,
    doc_id: DocumentId,
    rev: Revision,
    index: u64,
    out0: Seq<Batch>,
    outf: Seq<Batch>,
    r: Result<Reply, OpError>,
) -> bool {
    match doc_write_check(
        dbv0,
        user_id,
        doc_id,
        rev,
        index,
        if doc_id < dbv0.documents.len() {
            dbv0.documents[doc_id as int].inner.len() as int
        } else {
            0
        },
    ) {
        Err(e) => r == Err::<Reply, OpError>(e) && dbvf == dbv0 && outf
            == out0,
        Ok(uid) => {
            let doc0 = dbv0.documents[doc_id as int];
            let dbv1 = DatabaseView {
                documents: dbv0.documents.update(
                    doc_id as int,
                    EntityView {
                        inner: doc0.inner.remove(index as int),
                        metadata: EntityDataView {
                            revision: (rev + 1) as Revision,
                            ..doc0.metadata
                        },
                    },
                ),
                ..dbv0
            };
            &&& r is Ok
            &&& r.unwrap()@ == (ReplyView { num, data: ReplyDataView::GenericSuccess })
            &&& dbvf == dbv1
            &&& outf == out0.push(outf.last())
            &&& outf.last().update@ == (UpdateView {
                update_type: UpdateType::ByeElement,
                id: EntityId::Document(doc_id),
                new_revision: (rev + 1) as Revision,
                index,
                data: UpdateDataView::Nothing,
            })
            &&& outf.last().sessions@ == fanout_sessions(dbv1, EntityId::Document(doc_id))
        },
    }
}

/// Removes the element at one position under the optimistic revision check.
pub fn handle_delete_element(
    db: &mut Database,
    sess: &SessionState,
    num: usize,
    doc_id: DocumentId,
    rev: Revision,
    index: u64,
    out: &mut Vec<Batch>,
) -> (r: Result<Reply, OpError>)
    ensures
        delete_element_outcome(
            old(db)@,
            final(db)@,
            sess.user_id,
            num,
            doc_id,
            rev,
            index,
            old(out)@,
            final(out)@,
            r,
        ),
{
    let entity_id = EntityId::Document(doc_id);
    match check_access(db, sess, entity_id, true) {
        Ok(_) => (),
        Err(e) => {
            return Err(e);
        },
    };
    if doc_id >= db.documents.len() {
        return Err(OpError::NoSuchDocument);
    }
    let ghost dbv0 = db@;
    let entity = &mut db.documents.inner[doc_id];
    let len = entity.inner.elements.len();
    if entity.metadata.revision != rev || index >= len as u64 || rev == u32::MAX {
        proof {
            assert(db@.documents =~~= dbv0.documents);
        }
        return Err(OpError::BadIndex);
    }
    entity.metadata.revision = rev + 1;
    entity.inner.elements.remove(index as usize);
    proof {
        assert(db@.documents =~~= dbv0.documents.update(
            doc_id as int,
            EntityView {
                inner: dbv0.documents[doc_id as int].inner.remove(index as int),
                metadata: EntityDataView {
                    revision: (rev + 1) as Revision,
                    ..dbv0.documents[doc_id as int].metadata
                },
            },
        ));
    }
    let update = Update::new(
        UpdateType::ByeElement,
        entity_id,
        rev + 1,
        index,
        UpdateData::Nothing,
    );
    let batch = db.notify_users(update);
    out.push(batch);
    Ok(Reply::new(num, ReplyData::GenericSuccess))
}

/// Everything an element replacement promises of its outcome.
pub open spec fn set_element_outcome(
    dbv0: DatabaseView,
    dbvf: DatabaseView,
    user_id: Option<UserId>,
    num: usize,
    doc_id: DocumentId,
    rev: Revision,
    index: u64,
    element: crate::objects::Element,
    out0: Seq<Batch>,
    outf: Seq<Batch>,
    r: Result<Reply, OpError>,
) -> bool {
    match doc_write_check(
        dbv0,
        user_id,
        doc_id,
        rev,
        index,
        if doc_id < dbv0.documents.len() {
            dbv0.documents[doc_id as int].inner.len() as int
        } else {
            0
        },
    ) {
        Err(e) => r == Err::<Reply, OpError>(e) && dbvf == dbv0 && outf
            == out0,
        Ok(uid) => {
            let doc0 = dbv0.documents[doc_id as int];
            let dbv1 = DatabaseView {
                documents: dbv0.documents.update(
                    doc_id as int,
                    EntityView {
                        inner: doc0.inner.update(index as int, element@),
                        metadata: EntityDataView {
                            revision: (rev + 1) as Revision,
                            ..doc0.metadata
                        },
                    },
                ),
                ..dbv0
            };
            &&& r is Ok
            &&& r.unwrap()@ == (ReplyView { num, data: ReplyDataView::GenericSuccess })
            &&& dbvf == dbv1
            &&& outf == out0.push(outf.last())
            &&& outf.last().update@ == (UpdateView {
                update_type: UpdateType::SetElement,
                id: EntityId::Document(doc_id),
                new_revision: (rev + 1) as Revision,
                index,
                data: UpdateDataView::Item(element@),
            })
            &&& outf.last().sessions@ == fanout_sessions(dbv1, EntityId::Document(doc_id))
        },
    }
}

/// Replaces the element at one position under the optimistic revision check.
pub fn handle_set_element(
    db: &mut Database,
    sess: &SessionState,
    num: usize,
    doc_id: DocumentId,
    rev: Revision,
    index: u64,
    element: crate::objects::Element,
    out: &mut Vec<Batch>,
) -> (r: Result<Reply, OpError>)
    ensures
        set_element_outcome(
            old(db)@,
            final(db)@,
            sess.user_id,
            num,
            doc_id,
            rev,
            index,
            element,
            old(out)@,
            final(out)@,
            r,
        ),
{
    let entity_id = EntityId::Document(doc_id);
    match check_access(db, sess, entity_id, true) {
        Ok(_) => (),
        Err(e) => {
            return Err(e);
        },
    };
    if doc_id >= db.documents.len() {
        return Err(OpError::NoSuchDocument);
    }
    let ghost dbv0 = db@;
    let entity = &mut db.documents.inner[doc_id];
    let len = entity.inner.elements.len();
    if entity.metadata.revision != rev || index >= len as u64 || rev == u32::MAX {
        proof {
            assert(db@.documents =~~= dbv0.documents);
        }
        return Err(OpError::BadIndex);
    }
    entity.metadata.revision = rev + 1;
    let echo = element.duplicate();
    entity.inner.elements[index as usize] = element;
    proof {
        assert(db@.documents =~~= dbv0.documents.update(
            doc_id as int,
            EntityView {
                inner: dbv0.documents[doc_id as int].inner.update(index as int, echo@),
                metadata: EntityDataView {
                    revision: (rev + 1) as Revision,
                    ..dbv0.documents[doc_id as int].metadata
                },
            },
        ));
    }
    let update = Update::new(
        UpdateType::SetElement,
        entity_id,
        rev + 1,
        index,
        UpdateData::Item(echo),
    );
    let batch = db.notify_users(update);
    out.push(batch);
    Ok(Reply::new(num, ReplyData::GenericSuccess))
}

/// Whether a file delete goes through.
pub open spec fn delete_file_check(
    dbv: DatabaseView,
    user_id: Option<UserId>,
    bucket_id: BucketId,
    rev: Revision,
    index: u64,
) -> Result<UserId, OpError> {
    match access_check(dbv, user_id, EntityId::Bucket(bucket_id), true) {
        Err(e) => Err(e),
        Ok(uid) => if bucket_id >= dbv.buckets.len() {
            Err(OpError::NoSuchBucket)
        } else if dbv.buckets[bucket_id as int].metadata.revision != rev || index
            >= dbv.buckets[bucket_id as int].inner.len() || rev == u32::MAX {
            Err(OpError::BadIndex)
        } else {
            Ok(uid)
        },
    }
}

/// Everything a file removal promises of its outcome.
pub open spec fn delete_file_outcome(
    dbv0: DatabaseView,
    dbvf: DatabaseView,
    user_id: Option<UserId>,
    num: usize,
    bucket_id: BucketId,
    rev: Revision,
    index: u64,
    out0: Seq<Batch>,
    outf: Seq<Batch>,
    r: Result<Reply, OpError>,
) -> bool {
    match delete_file_check(dbv0, user_id, bucket_id, rev, index) {
        Err(e) => r == Err::<Reply, OpError>(e) && dbvf == dbv0 && outf
            == out0,
        Ok(uid) => {
            let bucket0 = dbv0.buckets[bucket_id as int];
            let dbv1 = DatabaseView {
                buckets: dbv0.buckets.update(
                    bucket_id as int,
                    EntityView {
                        inner: bucket0.inner.remove(index as int),
                        metadata: EntityDataView {
                            revision: (rev + 1) as Revision,
                            ..bucket0.metadata
                        },
                    },
                ),
                file_rc: rc_dec(dbv0.file_rc, bucket0.inner[index as int].sha256),
                ..dbv0
            };
            &&& r is Ok
            &&& r.unwrap()@ == (ReplyView { num, data: ReplyDataView::GenericSuccess })
            &&& dbvf == dbv1
            &&& outf == out0.push(outf.last())
            &&& outf.last().update@ == (UpdateView {
                update_type: UpdateType::ByeFile,
                id: EntityId::Bucket(bucket_id),
                new_revision: (rev + 1) as Revision,
                index,
                data: UpdateDataView::Nothing,
            })
            &&& outf.last().sessions@ == fanout_sessions(dbv1, EntityId::Bucket(bucket_id))
        },
    }
}

/// Removes the file entry at one position under the optimistic revision
/// check; the entry's content hash loses one reference.
pub fn handle_delete_file(
    db: &mut Database,
    sess: &SessionState,
    num: usize,
    bucket_id: BucketId,
    rev: Revision,
    index: u64,
    out: &mut Vec<Batch>,
) -> (r: Result<Reply, OpError>)
    ensures
        delete_file_outcome(
            old(db)@,
            final(db)@,
            sess.user_id,
            num,
            bucket_id,
            rev,
            index,
            old(out)@,
            final(out)@,
            r,
        ),
{
    let entity_id = EntityId::Bucket(bucket_id);
    match check_access(db, sess, entity_id, true) {
        Ok(_) => (),
        Err(e) => {
            return Err(e);
        },
    };
    if bucket_id >= db.buckets.len() {
        return Err(OpError::NoSuchBucket);
    }
    let ghost dbv0 = db@;
    let entity = &mut db.buckets.inner[bucket_id];
    let len = entity.inner.files.len();
    if entity.metadata.revision != rev || index >= len as u64 || rev == u32::MAX {
        proof {
            assert(db@.buckets =~~= dbv0.buckets);
        }
        return Err(OpError::BadIndex);
    }
    entity.metadata.revision = rev + 1;
    let file = entity.inner.files.remove(index as usize);
    proof {
        assert(db@.buckets =~~= dbv0.buckets.update(
            bucket_id as int,
            EntityView {
                inner: dbv0.buckets[bucket_id as int].inner.remove(index as int),
                metadata: EntityDataView {
                    revision: (rev + 1) as Revision,
                    ..dbv0.buckets[bucket_id as int].metadata
                },
            },
        ));
    }
    db.dec_file_rc(&file.sha256);
    let update = Update::new(
        UpdateType::ByeFile,
        entity_id,
        rev + 1,
        index,
        UpdateData::Nothing,
    );
    let batch = db.notify_users(update);
    out.push(batch);
    Ok(Reply::new(num, ReplyData::GenericSuccess))
}

/// Whether a file write goes through: as which user, at which position, and
/// whether it appends a new entry rather than replacing one.
pub open spec fn set_file_check(
    dbv: DatabaseView,
    user_id: Option<UserId>,
    bucket_id: BucketId,
    rev: Revision,
    index: Option<u64>,
) -> Result<(UserId, int, bool), OpError> {
    match access_check(dbv, user_id, EntityId::Bucket(bucket_id), true) {
        Err(e) => Err(e),
        Ok(uid) => if bucket_id >= dbv.buckets.len() {
            Err(OpError::NoSuchBucket)
        } else {
            let len = dbv.buckets[bucket_id as int].inner.len() as int;
            let idx = match index {
                Some(i) => i as int,
                None => len,
            };
            if idx > len {
                Err(OpError::BadFileIndex)
            } else if dbv.buckets[bucket_id as int].metadata.revision != rev || rev == u32::MAX {
                Err(OpError::OutOfDate)
            } else {
                Ok((uid, idx, idx == len))
            }
        },
    }
}

/// Everything a file write promises of its outcome.
pub open spec fn set_file_outcome(
    dbv0: DatabaseView,
    dbvf: DatabaseView,
    user_id: Option<UserId>,
    num: usize,
    bucket_id: BucketId,
    rev: Revision,
    index: Option<u64>,
    file: File,
    out0: Seq<Batch>,
    outf: Seq<Batch>,
    r: Result<Reply, OpError>,
) -> bool {
    match set_file_check(dbv0, user_id, bucket_id, rev, index) {
        Err(e) => r == Err::<Reply, OpError>(e) && dbvf == dbv0 && outf
            == out0,
        Ok((uid, idx, new_file)) => {
            let bucket0 = dbv0.buckets[bucket_id as int];
            let rc1 = rc_inc(dbv0.file_rc, file@.sha256);
            let dbv1 = DatabaseView {
                buckets: dbv0.buckets.update(
                    bucket_id as int,
                    EntityView {
                        inner: if new_file {
                            bucket0.inner.push(file@)
                        } else {
                            bucket0.inner.update(idx, file@)
                        },
                        metadata: EntityDataView {
                            revision: (rev + 1) as Revision,
                            ..bucket0.metadata
                        },
                    },
                ),
                file_rc: if new_file {
                    rc1
                } else {
                    rc_dec(rc1, bucket0.inner[idx].sha256)
                },
                ..dbv0
            };
            &&& r is Ok
            &&& r.unwrap()@ == (ReplyView { num, data: ReplyDataView::GenericSuccess })
            &&& dbvf == dbv1
            &&& outf == out0.push(outf.last())
            &&& outf.last().update@ == (UpdateView {
                update_type: if new_file {
                    UpdateType::NewFile
                } else {
                    UpdateType::SetFile
                },
                id: EntityId::Bucket(bucket_id),
                new_revision: (rev + 1) as Revision,
                index: idx as u64,
                data: UpdateDataView::Blob(file@),
            })
            &&& outf.last().sessions@ == fanout_sessions(dbv1, EntityId::Bucket(bucket_id))
        },
    }
}

/// Records a file in a bucket under the optimistic revision check: with no
/// position, or the position one past the end, the entry is appended; else it
/// replaces the one at that position. The recorded hash gains a reference
/// before anything else happens, and a replaced entry's hash loses its one
/// afterwards, so a hash never shows a zero count while an entry points at
/// it.
pub fn handle_set_file(
    db: &mut Database,
    sess: &SessionState,
    num: usize,
    bucket_id: BucketId,
    rev: Revision,
    index: Option<u64>,
    file: File,
    out: &mut Vec<Batch>,
) -> (r: Result<Reply, OpError>)
    ensures
        set_file_outcome(
            old(db)@,
            final(db)@,
            sess.user_id,
            num,
            bucket_id,
            rev,
            index,
            file,
            old(out)@,
            final(out)@,
            r,
        ),
{
    let entity_id = EntityId::Bucket(bucket_id);
    match check_access(db, sess, entity_id, true) {
        Ok(_) => (),
        Err(e) => {
            return Err(e);
        },
    };
    if bucket_id >= db.buckets.len() {
        return Err(OpError::NoSuchBucket);
    }
    let len = db.buckets.inner[bucket_id].inner.files.len();
    let idx: usize = match index {
        Some(i) => {
            if i > len as u64 {
                return Err(OpError::BadFileIndex);
            }
            i as usize
        },
        None => len,
    };
    let new_file = idx == len;
    {
        let entity = &db.buckets.inner[bucket_id];
        if entity.metadata.revision != rev || rev == u32::MAX {
            return Err(OpError::OutOfDate);
        }
    }
    let ghost dbv0 = db@;
    db.inc_file_rc(&file.sha256);
    let echo = file.duplicate();
    let entity = &mut db.buckets.inner[bucket_id];
    entity.metadata.revision = rev + 1;
    let mut replaced_sha: Option<String> = None;
    if new_file {
        entity.inner.files.push(file);
        proof {
            assert(db@.buckets =~~= dbv0.buckets.update(
                bucket_id as int,
                EntityView {
                    inner: dbv0.buckets[bucket_id as int].inner.push(echo@),
                    metadata: EntityDataView {
                        revision: (rev + 1) as Revision,
                        ..dbv0.buckets[bucket_id as int].metadata
                    },
                },
            ));
        }
    } else {
        let old_sha = entity.inner.files[idx].sha256.clone();
        replaced_sha = Some(old_sha);
        entity.inner.files[idx] = file;
        proof {
            assert(db@.buckets =~~= dbv0.buckets.update(
                bucket_id as int,
                EntityView {
                    inner: dbv0.buckets[bucket_id as int].inner.update(idx as int, echo@),
                    metadata: EntityDataView {
                        revision: (rev + 1) as Revision,
                        ..dbv0.buckets[bucket_id as int].metadata
                    },
                },
            ));
        }
    }
    match &replaced_sha {
        Some(old_sha) => {
            db.dec_file_rc(old_sha);
        },
        None => (),
    }
    let update = Update::new(
        if new_file {
            UpdateType::NewFile
        } else {
            UpdateType::SetFile
        },
        entity_id,
        rev + 1,
        idx as u64,
        UpdateData::Blob(echo),
    );
    let batch = db.notify_users(update);
    out.push(batch);
    Ok(Reply::new(num, ReplyData::GenericSuccess))
}

/// Everything an upload close promises of its outcome.
pub open spec fn finish_file_outcome(
    dbv0: DatabaseView,
    dbvf: DatabaseView,
    user_id: Option<UserId>,
    num: usize,
    bucket_id: BucketId,
    rev: Revision,
    name: String,
    sha256: String,
    size: usize,
    now: Stamp,
    out0: Seq<Batch>,
    outf: Seq<Batch>,
    r: Result<Reply, OpError>,
) -> bool {
    &&& user_id is None ==> r == Err::<Reply, OpError>(OpError::NotLoggedIn) && dbvf == dbv0
        && outf == out0
    &&& user_id is Some ==> match set_file_check(
            dbv0,
            user_id,
            bucket_id,
            rev,
            None,
        ) {
            Err(e) => r == Err::<Reply, OpError>(e) && dbvf == dbv0 && outf
                == out0,
            Ok((uid, idx, new_file)) => {
                let fv = crate::objects::FileView {
                    name: name@,
                    sha256: sha256@,
                    size,
                    uploaded: now,
                };
                let bucket0 = dbv0.buckets[bucket_id as int];
                let dbv1 = DatabaseView {
                    buckets: dbv0.buckets.update(
                        bucket_id as int,
                        EntityView {
                            inner: bucket0.inner.push(fv),
                            metadata: EntityDataView {
                                revision: (rev + 1) as Revision,
                                ..bucket0.metadata
                            },
                        },
                    ),
                    file_rc: rc_inc(dbv0.file_rc, sha256@),
                    ..dbv0
                };
                &&& r is Ok
                &&& r.unwrap()@ == (ReplyView { num, data: ReplyDataView::GenericSuccess })
                &&& dbvf == dbv1
                &&& outf == out0.push(outf.last())
                &&& outf.last().update@ == (UpdateView {
                    update_type: UpdateType::NewFile,
                    id: EntityId::Bucket(bucket_id),
                    new_revision: (rev + 1) as Revision,
                    index: idx as u64,
                    data: UpdateDataView::Blob(fv),
                })
                &&& outf.last().sessions@ == fanout_sessions(dbv1, EntityId::Bucket(bucket_id))
            },
        }
}

/// Closes an upload: records the uploaded bytes' hash, size and name as a new
/// file entry at the end of the bucket, under the optimistic revision check.
pub fn handle_finish_file(
    db: &mut Database,
    sess: &SessionState,
    num: usize,
    bucket_id: BucketId,
    rev: Revision,
    name: String,
    sha256: String,
    size: usize,
    now: Stamp,
    out: &mut Vec<Batch>,
) -> (r: Result<Reply, OpError>)
    ensures
        finish_file_outcome(
            old(db)@,
            final(db)@,
            sess.user_id,
            num,
            bucket_id,
            rev,
            name,
            sha256,
            size,
            now,
            old(out)@,
            final(out)@,
            r,
        ),
{
    if sess.user_id.is_none() {
        return Err(OpError::NotLoggedIn);
    }
    let file = File { name, sha256, size, uploaded: now };
    handle_set_file(db, sess, num, bucket_id, rev, None, file, out)
}

} // verus!
