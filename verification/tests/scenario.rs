use kolab::account::{handle_create_account, handle_create_entity, handle_get_token,
    handle_open_session};
use kolab::content::{handle_insert_element, handle_set_element};
use kolab::objects::{Element, ElementStyle};
use kolab::replies::ReplyData;
use kolab::session::SessionState;
use kolab::sharing::{handle_create_invite, handle_open_invite};
use kolab::store::{Batch, Database};
use kolab::types::{EntityId, OpError};
use kolab::update::{UpdateData, UpdateType};

fn new_account(db: &mut Database, name: &str) -> usize {
    match handle_create_account(db, 0, name.to_string(), "pw".to_string()).unwrap().data {
        ReplyData::ValidUsername(uid) => uid,
        _ => panic!("unexpected reply"),
    }
}

fn open_session(db: &mut Database, uid: usize, session_id: usize) -> SessionState {
    let token = match handle_get_token(db, 0, uid, "pw".to_string()).unwrap().data {
        ReplyData::AuthenticationToken(t) => t,
        _ => panic!("unexpected reply"),
    };
    let mut sess = SessionState::new(session_id);
    handle_open_session(db, &mut sess, 0, uid, token).unwrap();
    sess
}

fn element(text: &str) -> Element {
    Element { data: text.to_string(), style: ElementStyle::Paragraph }
}

#[test]
fn end_to_end_collaboration() {
    let mut db = Database::init();
    let a = new_account(&mut db, "ada");
    let b = new_account(&mut db, "bob");
    let sess_a = open_session(&mut db, a, 1);
    let sess_b = open_session(&mut db, b, 2);
    let mut out: Vec<Batch> = Vec::new();

    // A creates a document: revision 0, author A.
    let doc = match handle_create_entity(&mut db, &sess_a, 0, &"doc".to_string(), "plan".to_string())
        .unwrap()
        .data
    {
        ReplyData::EntityCreated(EntityId::Document(id)) => id,
        _ => panic!("unexpected reply"),
    };
    assert_eq!(db.documents.inner[doc].metadata.revision, 0);
    assert_eq!(db.documents.inner[doc].metadata.author, a);

    // A inserts an element at index 0: revision 1, a new-element update fans
    // out with target doc, revision 1, index 0.
    handle_insert_element(&mut db, &sess_a, 1, doc, 0, 0, element("draft"), &mut out).unwrap();
    assert_eq!(db.documents.inner[doc].metadata.revision, 1);
    assert_eq!(out.len(), 1);
    assert!(matches!(out[0].update.update_type, UpdateType::NewElement));
    assert!(matches!(out[0].update.id, EntityId::Document(d) if d == doc));
    assert_eq!(out[0].update.new_revision, 1);
    assert_eq!(out[0].update.index, 0);
    // Only A has access, so only A's session is told.
    assert_eq!(out[0].sessions, vec![1]);

    // B, with no access entry, is denied a write.
    let err = handle_set_element(&mut db, &sess_b, 2, doc, 1, 0, element("hack"), &mut out)
        .unwrap_err();
    assert_eq!(err, OpError::NoAccessEntry);

    // A and B become friends: A sends a friend request, B accepts it.
    handle_create_invite(&mut db, &sess_a, 3, EntityId::User(a), true, vec![b], &mut out).unwrap();
    let b_rev = db.users.inner[b].metadata.revision;
    handle_open_invite(&mut db, &sess_b, 4, b_rev, 0, false, &mut out).unwrap();
    assert!(db.users.inner[a].metadata.guests.contains(&b));

    // A invites B to the document with write access; B accepts.
    handle_create_invite(&mut db, &sess_a, 5, EntityId::Document(doc), false, vec![b], &mut out)
        .unwrap();
    let invite_batch = out.last().unwrap();
    assert!(matches!(invite_batch.update.update_type, UpdateType::NewInvite));
    assert!(matches!(invite_batch.update.data, UpdateData::Grant(_)));
    assert_eq!(invite_batch.sessions, vec![2]);
    let b_rev = db.users.inner[b].metadata.revision;
    let invite_index = db.users.inner[b].inner.secret.invites.len() - 1;
    handle_open_invite(&mut db, &sess_b, 6, b_rev, invite_index, false, &mut out).unwrap();
    assert!(db.documents.inner[doc].metadata.guests.contains(&b));

    // B replaces the element at index 0 with expected revision 1: accepted,
    // the revision becomes 2.
    handle_set_element(&mut db, &sess_b, 7, doc, 1, 0, element("final text"), &mut out).unwrap();
    assert_eq!(db.documents.inner[doc].metadata.revision, 2);
    assert_eq!(db.documents.inner[doc].inner.elements[0].data, "final text");
    // The accepted mutation reached both A's and B's sessions.
    let batch = out.last().unwrap();
    assert!(batch.sessions.contains(&1));
    assert!(batch.sessions.contains(&2));
}


#[test]
fn discarding_an_invite_grants_nothing() {
    let mut db = Database::init();
    let a = new_account(&mut db, "ada");
    let b = new_account(&mut db, "bob");
    let sess_a = open_session(&mut db, a, 1);
    let sess_b = open_session(&mut db, b, 2);
    let mut out: Vec<Batch> = Vec::new();
    handle_create_invite(&mut db, &sess_a, 0, EntityId::User(a), true, vec![b], &mut out).unwrap();
    let b_rev = db.users.inner[b].metadata.revision;
    handle_open_invite(&mut db, &sess_b, 1, b_rev, 0, true, &mut out).unwrap();
    // The invite is consumed, nothing was granted.
    assert_eq!(db.users.inner[b].inner.secret.invites.len(), 0);
    assert!(db.users.inner[b].inner.secret.entities.get(EntityId::User(a)).is_none());
    assert!(!db.users.inner[a].metadata.guests.contains(&b));
    // Opening it again fails.
    let b_rev = db.users.inner[b].metadata.revision;
    assert_eq!(
        handle_open_invite(&mut db, &sess_b, 2, b_rev, 0, false, &mut out).unwrap_err(),
        OpError::InvalidInvite
    );
}

#[test]
fn read_only_guests_cannot_write() {
    let mut db = Database::init();
    let a = new_account(&mut db, "ada");
    let b = new_account(&mut db, "bob");
    let sess_a = open_session(&mut db, a, 1);
    let sess_b = open_session(&mut db, b, 2);
    let mut out: Vec<Batch> = Vec::new();
    // Friends first.
    handle_create_invite(&mut db, &sess_a, 0, EntityId::User(a), true, vec![b], &mut out).unwrap();
    let b_rev = db.users.inner[b].metadata.revision;
    handle_open_invite(&mut db, &sess_b, 1, b_rev, 0, false, &mut out).unwrap();
    // A read-only invite to a document.
    let doc = match handle_create_entity(&mut db, &sess_a, 2, &"doc".to_string(), "d".to_string())
        .unwrap()
        .data
    {
        ReplyData::EntityCreated(EntityId::Document(id)) => id,
        _ => panic!("unexpected reply"),
    };
    handle_create_invite(&mut db, &sess_a, 3, EntityId::Document(doc), true, vec![b], &mut out)
        .unwrap();
    let b_rev = db.users.inner[b].metadata.revision;
    let idx = db.users.inner[b].inner.secret.invites.len() - 1;
    handle_open_invite(&mut db, &sess_b, 4, b_rev, idx, false, &mut out).unwrap();
    // Reads pass, writes are refused.
    assert!(kolab::content::handle_load_document(&db, &sess_b, 5, doc).is_ok());
    let err = handle_insert_element(&mut db, &sess_b, 6, doc, 0, 0, element("x"), &mut out)
        .unwrap_err();
    assert_eq!(err, OpError::ReadOnlyAccess);
    assert_eq!(err.message(), "Read-only access");
}
