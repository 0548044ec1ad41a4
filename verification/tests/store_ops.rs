use kolab::account::{handle_create_account, handle_get_token, handle_open_session};
use kolab::content::{handle_delete_file, handle_insert_element, handle_post_message,
    handle_set_file, handle_load_document};
use kolab::objects::{Element, ElementStyle, File};
use kolab::replies::ReplyData;
use kolab::session::SessionState;
use kolab::sharing::handle_drop;
use kolab::store::{Batch, Database};
use kolab::types::{EntityId, OpError};
use kolab::update::UpdateType;

fn new_account(db: &mut Database, name: &str) -> usize {
    let reply = handle_create_account(db, 0, name.to_string(), "pw".to_string()).unwrap();
    match reply.data {
        ReplyData::ValidUsername(uid) => uid,
        _ => panic!("unexpected reply"),
    }
}

fn open_session(db: &mut Database, uid: usize, session_id: usize) -> SessionState {
    let token = match handle_get_token(db, 0, uid, "pw".to_string()).unwrap().data {
        ReplyData::AuthenticationToken(t) => t,
        _ => panic!("unexpected reply"),
    };
    let mut sess = SessionState::new(session_id);
    handle_open_session(db, &mut sess, 0, uid, token).unwrap();
    sess
}

fn new_document(db: &mut Database, sess: &SessionState) -> usize {
    let reply = kolab::account::handle_create_entity(
        db,
        sess,
        0,
        &"doc".to_string(),
        "my doc".to_string(),
    )
    .unwrap();
    match reply.data {
        ReplyData::EntityCreated(EntityId::Document(id)) => id,
        _ => panic!("unexpected reply"),
    }
}

fn element(text: &str) -> Element {
    Element { data: text.to_string(), style: ElementStyle::Paragraph }
}

#[test]
fn account_basics() {
    let mut db = Database::init();
    let a = new_account(&mut db, "ada");
    assert_eq!(a, 0);
    assert!(db.users.inner[a].inner.secret.server_admin);
    let b = new_account(&mut db, "bob");
    assert_eq!(b, 1);
    assert!(!db.users.inner[b].inner.secret.server_admin);
    assert_eq!(
        handle_create_account(&mut db, 0, "ada".to_string(), "x".to_string()).unwrap_err(),
        OpError::UsernameTaken
    );
    assert_eq!(
        handle_get_token(&mut db, 0, a, "wrong".to_string()).unwrap_err(),
        OpError::WrongPassword
    );
    assert_eq!(
        handle_get_token(&mut db, 0, 7, "pw".to_string()).unwrap_err(),
        OpError::NoSuchUser
    );
    match kolab::account::handle_who_is(&db, 0, &"bob".to_string()).unwrap().data {
        ReplyData::ValidUsername(uid) => assert_eq!(uid, 1),
        _ => panic!("unexpected reply"),
    }
    assert_eq!(
        kolab::account::handle_who_is(&db, 0, &"carl".to_string()).unwrap_err(),
        OpError::InvalidUsername
    );
}

#[test]
fn revision_monotonicity() {
    // Successive accepted mutations yield strictly increasing revisions, each
    // exactly one more; any other expected revision fails and changes nothing.
    let mut db = Database::init();
    let a = new_account(&mut db, "ada");
    let sess = open_session(&mut db, a, 1);
    let doc = new_document(&mut db, &sess);
    let mut out: Vec<Batch> = Vec::new();
    assert_eq!(db.documents.inner[doc].metadata.revision, 0);
    handle_insert_element(&mut db, &sess, 0, doc, 0, 0, element("one"), &mut out).unwrap();
    assert_eq!(db.documents.inner[doc].metadata.revision, 1);
    handle_insert_element(&mut db, &sess, 0, doc, 1, 1, element("two"), &mut out).unwrap();
    assert_eq!(db.documents.inner[doc].metadata.revision, 2);
    // A stale revision fails and leaves the document unchanged.
    let err = handle_insert_element(&mut db, &sess, 0, doc, 1, 0, element("x"), &mut out)
        .unwrap_err();
    assert_eq!(err, OpError::BadIndex);
    assert_eq!(db.documents.inner[doc].metadata.revision, 2);
    assert_eq!(db.documents.inner[doc].inner.elements.len(), 2);
    // A future revision fails too.
    let err = handle_insert_element(&mut db, &sess, 0, doc, 9, 0, element("x"), &mut out)
        .unwrap_err();
    assert_eq!(err, OpError::BadIndex);
    assert_eq!(db.documents.inner[doc].metadata.revision, 2);
}

#[test]
fn concurrent_mutation_exclusivity() {
    // Several attempts against one entity, each with the same expected
    // revision: exactly one succeeds per expected value.
    let mut db = Database::init();
    let a = new_account(&mut db, "ada");
    let sess = open_session(&mut db, a, 1);
    let doc = new_document(&mut db, &sess);
    let mut out: Vec<Batch> = Vec::new();
    let attempts: Vec<u32> = vec![0, 0, 1, 0, 1, 2];
    let mut accepted_per_value = [0usize; 3];
    for rev in attempts {
        if handle_insert_element(&mut db, &sess, 0, doc, rev, 0, element("e"), &mut out).is_ok() {
            accepted_per_value[rev as usize] += 1;
        }
    }
    assert_eq!(accepted_per_value, [1, 1, 1]);
    assert_eq!(db.documents.inner[doc].metadata.revision, 3);
}

#[test]
fn access_transfer_correctness() {
    // Author A with guests [B, C]: A relinquishing promotes B and leaves [C];
    // with no guests the payload resets and the entity goes ownerless.
    let mut db = Database::init();
    let a = new_account(&mut db, "ada");
    let b = new_account(&mut db, "bob");
    let c = new_account(&mut db, "cyd");
    let sess = open_session(&mut db, a, 1);
    let doc = new_document(&mut db, &sess);
    db.push_guest(EntityId::Document(doc), b);
    db.push_guest(EntityId::Document(doc), c);
    let mut out: Vec<Batch> = Vec::new();
    handle_insert_element(&mut db, &sess, 0, doc, 0, 0, element("text"), &mut out).unwrap();
    handle_drop(&mut db, &sess, 0, EntityId::Document(doc), &mut out).unwrap();
    assert_eq!(db.documents.inner[doc].metadata.author, b);
    assert_eq!(db.documents.inner[doc].metadata.guests, vec![c]);
    // Payload survives a hand-over.
    assert_eq!(db.documents.inner[doc].inner.elements.len(), 1);
    // Now drop B and C as guests-turned-author.
    db.drop_access(EntityId::Document(doc), c);
    assert_eq!(db.documents.inner[doc].metadata.guests.len(), 0);
    db.drop_access(EntityId::Document(doc), b);
    assert_eq!(db.documents.inner[doc].metadata.author, usize::MAX);
    assert_eq!(db.documents.inner[doc].inner.elements.len(), 0);
}

#[test]
fn push_guest_does_not_deduplicate() {
    let mut db = Database::init();
    let a = new_account(&mut db, "ada");
    let b = new_account(&mut db, "bob");
    let sess = open_session(&mut db, a, 1);
    let doc = new_document(&mut db, &sess);
    db.push_guest(EntityId::Document(doc), b);
    db.push_guest(EntityId::Document(doc), b);
    assert_eq!(db.documents.inner[doc].metadata.guests, vec![b, b]);
}

#[test]
fn fanout_completeness() {
    // Author A, guests [B, C]: one update reaches every live session of A, B
    // and C, and nobody else's.
    let mut db = Database::init();
    let a = new_account(&mut db, "ada");
    let b = new_account(&mut db, "bob");
    let c = new_account(&mut db, "cyd");
    let _d = new_account(&mut db, "dan");
    let sess = open_session(&mut db, a, 10);
    let doc = new_document(&mut db, &sess);
    db.push_guest(EntityId::Document(doc), b);
    db.push_guest(EntityId::Document(doc), c);
    // B has two live sessions, C none, D (outside) one.
    let _sb1 = open_session(&mut db, b, 20);
    let _sb2 = open_session(&mut db, b, 21);
    let _sd = open_session(&mut db, _d, 30);
    let mut out: Vec<Batch> = Vec::new();
    handle_insert_element(&mut db, &sess, 0, doc, 0, 0, element("hello"), &mut out).unwrap();
    assert_eq!(out.len(), 1);
    let batch = &out[0];
    assert!(matches!(batch.update.update_type, UpdateType::NewElement));
    // Guests first (B's two sessions, C's none), then the author's.
    assert_eq!(batch.sessions, vec![20, 21, 10]);
}

#[test]
fn permission_gates() {
    let mut db = Database::init();
    let a = new_account(&mut db, "ada");
    let b = new_account(&mut db, "bob");
    let sess_a = open_session(&mut db, a, 1);
    let sess_b = open_session(&mut db, b, 2);
    let doc = new_document(&mut db, &sess_a);
    let mut out: Vec<Batch> = Vec::new();
    // B has no access entry: denied even if B were on the guest list.
    db.push_guest(EntityId::Document(doc), b);
    let err = handle_insert_element(&mut db, &sess_b, 0, doc, 0, 0, element("x"), &mut out)
        .unwrap_err();
    assert_eq!(err, OpError::NoAccessEntry);
    assert_eq!(err.message(), "No such entity");
    // A logged-out session is refused before anything else.
    let fresh = SessionState::new(9);
    let err = handle_insert_element(&mut db, &fresh, 0, doc, 0, 0, element("x"), &mut out)
        .unwrap_err();
    assert_eq!(err, OpError::NotLoggedIn);
}

#[test]
fn refcount_and_collection() {
    // After a collection pass every remaining hash has a positive count and
    // every zero-count hash is gone, reported exactly once.
    let mut db = Database::init();
    let h1 = "aa".to_string();
    let h2 = "bb".to_string();
    let h3 = "cc".to_string();
    db.inc_file_rc(&h1);
    db.inc_file_rc(&h1);
    db.inc_file_rc(&h2);
    db.dec_file_rc(&h2);
    db.inc_file_rc(&h3);
    db.dec_file_rc(&h3);
    db.inc_file_rc(&h3);
    let mut doomed = db.collect_garbage();
    doomed.sort();
    assert_eq!(doomed, vec!["bb".to_string()]);
    assert_eq!(kolab::strmap::str_map_get(&db.file_rc, &h1), Some(2));
    assert_eq!(kolab::strmap::str_map_get(&db.file_rc, &h2), None);
    assert_eq!(kolab::strmap::str_map_get(&db.file_rc, &h3), Some(1));
    // Decrementing an absent or zero hash changes nothing.
    db.dec_file_rc(&"zz".to_string());
    assert_eq!(kolab::strmap::str_map_get(&db.file_rc, &"zz".to_string()), None);
}

#[test]
fn file_entries_move_reference_counts() {
    let mut db = Database::init();
    let a = new_account(&mut db, "ada");
    let sess = open_session(&mut db, a, 1);
    let reply = kolab::account::handle_create_entity(
        &mut db,
        &sess,
        0,
        &"bucket".to_string(),
        "files".to_string(),
    )
    .unwrap();
    let bucket = match reply.data {
        ReplyData::EntityCreated(EntityId::Bucket(id)) => id,
        _ => panic!("unexpected reply"),
    };
    let mut out: Vec<Batch> = Vec::new();
    let file1 = File { name: "a".to_string(), sha256: "h1".to_string(), size: 3, uploaded: 9 };
    handle_set_file(&mut db, &sess, 0, bucket, 0, None, file1, &mut out).unwrap();
    assert_eq!(kolab::strmap::str_map_get(&db.file_rc, &"h1".to_string()), Some(1));
    // Replacing the entry with different content swaps the counts.
    let file2 = File { name: "a".to_string(), sha256: "h2".to_string(), size: 4, uploaded: 10 };
    handle_set_file(&mut db, &sess, 0, bucket, 1, Some(0), file2, &mut out).unwrap();
    assert_eq!(kolab::strmap::str_map_get(&db.file_rc, &"h1".to_string()), Some(0));
    assert_eq!(kolab::strmap::str_map_get(&db.file_rc, &"h2".to_string()), Some(1));
    // Deleting the entry drops its reference.
    handle_delete_file(&mut db, &sess, 0, bucket, 2, 0, &mut out).unwrap();
    assert_eq!(kolab::strmap::str_map_get(&db.file_rc, &"h2".to_string()), Some(0));
    // The collection pass now reclaims both hashes.
    let mut doomed = db.collect_garbage();
    doomed.sort();
    assert_eq!(doomed, vec!["h1".to_string(), "h2".to_string()]);
}

#[test]
fn fresh_upload_survives_collection() {
    // A hash gains its reference before the entry is recorded, in one atomic
    // store operation, so a collection pass never sees it at zero.
    let mut db = Database::init();
    let a = new_account(&mut db, "ada");
    let sess = open_session(&mut db, a, 1);
    let reply = kolab::account::handle_create_entity(
        &mut db,
        &sess,
        0,
        &"bucket".to_string(),
        "files".to_string(),
    )
    .unwrap();
    let bucket = match reply.data {
        ReplyData::EntityCreated(EntityId::Bucket(id)) => id,
        _ => panic!("unexpected reply"),
    };
    let mut out: Vec<Batch> = Vec::new();
    let file = File { name: "f".to_string(), sha256: "fresh".to_string(), size: 1, uploaded: 1 };
    handle_set_file(&mut db, &sess, 0, bucket, 0, None, file, &mut out).unwrap();
    let doomed = db.collect_garbage();
    assert!(doomed.is_empty());
    assert_eq!(kolab::strmap::str_map_get(&db.file_rc, &"fresh".to_string()), Some(1));
}

#[test]
fn snapshot_round_trip() {
    // Serialising then reloading the store yields an observably identical
    // store, except the ephemeral per-session registrations.
    let mut db = Database::init();
    let a = new_account(&mut db, "ada");
    let sess = open_session(&mut db, a, 1);
    let doc = new_document(&mut db, &sess);
    let mut out: Vec<Batch> = Vec::new();
    handle_post_message_setup(&mut db, &sess, doc, &mut out);
    let snap = kolab::snapshot::take_snapshot(&db);
    let mut reloaded = Database::init();
    reloaded.restore(snap);
    assert_eq!(reloaded.users.inner.len(), db.users.inner.len());
    assert_eq!(reloaded.documents.inner.len(), db.documents.inner.len());
    assert_eq!(
        reloaded.documents.inner[doc].metadata.revision,
        db.documents.inner[doc].metadata.revision
    );
    assert_eq!(
        reloaded.documents.inner[doc].inner.elements.len(),
        db.documents.inner[doc].inner.elements.len()
    );
    assert_eq!(reloaded.users.inner[a].inner.public.name, "ada");
    assert_eq!(
        kolab::strmap::str_map_get(&reloaded.usernames, &"ada".to_string()),
        Some(a)
    );
    // The access map survives; sessions do not.
    assert!(reloaded.users.inner[a]
        .inner
        .secret
        .entities
        .get(EntityId::Document(doc))
        .is_some());
    assert_eq!(reloaded.users.inner[a].inner.sessions.len(), 0);
    assert_eq!(db.users.inner[a].inner.sessions.len(), 1);
}

fn handle_post_message_setup(
    db: &mut Database,
    sess: &SessionState,
    doc: usize,
    out: &mut Vec<Batch>,
) {
    handle_insert_element(db, sess, 0, doc, 0, 0, element("kept"), out).unwrap();
}

#[test]
fn load_document_serves_elements() {
    let mut db = Database::init();
    let a = new_account(&mut db, "ada");
    let sess = open_session(&mut db, a, 1);
    let doc = new_document(&mut db, &sess);
    let mut out: Vec<Batch> = Vec::new();
    handle_insert_element(&mut db, &sess, 0, doc, 0, 0, element("first"), &mut out).unwrap();
    handle_insert_element(&mut db, &sess, 0, doc, 1, 1, element("second"), &mut out).unwrap();
    match handle_load_document(&db, &sess, 7, doc).unwrap().data {
        ReplyData::Document(rev, elements) => {
            assert_eq!(rev, 2);
            assert_eq!(elements.len(), 2);
            assert_eq!(elements[0].data, "first");
            assert_eq!(elements[1].data, "second");
        },
        _ => panic!("unexpected reply"),
    }
}
