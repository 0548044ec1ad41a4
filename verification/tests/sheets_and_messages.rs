use kolab::account::{handle_create_account, handle_create_entity, handle_get_token,
    handle_open_session};
use kolab::content::{handle_load_messages_before, handle_load_spreadsheet, handle_post_message,
    handle_set_cell};
use kolab::replies::ReplyData;
use kolab::requests::MessageCursor;
use kolab::session::SessionState;
use kolab::sheet::{Cell, CellFormula};
use kolab::store::{Batch, Database};
use kolab::types::{EntityId, OpError};

fn new_account(db: &mut Database, name: &str) -> usize {
    match handle_create_account(db, 0, name.to_string(), "pw".to_string()).unwrap().data {
        ReplyData::ValidUsername(uid) => uid,
        _ => panic!("unexpected reply"),
    }
}

fn open_session(db: &mut Database, uid: usize, session_id: usize) -> SessionState {
    let token = match handle_get_token(db, 0, uid, "pw".to_string()).unwrap().data {
        ReplyData::AuthenticationToken(t) => t,
        _ => panic!("unexpected reply"),
    };
    assert_eq!(token.len(), 64);
    let mut sess = SessionState::new(session_id);
    handle_open_session(db, &mut sess, 0, uid, token).unwrap();
    sess
}

fn cell(text: &str) -> Cell {
    Cell { text: text.to_string(), formula: CellFormula::Literal, tags: Vec::new() }
}

#[test]
fn setting_a_cell_twice_keeps_one_entry() {
    let mut db = Database::init();
    let a = new_account(&mut db, "ada");
    let sess = open_session(&mut db, a, 1);
    let sheet = match handle_create_entity(&mut db, &sess, 0, &"sheet".to_string(), "s".to_string())
        .unwrap()
        .data
    {
        ReplyData::EntityCreated(EntityId::Spreadsheet(id)) => id,
        _ => panic!("unexpected reply"),
    };
    let mut out: Vec<Batch> = Vec::new();
    handle_set_cell(&mut db, &sess, 0, sheet, 0, 5, cell("first"), &mut out).unwrap();
    handle_set_cell(&mut db, &sess, 0, sheet, 1, 5, cell("second"), &mut out).unwrap();
    handle_set_cell(&mut db, &sess, 0, sheet, 2, 9, cell("other"), &mut out).unwrap();
    match handle_load_spreadsheet(&db, &sess, 0, sheet).unwrap().data {
        ReplyData::Spreadsheet(rev, mut cells) => {
            assert_eq!(rev, 3);
            cells.sort_by_key(|(i, _)| *i);
            assert_eq!(cells.len(), 2);
            assert_eq!(cells[0].0, 5);
            assert_eq!(cells[0].1.text, "second");
            assert_eq!(cells[1].0, 9);
            assert_eq!(cells[1].1.text, "other");
        },
        _ => panic!("unexpected reply"),
    }
}

#[test]
fn message_window_and_cursor() {
    let mut db = Database::init();
    let a = new_account(&mut db, "ada");
    let sess = open_session(&mut db, a, 1);
    let conv = match handle_create_entity(&mut db, &sess, 0, &"conv".to_string(), "c".to_string())
        .unwrap()
        .data
    {
        ReplyData::EntityCreated(EntityId::Conversation(id)) => id,
        _ => panic!("unexpected reply"),
    };
    let mut out: Vec<Batch> = Vec::new();
    for k in 0..60u32 {
        handle_post_message(&mut db, &sess, 0, conv, k, format!("m{k}"), 1000 + k as u64, &mut out)
            .unwrap();
    }
    // The latest window serves the last fifty messages.
    match handle_load_messages_before(&db, &sess, 0, conv, MessageCursor::Latest).unwrap().data {
        ReplyData::Messages(rev, start, msgs) => {
            assert_eq!(rev, 60);
            assert_eq!(start, 10);
            assert_eq!(msgs.len(), 50);
            assert_eq!(msgs[0].content, "m10");
            assert_eq!(msgs[0].author, a);
            assert_eq!(msgs[0].created, 1010);
            assert_eq!(msgs[0].edited, None);
            assert_eq!(msgs[49].content, "m59");
        },
        _ => panic!("unexpected reply"),
    }
    // A cursor inside the list serves the window before it.
    match handle_load_messages_before(&db, &sess, 0, conv, MessageCursor::Specific(7))
        .unwrap()
        .data
    {
        ReplyData::Messages(_, start, msgs) => {
            assert_eq!(start, 0);
            assert_eq!(msgs.len(), 7);
        },
        _ => panic!("unexpected reply"),
    }
    // A cursor past the end is refused.
    let err =
        handle_load_messages_before(&db, &sess, 0, conv, MessageCursor::Specific(61)).unwrap_err();
    assert_eq!(err, OpError::InvalidCursor);
    assert_eq!(err.message(), "Invalid cursor");
}

#[test]
fn editing_a_message_stamps_it() {
    let mut db = Database::init();
    let a = new_account(&mut db, "ada");
    let sess = open_session(&mut db, a, 1);
    let conv = match handle_create_entity(&mut db, &sess, 0, &"conv".to_string(), "c".to_string())
        .unwrap()
        .data
    {
        ReplyData::EntityCreated(EntityId::Conversation(id)) => id,
        _ => panic!("unexpected reply"),
    };
    let mut out: Vec<Batch> = Vec::new();
    handle_post_message(&mut db, &sess, 0, conv, 0, "typo".to_string(), 100, &mut out).unwrap();
    kolab::content::handle_edit_message(
        &mut db,
        &sess,
        0,
        conv,
        1,
        0,
        "fixed".to_string(),
        200,
        &mut out,
    )
    .unwrap();
    let message = &db.conversations.inner[conv].inner.messages[0];
    assert_eq!(message.content, "fixed");
    assert_eq!(message.created, 100);
    assert_eq!(message.edited, Some(200));
    assert_eq!(db.conversations.inner[conv].metadata.revision, 2);
}
