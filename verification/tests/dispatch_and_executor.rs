use kolab::executor::{Running, Task, Worker};
use kolab::replies::ReplyData;
use kolab::requests::{Request, RequestData};
use kolab::session::{handle_request, reply_for, SessionState};
use kolab::store::{Batch, Database};
use kolab::types::OpError;

#[test]
fn dispatcher_routes_and_reports_failures() {
    let mut db = Database::init();
    let mut sess = SessionState::new(0);
    let mut out: Vec<Batch> = Vec::new();
    let no_upload = (String::new(), 0usize);

    // Account creation through the dispatcher.
    let req = Request { num: 3, data: RequestData::CreateAccount("ada".into(), "pw".into()) };
    let reply = reply_for(3, handle_request(&mut db, &mut sess, req, 0, no_upload.clone(), &mut out));
    assert_eq!(reply.num, 3);
    assert!(matches!(reply.data, ReplyData::ValidUsername(0)));

    // A failure turns into its textual reason.
    let req = Request { num: 4, data: RequestData::WhoIs("carl".into()) };
    let reply = reply_for(4, handle_request(&mut db, &mut sess, req, 0, no_upload.clone(), &mut out));
    assert_eq!(reply.num, 4);
    match reply.data {
        ReplyData::GenericFailure(msg) => assert_eq!(msg, "Invalid username"),
        _ => panic!("unexpected reply"),
    }

    // Kinds that are not served say so.
    let req = Request { num: 5, data: RequestData::CompleteChallenge("x".into()) };
    let outcome = handle_request(&mut db, &mut sess, req, 0, no_upload, &mut out);
    assert_eq!(outcome.unwrap_err(), OpError::Unsupported);
}

#[test]
fn session_ids_never_repeat() {
    let mut counter: usize = 0;
    let a = kolab::get_session_id(&mut counter);
    let b = kolab::get_session_id(&mut counter);
    let c = kolab::get_session_id(&mut counter);
    assert_eq!((a, b, c), (0, 1, 2));
    assert_eq!(counter, 3);
}

#[test]
fn worker_bookkeeping() {
    let mut worker = Worker::new();
    assert!(worker.alive());
    worker.claim(Task::new(7));
    worker.claim(Task::new(8));
    worker.claim(Task::new(9));
    assert_eq!(worker.tasks.len(), 3);
    // Dropping the first task moves the last one into its place.
    worker.finish(0);
    assert_eq!(worker.tasks.len(), 2);
    assert_eq!(worker.tasks[0].id, 9);
    assert_eq!(worker.tasks[1].id, 8);
    // A closed queue with no tasks left ends the worker.
    worker.queue_closed();
    assert!(worker.alive());
    worker.finish(0);
    worker.finish(0);
    assert!(!worker.alive());
}

#[test]
fn running_flag() {
    let mut running = Running::new();
    assert!(running.read());
    running.reset();
    assert!(!running.read());
    running.wake();
    assert!(running.read());
}

#[test]
fn self_data_lists_reachable_entities() {
    let mut db = Database::init();
    let mut sess = SessionState::new(0);
    let mut out: Vec<Batch> = Vec::new();
    let no_upload = (String::new(), 0usize);
    let req = Request { num: 0, data: RequestData::CreateAccount("ada".into(), "pw".into()) };
    handle_request(&mut db, &mut sess, req, 0, no_upload.clone(), &mut out).unwrap();
    let token = match handle_request(
        &mut db,
        &mut sess,
        Request { num: 1, data: RequestData::GetToken(0, "pw".into()) },
        0,
        no_upload.clone(),
        &mut out,
    )
    .unwrap()
    .data
    {
        ReplyData::AuthenticationToken(t) => t,
        _ => panic!("unexpected reply"),
    };
    handle_request(
        &mut db,
        &mut sess,
        Request { num: 2, data: RequestData::OpenSession(0, token) },
        0,
        no_upload.clone(),
        &mut out,
    )
    .unwrap();
    handle_request(
        &mut db,
        &mut sess,
        Request { num: 3, data: RequestData::CreateEntity("conv".into(), "chat".into()) },
        0,
        no_upload.clone(),
        &mut out,
    )
    .unwrap();
    let reply = handle_request(
        &mut db,
        &mut sess,
        Request { num: 4, data: RequestData::LoadUserData(None) },
        0,
        no_upload,
        &mut out,
    )
    .unwrap();
    match reply.data {
        ReplyData::SelfData(rev, public, entities, secret) => {
            assert_eq!(rev, 0);
            assert_eq!(public.name, "ada");
            assert_eq!(public.status, "Exploring");
            assert!(secret.server_admin);
            // The conversation's entry plus the user's own entity, last.
            assert_eq!(entities.len(), 2);
            assert!(matches!(entities[0].0, kolab::types::EntityId::Conversation(0)));
            assert!(matches!(entities[1].0, kolab::types::EntityId::User(0)));
            assert_eq!(entities[0].1.revision, 0);
        },
        _ => panic!("unexpected reply"),
    }
}

#[test]
fn finish_file_records_the_upload() {
    let mut db = Database::init();
    let mut sess = SessionState::new(0);
    let mut out: Vec<Batch> = Vec::new();
    let no_upload = (String::new(), 0usize);
    let req = Request { num: 0, data: RequestData::CreateAccount("ada".into(), "pw".into()) };
    handle_request(&mut db, &mut sess, req, 0, no_upload.clone(), &mut out).unwrap();
    let token = match handle_request(
        &mut db,
        &mut sess,
        Request { num: 1, data: RequestData::GetToken(0, "pw".into()) },
        0,
        no_upload.clone(),
        &mut out,
    )
    .unwrap()
    .data
    {
        ReplyData::AuthenticationToken(t) => t,
        _ => panic!("unexpected reply"),
    };
    handle_request(
        &mut db,
        &mut sess,
        Request { num: 2, data: RequestData::OpenSession(0, token) },
        0,
        no_upload.clone(),
        &mut out,
    )
    .unwrap();
    handle_request(
        &mut db,
        &mut sess,
        Request { num: 3, data: RequestData::CreateEntity("bucket".into(), "files".into()) },
        0,
        no_upload,
        &mut out,
    )
    .unwrap();
    let upload = ("cafe".to_string(), 11usize);
    handle_request(
        &mut db,
        &mut sess,
        Request { num: 4, data: RequestData::FinishFile(0, 0, "notes.txt".into()) },
        77,
        upload,
        &mut out,
    )
    .unwrap();
    let bucket = &db.buckets.inner[0];
    assert_eq!(bucket.metadata.revision, 1);
    assert_eq!(bucket.inner.files.len(), 1);
    assert_eq!(bucket.inner.files[0].name, "notes.txt");
    assert_eq!(bucket.inner.files[0].sha256, "cafe");
    assert_eq!(bucket.inner.files[0].size, 11);
    assert_eq!(bucket.inner.files[0].uploaded, 77);
    assert_eq!(kolab::strmap::str_map_get(&db.file_rc, &"cafe".to_string()), Some(1));
}
