use divvun_api::data_files::EngineKind;
use divvun_api::error::{DispatchError, OpenError, WorkerError};
use divvun_api::graphql::handlers::graphql_endpoint;
use divvun_api::worker::{engine_outcome, EngineWorker, SuggestRequest};

fn request(text: &str) -> SuggestRequest {
    SuggestRequest { text: text.to_string() }
}

fn worker(limit: usize) -> EngineWorker {
    EngineWorker::open(EngineKind::Spelling, "spelling/se.zhfst", Ok(()), limit).unwrap()
}

#[test]
fn request_without_text_is_an_input_error() {
    assert_eq!(SuggestRequest::new(Some("oainá".to_string())).unwrap().text, "oainá");
    assert!(matches!(SuggestRequest::new(None), Err(DispatchError::InputError)));
}

#[test]
fn open_fails_as_loading_failed() {
    assert!(matches!(
        EngineWorker::open(EngineKind::Grammar, "grammar/se.zcheck", Err(OpenError::Io), 4),
        Err(OpenError::Io)
    ));
    assert!(matches!(
        EngineWorker::open(EngineKind::Grammar, "grammar/se.zcheck", Err(OpenError::Corrupt), 4),
        Err(OpenError::Corrupt)
    ));
    let opened = EngineWorker::open(EngineKind::Grammar, "grammar/se.zcheck", Ok(()), 4).unwrap();
    assert_eq!(opened.kind(), EngineKind::Grammar);
    assert_eq!(opened.path(), "grammar/se.zcheck");
    assert!(!opened.is_finished());
}

#[test]
fn requests_are_served_first_in_first_out() {
    let mut worker = worker(8);
    assert_eq!(worker.submit(request("r1")), Ok(0));
    assert_eq!(worker.submit(request("r2")), Ok(1));
    assert_eq!(worker.submit(request("r3")), Ok(2));
    let (ticket, first) = worker.next().unwrap();
    assert_eq!((ticket, first.text.as_str()), (0, "r1"));
    assert_eq!(worker.submit(request("r4")), Ok(3));
    let (ticket, second) = worker.next().unwrap();
    assert_eq!((ticket, second.text.as_str()), (1, "r2"));
    let (ticket, third) = worker.next().unwrap();
    assert_eq!((ticket, third.text.as_str()), (2, "r3"));
    let (ticket, fourth) = worker.next().unwrap();
    assert_eq!((ticket, fourth.text.as_str()), (3, "r4"));
    assert!(worker.next().is_none());
}

#[test]
fn full_queue_answers_busy() {
    let mut worker = worker(2);
    assert_eq!(worker.submit(request("a")), Ok(0));
    assert_eq!(worker.submit(request("b")), Ok(1));
    assert_eq!(worker.submit(request("c")), Err(WorkerError::Busy));
    assert_eq!(worker.next().unwrap().1.text, "a");
    assert_eq!(worker.submit(request("d")), Ok(2));
    assert_eq!(worker.next().unwrap().1.text, "b");
    assert_eq!(worker.next().unwrap().1.text, "d");
    let mut none = self::worker(0);
    assert_eq!(none.submit(request("a")), Err(WorkerError::Busy));
}

#[test]
fn shut_down_worker_drains_and_takes_nothing_in() {
    let mut worker = worker(4);
    assert_eq!(worker.submit(request("a")), Ok(0));
    assert_eq!(worker.submit(request("b")), Ok(1));
    worker.shutdown();
    assert!(!worker.is_finished());
    assert_eq!(worker.submit(request("c")), Err(WorkerError::Closed));
    assert_eq!(worker.next().unwrap().1.text, "a");
    assert!(!worker.is_finished());
    assert_eq!(worker.next().unwrap().1.text, "b");
    assert!(worker.is_finished());
    assert!(worker.next().is_none());
    assert_eq!(worker.submit(request("d")), Err(WorkerError::Closed));
}

#[test]
fn native_faults_become_engine_faults() {
    assert_eq!(engine_outcome::<u8, String>(Ok(3)), Ok(3));
    assert_eq!(engine_outcome::<u8, String>(Err("boom".to_string())), Err(WorkerError::EngineFault));
}

#[test]
fn graphql_endpoint_of_a_host() {
    assert_eq!(graphql_endpoint("localhost:8080"), "http://localhost:8080/graphql");
    assert_eq!(graphql_endpoint(""), "http:///graphql");
}
