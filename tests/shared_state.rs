use asyncfs::shared_state::{ReadFailure, ReadPoll, SharedState};

fn ready_bytes(p: ReadPoll) -> Vec<u8> {
    match p {
        ReadPoll::Ready(Ok(bytes)) => bytes,
        ReadPoll::Ready(Err(e)) => panic!("unexpected failure {:?}", e),
        ReadPoll::Pending => panic!("unexpected pending"),
    }
}

#[test]
fn read_test() {
    let contents = "hello world";
    let mut cell: SharedState<u32> = SharedState::new();
    assert!(matches!(cell.poll(1), ReadPoll::Pending));
    let woken = cell.complete(Ok(contents.as_bytes().to_vec()));
    assert_eq!(woken, Some(1));
    let buf = ready_bytes(cell.poll(2));
    assert_eq!(buf.len(), 11);
    assert_eq!(String::from_utf8(buf).unwrap(), contents);
}

#[test]
fn new_cell_is_pending() {
    let mut cell: SharedState<u32> = SharedState::new();
    assert!(!cell.is_ready());
    assert!(matches!(cell.poll(5), ReadPoll::Pending));
    assert!(!cell.is_ready());
}

#[test]
fn completion_wakes_most_recent_poller() {
    let mut cell: SharedState<&str> = SharedState::new();
    assert!(matches!(cell.poll("first"), ReadPoll::Pending));
    assert!(matches!(cell.poll("second"), ReadPoll::Pending));
    assert_eq!(cell.complete(Ok(vec![1, 2, 3])), Some("second"));
    assert!(cell.is_ready());
}

#[test]
fn completion_before_any_poll_wakes_nobody() {
    let mut cell: SharedState<u32> = SharedState::new();
    assert_eq!(cell.complete(Ok(vec![9])), None);
    assert_eq!(ready_bytes(cell.poll(1)), vec![9]);
}

#[test]
fn failure_is_reported_not_empty_success() {
    let mut cell: SharedState<u32> = SharedState::new();
    assert!(matches!(cell.poll(1), ReadPoll::Pending));
    assert_eq!(cell.complete(Err(ReadFailure::NotFound)), Some(1));
    match cell.poll(2) {
        ReadPoll::Ready(Err(e)) => assert_eq!(e, ReadFailure::NotFound),
        _ => panic!("expected a failure"),
    }
}

#[test]
fn each_failure_kind_is_kept() {
    for kind in [
        ReadFailure::NotFound,
        ReadFailure::PermissionDenied,
        ReadFailure::UnexpectedEof,
        ReadFailure::Other,
    ] {
        let mut cell: SharedState<u32> = SharedState::new();
        cell.complete(Err(kind));
        match cell.poll(0) {
            ReadPoll::Ready(Err(e)) => assert_eq!(e, kind),
            _ => panic!("expected a failure"),
        }
    }
}

#[test]
fn second_completion_is_ignored() {
    let mut cell: SharedState<u32> = SharedState::new();
    assert!(matches!(cell.poll(1), ReadPoll::Pending));
    assert_eq!(cell.complete(Ok(vec![1])), Some(1));
    assert_eq!(cell.complete(Ok(vec![2])), None);
    assert_eq!(cell.complete(Err(ReadFailure::Other)), None);
    assert_eq!(ready_bytes(cell.poll(1)), vec![1]);
}

#[test]
fn repeated_polls_after_completion_answer_the_same() {
    let mut cell: SharedState<u32> = SharedState::new();
    cell.complete(Ok(b"abc".to_vec()));
    for w in 0..5 {
        assert_eq!(ready_bytes(cell.poll(w)), b"abc".to_vec());
    }
    assert_eq!(cell.complete(Ok(vec![])), None);
}

#[test]
fn empty_resource_resolves_to_empty_bytes() {
    let mut cell: SharedState<u32> = SharedState::new();
    assert!(matches!(cell.poll(3), ReadPoll::Pending));
    assert_eq!(cell.complete(Ok(vec![])), Some(3));
    assert_eq!(ready_bytes(cell.poll(4)), Vec::<u8>::new());
}

#[test]
fn many_poll_cycles_then_completion_resolve() {
    let mut cell: SharedState<usize> = SharedState::new();
    for w in 0..1000 {
        assert!(matches!(cell.poll(w), ReadPoll::Pending));
    }
    assert_eq!(cell.complete(Ok(vec![7; 100])), Some(999));
    assert_eq!(ready_bytes(cell.poll(1000)), vec![7; 100]);
}
