use tunnel::streams::{Dispatch, StreamTable};
use tunnel::types::MessageType;

#[test]
fn ids_count_up_from_one() {
    let mut t: StreamTable<&str> = StreamTable::new();
    assert_eq!(t.open("a"), 1);
    assert_eq!(t.open("b"), 2);
    assert_eq!(t.open("c"), 3);
}

#[test]
fn answer_goes_to_opener_once() {
    let mut t: StreamTable<&str> = StreamTable::new();
    let a = t.open("a");
    let b = t.open("b");
    match t.dispatch(MessageType::HttpResponse, b) {
        Dispatch::Deliver(x) => assert_eq!(x, "b"),
        _ => panic!("expected delivery"),
    }
    assert!(matches!(t.dispatch(MessageType::HttpResponse, b), Dispatch::Ignored));
    match t.dispatch(MessageType::TcpData, a) {
        Dispatch::Deliver(x) => assert_eq!(x, "a"),
        _ => panic!("expected delivery"),
    }
}

#[test]
fn close_drops_waiting_request() {
    let mut t: StreamTable<u8> = StreamTable::new();
    let a = t.open(7);
    assert!(matches!(t.dispatch(MessageType::CloseStream, a), Dispatch::Closed));
    assert_eq!(t.take(a), None);
}

#[test]
fn other_frames_change_nothing() {
    let mut t: StreamTable<u8> = StreamTable::new();
    let a = t.open(7);
    assert!(matches!(t.dispatch(MessageType::Heartbeat, a), Dispatch::Ignored));
    assert!(matches!(t.dispatch(MessageType::Register, a), Dispatch::Unexpected(MessageType::Register)));
    assert!(matches!(t.dispatch(MessageType::HttpRequest, a), Dispatch::Unexpected(MessageType::HttpRequest)));
    assert_eq!(t.take(a), Some(7));
}
