use alice::server::{
    outgoing_reply, parse_reply, PendingRequests, RequestIds, RequestMessage, ServerHandle,
};
use std::sync::atomic::AtomicBool;
use std::sync::mpsc;
use std::sync::Arc;

fn message() -> RequestMessage {
    RequestMessage {
        id: 17,
        method: "POST".to_string(),
        path: "/svc/run".to_string(),
        body: "x=1".to_string(),
    }
}

#[test]
fn request_texts() {
    assert_eq!(message().to_text(), "[17]POST:/svc/run {x=1}");
    assert_eq!(message().request_line(), "REQUEST 17 POST /svc/run x=1\n");
}

#[test]
fn reply_lines() {
    assert_eq!(parse_reply("5 hello world"), Some((5, "hello world".to_string())));
    assert_eq!(parse_reply("  12  spaced \n"), Some((12, " spaced".to_string())));
    assert_eq!(parse_reply("+7 ok"), Some((7, "ok".to_string())));
    assert_eq!(parse_reply("18446744073709551615 max"), Some((u64::MAX, "max".to_string())));
    assert_eq!(parse_reply("18446744073709551616 over"), None);
    assert_eq!(parse_reply("5"), None);
    assert_eq!(parse_reply("5 "), None);
    assert_eq!(parse_reply(""), None);
    assert_eq!(parse_reply("   "), None);
    assert_eq!(parse_reply("x5 body"), None);
    assert_eq!(parse_reply("-5 body"), None);
    assert_eq!(parse_reply("+ body"), None);
    assert_eq!(parse_reply(" body"), None);
}

#[test]
fn reply_written_as_id_space_body_reads_back() {
    for id in [0u64, 9, 10, 123456789, u64::MAX] {
        let line = format!("{} {}", id, "the body");
        assert_eq!(parse_reply(&line), Some((id, "the body".to_string())));
    }
}

#[test]
fn numbers_parse_as_std_does() {
    for s in ["0", "+0", "007", "42", "+", "", "-1", "1_000", "18446744073709551615", "18446744073709551616", "99999999999999999999", " 1", "١"] {
        assert_eq!(alice::text::parse_u64(s), s.parse::<u64>().ok(), "input {:?}", s);
    }
}

#[test]
fn pending_reply_reaches_its_request_once() {
    let mut p: PendingRequests<&str> = PendingRequests::new();
    assert!(p.insert(1, "first").is_none());
    assert!(p.insert(2, "second").is_none());
    assert!(p.contains(2));
    assert_eq!(p.take(2), Some("second"));
    assert_eq!(p.take(2), None);
    assert_eq!(p.take(99), None);
    assert!(p.contains(1));
    assert_eq!(p.insert(1, "again"), Some("first"));
    assert_eq!(p.take(1), Some("again"));
}

#[test]
fn ids_count_up_from_one() {
    let mut ids = RequestIds::new();
    assert_eq!(ids.peek(), 1);
    assert_eq!(ids.next_id(), 1);
    assert_eq!(ids.next_id(), 2);
    assert_eq!(ids.peek(), 3);
}

#[test]
fn replies_stop_at_shutdown() {
    assert_eq!(outgoing_reply(false, 4, "ok"), Some((4, "ok".to_string())));
    assert_eq!(outgoing_reply(true, 4, "ok"), None);
}

#[test]
fn handle_sends_until_shutdown() {
    let (tx, rx) = mpsc::channel();
    let flag = Arc::new(AtomicBool::new(false));
    let handle = ServerHandle::new(tx, flag.clone());
    handle.respond_with(3, "three");
    assert_eq!(rx.try_recv().unwrap(), (3, "three".to_string()));
    let copy = handle.clone();
    copy.respond_with(4, "four");
    assert_eq!(rx.try_recv().unwrap(), (4, "four".to_string()));
    handle.shutdown();
    assert!(flag.load(std::sync::atomic::Ordering::SeqCst));
    copy.respond_with(5, "five");
    assert!(rx.try_recv().is_err());
}
