use hello_raw::messages::{MessageApp, WorkerState};

#[test]
fn message_app_keeps_port() {
    let app = MessageApp::new(8080);
    assert_eq!(app.port(), 8080);
    assert_eq!(MessageApp::new(0).port(), 0);
}

#[test]
fn worker_counts_each_request() {
    let mut w = WorkerState::new(3);
    let mut messages: Vec<String> = Vec::new();
    let r = w.index(&messages);
    assert_eq!(r.server_id, 3);
    assert_eq!(r.request_count, 1);
    assert!(r.message.is_empty());
    let p = w.post(&mut messages, String::from("hello"));
    assert_eq!(p.request_count, 2);
    assert_eq!(p.message, "hello");
    let e = w.post_error(String::from("bad json"));
    assert_eq!(e.request_count, 3);
    assert_eq!(e.error, "bad json");
    assert_eq!(w.request_count, 3);
}

#[test]
fn posted_messages_listed_in_order_then_cleared() {
    let mut w = WorkerState::new(0);
    let mut messages: Vec<String> = Vec::new();
    w.post(&mut messages, String::from("one"));
    w.post(&mut messages, String::from("two"));
    let r = w.index(&messages);
    assert_eq!(r.message, vec![String::from("one"), String::from("two")]);
    let c = w.clear(&mut messages);
    assert!(c.message.is_empty());
    assert_eq!(c.request_count, 4);
    assert!(messages.is_empty());
    assert!(w.index(&messages).message.is_empty());
}
