use bitsmap_client::json::Json;
use bitsmap_client::models::{Data, DecodeError};
use bitsmap_client::reader::{handle_frame, render_asks, run, Action, Frame};

fn s(t: &str) -> Json {
    Json::Str(t.to_string())
}

fn obj(members: Vec<(&str, Json)>) -> Json {
    Json::Object(members.into_iter().map(|(k, v)| (k.to_string(), v)).collect())
}

fn envelope(event: &str, data: Json) -> Json {
    obj(vec![("channel", s("order_book_btcusd")), ("event", s(event)), ("data", data)])
}

fn book_with_asks(n: usize) -> Json {
    let asks = (0..n)
        .map(|i| obj(vec![("price", s(&format!("{}.5", 100 + i))), ("qty", s(&format!("{}", i + 1)))]))
        .collect();
    obj(vec![
        ("timestamp", s("1")),
        ("microtimestamp", s("1000001")),
        ("bids", Json::Array(vec![])),
        ("asks", Json::Array(asks)),
    ])
}

fn shown_lines(n: usize) -> Vec<(usize, String, String)> {
    match handle_frame(&Frame::Text(Some(envelope("data", book_with_asks(n))))) {
        Action::ShowBook(b) => render_asks(&b).into_iter().map(|l| (l.index, l.price, l.qty)).collect(),
        _ => panic!("expected a book"),
    }
}

#[test]
fn render_shows_at_most_ten_in_order() {
    for n in [0, 1, 9, 10, 11, 12, 30] {
        let lines = shown_lines(n);
        assert_eq!(lines.len(), n.min(10));
        for (i, (index, price, qty)) in lines.iter().enumerate() {
            assert_eq!(*index, i);
            assert_eq!(*price, format!("{}.5", 100 + i));
            assert_eq!(*qty, format!("{}", i + 1));
        }
    }
}

#[test]
fn ping_then_close_queues_one_empty_pong() {
    let frames = vec![
        Frame::Ping(b"hello".to_vec()),
        Frame::Close,
        Frame::Ping(vec![1]),
        Frame::Text(Some(envelope("data", book_with_asks(3)))),
    ];
    let r = run(&frames);
    assert_eq!(r.taken, 2);
    assert_eq!(r.queued.len(), 1);
    assert!(r.queued[0].is_empty());
    assert_eq!(r.outcome, Ok(()));
    assert!(matches!(r.actions[0], Action::ReplyPong(ref p) if p.is_empty()));
    assert!(matches!(r.actions[1], Action::Stop));
}

#[test]
fn scripted_session_ack_book_close() {
    let ack = envelope("bts:subscription_succeeded", obj(vec![]));
    let frames = vec![
        Frame::Text(Some(ack)),
        Frame::Text(Some(envelope("data", book_with_asks(12)))),
        Frame::Close,
    ];
    let r = run(&frames);
    assert_eq!(r.taken, 3);
    assert_eq!(r.outcome, Ok(()));
    assert!(r.queued.is_empty());
    match &r.actions[0] {
        Action::ShowUnrecognized(m) => {
            assert_eq!(m.event, "bts:subscription_succeeded");
            assert_eq!(m.channel, "order_book_btcusd");
            assert!(matches!(m.data, Data::Unrecognized));
        }
        _ => panic!("expected an unrecognized envelope"),
    }
    match &r.actions[1] {
        Action::ShowBook(b) => {
            let lines = render_asks(b);
            assert_eq!(lines.len(), 10);
            for (i, l) in lines.iter().enumerate() {
                assert_eq!(l.index, i);
                assert_eq!(l.price, format!("{}.5", 100 + i));
            }
        }
        _ => panic!("expected a book"),
    }
    assert!(matches!(r.actions[2], Action::Stop));
}

#[test]
fn decode_error_ends_the_run() {
    let bad = obj(vec![
        ("timestamp", s("1")),
        ("microtimestamp", s("2")),
        ("bids", Json::Array(vec![])),
        ("asks", Json::Array(vec![obj(vec![("price", s("abc")), ("qty", s("1"))])])),
    ]);
    let frames = vec![Frame::Pong(vec![]), Frame::Text(Some(envelope("data", bad))), Frame::Close];
    let r = run(&frames);
    assert_eq!(r.taken, 2);
    assert_eq!(r.outcome, Err(DecodeError::BadNumber));
    assert!(matches!(r.actions[0], Action::NotePong));
    assert!(matches!(r.actions[1], Action::Fail(DecodeError::BadNumber)));
}

#[test]
fn text_that_is_not_json_ends_the_run() {
    let r = run(&vec![Frame::Text(None), Frame::Close]);
    assert_eq!(r.taken, 1);
    assert_eq!(r.outcome, Err(DecodeError::NotJson));
}

#[test]
fn malformed_envelope_ends_the_run() {
    let r = run(&vec![Frame::Text(Some(obj(vec![("event", s("x"))]))), Frame::Close]);
    assert_eq!(r.taken, 1);
    assert_eq!(r.outcome, Err(DecodeError::Malformed));
}

#[test]
fn other_frames_go_on() {
    let frames = vec![Frame::Binary(vec![1, 2]), Frame::Other, Frame::Pong(vec![3]), Frame::Ping(vec![])];
    let r = run(&frames);
    assert_eq!(r.taken, 4);
    assert_eq!(r.queued.len(), 1);
    assert_eq!(r.outcome, Ok(()));
    assert!(matches!(r.actions[0], Action::NoteUnexpected));
    assert!(matches!(r.actions[1], Action::NoteUnexpected));
}

#[test]
fn empty_run_ends_without_error() {
    let r = run(&vec![]);
    assert_eq!(r.taken, 0);
    assert_eq!(r.outcome, Ok(()));
}
