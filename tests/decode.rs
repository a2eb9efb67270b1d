use bitsmap_client::json::{find_member, same_text, Json};
use bitsmap_client::models::{de_float_from_str, decode, decode_data, Data, DecodeError};
use bitsmap_client::number::float_literal;

fn s(t: &str) -> Json {
    Json::Str(t.to_string())
}

fn obj(members: Vec<(&str, Json)>) -> Json {
    Json::Object(members.into_iter().map(|(k, v)| (k.to_string(), v)).collect())
}

fn offer(price: &str, qty: &str) -> Json {
    obj(vec![("price", s(price)), ("qty", s(qty))])
}

fn book(bids: Vec<Json>, asks: Vec<Json>) -> Json {
    obj(vec![
        ("timestamp", s("1700000000")),
        ("microtimestamp", s("1700000000123456")),
        ("bids", Json::Array(bids)),
        ("asks", Json::Array(asks)),
    ])
}

fn envelope(data: Json) -> Json {
    obj(vec![
        ("channel", s("order_book_btcusd")),
        ("event", s("data")),
        ("data", data),
    ])
}

#[test]
fn float_literals_accepted() {
    for t in ["0", "-0", "1.5", "+2.", ".5", "1e10", "1E-3", "-2.5e+7", "inf", "-Infinity", "NaN", "0.00012345"] {
        assert!(float_literal(t), "{}", t);
    }
}

#[test]
fn float_literals_refused() {
    for t in ["", "abc", ".", "-", "1.2.3", "e5", "1e", "1e+", " 1", "1 ", "0x10", "infin", "1,5", "--1"] {
        assert!(!float_literal(t), "{}", t);
    }
}

#[test]
fn float_literal_agrees_with_std_parse() {
    for t in ["12.5", "abc", "1e400", "-.5", "5.", "+inf", "nan", "1e-", "++1", "7E2"] {
        assert_eq!(float_literal(t), t.parse::<f32>().is_ok(), "{}", t);
    }
}

#[test]
fn de_float_keeps_text_and_round_trips() {
    for t in ["27123.45", "-0.5", "0", "1.5e3", "0.00000001"] {
        let r = de_float_from_str(t).unwrap();
        assert_eq!(r, t);
        let x: f32 = r.parse().unwrap();
        let y: f32 = t.parse().unwrap();
        assert_eq!(x, y);
        let back: f32 = format!("{}", x).parse().unwrap();
        assert_eq!(back, x);
    }
}

#[test]
fn de_float_rejects_non_numeric() {
    assert_eq!(de_float_from_str("abc").unwrap_err(), DecodeError::BadNumber);
}

#[test]
fn find_member_takes_first() {
    let m = vec![("a".to_string(), s("1")), ("b".to_string(), s("2")), ("a".to_string(), s("3"))];
    assert!(matches!(find_member(&m, "a"), Some(Json::Str(t)) if t == "1"));
    assert!(matches!(find_member(&m, "b"), Some(Json::Str(t)) if t == "2"));
    assert!(find_member(&m, "c").is_none());
    assert!(same_text("ab", "ab"));
    assert!(!same_text("ab", "abc"));
}

#[test]
fn book_decodes_in_order() {
    let v = book(vec![offer("99.5", "1")], vec![offer("100.25", "0.5"), offer("101", "2.75")]);
    match decode_data(&v) {
        Ok(Data::Book(b)) => {
            assert_eq!(b.timestamp, "1700000000");
            assert_eq!(b.microtimestamp, "1700000000123456");
            assert_eq!(b.bids.len(), 1);
            assert_eq!(b.bids[0].price, "99.5");
            assert_eq!(b.asks.len(), 2);
            assert_eq!(b.asks[0].price, "100.25");
            assert_eq!(b.asks[0].qty, "0.5");
            assert_eq!(b.asks[1].price, "101");
            assert_eq!(b.asks[1].qty, "2.75");
        }
        _ => panic!("expected a book"),
    }
}

#[test]
fn empty_book_sides_decode() {
    assert!(matches!(decode_data(&book(vec![], vec![])), Ok(Data::Book(b)) if b.asks.is_empty()));
}

#[test]
fn empty_data_is_unrecognized() {
    assert!(matches!(decode_data(&obj(vec![])), Ok(Data::Unrecognized)));
    let e = decode(&envelope(obj(vec![]))).unwrap();
    assert_eq!(e.channel, "order_book_btcusd");
    assert_eq!(e.event, "data");
    assert!(matches!(e.data, Data::Unrecognized));
}

#[test]
fn data_missing_sides_is_unrecognized() {
    let no_asks = obj(vec![
        ("timestamp", s("1")),
        ("microtimestamp", s("2")),
        ("bids", Json::Array(vec![offer("1", "abc")])),
    ]);
    assert!(matches!(decode_data(&no_asks), Ok(Data::Unrecognized)));
    let no_bids = obj(vec![("asks", Json::Array(vec![]))]);
    assert!(matches!(decode_data(&no_bids), Ok(Data::Unrecognized)));
}

#[test]
fn mistyped_fields_are_unrecognized() {
    let numeric_price = book(vec![], vec![obj(vec![("price", Json::Number("1".to_string())), ("qty", s("1"))])]);
    assert!(matches!(decode_data(&numeric_price), Ok(Data::Unrecognized)));
    let asks_not_array = obj(vec![
        ("timestamp", s("1")),
        ("microtimestamp", s("2")),
        ("bids", Json::Array(vec![])),
        ("asks", Json::Null),
    ]);
    assert!(matches!(decode_data(&asks_not_array), Ok(Data::Unrecognized)));
}

#[test]
fn bad_price_fails_decode() {
    let v = book(vec![], vec![offer("1", "2"), offer("abc", "1")]);
    assert!(matches!(decode_data(&v), Err(DecodeError::BadNumber)));
    assert!(matches!(decode(&envelope(v)), Err(DecodeError::BadNumber)));
}

#[test]
fn bad_qty_fails_decode() {
    let v = book(vec![offer("1", "x1")], vec![]);
    assert!(matches!(decode_data(&v), Err(DecodeError::BadNumber)));
}

#[test]
fn malformed_envelopes() {
    assert!(matches!(decode(&Json::Null), Err(DecodeError::Malformed)));
    assert!(matches!(decode(&obj(vec![("channel", s("c")), ("event", s("e"))])), Err(DecodeError::Malformed)));
    assert!(matches!(
        decode(&obj(vec![("channel", s("c")), ("event", Json::Bool(true)), ("data", obj(vec![]))])),
        Err(DecodeError::Malformed)
    ));
    assert!(matches!(decode(&obj(vec![("channel", s("c")), ("event", s("e"))])), Err(DecodeError::Malformed)));
}

#[test]
fn data_that_is_not_an_object_is_unrecognized() {
    for d in [Json::Null, Json::Array(vec![]), s("x"), Json::Number("1".to_string())] {
        let e = decode(&obj(vec![("channel", s("c")), ("event", s("e")), ("data", d)])).unwrap();
        assert!(matches!(e.data, Data::Unrecognized));
    }
}

fn pair(price: &str, qty: &str) -> Json {
    Json::Array(vec![s(price), s(qty)])
}

#[test]
fn pair_offers_decode_in_order() {
    let v = book(vec![pair("99.5", "1")], vec![pair("27123.45", "0.5"), offer("27124", "2")]);
    match decode_data(&v) {
        Ok(Data::Book(b)) => {
            assert_eq!(b.bids.len(), 1);
            assert_eq!(b.bids[0].price, "99.5");
            assert_eq!(b.bids[0].qty, "1");
            assert_eq!(b.asks.len(), 2);
            assert_eq!(b.asks[0].price, "27123.45");
            assert_eq!(b.asks[0].qty, "0.5");
            assert_eq!(b.asks[1].price, "27124");
        }
        _ => panic!("expected a book"),
    }
}

#[test]
fn pair_offer_with_bad_number_fails_decode() {
    let v = book(vec![], vec![pair("1", "2"), pair("1", "abc")]);
    assert!(matches!(decode_data(&v), Err(DecodeError::BadNumber)));
    let v = book(vec![pair("x", "2")], vec![]);
    assert!(matches!(decode(&envelope(v)), Err(DecodeError::BadNumber)));
}

#[test]
fn misshapen_pairs_are_unrecognized() {
    let three = book(vec![], vec![Json::Array(vec![s("1"), s("2"), s("3")])]);
    assert!(matches!(decode_data(&three), Ok(Data::Unrecognized)));
    let one = book(vec![], vec![Json::Array(vec![s("1")])]);
    assert!(matches!(decode_data(&one), Ok(Data::Unrecognized)));
    let numeric = book(vec![], vec![Json::Array(vec![Json::Number("1".to_string()), s("2")])]);
    assert!(matches!(decode_data(&numeric), Ok(Data::Unrecognized)));
    let bad_and_misshapen = book(vec![pair("abc", "1")], vec![Json::Array(vec![])]);
    assert!(matches!(decode_data(&bad_and_misshapen), Ok(Data::Unrecognized)));
}
