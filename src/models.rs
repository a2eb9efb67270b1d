//! The inbound envelope, its order-book payload, and their decoding from a
//! JSON value. The payload has no tag: a value that has the order-book shape is
//! an order book, anything else is unrecognized. A price or quantity whose text
//! is not a floating-point literal fails the whole envelope.

use vstd::prelude::*;
use crate::json::{Json, member, str_member, find_member};
use crate::number::{is_float_literal, float_literal};

verus! {

/// One price level. Both values keep the decimal text they arrived as; a
/// decoded offer holds floating-point literals (`wf`).
pub struct OfferData {
    pub price: String,
    pub qty: String,
}

pub struct Book {
    pub timestamp: String,
    pub microtimestamp: String,
    pub bids: Vec<OfferData>,
    pub asks: Vec<OfferData>,
}

pub enum Data {
    Book(Book),
    Unrecognized,
}

pub struct BitsMap {
    pub channel: String,
    pub event: String,
    pub data: Data,
}

#[derive(Clone, Copy, Debug, PartialEq, Eq, Structural)]
pub enum DecodeError {
    /// The frame's text is not JSON.
    NotJson,
    /// The envelope lacks a string `channel` or `event`, or a `data` member.
    Malformed,
    /// A price or quantity is not a floating-point literal.
    BadNumber,
}

/// The text in position `i` of a pair, when it is a string.
pub open spec fn pair_text(a: Seq<Json>, i: int) -> Option<Seq<char>> {
    if a.len() == 2 && a[i] is Str {
        Some(a[i]->Str_0@)
    } else {
        None
    }
}

/// The price text of an offer, written either as an object with a string
/// `price` or as a pair of strings `[price, qty]`.
pub open spec fn offer_price(v: Json) -> Option<Seq<char>> {
    match v {
        Json::Object(m) => str_member(m@, "price"@),
        Json::Array(a) => pair_text(a@, 0),
        _ => None,
    }
}

/// The quantity text of an offer, in either of its two forms.
pub open spec fn offer_qty(v: Json) -> Option<Seq<char>> {
    match v {
        Json::Object(m) => str_member(m@, "qty"@),
        Json::Array(a) => pair_text(a@, 1),
        _ => None,
    }
}

pub open spec fn offer_shape(v: Json) -> bool {
    offer_price(v) is Some && offer_qty(v) is Some
}

pub open spec fn offer_valid(v: Json) -> bool {
    is_float_literal(offer_price(v)->0) && is_float_literal(offer_qty(v)->0)
}

pub open spec fn offer_from(o: OfferData, v: Json) -> bool {
    o.price@ == offer_price(v)->0 && o.qty@ == offer_qty(v)->0
}

impl OfferData {
    /// Both values are floating-point literals.
    pub open spec fn wf(&self) -> bool {
        is_float_literal(self.price@) && is_float_literal(self.qty@)
    }
}

impl Book {
    /// Every offer on both sides is well formed.
    pub open spec fn wf(&self) -> bool {
        &&& forall|i: int| 0 <= i < self.bids@.len() ==> (#[trigger] self.bids@[i]).wf()
        &&& forall|i: int| 0 <= i < self.asks@.len() ==> (#[trigger] self.asks@[i]).wf()
    }
}

pub open spec fn offers_shape(v: Option<Json>) -> bool {
    match v {
        Some(Json::Array(a)) => forall|i: int| 0 <= i < a@.len() ==> offer_shape(#[trigger] a@[i]),
        _ => false,
    }
}

pub open spec fn offers_valid(v: Option<Json>) -> bool {
    match v {
        Some(Json::Array(a)) => forall|i: int| 0 <= i < a@.len() ==> offer_valid(#[trigger] a@[i]),
        _ => false,
    }
}

pub open spec fn offers_from(os: Seq<OfferData>, v: Option<Json>) -> bool {
    match v {
        Some(Json::Array(a)) => os.len() == a@.len() && forall|i: int|
            0 <= i < a@.len() ==> offer_from(#[trigger] os[i], a@[i]),
        _ => false,
    }
}

/// `v` has the order-book shape: string timestamps, and bids and asks that are
/// arrays of offers, each an object with a string price and a string quantity
/// or a pair of strings.
pub open spec fn book_shape(v: Json) -> bool {
    match v {
        Json::Object(m) => {
            &&& str_member(m@, "timestamp"@) is Some
            &&& str_member(m@, "microtimestamp"@) is Some
            &&& offers_shape(member(m@, "bids"@))
            &&& offers_shape(member(m@, "asks"@))
        },
        _ => false,
    }
}

/// Every price and quantity of the book is a floating-point literal.
pub open spec fn book_valid(v: Json) -> bool {
    match v {
        Json::Object(m) => offers_valid(member(m@, "bids"@)) && offers_valid(member(m@, "asks"@)),
        _ => false,
    }
}

/// `b` holds what the order-book value `v` holds, in the same order.
pub open spec fn book_from(b: Book, v: Json) -> bool {
    match v {
        Json::Object(m) => {
            &&& b.timestamp@ == str_member(m@, "timestamp"@)->0
            &&& b.microtimestamp@ == str_member(m@, "microtimestamp"@)->0
            &&& offers_from(b.bids@, member(m@, "bids"@))
            &&& offers_from(b.asks@, member(m@, "asks"@))
        },
        _ => false,
    }
}

/// What decoding the payload value `v` gives: an order book exactly when `v`
/// has its shape and valid numbers, an error when it has the shape and a bad
/// number, and the unrecognized variant otherwise.
pub open spec fn payload_decoded(r: Result<Data, DecodeError>, v: Json) -> bool {
    match r {
        Ok(Data::Book(b)) => book_shape(v) && book_valid(v) && book_from(b, v) && b.wf(),
        Ok(Data::Unrecognized) => !book_shape(v),
        Err(e) => book_shape(v) && !book_valid(v) && e == DecodeError::BadNumber,
    }
}

/// `v` is an object with a string channel, a string event and a data member.
pub open spec fn envelope_shape(v: Json) -> bool {
    match v {
        Json::Object(m) => {
            &&& str_member(m@, "channel"@) is Some
            &&& str_member(m@, "event"@) is Some
            &&& member(m@, "data"@) is Some
        },
        _ => false,
    }
}

pub open spec fn data_of(v: Json) -> Json {
    match v {
        Json::Object(m) => member(m@, "data"@)->0,
        _ => Json::Null,
    }
}

/// Reads a price or quantity: its text, when the text is a floating-point
/// literal.
pub fn de_float_from_str(text: &str) -> (r: Result<String, DecodeError>)
    ensures
        r is Ok <==> is_float_literal(text@),
        r matches Ok(s) ==> s@ == text@,
        r matches Err(e) ==> e == DecodeError::BadNumber,
{
    if float_literal(text) {
        Ok(String::from_str(text))
    } else {
        Err(DecodeError::BadNumber)
    }
}

fn find_str<'a>(m: &'a Vec<(String, Json)>, key: &str) -> (r: Option<&'a String>)
    ensures
        match r {
            Some(s) => str_member(m@, key@) == Some(s@),
            None => str_member(m@, key@) is None,
        },
{
    match find_member(m, key) {
        Some(Json::Str(s)) => Some(s),
        _ => None,
    }
}

/// One offer: `None` when `v` lacks the offer shape.
fn decode_offer(v: &Json) -> (r: Option<Result<OfferData, DecodeError>>)
    ensures
        r is Some <==> offer_shape(*v),
        r matches Some(Ok(o)) ==> offer_valid(*v) && offer_from(o, *v),
        r matches Some(Err(e)) ==> !offer_valid(*v) && e == DecodeError::BadNumber,
{
    let texts: Option<(&String, &String)> = match v {
        Json::Object(m) => match (find_str(m, "price"), find_str(m, "qty")) {
            (Some(p), Some(q)) => Some((p, q)),
            _ => None,
        },
        Json::Array(a) => {
            if a.len() == 2 {
                match (&a[0], &a[1]) {
                    (Json::Str(p), Json::Str(q)) => Some((p, q)),
                    _ => None,
                }
            } else {
                None
            }
        },
        _ => None,
    };
    match texts {
        Some((p, q)) => {
            let p = de_float_from_str(p.as_str());
            let q = de_float_from_str(q.as_str());
            match (p, q) {
                (Ok(price), Ok(qty)) => Some(Ok(OfferData { price, qty })),
                _ => Some(Err(DecodeError::BadNumber)),
            }
        },
        None => None,
    }
}

pub open spec fn opt_value(v: Option<&Json>) -> Option<Json> {
    match v {
        Some(j) => Some(*j),
        None => None,
    }
}

/// One side of the book: `None` when `v` is not an array of offer-shaped
/// values.
fn decode_offers(v: Option<&Json>) -> (r: Option<Result<Vec<OfferData>, DecodeError>>)
    ensures
        r is Some <==> offers_shape(opt_value(v)),
        r matches Some(Ok(os)) ==> offers_valid(opt_value(v)) && offers_from(
            os@,
            opt_value(v),
        ),
        r matches Some(Err(e)) ==> !offers_valid(opt_value(v)) && e
            == DecodeError::BadNumber,
{
    let a = match v {
        Some(Json::Array(a)) => a,
        _ => {
            return None;
        },
    };
    assert(opt_value(v) == Some(Json::Array(*a)));
    let mut out: Vec<OfferData> = Vec::new();
    let mut bad: bool = false;
    let mut i: usize = 0;
    while i < a.len()
        invariant
            opt_value(v) == Some(Json::Array(*a)),
            i <= a@.len(),
            forall|j: int| 0 <= j < i ==> offer_shape(#[trigger] a@[j]),
            bad <==> exists|j: int| 0 <= j < i && !offer_valid(#[trigger] a@[j]),
            !bad ==> out@.len() == i && forall|j: int|
                0 <= j < i ==> offer_from(#[trigger] out@[j], a@[j]),
        decreases a@.len() - i,
    {
        match decode_offer(&a[i]) {
            None => {
                assert(!offer_shape(a@[i as int]));
                let ghost sj = Some(Json::Array(*a));
                assert(sj matches Some(Json::Array(b)) && b@ == a@);
                return None;
            },
            Some(Ok(o)) => {
                if !bad {
                    out.push(o);
                }
            },
            Some(Err(_)) => {
                bad = true;
            },
        }
        i += 1;
    }
    if bad {
        Some(Err(DecodeError::BadNumber))
    } else {
        Some(Ok(out))
    }
}

/// A book read from a value with valid numbers holds floating-point literals.
proof fn lemma_valid_book_wf(b: Book, v: Json)
    requires
        book_valid(v),
        book_from(b, v),
    ensures
        b.wf(),
{
    let m = v->Object_0;
    let bids = member(m@, "bids"@)->0->Array_0;
    let asks = member(m@, "asks"@)->0->Array_0;
    assert forall|i: int| 0 <= i < b.bids@.len() implies (#[trigger] b.bids@[i]).wf() by {
        assert(offer_from(b.bids@[i], bids@[i]) && offer_valid(bids@[i]));
    }
    assert forall|i: int| 0 <= i < b.asks@.len() implies (#[trigger] b.asks@[i]).wf() by {
        assert(offer_from(b.asks@[i], asks@[i]) && offer_valid(asks@[i]));
    }
}

/// Decodes a payload value: an order book when it has that shape, the
/// unrecognized variant when it has not.
pub fn decode_data(v: &Json) -> (r: Result<Data, DecodeError>)
    ensures
        payload_decoded(r, *v),
{
    let m = match v {
        Json::Object(m) => m,
        _ => {
            return Ok(Data::Unrecognized);
        },
    };
    let timestamp = find_str(m, "timestamp");
    let microtimestamp = find_str(m, "microtimestamp");
    let bids = decode_offers(find_member(m, "bids"));
    let asks = decode_offers(find_member(m, "asks"));
    match (timestamp, microtimestamp, bids, asks) {
        (Some(t), Some(u), Some(bids), Some(asks)) => match (bids, asks) {
            (Ok(bids), Ok(asks)) => {
                let b = Book { timestamp: t.clone(), microtimestamp: u.clone(), bids, asks };
                proof {
                    lemma_valid_book_wf(b, *v);
                }
                Ok(Data::Book(b))
            },
            (_, _) => Err(DecodeError::BadNumber),
        },
        _ => Ok(Data::Unrecognized),
    }
}

/// Decodes an envelope value.
pub fn decode(v: &Json) -> (r: Result<BitsMap, DecodeError>)
    ensures
        match r {
            Ok(e) => {
                &&& envelope_shape(*v)
                &&& e.channel@ == str_member(v->Object_0@, "channel"@)->0
                &&& e.event@ == str_member(v->Object_0@, "event"@)->0
                &&& payload_decoded(Ok(e.data), data_of(*v))
            },
            Err(DecodeError::Malformed) => !envelope_shape(*v),
            Err(DecodeError::NotJson) => false,
            Err(DecodeError::BadNumber) => envelope_shape(*v) && payload_decoded(
                Err(DecodeError::BadNumber),
                data_of(*v),
            ),
        },
{
    let m = match v {
        Json::Object(m) => m,
        _ => {
            return Err(DecodeError::Malformed);
        },
    };
    let channel = find_str(m, "channel");
    let event = find_str(m, "event");
    let data = find_member(m, "data");
    match (channel, event, data) {
        (Some(c), Some(e), Some(d)) => {
            match decode_data(d) {
                Ok(data) => Ok(BitsMap { channel: c.clone(), event: e.clone(), data }),
                Err(err) => Err(err),
            }
        },
        _ => Err(DecodeError::Malformed),
    }
}

/// A payload object that lacks `bids` or `asks` (the empty object among them)
/// decodes to the unrecognized variant, never to an error.
pub proof fn payload_without_sides_is_unrecognized(data: Json, r: Result<Data, DecodeError>)
    requires
        data matches Json::Object(m) && (member(m@, "bids"@) is None || member(m@, "asks"@) is None),
        payload_decoded(r, data),
    ensures
        r matches Ok(Data::Unrecognized),
{
}

/// An offer of an order book whose price or quantity is not a
/// floating-point literal fails the decoding of the whole payload.
pub proof fn bad_offer_fails_payload(
    data: Json,
    side: Seq<char>,
    i: int,
    r: Result<Data, DecodeError>,
)
    requires
        book_shape(data),
        side == "bids"@ || side == "asks"@,
        data matches Json::Object(m) && member(m@, side) matches Some(Json::Array(a)) && 0 <= i
            < a@.len() && !offer_valid(a@[i]),
        payload_decoded(r, data),
    ensures
        r == Err::<Data, DecodeError>(DecodeError::BadNumber),
{
}

} // verus!
