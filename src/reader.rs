//! What the reader loop does with each inbound frame, and a run of the loop
//! over a sequence of frames. The loop ends at a close frame or at the first
//! frame that fails to decode; a ping is answered with an empty pong queued for
//! the writer.

use vstd::prelude::*;
use crate::json::{Json, member, str_member};
use crate::models::{
    BitsMap, Book, Data, DecodeError, decode, envelope_shape, book_shape, book_valid, book_from,
    data_of, offer_from, offer_price, offer_qty,
};

verus! {

/// The most ask levels shown for one book.
pub const MAX_ASK_LINES: usize = 10;

pub enum Frame {
    /// A text frame: its JSON value, or `None` when the text is not JSON.
    Text(Option<Json>),
    Binary(Vec<u8>),
    Ping(Vec<u8>),
    Pong(Vec<u8>),
    Close,
    /// A raw frame of any other kind.
    Other,
}

pub enum Action {
    /// Show the book's best asks.
    ShowBook(Book),
    /// Log an envelope that carries no order book.
    ShowUnrecognized(BitsMap),
    /// Queue this pong frame's payload for the writer.
    ReplyPong(Vec<u8>),
    NotePong,
    /// Leave the loop without error.
    Stop,
    NoteUnexpected,
    /// Leave the loop with this error.
    Fail(DecodeError),
}

/// One shown ask level: its position in the book and its values.
pub struct AskLine {
    pub index: usize,
    pub price: String,
    pub qty: String,
}

pub open spec fn shown_count(n: nat) -> nat {
    if n < MAX_ASK_LINES {
        n
    } else {
        MAX_ASK_LINES as nat
    }
}

/// The shown lines are the first asks, in the book's order.
pub open spec fn ask_lines_of(lines: Seq<AskLine>, book: Book) -> bool {
    &&& lines.len() == shown_count(book.asks@.len())
    &&& forall|i: int|
        0 <= i < lines.len() ==> {
            &&& (#[trigger] lines[i]).index == i
            &&& lines[i].price@ == book.asks@[i].price@
            &&& lines[i].qty@ == book.asks@[i].qty@
        }
}

/// The lines that show a book: at most ten, the first asks in order.
pub fn render_asks(book: &Book) -> (r: Vec<AskLine>)
    ensures
        ask_lines_of(r@, *book),
{
    let n = if book.asks.len() < MAX_ASK_LINES {
        book.asks.len()
    } else {
        MAX_ASK_LINES
    };
    let mut r: Vec<AskLine> = Vec::new();
    let mut i: usize = 0;
    while i < n
        invariant
            n == shown_count(book.asks@.len()),
            i <= n,
            r@.len() == i,
            forall|j: int|
                0 <= j < i ==> {
                    &&& (#[trigger] r@[j]).index == j
                    &&& r@[j].price@ == book.asks@[j].price@
                    &&& r@[j].qty@ == book.asks@[j].qty@
                },
        decreases n - i,
    {
        let a = &book.asks[i];
        r.push(AskLine { index: i, price: a.price.clone(), qty: a.qty.clone() });
        i += 1;
    }
    r
}

/// `r` is what the loop does with the text frame holding `j`.
pub open spec fn text_action(j: Json, r: Action) -> bool {
    let d = data_of(j);
    if !envelope_shape(j) {
        r == Action::Fail(DecodeError::Malformed)
    } else if !book_shape(d) {
        &&& r matches Action::ShowUnrecognized(m)
        &&& m.channel@ == str_member(j->Object_0@, "channel"@)->0
        &&& m.event@ == str_member(j->Object_0@, "event"@)->0
        &&& m.data is Unrecognized
    } else if !book_valid(d) {
        r == Action::Fail(DecodeError::BadNumber)
    } else {
        r matches Action::ShowBook(b) && book_from(b, d) && b.wf()
    }
}

/// `r` is what the loop does with frame `f`.
pub open spec fn frame_action(f: Frame, r: Action) -> bool {
    match f {
        Frame::Text(None) => r == Action::Fail(DecodeError::NotJson),
        Frame::Text(Some(j)) => text_action(j, r),
        Frame::Ping(_) => r matches Action::ReplyPong(p) && p@.len() == 0,
        Frame::Pong(_) => r is NotePong,
        Frame::Close => r is Stop,
        Frame::Binary(_) | Frame::Other => r is NoteUnexpected,
    }
}

/// How frame `f` ends the loop, if it does.
pub open spec fn frame_end(f: Frame) -> Option<Result<(), DecodeError>> {
    match f {
        Frame::Text(None) => Some(Err(DecodeError::NotJson)),
        Frame::Text(Some(j)) => if !envelope_shape(j) {
            Some(Err(DecodeError::Malformed))
        } else if book_shape(data_of(j)) && !book_valid(data_of(j)) {
            Some(Err(DecodeError::BadNumber))
        } else {
            None
        },
        Frame::Close => Some(Ok(())),
        _ => None,
    }
}

/// Decides what to do with one inbound frame.
pub fn handle_frame(frame: &Frame) -> (r: Action)
    ensures
        frame_action(*frame, r),
{
    match frame {
        Frame::Text(None) => Action::Fail(DecodeError::NotJson),
        Frame::Text(Some(j)) => match decode(j) {
            Ok(m) => match m.data {
                Data::Book(b) => Action::ShowBook(b),
                Data::Unrecognized => Action::ShowUnrecognized(m),
            },
            Err(e) => Action::Fail(e),
        },
        Frame::Ping(_) => Action::ReplyPong(Vec::new()),
        Frame::Pong(_) => Action::NotePong,
        Frame::Close => Action::Stop,
        Frame::Binary(_) => Action::NoteUnexpected,
        Frame::Other => Action::NoteUnexpected,
    }
}

/// The number of frames the loop takes in before it ends.
pub open spec fn frames_taken(fs: Seq<Frame>) -> nat
    decreases fs.len(),
{
    if fs.len() == 0 {
        0
    } else if frame_end(fs[0]) is Some {
        1
    } else {
        1 + frames_taken(fs.drop_first())
    }
}

/// The number of pongs the loop queues before it ends.
pub open spec fn pongs_queued(fs: Seq<Frame>) -> nat
    decreases fs.len(),
{
    if fs.len() == 0 {
        0
    } else if frame_end(fs[0]) is Some {
        0
    } else {
        (if fs[0] is Ping { 1nat } else { 0nat }) + pongs_queued(fs.drop_first())
    }
}

/// How the loop ends: without error when the frames run out or a close frame
/// comes, with the error of the first frame that fails otherwise.
pub open spec fn run_outcome(fs: Seq<Frame>) -> Result<(), DecodeError>
    decreases fs.len(),
{
    if fs.len() == 0 {
        Ok(())
    } else if let Some(end) = frame_end(fs[0]) {
        end
    } else {
        run_outcome(fs.drop_first())
    }
}

/// What one run of the loop did.
pub struct Session {
    /// How many frames were taken in.
    pub taken: usize,
    /// What was done with each frame taken in.
    pub actions: Vec<Action>,
    /// The payloads of the pong frames queued for the writer, in order.
    pub queued: Vec<Vec<u8>>,
    pub outcome: Result<(), DecodeError>,
}

proof fn lemma_action_ends(f: Frame, r: Action)
    requires
        frame_action(f, r),
    ensures
        frame_end(f) == match r {
            Action::Stop => Some(Ok(())),
            Action::Fail(e) => Some(Err(e)),
            _ => None::<Result<(), DecodeError>>,
        },
        r is ReplyPong <==> f is Ping,
{
}

/// Runs the loop over `frames`, in order, until it ends.
pub fn run(frames: &Vec<Frame>) -> (s: Session)
    ensures
        s.taken == frames_taken(frames@),
        s.actions@.len() == s.taken,
        forall|i: int| 0 <= i < s.taken ==> frame_action(frames@[i], #[trigger] s.actions@[i]),
        s.queued@.len() == pongs_queued(frames@),
        forall|i: int| 0 <= i < s.queued@.len() ==> (#[trigger] s.queued@[i])@.len() == 0,
        s.outcome == run_outcome(frames@),
{
    let ghost fs = frames@;
    let mut actions: Vec<Action> = Vec::new();
    let mut queued: Vec<Vec<u8>> = Vec::new();
    let mut i: usize = 0;
    assert(fs.skip(0) =~= fs);
    while i < frames.len()
        invariant
            fs == frames@,
            i <= fs.len(),
            actions@.len() == i,
            forall|j: int| 0 <= j < i ==> frame_action(fs[j], #[trigger] actions@[j]),
            frames_taken(fs) == i + frames_taken(fs.skip(i as int)),
            pongs_queued(fs) == queued@.len() + pongs_queued(fs.skip(i as int)),
            forall|j: int| 0 <= j < queued@.len() ==> (#[trigger] queued@[j])@.len() == 0,
            run_outcome(fs) == run_outcome(fs.skip(i as int)),
        decreases fs.len() - i,
    {
        let ghost rest = fs.skip(i as int);
        assert(rest[0] == fs[i as int]);
        assert(rest.drop_first() =~= fs.skip(i + 1));
        let a = handle_frame(&frames[i]);
        proof {
            lemma_action_ends(fs[i as int], a);
        }
        let end: Option<Result<(), DecodeError>> = match &a {
            Action::Stop => Some(Ok(())),
            Action::Fail(e) => Some(Err(*e)),
            Action::ReplyPong(p) => {
                queued.push(p.clone());
                None
            },
            _ => None,
        };
        actions.push(a);
        i += 1;
        if let Some(outcome) = end {
            return Session { taken: i, actions, queued, outcome };
        }
    }
    assert(fs.skip(i as int).len() == 0);
    Session { taken: i, actions, queued, outcome: Ok(()) }
}

/// A ping followed by a close: the loop queues exactly one pong, with an empty
/// payload, takes in those two frames and no more, and ends without error.
pub proof fn ping_then_close_queues_one_pong(fs: Seq<Frame>)
    requires
        fs.len() >= 2,
        fs[0] is Ping,
        fs[1] is Close,
    ensures
        frames_taken(fs) == 2,
        pongs_queued(fs) == 1,
        run_outcome(fs) == Ok::<(), DecodeError>(()),
{
    let rest = fs.drop_first();
    assert(rest[0] == fs[1]);
    assert(frames_taken(rest) == 1);
    assert(pongs_queued(rest) == 0);
    assert(run_outcome(rest) == Ok::<(), DecodeError>(()));
}

/// The lines shown for a decoded order-book payload with N asks are exactly
/// min(N, 10), each with its position and the ask's price and quantity text,
/// in the payload's order.
pub proof fn shown_lines_follow_payload(data: Json, b: Book, lines: Seq<AskLine>)
    requires
        book_from(b, data),
        ask_lines_of(lines, b),
    ensures
        data matches Json::Object(m) && member(m@, "asks"@) matches Some(Json::Array(a)) && {
            &&& lines.len() == shown_count(a@.len())
            &&& forall|i: int|
                0 <= i < lines.len() ==> {
                    &&& (#[trigger] lines[i]).index == i
                    &&& lines[i].price@ == offer_price(a@[i])->0
                    &&& lines[i].qty@ == offer_qty(a@[i])->0
                }
        },
{
    let m = data->Object_0;
    let a = member(m@, "asks"@)->0->Array_0;
    assert forall|i: int| 0 <= i < lines.len() implies offer_from(#[trigger] b.asks@[i], a@[i]) by {}
}

} // verus!
