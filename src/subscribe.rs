//! The subscribe request: the channel of a market is a fixed prefix followed by
//! the market's symbol in lower case, and the request is one JSON text naming
//! that channel.

use vstd::prelude::*;

verus! {

/// The lower-case form of a text, as `str::to_lowercase` gives it.
pub uninterp spec fn lower_of(s: Seq<char>) -> Seq<char>;

pub open spec fn hex_digit(n: u32) -> char
    recommends
        n < 16,
{
    seq!['0', '1', '2', '3', '4', '5', '6', '7', '8', '9', 'a', 'b', 'c', 'd', 'e', 'f'][n as int]
}

/// How one character stands inside a JSON string literal: the quote and the
/// backslash behind a backslash, the usual control characters by their
/// letter, other control characters as `\u00xx`, every other character as
/// itself.
pub open spec fn escape_char(c: char) -> Seq<char> {
    if c == '"' {
        seq!['\\', '"']
    } else if c == '\\' {
        seq!['\\', '\\']
    } else if c == '\u{8}' {
        seq!['\\', 'b']
    } else if c == '\t' {
        seq!['\\', 't']
    } else if c == '\n' {
        seq!['\\', 'n']
    } else if c == '\u{c}' {
        seq!['\\', 'f']
    } else if c == '\r' {
        seq!['\\', 'r']
    } else if (c as u32) < 0x20 {
        seq!['\\', 'u', '0', '0', hex_digit((c as u32) / 16), hex_digit((c as u32) % 16)]
    } else {
        seq![c]
    }
}

pub open spec fn escaped(s: Seq<char>) -> Seq<char>
    decreases s.len(),
{
    if s.len() == 0 {
        Seq::empty()
    } else {
        escape_char(s[0]) + escaped(s.drop_first())
    }
}

/// A text written as one JSON string literal: quoted, with each character
/// escaped as needed.
pub open spec fn json_string_of(s: Seq<char>) -> Seq<char> {
    seq!['"'] + escaped(s) + seq!['"']
}

/// Relies on `str::to_lowercase`: the lower-case form depends on the
/// characters alone.
#[verifier::external_body]
fn lowercase(s: &str) -> (r: String)
    ensures
        r@ == lower_of(s@),
{
    s.to_lowercase()
}

/// Relies on `serde_json::to_string` on a `str`: the quoted string literal,
/// escaped by serde_json's table. Serialising a `str` into the `Vec` it
/// writes to does not fail.
#[verifier::external_body]
fn json_string(s: &str) -> (r: String)
    ensures
        r@ == json_string_of(s@),
{
    serde_json::to_string(s).unwrap_or_default()
}

pub open spec fn channel_prefix() -> Seq<char> {
    "order_book_"@
}

/// The channel of the market whose symbol is `symbol`.
pub open spec fn channel_of(symbol: Seq<char>) -> Seq<char> {
    channel_prefix() + lower_of(symbol)
}

/// The subscribe request for the channel whose JSON string literal is
/// `quoted`.
pub open spec fn subscribe_text(quoted: Seq<char>) -> Seq<char> {
    "{\"event\":\"bts:subscribe\",\"data\":{\"channel\":"@ + quoted + "}}"@
}

/// The channel named by an already lower-cased symbol.
pub fn channel_for_lowered(lowered: &str) -> (r: String)
    ensures
        r@ == channel_prefix() + lowered@,
{
    String::from_str("order_book_").concat(lowered)
}

/// The channel of the market `symbol`: the prefix, then the symbol in lower
/// case, with no other change.
pub fn channel_name(symbol: &str) -> (r: String)
    ensures
        r@ == channel_of(symbol@),
{
    let lowered = lowercase(symbol);
    channel_for_lowered(lowered.as_str())
}

/// The subscribe request around a channel's JSON string literal.
pub fn subscribe_frame(quoted: &str) -> (r: String)
    ensures
        r@ == subscribe_text(quoted@),
{
    String::from_str("{\"event\":\"bts:subscribe\",\"data\":{\"channel\":").concat(quoted).concat(
        "}}",
    )
}

/// The subscribe request for the market `symbol`.
pub fn subscribe_request(symbol: &str) -> (r: String)
    ensures
        r@ == subscribe_text(json_string_of(channel_of(symbol@))),
{
    let channel = channel_name(symbol);
    let quoted = json_string(channel.as_str());
    subscribe_frame(quoted.as_str())
}

} // verus!
