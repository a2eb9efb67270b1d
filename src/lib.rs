//! A streaming client core for an order-book feed: the wire model of the
//! messages, their decoding, the subscribe request and the per-frame decisions
//! of the reader loop.

pub mod json;
pub mod models;
pub mod number;
pub mod reader;
pub mod subscribe;
