//! The framed codecs: CRLF line framing below, message grammar above.

pub mod line;
pub mod message;
