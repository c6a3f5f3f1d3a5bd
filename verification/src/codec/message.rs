//! The message codec: the line codec composed with the grammar. Codec
//! failures tear the connection down; grammar failures ride inside a
//! successful frame so the session can answer them.
use vstd::prelude::*;
use crate::codec::line::{LineCodec, encoding_for_label, decode_chars, encode_bytes};
use crate::error::{ProtocolError, ProtocolErrorV};
use crate::message::{Message, MessageV, parse_message, message_text};
use crate::text::find_crlf;

verus! {

/// The line budget of a protocol message, terminator included.
pub const MESSAGE_LINE_LENGTH: usize = 512;

/// A codec that frames whole messages.
pub struct MessageCodec {
    pub inner: LineCodec,
}

impl MessageCodec {
    /// A message codec over the encoding `label` names, with the
    /// default line budget.
    pub fn new(label: &str) -> (r: Result<MessageCodec, ProtocolError>)
        ensures
            match r {
                Ok(c) => encoding_for_label(label@) == Some(c.inner.encoding)
                    && c.inner.next_index == 0 && c.inner.max_length == MESSAGE_LINE_LENGTH,
                Err(e) => encoding_for_label(label@) is None && e@
                    == ProtocolErrorV::UnsupportedEncoding(label@),
            },
    {
        match LineCodec::new(label, MESSAGE_LINE_LENGTH) {
            Ok(inner) => Ok(MessageCodec { inner }),
            Err(e) => Err(e),
        }
    }

    /// Takes one frame off `src` as the line codec does, and parses it.
    /// A parse failure is not fatal: it comes back inside the
    /// successful frame.
    pub fn decode(&mut self, src: &mut Vec<u8>) -> (r: Result<
        Option<Result<Message, ProtocolError>>,
        ProtocolError,
    >)
        ensures
            ({
                let buf = old(src)@;
                let window = if old(self).inner.max_length + 1 < buf.len() {
                    old(self).inner.max_length + 1
                } else {
                    buf.len() as int
                };
                &&& final(self).inner.encoding == old(self).inner.encoding
                &&& final(self).inner.max_length == old(self).inner.max_length
                &&& if buf.len() == 0 {
                    r == Ok::<Option<Result<Message, ProtocolError>>, ProtocolError>(None)
                        && final(src)@ == buf
                } else {
                    match find_crlf(buf, old(self).inner.next_index as int, window) {
                        Some(i) => {
                            let text = decode_chars(old(self).inner.encoding, buf.subrange(0, i));
                            &&& match r {
                                Ok(Some(Ok(m))) => parse_message(text) == Ok::<
                                    MessageV,
                                    ProtocolErrorV,
                                >(m@),
                                Ok(Some(Err(e))) => parse_message(text) == Err::<
                                    MessageV,
                                    ProtocolErrorV,
                                >(e@),
                                _ => false,
                            }
                            &&& final(src)@ == buf.subrange(i + 2, buf.len() as int)
                            &&& final(self).inner.next_index == 0
                        },
                        None => {
                            if buf.len() > old(self).inner.max_length {
                                &&& r == Err::<Option<Result<Message, ProtocolError>>, ProtocolError>(
                                    ProtocolError::MaxLineLengthExceeded,
                                )
                                &&& final(src)@ == Seq::<u8>::empty()
                                &&& final(self).inner.next_index == 0
                            } else {
                                &&& r == Ok::<Option<Result<Message, ProtocolError>>, ProtocolError>(
                                    None,
                                )
                                &&& final(src)@ == buf
                                &&& final(self).inner.next_index == buf.len()
                            }
                        },
                    }
                }
            }),
    {
        match self.inner.decode(src) {
            Ok(Some(val)) => Ok(Some(Message::from_str(val.as_str()))),
            Ok(None) => Ok(None),
            Err(e) => Err(e),
        }
    }

    /// Writes the message's wire text and frames it through the line
    /// codec.
    pub fn encode(&mut self, item: Message, dst: &mut Vec<u8>) -> (r: Result<(), ProtocolError>)
        requires
            old(self).inner.max_length >= 2,
        ensures
            *final(self) == *old(self),
            ({
                let bytes = encode_bytes(old(self).inner.encoding, message_text(item@));
                let payload = match find_crlf(bytes, 0, bytes.len() as int) {
                    Some(n) => bytes.subrange(0, n),
                    None => bytes,
                };
                if payload.len() > old(self).inner.max_length - 2 {
                    r == Err::<(), ProtocolError>(ProtocolError::MaxLineLengthExceeded)
                        && final(dst)@ == old(dst)@
                } else {
                    r == Ok::<(), ProtocolError>(()) && final(dst)@ == old(dst)@ + payload + seq![
                        13u8,
                        10u8,
                    ]
                }
            }),
    {
        let text = item.to_text();
        self.inner.encode(text, dst)
    }
}

} // verus!
