//! The protocol-level error taxonomy. Fatal errors tear the connection
//! down; the rest are turned into numeric replies in-band.
use vstd::prelude::*;

verus! {

/// Everything that can go wrong between the wire and the command
/// dispatcher.
#[derive(Debug, PartialEq)]
pub enum ProtocolError {
    /// A transport-level failure, with its description.
    Io(String),
    /// The requested character encoding label is not known.
    UnsupportedEncoding(String),
    /// A line ran past the configured budget, on either path.
    MaxLineLengthExceeded,
    /// An empty line reached the grammar.
    EmptyMessage,
    /// A line held a prefix but no command token.
    InvalidCommand,
    /// A known verb came with too few (or too many) arguments.
    NotEnoughArguments(String),
    /// A verb the grammar does not know.
    UnknownCommand(String),
    /// An argument did not parse (a malformed hop count, a bad list).
    ParseError,
    /// The peer stopped answering keepalive probes.
    PingTimeout,
    /// An outbound queue was closed.
    SendError,
}

/// The mathematical shape of a `ProtocolError`.
pub enum ProtocolErrorV {
    Io(Seq<char>),
    UnsupportedEncoding(Seq<char>),
    MaxLineLengthExceeded,
    EmptyMessage,
    InvalidCommand,
    NotEnoughArguments(Seq<char>),
    UnknownCommand(Seq<char>),
    ParseError,
    PingTimeout,
    SendError,
}

impl View for ProtocolError {
    type V = ProtocolErrorV;

    open spec fn view(&self) -> ProtocolErrorV {
        match self {
            ProtocolError::Io(s) => ProtocolErrorV::Io(s@),
            ProtocolError::UnsupportedEncoding(s) => ProtocolErrorV::UnsupportedEncoding(s@),
            ProtocolError::MaxLineLengthExceeded => ProtocolErrorV::MaxLineLengthExceeded,
            ProtocolError::EmptyMessage => ProtocolErrorV::EmptyMessage,
            ProtocolError::InvalidCommand => ProtocolErrorV::InvalidCommand,
            ProtocolError::NotEnoughArguments(s) => ProtocolErrorV::NotEnoughArguments(s@),
            ProtocolError::UnknownCommand(s) => ProtocolErrorV::UnknownCommand(s@),
            ProtocolError::ParseError => ProtocolErrorV::ParseError,
            ProtocolError::PingTimeout => ProtocolErrorV::PingTimeout,
            ProtocolError::SendError => ProtocolErrorV::SendError,
        }
    }
}

/// The errors the message parser alone can report.
pub enum MessageParseError {
    EmptyMessage,
    InvalidCommand,
    ParseFailed(String),
}

} // verus!
