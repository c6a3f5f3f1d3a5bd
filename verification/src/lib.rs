//! The verified core of a line-oriented chat server speaking the IRC
//! wire protocol: the CRLF line codec with its pluggable single-byte
//! encodings, the message grammar and its typed command and reply
//! model, the keepalive state machine, the shared registries of
//! nicknames, clients and channels, and the per-connection session.
//! The sockets, timers and configuration files around it live in the
//! accompanying program.
use vstd::prelude::*;

mod channel;
mod client;
pub mod codec;
mod command;
mod config;
pub mod encodings;
mod error;
mod message;
mod modes;
mod prefix;
mod reply;
mod state;
pub mod text;
mod transport;

pub use channel::Channel;
pub use channel::ChannelError;
pub use channel::ChannelUser;
pub use channel::ChannelUserV;
pub use client::Client;
pub use client::ClientData;
pub use client::ClientError;
pub use command::Command;
pub use command::CommandV;
pub use config::Config;
pub use config::ListenConfig;
pub use config::def_false;
pub use error::MessageParseError;
pub use error::ProtocolError;
pub use error::ProtocolErrorV;
pub use message::Message;
pub use message::MessageContents;
pub use message::MessageContentsV;
pub use message::MessageV;
pub use modes::ChannelMode;
pub use modes::UserMode;
pub use prefix::Prefix;
pub use prefix::PrefixV;
pub use reply::Reply;
pub use reply::ReplyV;
pub use state::ServerClient;
pub use state::ServerError;
pub use state::ServerState;
pub use transport::Pinger;
pub use transport::PingerError;
pub use transport::PingerVerdict;
pub use transport::PingerVerdictV;

verus! {

} // verus!
