//! The keepalive decisions of a connection: which incoming messages the
//! transport swallows, what it sends back, and when a silent peer times
//! out. The timers and the socket live outside; they hand in what fired
//! and perform what comes back.
use vstd::prelude::*;
use crate::command::{Command, CommandV};
use crate::error::{ProtocolError, ProtocolErrorV};
use crate::message::{Message, MessageContents, MessageContentsV};

verus! {

/// The failure a pinger can raise.
pub enum PingerError {
    PingTimeout,
}

/// What the pinger decides about one incoming message.
pub enum PingerVerdict {
    /// The message was a probe: answer it and do not deliver it.
    Answer(Message),
    /// The message settled a pending probe: do not deliver it.
    Swallow,
    /// Not the pinger's business: deliver it upstream.
    Deliver,
}

/// The mathematical shape of a `PingerVerdict`.
pub enum PingerVerdictV {
    Answer(crate::message::MessageV),
    Swallow,
    Deliver,
}

impl View for PingerVerdict {
    type V = PingerVerdictV;

    open spec fn view(&self) -> PingerVerdictV {
        match self {
            PingerVerdict::Answer(m) => PingerVerdictV::Answer(m@),
            PingerVerdict::Swallow => PingerVerdictV::Swallow,
            PingerVerdict::Deliver => PingerVerdictV::Deliver,
        }
    }
}

/// The keepalive state of one connection: whether probing is on, and
/// whether a probe is in flight with its answer deadline armed.
pub struct Pinger {
    pub enabled: bool,
    pub deadline_armed: bool,
}

impl Pinger {
    /// A fresh pinger: probing on, no probe in flight.
    pub fn new() -> (r: Pinger)
        ensures
            r.enabled,
            !r.deadline_armed,
    {
        Pinger { enabled: true, deadline_armed: false }
    }

    /// Inspects one incoming message. An incoming `PING` is answered
    /// with a `PONG` carrying the same token and swallowed; any
    /// incoming `PONG` disarms the deadline and is swallowed;
    /// everything else passes through untouched.
    pub fn handle_message(&mut self, message: &Message) -> (r: PingerVerdict)
        ensures
            final(self).enabled == old(self).enabled,
            match message@.contents {
                MessageContentsV::Command(CommandV::PING(data, _)) => {
                    &&& final(self).deadline_armed == old(self).deadline_armed
                    &&& r@ matches PingerVerdictV::Answer(m) && m.prefix is None && m.contents
                        == MessageContentsV::Command(CommandV::PONG(data, None))
                },
                MessageContentsV::Command(CommandV::PONG(_, _)) => {
                    &&& !final(self).deadline_armed
                    &&& r@ == PingerVerdictV::Swallow
                },
                _ => {
                    &&& final(self).deadline_armed == old(self).deadline_armed
                    &&& r@ == PingerVerdictV::Deliver
                },
            },
    {
        match &message.contents {
            MessageContents::Command(Command::PING(data, _)) => {
                let pong = Message::from_command(Command::PONG(data.clone(), None));
                PingerVerdict::Answer(pong)
            },
            MessageContents::Command(Command::PONG(_, _)) => {
                self.deadline_armed = false;
                PingerVerdict::Swallow
            },
            _ => PingerVerdict::Deliver,
        }
    }

    /// One timer tick. A fired deadline is fatal; otherwise a fired
    /// probe interval, with probing on, sends a `PING` carrying the
    /// server's name and arms the deadline if it was not armed yet.
    pub fn poll(&mut self, deadline_fired: bool, interval_fired: bool, server_name: String) -> (r:
        Result<Option<Message>, ProtocolError>)
        ensures
            final(self).enabled == old(self).enabled,
            if old(self).deadline_armed && deadline_fired {
                &&& r == Err::<Option<Message>, ProtocolError>(ProtocolError::PingTimeout)
                &&& final(self).deadline_armed == old(self).deadline_armed
            } else if interval_fired && old(self).enabled {
                &&& match r {
                    Ok(Some(m)) => m@.prefix is None && m@.contents == MessageContentsV::Command(
                        CommandV::PING(server_name@, None),
                    ),
                    _ => false,
                }
                &&& final(self).deadline_armed
            } else {
                &&& r == Ok::<Option<Message>, ProtocolError>(None)
                &&& final(self).deadline_armed == old(self).deadline_armed
            },
    {
        if self.deadline_armed && deadline_fired {
            return Err(ProtocolError::PingTimeout);
        }
        if interval_fired && self.enabled {
            self.deadline_armed = true;
            let ping = Message::from_command(Command::PING(server_name, None));
            return Ok(Some(ping));
        }
        Ok(None)
    }
}

} // verus!
