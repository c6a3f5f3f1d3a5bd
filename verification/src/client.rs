//! The per-connection session: its registration state, and how each
//! incoming command moves the shared registries and what it answers.
//! The socket, the timers and the outbound queue live outside; they
//! feed messages in and carry the returned messages out.
use vstd::prelude::*;
use crate::command::{Command, CommandV};
use crate::error::{ProtocolError, ProtocolErrorV};
use crate::message::{Message, MessageV, MessageContents, MessageContentsV};
use crate::reply::{Reply, ReplyV};
use crate::state::{ServerState, find_client, join_fold, channel_views, replies_views};

verus! {

/// Why a session ends.
#[derive(Debug)]
pub enum ClientError {
    /// A protocol failure that the session cannot answer in-band.
    Protocol(ProtocolError),
    /// The peer went away.
    StreamClosed,
}

/// The registration-relevant pieces of a session, on their own.
pub struct ClientData {
    pub nick: String,
    pub uuid: u128,
}

impl ClientData {
    /// An unregistered session: no nickname, nil identifier.
    pub fn new() -> (r: ClientData)
        ensures
            r.nick@.len() == 0,
            r.uuid == 0,
    {
        ClientData { nick: String::new(), uuid: 0 }
    }
}

/// One connection's session: who the peer is and how far registration
/// has come. A nil identifier means the client is not registered yet.
pub struct Client {
    pub addr: String,
    pub nick: String,
    pub hostname: String,
    pub username: String,
    pub realname: String,
    pub uuid: u128,
}

/// The message-of-the-day block: the start marker, one line per banner
/// line, the end marker.
pub open spec fn motd_messages(server_name: Seq<char>, motd: Seq<String>) -> Seq<MessageV> {
    seq![
        MessageV {
            prefix: None,
            contents: MessageContentsV::Reply(ReplyV::MotdStart(server_name)),
        },
    ] + Seq::new(
        motd.len(),
        |i: int|
            MessageV { prefix: None, contents: MessageContentsV::Reply(ReplyV::Motd(motd[i]@)) },
    ) + seq![MessageV { prefix: None, contents: MessageContentsV::Reply(ReplyV::MotdEnd) }]
}

/// A reply wrapped as an unprefixed message.
pub open spec fn reply_message(r: ReplyV) -> MessageV {
    MessageV { prefix: None, contents: MessageContentsV::Reply(r) }
}

impl Client {
    /// A fresh, unregistered session for a peer at `addr`.
    pub fn new(addr: String) -> (r: Client)
        ensures
            r.addr@ == addr@,
            r.nick@.len() == 0,
            r.hostname@.len() == 0,
            r.username@.len() == 0,
            r.realname@.len() == 0,
            r.uuid == 0,
    {
        Client {
            addr,
            nick: String::new(),
            hostname: String::new(),
            username: String::new(),
            realname: String::new(),
            uuid: 0,
        }
    }

    /// The peer's address, as text.
    pub fn address(&self) -> (r: String)
        ensures
            r@ == self.addr@,
    {
        self.addr.clone()
    }

    /// Stores the resolved hostname.
    pub fn set_hostname(&mut self, hostname: String)
        ensures
            final(self).hostname@ == hostname@,
            final(self).addr == old(self).addr,
            final(self).nick == old(self).nick,
            final(self).username == old(self).username,
            final(self).realname == old(self).realname,
            final(self).uuid == old(self).uuid,
    {
        self.hostname = hostname;
    }

    /// The notice this session is sent: addressed to its nickname, or
    /// to `*` before one is set.
    pub fn send_notice(&self, message: String) -> (r: Message)
        ensures
            r@.prefix is None,
            r@.contents == MessageContentsV::Command(
                CommandV::NOTICE(
                    if self.nick@.len() == 0 {
                        "*"@
                    } else {
                        self.nick@
                    },
                    message@,
                ),
            ),
    {
        if self.nick.as_str().unicode_len() == 0 {
            Message::from_command(Command::NOTICE(String::from_str("*"), message))
        } else {
            Message::from_command(Command::NOTICE(self.nick.clone(), message))
        }
    }

    /// The message-of-the-day sequence this session is sent.
    pub fn send_motd(&self, server_name: String, motd: &Vec<String>) -> (r: Vec<Message>)
        ensures
            r.deep_view() == motd_messages(server_name@, motd@),
    {
        let ghost spec_out = motd_messages(server_name@, motd@);
        let mut out: Vec<Message> = Vec::new();
        out.push(Message::from_reply(Reply::MotdStart(server_name)));
        let mut i: usize = 0;
        while i < motd.len()
            invariant
                i <= motd@.len(),
                spec_out == motd_messages(server_name@, motd@),
                spec_out.len() == motd@.len() + 2,
                out@.len() == i + 1,
                forall|j: int| 0 <= j < i + 1 ==> (#[trigger] out@[j])@ == spec_out[j],
            decreases motd@.len() - i,
        {
            out.push(Message::from_reply(Reply::Motd(motd[i].clone())));
            i = i + 1;
        }
        out.push(Message::from_reply(Reply::MotdEnd));
        proof {
            assert(out.deep_view() =~~= spec_out);
        }
        out
    }

    /// A NICK command: claims the nickname in the shared state; a
    /// taken nickname is answered with the collision numeric.
    pub fn handle_nick_message(
        &mut self,
        server: &mut ServerState,
        nick: String,
        hops: Option<i32>,
    ) -> (r: Result<(), Reply>)
        ensures
            final(self).uuid == old(self).uuid,
            final(self).addr == old(self).addr,
            final(self).hostname == old(self).hostname,
            final(self).username == old(self).username,
            final(self).realname == old(self).realname,
            final(server).prefix == old(server).prefix,
            final(server).clients == old(server).clients,
            final(server).channels == old(server).channels,
            old(server).wf() ==> final(server).wf(),
            if old(server).nick_taken(nick@) {
                &&& r matches Err(rep) && rep@ == ReplyV::ErrNickCollision(nick@)
                &&& final(self).nick == old(self).nick
                &&& final(server).nicks == old(server).nicks
            } else {
                &&& r matches Ok(())
                &&& final(self).nick@ == nick@
                &&& final(server).nicks@ == old(server).nicks@.push(nick)
                &&& final(server).nick_taken(nick@)
            },
    {
        if server.set_nick(nick.clone()) {
            self.nick = nick;
            Ok(())
        } else {
            Err(Reply::ErrNickCollision(nick))
        }
    }

    /// A USER command: a session that is already registered is refused
    /// and nothing moves; otherwise the client is registered under a
    /// fresh identifier and the message-of-the-day sequence comes back
    /// to be sent.
    pub fn handle_user_message(
        &mut self,
        server: &mut ServerState,
        un: String,
        realname: String,
        server_name: String,
        motd: &Vec<String>,
    ) -> (r: Result<Vec<Message>, Reply>)
        ensures
            final(self).addr == old(self).addr,
            final(self).nick == old(self).nick,
            final(self).hostname == old(self).hostname,
            old(server).wf() ==> final(server).wf(),
            if old(self).uuid != 0 {
                &&& r matches Err(rep) && rep@ == ReplyV::ErrAlreadyRegistered
                &&& *final(self) == *old(self)
                &&& *final(server) == *old(server)
            } else {
                &&& match r {
                    Ok(msgs) => msgs.deep_view() == motd_messages(server_name@, motd@),
                    _ => false,
                }
                &&& final(self).uuid != 0
                &&& final(self).username@ == un@
                &&& final(self).realname@ == realname@
                &&& final(server).has_client(final(self).uuid)
                &&& final(server).nicks == old(server).nicks
                &&& final(server).channels == old(server).channels
                &&& final(server).prefix == old(server).prefix
            },
    {
        if self.uuid != 0 {
            return Err(Reply::ErrAlreadyRegistered);
        }
        match server.register(
            self.nick.clone(),
            un.clone(),
            self.hostname.clone(),
            realname.clone(),
        ) {
            Some(uuid) => {
                self.uuid = uuid;
                self.username = un;
                self.realname = realname;
                Ok(self.send_motd(server_name, motd))
            },
            None => Err(
                Reply::ErrGeneric(
                    String::from_str("USER"),
                    None,
                    String::from_str("No UUID returned"),
                ),
            ),
        }
    }

    /// A JOIN command: joins every requested channel and answers the
    /// reply blocks to send; a server-side refusal comes back as the
    /// generic numeric under the JOIN verb.
    pub fn handle_join_message(
        &mut self,
        server: &mut ServerState,
        chans: Vec<String>,
        keys: Option<Vec<String>>,
    ) -> (r: Result<Vec<Reply>, Reply>)
        ensures
            *final(self) == *old(self),
            final(server).prefix == old(server).prefix,
            final(server).nicks == old(server).nicks,
            final(server).clients == old(server).clients,
            old(server).wf() ==> final(server).wf(),
            if chans@.len() == 0 {
                &&& r matches Ok(v) && v@.len() == 0
                &&& final(server).channels == old(server).channels
            } else if !old(server).has_client(old(self).uuid) {
                &&& r matches Err(rep) && rep@ == ReplyV::ErrGeneric(
                    "JOIN"@,
                    None,
                    "the uuid doesn't have a client"@,
                )
                &&& final(server).channels == old(server).channels
            } else {
                let nickv = old(server).clients@[find_client(
                    old(server).clients@,
                    old(self).uuid,
                    0,
                )->0].1.nickname@;
                let folded = join_fold(
                    channel_views(old(server).channels@),
                    chans.deep_view(),
                    old(self).uuid,
                    nickv,
                    old(server).prefix@,
                );
                &&& match r {
                    Ok(v) => replies_views(v@) == folded.1,
                    _ => false,
                }
                &&& channel_views(final(server).channels@) == folded.0
            },
    {
        match server.join_channel(self.uuid, chans, keys) {
            Ok(replies) => Ok(replies),
            Err(e) => Err(e.to_reply("JOIN", None)),
        }
    }

    /// One incoming message dispatched against the registration state
    /// machine: before registration only NICK and USER act and
    /// anything else is refused as unregistered; after it, NICK is
    /// ignored, USER is refused as a reregistration, JOIN joins, and
    /// any other command is answered as unhandled. Replies and the
    /// errors of the handlers come back as the messages to send.
    pub fn handle_message(
        &mut self,
        server: &mut ServerState,
        message: Message,
        server_name: String,
        motd: &Vec<String>,
    ) -> (r: Vec<Message>)
        ensures
            old(server).wf() ==> final(server).wf(),
            final(server).prefix == old(server).prefix,
            match message@.contents {
                MessageContentsV::Command(CommandV::NICK(nickv, _)) => if old(self).uuid == 0 {
                    if old(server).nick_taken(nickv) {
                        &&& r.deep_view() == seq![
                            reply_message(ReplyV::ErrNickCollision(nickv)),
                        ]
                        &&& *final(self) == *old(self)
                        &&& *final(server) == *old(server)
                    } else {
                        &&& r.deep_view() == Seq::<MessageV>::empty()
                        &&& final(self).nick@ == nickv
                        &&& final(self).uuid == 0
                        &&& final(server).nick_taken(nickv)
                        &&& final(server).clients == old(server).clients
                        &&& final(server).channels == old(server).channels
                    }
                } else {
                    &&& r.deep_view() == Seq::<MessageV>::empty()
                    &&& *final(self) == *old(self)
                    &&& *final(server) == *old(server)
                },
                MessageContentsV::Command(CommandV::USER(un, _, _, realv)) => if old(self).uuid
                    == 0 {
                    &&& r.deep_view() == motd_messages(server_name@, motd@)
                    &&& final(self).uuid != 0
                    &&& final(self).username@ == un
                    &&& final(self).realname@ == realv
                    &&& final(server).has_client(final(self).uuid)
                    &&& final(server).nicks == old(server).nicks
                    &&& final(server).channels == old(server).channels
                } else {
                    &&& r.deep_view() == seq![reply_message(ReplyV::ErrAlreadyRegistered)]
                    &&& *final(self) == *old(self)
                    &&& *final(server) == *old(server)
                },
                MessageContentsV::Command(CommandV::JOIN(chansv, _)) => if old(self).uuid == 0 {
                    &&& r.deep_view() == seq![reply_message(ReplyV::ErrNotRegistered)]
                    &&& *final(self) == *old(self)
                    &&& *final(server) == *old(server)
                } else {
                    &&& *final(self) == *old(self)
                    &&& final(server).nicks == old(server).nicks
                    &&& final(server).clients == old(server).clients
                    &&& if chansv.len() == 0 {
                        r.deep_view() == Seq::<MessageV>::empty() && final(server).channels == old(
                            server,
                        ).channels
                    } else if !old(server).has_client(old(self).uuid) {
                        r.deep_view() == seq![
                            reply_message(
                                ReplyV::ErrGeneric(
                                    "JOIN"@,
                                    None,
                                    "the uuid doesn't have a client"@,
                                ),
                            ),
                        ] && final(server).channels == old(server).channels
                    } else {
                        let nickv = old(server).clients@[find_client(
                            old(server).clients@,
                            old(self).uuid,
                            0,
                        )->0].1.nickname@;
                        let folded = join_fold(
                            channel_views(old(server).channels@),
                            chansv,
                            old(self).uuid,
                            nickv,
                            old(server).prefix@,
                        );
                        &&& r.deep_view().len() == folded.1.len()
                        &&& forall|i: int|
                            0 <= i < folded.1.len() ==> #[trigger] r.deep_view()[i]
                                == reply_message(folded.1[i])
                        &&& channel_views(final(server).channels@) == folded.0
                    }
                },
                MessageContentsV::Command(cmd) => if old(self).uuid == 0 {
                    &&& r.deep_view() == seq![reply_message(ReplyV::ErrNotRegistered)]
                    &&& *final(self) == *old(self)
                    &&& *final(server) == *old(server)
                } else {
                    &&& r.deep_view() == seq![
                        reply_message(
                            ReplyV::ErrGeneric(
                                crate::command::command_verb_name(cmd),
                                None,
                                "Command not handled."@,
                            ),
                        ),
                    ]
                    &&& *final(self) == *old(self)
                    &&& *final(server) == *old(server)
                },
                MessageContentsV::Reply(_) => {
                    &&& r.deep_view() == Seq::<MessageV>::empty()
                    &&& *final(self) == *old(self)
                    &&& *final(server) == *old(server)
                },
            },
    {
        let mut out: Vec<Message> = Vec::new();
        match message.contents {
            MessageContents::Command(cmd) => {
                if self.uuid == 0 {
                    match cmd {
                        Command::NICK(nickname, hops) => {
                            match self.handle_nick_message(server, nickname, hops) {
                                Ok(()) => {},
                                Err(rep) => {
                                    out.push(Message::from_reply(rep));
                                },
                            }
                        },
                        Command::USER(un, _, _, realname) => {
                            match self.handle_user_message(
                                server,
                                un,
                                realname,
                                server_name,
                                motd,
                            ) {
                                Ok(msgs) => {
                                    proof {
                                        assert(msgs.deep_view() =~~= motd_messages(
                                            server_name@,
                                            motd@,
                                        ));
                                    }
                                    return msgs;
                                },
                                Err(rep) => {
                                    out.push(Message::from_reply(rep));
                                },
                            }
                        },
                        _ => {
                            out.push(Message::from_reply(Reply::ErrNotRegistered));
                        },
                    }
                } else {
                    match cmd {
                        Command::NICK(_, _) => {},
                        Command::USER(_, _, _, _) => {
                            out.push(Message::from_reply(Reply::ErrAlreadyRegistered));
                        },
                        Command::JOIN(chans, keys) => {
                            match self.handle_join_message(server, chans, keys) {
                                Ok(replies) => {
                                    let mut rest = replies;
                                    let ghost reps = rest@;
                                    proof {
                                        assert(rest@ =~= reps.subrange(0, reps.len() as int));
                                    }
                                    while rest.len() > 0
                                        invariant
                                            out@.len() + rest@.len() == reps.len(),
                                            rest@ == reps.subrange(
                                                out@.len() as int,
                                                reps.len() as int,
                                            ),
                                            forall|j: int|
                                                0 <= j < out@.len() ==> (#[trigger] out@[j])@
                                                    == reply_message(reps[j]@),
                                        decreases rest@.len(),
                                    {
                                        let rep = rest.remove(0);
                                        proof {
                                            assert(rep == reps[out@.len() as int]);
                                        }
                                        out.push(Message::from_reply(rep));
                                        proof {
                                            assert(rest@ =~= reps.subrange(
                                                out@.len() as int,
                                                reps.len() as int,
                                            ));
                                        }
                                    }
                                },
                                Err(rep) => {
                                    out.push(Message::from_reply(rep));
                                },
                            }
                        },
                        other => {
                            out.push(
                                Message::from_reply(
                                    Reply::ErrGeneric(
                                        other.name(),
                                        None,
                                        String::from_str("Command not handled."),
                                    ),
                                ),
                            );
                        },
                    }
                }
            },
            MessageContents::Reply(_) => {},
        }
        out
    }

    /// A non-fatal parse error answered in-band: an unknown verb gets
    /// the unknown-command numeric, a known verb with too few
    /// arguments the missing-parameters numeric; everything else ends
    /// the session.
    pub fn handle_message_error(&self, err: ProtocolError) -> (r: Result<Message, ClientError>)
        ensures
            match err@ {
                ProtocolErrorV::UnknownCommand(cmd) => match r {
                    Ok(m) => m@ == reply_message(ReplyV::ErrNoSuchCommand(cmd)),
                    _ => false,
                },
                ProtocolErrorV::NotEnoughArguments(cmd) => match r {
                    Ok(m) => m@ == reply_message(ReplyV::ErrNeedMoreParams(cmd)),
                    _ => false,
                },
                _ => match r {
                    Err(ClientError::Protocol(e)) => e@ == err@,
                    _ => false,
                },
            },
    {
        match err {
            ProtocolError::UnknownCommand(cmd) => Ok(
                Message::from_reply(Reply::ErrNoSuchCommand(cmd)),
            ),
            ProtocolError::NotEnoughArguments(cmd) => Ok(
                Message::from_reply(Reply::ErrNeedMoreParams(cmd)),
            ),
            other => Err(ClientError::Protocol(other)),
        }
    }
}

} // verus!
