//! Server-originated replies and their numeric wire forms.
use vstd::prelude::*;
use crate::channel::{ChannelUser, ChannelUserV, user_display};
use crate::error::{ProtocolError, ProtocolErrorV};
use crate::text::{join_with, join_strings};

verus! {

/// A numeric reply. The numeric code is part of the serialized form
/// only.
#[derive(Debug, PartialEq)]
pub enum Reply {
    NoTopic(String),
    Topic(String, String),
    NamReply(String, Vec<ChannelUser>),
    EndOfNames(String),
    MotdStart(String),
    Motd(String),
    MotdEnd,
    ErrGeneric(String, Option<Vec<String>>, String),
    ErrNoSuchCommand(String),
    ErrNoNicknameGiven,
    ErrErroneousNickname(String),
    ErrNicknameInUse(String),
    ErrNickCollision(String),
    ErrNotRegistered,
    ErrNeedMoreParams(String),
    ErrAlreadyRegistered,
}

/// The mathematical shape of a `Reply`.
pub enum ReplyV {
    NoTopic(Seq<char>),
    Topic(Seq<char>, Seq<char>),
    NamReply(Seq<char>, Seq<ChannelUserV>),
    EndOfNames(Seq<char>),
    MotdStart(Seq<char>),
    Motd(Seq<char>),
    MotdEnd,
    ErrGeneric(Seq<char>, Option<Seq<Seq<char>>>, Seq<char>),
    ErrNoSuchCommand(Seq<char>),
    ErrNoNicknameGiven,
    ErrErroneousNickname(Seq<char>),
    ErrNicknameInUse(Seq<char>),
    ErrNickCollision(Seq<char>),
    ErrNotRegistered,
    ErrNeedMoreParams(Seq<char>),
    ErrAlreadyRegistered,
}

impl View for Reply {
    type V = ReplyV;

    open spec fn view(&self) -> ReplyV {
        match self {
            Reply::NoTopic(c) => ReplyV::NoTopic(c@),
            Reply::Topic(c, t) => ReplyV::Topic(c@, t@),
            Reply::NamReply(c, users) => ReplyV::NamReply(c@, users.deep_view()),
            Reply::EndOfNames(c) => ReplyV::EndOfNames(c@),
            Reply::MotdStart(s) => ReplyV::MotdStart(s@),
            Reply::Motd(l) => ReplyV::Motd(l@),
            Reply::MotdEnd => ReplyV::MotdEnd,
            Reply::ErrGeneric(c, subs, m) => ReplyV::ErrGeneric(
                c@,
                match subs {
                    Some(v) => Some(v.deep_view()),
                    None => None,
                },
                m@,
            ),
            Reply::ErrNoSuchCommand(c) => ReplyV::ErrNoSuchCommand(c@),
            Reply::ErrNoNicknameGiven => ReplyV::ErrNoNicknameGiven,
            Reply::ErrErroneousNickname(n) => ReplyV::ErrErroneousNickname(n@),
            Reply::ErrNicknameInUse(n) => ReplyV::ErrNicknameInUse(n@),
            Reply::ErrNickCollision(n) => ReplyV::ErrNickCollision(n@),
            Reply::ErrNotRegistered => ReplyV::ErrNotRegistered,
            Reply::ErrNeedMoreParams(c) => ReplyV::ErrNeedMoreParams(c@),
            Reply::ErrAlreadyRegistered => ReplyV::ErrAlreadyRegistered,
        }
    }
}

/// The display strings of a member list.
pub open spec fn user_displays(users: Seq<ChannelUserV>) -> Seq<Seq<char>> {
    users.map_values(|u: ChannelUserV| user_display(u))
}

/// The exact wire text of each reply, numeric first. The emitter writes
/// 462 for both the missing-parameters and the reregistration numerics.
pub open spec fn reply_text(r: ReplyV) -> Seq<char> {
    match r {
        ReplyV::NoTopic(c) => "331 "@ + c + " :No topic is set"@,
        ReplyV::Topic(c, t) => "332 "@ + c + " :"@ + t,
        ReplyV::NamReply(c, users) => "353 "@ + c + " :"@ + join_with(user_displays(users), ' '),
        ReplyV::EndOfNames(c) => "366 "@ + c + " :End of /NAMES list"@,
        ReplyV::MotdStart(s) => "375 :- "@ + s + " Message of the day - "@,
        ReplyV::Motd(l) => "372 :- "@ + l,
        ReplyV::MotdEnd => "376 :End of /MOTD command"@,
        ReplyV::ErrGeneric(c, subs, m) => "400 "@ + c + " "@ + (match subs {
            Some(v) => join_with(v, ' '),
            None => Seq::<char>::empty(),
        }) + " :"@ + m,
        ReplyV::ErrNoSuchCommand(c) => "421 "@ + c + " :Unknown command"@,
        ReplyV::ErrNoNicknameGiven => "431 :No nickname given"@,
        ReplyV::ErrErroneousNickname(n) => "432 "@ + n + " :Erroneous nickname"@,
        ReplyV::ErrNicknameInUse(n) => "433 "@ + n + " :Nickname is already in use"@,
        ReplyV::ErrNickCollision(n) => "436 "@ + n + " :Nickname collision KILL"@,
        ReplyV::ErrNotRegistered => "451 :You have not registered"@,
        ReplyV::ErrNeedMoreParams(c) => "462 "@ + c + " :Not enough parameters"@,
        ReplyV::ErrAlreadyRegistered => "462 :You may not reregister"@,
    }
}

impl Reply {
    /// Writes the reply in its wire form.
    pub fn to_text(&self) -> (r: String)
        ensures
            r@ == reply_text(self@),
    {
        match self {
            Reply::NoTopic(c) => text3("331 ", c, " :No topic is set"),
            Reply::Topic(c, t) => {
                let mut out = text3("332 ", c, " :");
                out.append(t.as_str());
                proof {
                    assert(out@ =~= reply_text(self@));
                }
                out
            },
            Reply::NamReply(c, users) => {
                let mut displays: Vec<String> = Vec::new();
                let mut i: usize = 0;
                while i < users.len()
                    invariant
                        i <= users@.len(),
                        displays@.len() == i,
                        forall|k: int| 0 <= k < i ==> #[trigger] displays@[k]@ == user_display(
                            users@[k]@,
                        ),
                    decreases users@.len() - i,
                {
                    displays.push(users[i].display_text());
                    i = i + 1;
                }
                proof {
                    assert(displays.deep_view() =~~= user_displays(users.deep_view()));
                }
                let joined = join_strings(&displays, ' ');
                let mut out = text3("353 ", c, " :");
                out.append(joined.as_str());
                proof {
                    assert(out@ =~= reply_text(self@));
                }
                out
            },
            Reply::EndOfNames(c) => text3("366 ", c, " :End of /NAMES list"),
            Reply::MotdStart(s) => text3("375 :- ", s, " Message of the day - "),
            Reply::Motd(l) => {
                let mut out = String::from_str("372 :- ");
                out.append(l.as_str());
                proof {
                    assert(out@ =~= reply_text(self@));
                }
                out
            },
            Reply::MotdEnd => String::from_str("376 :End of /MOTD command"),
            Reply::ErrGeneric(c, subs, m) => {
                let mut out = text3("400 ", c, " ");
                match subs {
                    Some(v) => {
                        let joined = join_strings(v, ' ');
                        out.append(joined.as_str());
                    },
                    None => {},
                }
                out.append(" :");
                out.append(m.as_str());
                proof {
                    assert(out@ =~= reply_text(self@));
                }
                out
            },
            Reply::ErrNoSuchCommand(c) => text3("421 ", c, " :Unknown command"),
            Reply::ErrNoNicknameGiven => String::from_str("431 :No nickname given"),
            Reply::ErrErroneousNickname(n) => text3("432 ", n, " :Erroneous nickname"),
            Reply::ErrNicknameInUse(n) => text3("433 ", n, " :Nickname is already in use"),
            Reply::ErrNickCollision(n) => text3("436 ", n, " :Nickname collision KILL"),
            Reply::ErrNotRegistered => String::from_str("451 :You have not registered"),
            Reply::ErrNeedMoreParams(c) => text3("462 ", c, " :Not enough parameters"),
            Reply::ErrAlreadyRegistered => String::from_str("462 :You may not reregister"),
        }
    }

    /// The reply a parse error maps to when one exists: a known verb with
    /// too few arguments asks for more parameters; nothing else maps.
    pub fn try_from_error(value: &ProtocolError) -> (r: Option<Reply>)
        ensures
            match value@ {
                ProtocolErrorV::NotEnoughArguments(cmd) => r is Some && r->0@
                    == ReplyV::ErrNeedMoreParams(cmd),
                _ => r is None,
            },
    {
        match value {
            ProtocolError::NotEnoughArguments(cmd) => Some(Reply::ErrNeedMoreParams(cmd.clone())),
            _ => None,
        }
    }
}

/// A prefix literal, a value, and a suffix literal, concatenated.
fn text3(prefix: &str, value: &String, suffix: &str) -> (r: String)
    ensures
        r@ == prefix@ + value@ + suffix@,
{
    let mut out = prefix.to_owned();
    out.append(value.as_str());
    out.append(suffix);
    proof {
        assert(out@ =~= prefix@ + value@ + suffix@);
    }
    out
}

} // verus!
