//! The shared server state: the set of taken nicknames, the client
//! registry keyed by identifier, and the channel registry, with the
//! registration, join and drop operations and their invariants.
use vstd::prelude::*;
use crate::channel::{Channel, ChannelV, ChannelUser, ChannelUserV, pack_groups, names_bound};
use crate::prefix::{Prefix, PrefixV};
use crate::reply::{Reply, ReplyV};
use crate::text::{irc_lower, irc_fold, str_chars, chars_eq};

verus! {

/// What the server can fail with outside the protocol itself.
pub enum ServerError {
    /// A listener was configured for TLS without a certificate.
    TLSMissingCert(String),
    /// A listener was configured for TLS without a key.
    TLSMissingKey(String),
    /// A transport-level failure, with its description.
    Io(String),
    /// A control command could not be sent.
    ControlSendError,
    /// A control answer could not be received, with its description.
    ControlRecvError(String),
    /// The identifier does not belong to a registered client.
    InvalidUUID,
}

impl ServerError {
    /// The error's description.
    pub fn text(&self) -> (r: String)
        ensures
            r@ == match self {
                ServerError::TLSMissingCert(n) => "listener "@ + n@
                    + " is missing tls certificate"@,
                ServerError::TLSMissingKey(n) => "listener "@ + n@ + " is missing tls key"@,
                ServerError::Io(_) => "server IO error"@,
                ServerError::ControlSendError => "sever control send error"@,
                ServerError::ControlRecvError(s) => "server control recv error "@ + s@,
                ServerError::InvalidUUID => "the uuid doesn't have a client"@,
            },
    {
        match self {
            ServerError::TLSMissingCert(n) => {
                let mut out = String::from_str("listener ");
                out.append(n.as_str());
                out.append(" is missing tls certificate");
                proof {
                    assert(out@ =~= "listener "@ + n@ + " is missing tls certificate"@);
                }
                out
            },
            ServerError::TLSMissingKey(n) => {
                let mut out = String::from_str("listener ");
                out.append(n.as_str());
                out.append(" is missing tls key");
                proof {
                    assert(out@ =~= "listener "@ + n@ + " is missing tls key"@);
                }
                out
            },
            ServerError::Io(_) => String::from_str("server IO error"),
            ServerError::ControlSendError => String::from_str("sever control send error"),
            ServerError::ControlRecvError(s) => {
                let mut out = String::from_str("server control recv error ");
                out.append(s.as_str());
                proof {
                    assert(out@ =~= "server control recv error "@ + s@);
                }
                out
            },
            ServerError::InvalidUUID => String::from_str("the uuid doesn't have a client"),
        }
    }

    /// The numeric reply an internal error presents as, under the verb
    /// that caused it.
    pub fn to_reply(&self, cmd: &str, subcmds: Option<Vec<String>>) -> (r: Reply)
        ensures
            r@ == ReplyV::ErrGeneric(
                cmd@,
                match subcmds {
                    Some(v) => Some(v.deep_view()),
                    None => None,
                },
                match self {
                    ServerError::TLSMissingCert(n) => "listener "@ + n@
                        + " is missing tls certificate"@,
                    ServerError::TLSMissingKey(n) => "listener "@ + n@ + " is missing tls key"@,
                    ServerError::Io(_) => "server IO error"@,
                    ServerError::ControlSendError => "sever control send error"@,
                    ServerError::ControlRecvError(s) => "server control recv error "@ + s@,
                    ServerError::InvalidUUID => "the uuid doesn't have a client"@,
                },
            ),
    {
        Reply::ErrGeneric(cmd.to_owned(), subcmds, self.text())
    }
}

/// One registered client as the server sees it: its names and the
/// channels it joined. Delivery handles live with the connection, not
/// here.
pub struct ServerClient {
    pub nickname: String,
    pub user_name: String,
    pub server_name: String,
    pub hostname: String,
    pub connected_channels: Vec<String>,
}

impl ServerClient {
    /// A registry entry with no joined channels yet.
    pub fn new(nick: String, user_name: String, server_name: String, hostname: String) -> (r:
        ServerClient)
        ensures
            r.nickname@ == nick@,
            r.user_name@ == user_name@,
            r.server_name@ == server_name@,
            r.hostname@ == hostname@,
            r.connected_channels@.len() == 0,
    {
        ServerClient {
            nickname: nick,
            user_name,
            server_name,
            hostname,
            connected_channels: Vec::new(),
        }
    }

    /// Changes the stored nickname.
    pub fn set_nickname(&mut self, nick: String)
        ensures
            final(self).nickname@ == nick@,
            final(self).user_name == old(self).user_name,
            final(self).server_name == old(self).server_name,
            final(self).hostname == old(self).hostname,
            final(self).connected_channels == old(self).connected_channels,
    {
        self.nickname = nick;
    }

    /// Records a joined channel; a channel already recorded is refused.
    pub fn join_channel(&mut self, channel: &String) -> (r: bool)
        ensures
            r == !(exists|i: int|
                0 <= i < old(self).connected_channels@.len()
                    && old(self).connected_channels@[i]@ == channel@),
            if r {
                final(self).connected_channels@.len() == old(self).connected_channels@.len() + 1
                    && final(self).connected_channels@[old(self).connected_channels@.len() as int]@
                    == channel@ && (forall|i: int|
                    0 <= i < old(self).connected_channels@.len()
                        ==> final(self).connected_channels@[i] == old(self).connected_channels@[i])
            } else {
                final(self).connected_channels == old(self).connected_channels
            },
            final(self).nickname == old(self).nickname,
    {
        let target = str_chars(channel.as_str());
        let mut i: usize = 0;
        while i < self.connected_channels.len()
            invariant
                i <= self.connected_channels@.len(),
                target@ == channel@,
                forall|j: int| 0 <= j < i ==> self.connected_channels@[j]@ != channel@,
        decreases self.connected_channels@.len() - i,
        {
            if chars_eq(&str_chars(self.connected_channels[i].as_str()), &target) {
                return false;
            }
            i = i + 1;
        }
        self.connected_channels.push(channel.clone());
        true
    }

    /// Forgets a joined channel; answers true either way, as the
    /// registry's caller expects.
    pub fn remove_channel(&mut self, channel: &String) -> (r: bool)
        ensures
            r,
            final(self).nickname == old(self).nickname,
            forall|i: int|
                0 <= i < final(self).connected_channels@.len()
                    ==> #[trigger] final(self).connected_channels@[i]@ != channel@,
    {
        let target = str_chars(channel.as_str());
        let mut kept: Vec<String> = Vec::new();
        while self.connected_channels.len() > 0
            invariant
                target@ == channel@,
                self.nickname == old(self).nickname,
                forall|i: int| 0 <= i < kept@.len() ==> #[trigger] kept@[i]@ != channel@,
            decreases self.connected_channels@.len(),
        {
            let entry = self.connected_channels.remove(0);
            if !chars_eq(&str_chars(entry.as_str()), &target) {
                kept.push(entry);
            }
        }
        self.connected_channels = kept;
        true
    }
}

/// First registry index holding the client `uuid`, from `i` on.
pub open spec fn find_client(clients: Seq<(u128, ServerClient)>, uuid: u128, i: int) -> Option<int>
    decreases clients.len() - i,
{
    if i < 0 || i >= clients.len() {
        None
    } else if clients[i].0 == uuid {
        Some(i)
    } else {
        find_client(clients, uuid, i + 1)
    }
}

pub proof fn lemma_find_client(clients: Seq<(u128, ServerClient)>, uuid: u128, i: int)
    requires
        0 <= i <= clients.len(),
    ensures
        match find_client(clients, uuid, i) {
            Some(k) => i <= k < clients.len() && clients[k].0 == uuid && forall|j: int|
                i <= j < k ==> (#[trigger] clients[j]).0 != uuid,
            None => forall|j: int| i <= j < clients.len() ==> (#[trigger] clients[j]).0 != uuid,
        },
    decreases clients.len() - i,
{
    if i < clients.len() && clients[i].0 != uuid {
        lemma_find_client(clients, uuid, i + 1);
    }
}

/// First channel index holding the channel `name`, from `i` on.
pub open spec fn find_channel(channels: Seq<Channel>, name: Seq<char>, i: int) -> Option<int>
    decreases channels.len() - i,
{
    if i < 0 || i >= channels.len() {
        None
    } else if channels[i].name@ == name {
        Some(i)
    } else {
        find_channel(channels, name, i + 1)
    }
}

pub proof fn lemma_find_channel(channels: Seq<Channel>, name: Seq<char>, i: int)
    requires
        0 <= i <= channels.len(),
    ensures
        match find_channel(channels, name, i) {
            Some(k) => i <= k < channels.len() && channels[k].name@ == name && forall|j: int|
                i <= j < k ==> (#[trigger] channels[j]).name@ != name,
            None => forall|j: int| i <= j < channels.len() ==> (#[trigger] channels[j]).name@
                != name,
        },
    decreases channels.len() - i,
{
    if i < channels.len() && channels[i].name@ != name {
        lemma_find_channel(channels, name, i + 1);
    }
}

/// The shared registries: the server prefix, the clients by identifier,
/// the taken nicknames, and the channels.
pub struct ServerState {
    pub prefix: Prefix,
    pub clients: Vec<(u128, ServerClient)>,
    pub nicks: Vec<String>,
    pub channels: Vec<Channel>,
}

impl ServerState {
    /// Whether a nickname is taken, under the protocol's fold.
    pub open spec fn nick_taken(self, nick: Seq<char>) -> bool {
        exists|i: int|
            0 <= i < self.nicks@.len() && irc_lower(#[trigger] self.nicks@[i]@) == irc_lower(nick)
    }

    /// Whether a client with this identifier is registered.
    pub open spec fn has_client(self, uuid: u128) -> bool {
        exists|i: int| 0 <= i < self.clients@.len() && (#[trigger] self.clients@[i]).0 == uuid
    }

    /// The registries are consistent: client identifiers are unique and
    /// never nil, nicknames are unique under the fold, channel names
    /// are unique, every channel has a member, and every member is a
    /// registered client.
    pub open spec fn wf(self) -> bool {
        &&& forall|i: int, j: int|
            0 <= i < j < self.clients@.len() ==> (#[trigger] self.clients@[i]).0 != (
            #[trigger] self.clients@[j]).0
        &&& forall|i: int| 0 <= i < self.clients@.len() ==> (#[trigger] self.clients@[i]).0 != 0
        &&& forall|i: int, j: int|
            0 <= i < j < self.nicks@.len() ==> irc_lower(#[trigger] self.nicks@[i]@) != irc_lower(
                #[trigger] self.nicks@[j]@,
            )
        &&& ({
            let cv = channel_views(self.channels@);
            &&& forall|i: int, j: int|
                0 <= i < j < cv.len() ==> (#[trigger] cv[i]).name != (#[trigger] cv[j]).name
            &&& forall|i: int| 0 <= i < cv.len() ==> (#[trigger] cv[i]).clients.len() >= 1
            &&& forall|i: int, k: int|
                #![trigger cv[i].clients[k]]
                0 <= i < cv.len() && 0 <= k < cv[i].clients.len() ==> self.has_client(
                    cv[i].clients[k].uuid,
                )
        })
    }

    /// Fresh state: no clients, no nicknames, no channels.
    pub fn new(prefix: Prefix) -> (r: ServerState)
        ensures
            r.prefix == prefix,
            r.clients@.len() == 0,
            r.nicks@.len() == 0,
            r.channels@.len() == 0,
            r.wf(),
    {
        ServerState { prefix, clients: Vec::new(), nicks: Vec::new(), channels: Vec::new() }
    }

    /// Whether `nick` is taken, compared case-insensitively under the
    /// protocol's fold.
    pub fn contains_nick(&self, nick: &String) -> (r: bool)
        ensures
            r == self.nick_taken(nick@),
    {
        let target = irc_fold(&str_chars(nick.as_str()));
        let mut i: usize = 0;
        while i < self.nicks.len()
            invariant
                i <= self.nicks@.len(),
                target@ == irc_lower(nick@),
                forall|j: int| 0 <= j < i ==> irc_lower(#[trigger] self.nicks@[j]@) != irc_lower(
                    nick@,
                ),
            decreases self.nicks@.len() - i,
        {
            let folded = irc_fold(&str_chars(self.nicks[i].as_str()));
            if chars_eq(&folded, &target) {
                return true;
            }
            i = i + 1;
        }
        false
    }

    /// Claims a nickname: inserted and answered true when it was free
    /// under the fold, refused otherwise. Either way the nickname is
    /// taken afterwards.
    pub fn set_nick(&mut self, nick: String) -> (r: bool)
        ensures
            r == !old(self).nick_taken(nick@),
            final(self).nick_taken(nick@),
            final(self).prefix == old(self).prefix,
            final(self).clients == old(self).clients,
            final(self).channels == old(self).channels,
            if r {
                final(self).nicks@ == old(self).nicks@.push(nick)
            } else {
                final(self).nicks == old(self).nicks
            },
            old(self).wf() ==> final(self).wf(),
            forall|n: Seq<char>|
                #[trigger] old(self).nick_taken(n) ==> final(self).nick_taken(n),
    {
        if self.contains_nick(&nick) {
            proof {
                assert(forall|n: Seq<char>|
                    old(self).nick_taken(n) ==> final(self).nick_taken(n));
            }
            return false;
        }
        let ghost olds = self.nicks@;
        self.nicks.push(nick);
        proof {
            let last = olds.len() as int;
            assert(self.nicks@[last]@ == nick@);
            assert(irc_lower(self.nicks@[last]@) == irc_lower(nick@));
            assert(self.nick_taken(nick@));
            assert forall|n: Seq<char>| #[trigger] old(self).nick_taken(n) implies self.nick_taken(
                n,
            ) by {
                let i = choose|i: int|
                    0 <= i < olds.len() && irc_lower(#[trigger] olds[i]@) == irc_lower(n);
                assert(self.nicks@[i]@ == olds[i]@);
                assert(irc_lower(self.nicks@[i]@) == irc_lower(n));
            }
            if old(self).wf() {
                assert forall|i: int, j: int|
                    0 <= i < j < self.nicks@.len() implies irc_lower(#[trigger] self.nicks@[i]@)
                    != irc_lower(#[trigger] self.nicks@[j]@) by {
                    if j == last {
                        assert(!old(self).nick_taken(nick@));
                        assert(irc_lower(olds[i]@) != irc_lower(nick@));
                        assert(self.nicks@[i]@ == olds[i]@);
                    } else {
                        assert(self.nicks@[i]@ == olds[i]@ && self.nicks@[j]@ == olds[j]@);
                    }
                }
            }
        }
        true
    }

    /// Relies on the uuid crate's `Uuid::new_v4` (read back through
    /// `as_u128`): a random version-4 identifier. The version bits it
    /// sets keep the value from being nil; nothing else can be promised
    /// of a random draw.
    #[verifier::external_body]
    fn fresh_uuid() -> (r: u128)
        ensures
            r != 0,
    {
        uuid::Uuid::new_v4().as_u128()
    }

    /// Registers a client under a fresh identifier and answers it. An
    /// identifier the registry already holds (which a random draw makes
    /// all but impossible) has its entry replaced, as a keyed insert
    /// does.
    pub fn register(&mut self, nick: String, un: String, peer: String, realname: String) -> (r:
        Option<u128>)
        ensures
            final(self).prefix == old(self).prefix,
            final(self).nicks == old(self).nicks,
            final(self).channels == old(self).channels,
            match r {
                Some(u) => {
                    &&& u != 0
                    &&& final(self).has_client(u)
                    &&& match find_client(old(self).clients@, u, 0) {
                        Some(i) => final(self).clients@.len() == old(self).clients@.len() && (
                        forall|j: int|
                            0 <= j < old(self).clients@.len() && j != i ==> final(self).clients@[j]
                                == old(self).clients@[j]) && final(self).clients@[i].0 == u && is_entry(
                            final(self).clients@[i].1,
                            nick@,
                            un@,
                            peer@,
                            realname@,
                        ),
                        None => final(self).clients@.len() == old(self).clients@.len() + 1 && (
                        forall|j: int|
                            0 <= j < old(self).clients@.len() ==> final(self).clients@[j] == old(
                                self,
                            ).clients@[j]) && final(self).clients@[old(self).clients@.len() as int].0
                            == u && is_entry(
                            final(self).clients@[old(self).clients@.len() as int].1,
                            nick@,
                            un@,
                            peer@,
                            realname@,
                        ),
                    }
                },
                None => false,
            },
            old(self).wf() ==> final(self).wf(),
    {
        let uuid = Self::fresh_uuid();
        let entry = ServerClient::new(nick, un, peer, realname);
        proof {
            lemma_find_client(self.clients@, uuid, 0);
        }
        match Self::client_index(&self.clients, uuid) {
            Some(i) => {
                let ghost olds = self.clients@;
                self.clients.remove(i);
                self.clients.insert(i, (uuid, entry));
                proof {
                    assert(self.clients@ =~= olds.update(i as int, self.clients@[i as int]));
                    if old(self).wf() {
                        lemma_wf_update(*old(self), *self, i as int, uuid);
                    }
                }
                Some(uuid)
            },
            None => {
                let ghost olds = self.clients@;
                self.clients.push((uuid, entry));
                proof {
                    let last = olds.len() as int;
                    assert(self.clients@[last].0 == uuid);
                    assert(self.has_client(uuid));
                    if old(self).wf() {
                        lemma_wf_push(*old(self), *self, uuid);
                    }
                }
                Some(uuid)
            },
        }
    }

    /// The registry position of the client `uuid`.
    fn client_index(clients: &Vec<(u128, ServerClient)>, uuid: u128) -> (r: Option<usize>)
        ensures
            match r {
                Some(i) => find_client(clients@, uuid, 0) == Some(i as int),
                None => find_client(clients@, uuid, 0) is None,
            },
    {
        let mut i: usize = 0;
        while i < clients.len()
            invariant
                i <= clients@.len(),
                find_client(clients@, uuid, 0) == find_client(clients@, uuid, i as int),
            decreases clients@.len() - i,
        {
            if clients[i].0 == uuid {
                return Some(i);
            }
            i = i + 1;
        }
        None
    }
}

/// A registry entry carries exactly these names and no joined channels.
pub open spec fn is_entry(
    c: ServerClient,
    nick: Seq<char>,
    un: Seq<char>,
    peer: Seq<char>,
    realname: Seq<char>,
) -> bool {
    c.nickname@ == nick && c.user_name@ == un && c.server_name@ == peer && c.hostname@ == realname
        && c.connected_channels@.len() == 0
}

/// Replacing a registry entry in place, key kept, preserves the
/// invariants.
proof fn lemma_wf_update(pre: ServerState, post: ServerState, i: int, uuid: u128)
    requires
        pre.wf(),
        0 <= i < pre.clients@.len(),
        pre.clients@[i].0 == uuid,
        uuid != 0,
        post.clients@.len() == pre.clients@.len(),
        forall|j: int| 0 <= j < pre.clients@.len() && j != i ==> post.clients@[j]
            == pre.clients@[j],
        post.clients@[i].0 == uuid,
        post.nicks == pre.nicks,
        post.channels == pre.channels,
    ensures
        post.wf(),
{
    assert forall|a: int, b: int| 0 <= a < b < post.clients@.len() implies (
    #[trigger] post.clients@[a]).0 != (#[trigger] post.clients@[b]).0 by {
        assert(post.clients@[a].0 == pre.clients@[a].0);
        assert(post.clients@[b].0 == pre.clients@[b].0);
    }
    assert forall|a: int| 0 <= a < post.clients@.len() implies (#[trigger] post.clients@[a]).0
        != 0 by {
        assert(post.clients@[a].0 == pre.clients@[a].0);
    }
    let cv = channel_views(post.channels@);
    assert(cv == channel_views(pre.channels@));
    assert forall|a: int, k: int|
        #![trigger cv[a].clients[k]]
        0 <= a < cv.len() && 0 <= k < cv[a].clients.len() implies post.has_client(
        cv[a].clients[k].uuid,
    ) by {
        assert(pre.has_client(cv[a].clients[k].uuid));
        let w = choose|w: int|
            0 <= w < pre.clients@.len() && (#[trigger] pre.clients@[w]).0 == cv[a].clients[k].uuid;
        assert(post.clients@[w].0 == pre.clients@[w].0);
    }
}

/// Appending a registry entry under a new key preserves the invariants.
proof fn lemma_wf_push(pre: ServerState, post: ServerState, uuid: u128)
    requires
        pre.wf(),
        uuid != 0,
        find_client(pre.clients@, uuid, 0) is None,
        post.clients@.len() == pre.clients@.len() + 1,
        forall|j: int| 0 <= j < pre.clients@.len() ==> post.clients@[j] == pre.clients@[j],
        post.clients@[pre.clients@.len() as int].0 == uuid,
        post.nicks == pre.nicks,
        post.channels == pre.channels,
    ensures
        post.wf(),
{
    lemma_find_client(pre.clients@, uuid, 0);
    let last = pre.clients@.len() as int;
    assert forall|a: int, b: int| 0 <= a < b < post.clients@.len() implies (
    #[trigger] post.clients@[a]).0 != (#[trigger] post.clients@[b]).0 by {
        if b == last {
            assert(post.clients@[a].0 == pre.clients@[a].0);
            assert(pre.clients@[a].0 != uuid);
        } else {
            assert(post.clients@[a].0 == pre.clients@[a].0);
            assert(post.clients@[b].0 == pre.clients@[b].0);
        }
    }
    assert forall|a: int| 0 <= a < post.clients@.len() implies (#[trigger] post.clients@[a]).0
        != 0 by {
        if a < last {
            assert(post.clients@[a].0 == pre.clients@[a].0);
        }
    }
    let cv = channel_views(post.channels@);
    assert(cv == channel_views(pre.channels@));
    assert forall|a: int, k: int|
        #![trigger cv[a].clients[k]]
        0 <= a < cv.len() && 0 <= k < cv[a].clients.len() implies post.has_client(
        cv[a].clients[k].uuid,
    ) by {
        assert(pre.has_client(cv[a].clients[k].uuid));
        let w = choose|w: int|
            0 <= w < pre.clients@.len() && (#[trigger] pre.clients@[w]).0 == cv[a].clients[k].uuid;
        assert(post.clients@[w].0 == pre.clients@[w].0);
    }
}

/// The channels, as mathematical values.
pub open spec fn channel_views(channels: Seq<Channel>) -> Seq<ChannelV> {
    Seq::new(channels.len(), |i: int| channels[i]@)
}

/// The replies, as mathematical values.
pub open spec fn replies_views(rs: Seq<Reply>) -> Seq<ReplyV> {
    Seq::new(rs.len(), |i: int| rs[i]@)
}

/// First channel view with this name, from `i` on.
pub open spec fn find_channel_v(chs: Seq<ChannelV>, name: Seq<char>, i: int) -> Option<int>
    decreases chs.len() - i,
{
    if i < 0 || i >= chs.len() {
        None
    } else if chs[i].name == name {
        Some(i)
    } else {
        find_channel_v(chs, name, i + 1)
    }
}

pub proof fn lemma_find_channel_v(chs: Seq<ChannelV>, name: Seq<char>, i: int)
    requires
        0 <= i <= chs.len(),
    ensures
        match find_channel_v(chs, name, i) {
            Some(k) => i <= k < chs.len() && chs[k].name == name && forall|j: int|
                i <= j < k ==> (#[trigger] chs[j]).name != name,
            None => forall|j: int| i <= j < chs.len() ==> (#[trigger] chs[j]).name != name,
        },
    decreases chs.len() - i,
{
    if i < chs.len() && chs[i].name != name {
        lemma_find_channel_v(chs, name, i + 1);
    }
}

/// An ordinary member entry for a joining client.
pub open spec fn plain_member(uuid: u128, nick: Seq<char>) -> ChannelUserV {
    ChannelUserV { uuid, nick, is_oper: false, chat_allowed: false }
}

/// The creator's member entry for a fresh channel.
pub open spec fn oper_member(uuid: u128, nick: Seq<char>) -> ChannelUserV {
    ChannelUserV { uuid, nick, is_oper: true, chat_allowed: false }
}

/// The topic reply of a channel: its topic when set, else the no-topic
/// numeric.
pub open spec fn topic_reply(ch: ChannelV) -> ReplyV {
    match ch.topic {
        Some(t) => ReplyV::Topic(ch.name, t),
        None => ReplyV::NoTopic(ch.name),
    }
}

/// The complete NAMES reply block of a member list: its pages, then the
/// end marker.
pub open spec fn names_replies(name: Seq<char>, clients: Seq<ChannelUserV>, p: PrefixV) -> Seq<
    ReplyV,
> {
    let groups = pack_groups(clients, names_bound(name, p), Seq::empty(), 0);
    Seq::new(
        groups.len() + 1,
        |k: int|
            if k < groups.len() {
                ReplyV::NamReply(name, groups[k])
            } else {
                ReplyV::EndOfNames(name)
            },
    )
}

/// One channel joined: an existing channel gains the client as an
/// ordinary member and answers its topic reply and NAMES block; a
/// missing channel is created with the client as operator and answers
/// the no-topic numeric and its NAMES block.
pub open spec fn join_step(
    chs: Seq<ChannelV>,
    name: Seq<char>,
    uuid: u128,
    nick: Seq<char>,
    p: PrefixV,
) -> (Seq<ChannelV>, Seq<ReplyV>) {
    match find_channel_v(chs, name, 0) {
        Some(i) => {
            let updated = ChannelV {
                name: chs[i].name,
                clients: chs[i].clients.push(plain_member(uuid, nick)),
                topic: chs[i].topic,
            };
            (
                chs.update(i, updated),
                seq![topic_reply(updated)] + names_replies(updated.name, updated.clients, p),
            )
        },
        None => {
            let fresh = ChannelV { name, clients: seq![oper_member(uuid, nick)], topic: None };
            (chs.push(fresh), seq![ReplyV::NoTopic(name)] + names_replies(name, fresh.clients, p))
        },
    }
}

/// Every requested channel joined in order, the reply blocks
/// concatenated.
pub open spec fn join_fold(
    chs: Seq<ChannelV>,
    names: Seq<Seq<char>>,
    uuid: u128,
    nick: Seq<char>,
    p: PrefixV,
) -> (Seq<ChannelV>, Seq<ReplyV>)
    decreases names.len(),
{
    if names.len() == 0 {
        (chs, Seq::empty())
    } else {
        let step = join_step(chs, names[0], uuid, nick, p);
        let rest = join_fold(step.0, names.drop_first(), uuid, nick, p);
        (rest.0, step.1 + rest.1)
    }
}

impl ServerState {
    /// The first channel position with this name.
    fn channel_index(channels: &Vec<Channel>, name: &Vec<char>) -> (r: Option<usize>)
        ensures
            match r {
                Some(i) => find_channel_v(channel_views(channels@), name@, 0) == Some(i as int) && i
                    < channels@.len(),
                None => find_channel_v(channel_views(channels@), name@, 0) is None,
            },
    {
        let ghost views = channel_views(channels@);
        let mut i: usize = 0;
        while i < channels.len()
            invariant
                i <= channels@.len(),
                views == channel_views(channels@),
                views.len() == channels@.len(),
                find_channel_v(views, name@, 0) == find_channel_v(views, name@, i as int),
            decreases channels@.len() - i,
        {
            if chars_eq(&str_chars(channels[i].name.as_str()), name) {
                proof {
                    assert(views[i as int].name == name@);
                }
                return Some(i);
            }
            i = i + 1;
        }
        None
    }

    /// Joins the client `uuid` to every channel in `chans`, creating
    /// the missing ones with the client as operator, and answers the
    /// topic and NAMES reply blocks in request order. A caller that is
    /// not registered is refused; the keys are not inspected.
    pub fn join_channel(&mut self, uuid: u128, chans: Vec<String>, keys: Option<Vec<String>>) -> (r:
        Result<Vec<Reply>, ServerError>)
        ensures
            final(self).prefix == old(self).prefix,
            final(self).nicks == old(self).nicks,
            final(self).clients == old(self).clients,
            if chans@.len() == 0 {
                &&& match r {
                    Ok(v) => v@.len() == 0,
                    _ => false,
                }
                &&& final(self).channels == old(self).channels
            } else if !old(self).has_client(uuid) {
                &&& r == Err::<Vec<Reply>, ServerError>(ServerError::InvalidUUID)
                &&& final(self).channels == old(self).channels
            } else {
                let nick = old(self).clients@[find_client(old(self).clients@, uuid, 0)->0].1.nickname@;
                let folded = join_fold(
                    channel_views(old(self).channels@),
                    chans.deep_view(),
                    uuid,
                    nick,
                    old(self).prefix@,
                );
                &&& match r {
                    Ok(v) => replies_views(v@) == folded.1,
                    _ => false,
                }
                &&& channel_views(final(self).channels@) == folded.0
            },
            old(self).wf() ==> final(self).wf(),
    {
        if chans.len() == 0 {
            let empty: Vec<Reply> = Vec::new();
            return Ok(empty);
        }
        let nick: String;
        proof {
            lemma_find_client(self.clients@, uuid, 0);
        }
        match Self::client_index(&self.clients, uuid) {
            Some(ci) => {
                nick = self.clients[ci].1.nickname.clone();
            },
            None => {
                return Err(ServerError::InvalidUUID);
            },
        }
        let ghost nickv = nick@;
        let ghost prefixv = self.prefix@;
        let ghost full = join_fold(
            channel_views(self.channels@),
            chans.deep_view(),
            uuid,
            nickv,
            prefixv,
        );
        let ghost all_names = chans.deep_view();
        let mut replies: Vec<Reply> = Vec::new();
        let mut k: usize = 0;
        proof {
            assert(all_names.subrange(0, all_names.len() as int) =~= all_names);
            assert(replies_views(replies@) =~= Seq::<ReplyV>::empty());
            assert(all_names.subrange(k as int, all_names.len() as int) =~= all_names);
        }
        while k < chans.len()
            invariant
                k <= chans@.len(),
                all_names == chans.deep_view(),
                all_names.len() == chans@.len(),
                forall|t: int| 0 <= t < all_names.len() ==> #[trigger] chans@[t]@ == all_names[t],
                nickv == nick@,
                prefixv == self.prefix@,
                self.prefix == old(self).prefix,
                self.nicks == old(self).nicks,
                self.clients == old(self).clients,
                old(self).has_client(uuid),
                full == ({
                    let sub = join_fold(
                        channel_views(self.channels@),
                        all_names.subrange(k as int, all_names.len() as int),
                        uuid,
                        nickv,
                        prefixv,
                    );
                    (sub.0, replies_views(replies@) + sub.1)
                }),
                old(self).wf() ==> self.wf(),
            decreases chans@.len() - k,
        {
            let ghost pre_state = *self;
            let ghost pre_views = channel_views(self.channels@);
            let ghost pre_replies = replies_views(replies@);
            let ghost remaining = all_names.subrange(k as int, all_names.len() as int);
            let name_chars = str_chars(chans[k].as_str());
            proof {
                assert(remaining[0] == all_names[k as int]);
                assert(remaining.drop_first() =~= all_names.subrange(
                    k + 1,
                    all_names.len() as int,
                ));
                assert(name_chars@ == all_names[k as int]);
            }
            let ghost step = join_step(pre_views, remaining[0], uuid, nickv, prefixv);
            match Self::channel_index(&self.channels, &name_chars) {
                Some(i) => {
                    proof {
                        lemma_find_channel_v(pre_views, name_chars@, 0);
                    }
                    let mut ch = self.channels.remove(i);
                    let ghost pre_ch = ch@;
                    proof {
                        assert(pre_ch == pre_views[i as int]);
                    }
                    ch.add_client(uuid, nick.clone());
                    replies.push(ch.reply_topic());
                    let mut names = ch.reply_names(&self.prefix);
                    let ghost names_v = names@;
                    let ghost post_ch = ch@;
                    replies.append(&mut names);
                    self.channels.insert(i, ch);
                    proof {
                        let post_views = channel_views(self.channels@);
                        assert(post_views.len() == pre_views.len());
                        assert forall|j: int|
                            0 <= j < pre_views.len() && j != i implies post_views[j]
                            == pre_views[j] by {
                            if j < i {
                                assert(self.channels@[j] == pre_state.channels@[j]);
                            } else {
                                assert(self.channels@[j] == pre_state.channels@[j]);
                            }
                        }
                        assert(post_views[i as int] == post_ch);
                        lemma_join_step_existing(
                            pre_views,
                            remaining[0],
                            uuid,
                            nickv,
                            prefixv,
                            i as int,
                            post_views,
                            pre_ch,
                            post_ch,
                            names_v,
                        );
                        assert(replies_views(replies@) =~= pre_replies + (seq![
                            topic_reply(post_ch),
                        ] + replies_views(names_v)));
                        if pre_state.wf() {
                            lemma_wf_join_existing(pre_state, *self, uuid, nickv, i as int);
                        }
                    }
                },
                None => {
                    proof {
                        lemma_find_channel_v(pre_views, name_chars@, 0);
                    }
                    let ch = Channel::new(chans[k].clone(), uuid, nick.clone());
                    replies.push(Reply::NoTopic(chans[k].clone()));
                    let mut names = ch.reply_names(&self.prefix);
                    let ghost names_v = names@;
                    let ghost new_ch = ch@;
                    replies.append(&mut names);
                    self.channels.push(ch);
                    proof {
                        let post_views = channel_views(self.channels@);
                        assert(post_views.len() == pre_views.len() + 1);
                        assert forall|j: int| 0 <= j < pre_views.len() implies post_views[j]
                            == pre_views[j] by {
                            assert(self.channels@[j] == pre_state.channels@[j]);
                        }
                        assert(post_views[pre_views.len() as int] == new_ch);
                        assert(new_ch.name == remaining[0]);
                        lemma_join_step_fresh(
                            pre_views,
                            remaining[0],
                            uuid,
                            nickv,
                            prefixv,
                            post_views,
                            new_ch,
                            names_v,
                        );
                        assert(replies_views(replies@) =~= pre_replies + (seq![
                            ReplyV::NoTopic(remaining[0]),
                        ] + replies_views(names_v)));
                        if pre_state.wf() {
                            lemma_wf_join_fresh(pre_state, *self, uuid, nickv, remaining[0]);
                        }
                    }
                },
            }
            proof {
                let sub_new = join_fold(
                    channel_views(self.channels@),
                    remaining.drop_first(),
                    uuid,
                    nickv,
                    prefixv,
                );
                assert(join_fold(pre_views, remaining, uuid, nickv, prefixv).0 == sub_new.0);
                assert(join_fold(pre_views, remaining, uuid, nickv, prefixv).1 == step.1
                    + sub_new.1);
                assert(replies_views(replies@) == pre_replies + step.1);
                assert(pre_replies + (step.1 + sub_new.1) =~= (pre_replies + step.1) + sub_new.1);
                assert(full.1 == replies_views(replies@) + sub_new.1);
                assert(remaining.drop_first() =~= all_names.subrange(
                    k + 1,
                    all_names.len() as int,
                ));
            }
            k = k + 1;
        }
        proof {
            assert(all_names.subrange(chans@.len() as int, all_names.len() as int)
                =~= Seq::<Seq<char>>::empty());
        }
        Ok(replies)
    }
}

/// The nickname list with the first entry folding to `folded` removed.
pub open spec fn remove_first_nick(nicks: Seq<String>, folded: Seq<char>) -> Seq<String>
    decreases nicks.len(),
{
    if nicks.len() == 0 {
        Seq::empty()
    } else if irc_lower(nicks[0]@) == folded {
        nicks.drop_first()
    } else {
        seq![nicks[0]] + remove_first_nick(nicks.drop_first(), folded)
    }
}

/// With nicknames unique under the fold, removing the one entry leaves
/// the fold untaken.
pub proof fn lemma_remove_first_nick(nicks: Seq<String>, folded: Seq<char>)
    requires
        forall|i: int, j: int|
            0 <= i < j < nicks.len() ==> irc_lower(#[trigger] nicks[i]@) != irc_lower(
                #[trigger] nicks[j]@,
            ),
    ensures
        forall|i: int|
            0 <= i < remove_first_nick(nicks, folded).len() ==> irc_lower(
                #[trigger] remove_first_nick(nicks, folded)[i]@,
            ) != folded,
        forall|i: int, j: int|
            0 <= i < j < remove_first_nick(nicks, folded).len() ==> irc_lower(
                #[trigger] remove_first_nick(nicks, folded)[i]@,
            ) != irc_lower(#[trigger] remove_first_nick(nicks, folded)[j]@),
    decreases nicks.len(),
{
    let out = remove_first_nick(nicks, folded);
    if nicks.len() == 0 {
    } else if irc_lower(nicks[0]@) == folded {
        assert forall|i: int| 0 <= i < out.len() implies irc_lower(#[trigger] out[i]@)
            != folded by {
            assert(out[i] == nicks[i + 1]);
            assert(irc_lower(nicks[0]@) != irc_lower(nicks[i + 1]@));
        }
        assert forall|i: int, j: int| 0 <= i < j < out.len() implies irc_lower(
            #[trigger] out[i]@,
        ) != irc_lower(#[trigger] out[j]@) by {
            assert(out[i] == nicks[i + 1] && out[j] == nicks[j + 1]);
        }
    } else {
        let rest = nicks.drop_first();
        assert(forall|i: int, j: int|
            0 <= i < j < rest.len() ==> irc_lower(#[trigger] rest[i]@) != irc_lower(
                #[trigger] rest[j]@,
            ));
        lemma_remove_first_nick(rest, folded);
        let sub = remove_first_nick(rest, folded);
        assert forall|i: int| 0 <= i < out.len() implies irc_lower(#[trigger] out[i]@)
            != folded by {
            if i > 0 {
                assert(out[i] == sub[i - 1]);
            }
        }
        assert forall|i: int, j: int| 0 <= i < j < out.len() implies irc_lower(
            #[trigger] out[i]@,
        ) != irc_lower(#[trigger] out[j]@) by {
            if i == 0 {
                assert(out[j] == sub[j - 1]);
                lemma_remove_kept(rest, folded, j - 1);
                let w = choose|w: int| 0 <= w < rest.len() && #[trigger] rest[w] == sub[j - 1];
                assert(irc_lower(nicks[0]@) != irc_lower(rest[w]@));
            } else {
                assert(out[i] == sub[i - 1] && out[j] == sub[j - 1]);
            }
        }
    }
}

/// Whatever removal keeps was already there.
proof fn lemma_remove_kept(nicks: Seq<String>, folded: Seq<char>, i: int)
    requires
        0 <= i < remove_first_nick(nicks, folded).len(),
    ensures
        exists|w: int|
            0 <= w < nicks.len() && #[trigger] nicks[w] == remove_first_nick(nicks, folded)[i],
    decreases nicks.len(),
{
    let out = remove_first_nick(nicks, folded);
    if nicks.len() == 0 {
    } else if irc_lower(nicks[0]@) == folded {
        assert(out[i] == nicks[i + 1]);
    } else {
        if i == 0 {
            assert(out[0] == nicks[0]);
        } else {
            lemma_remove_kept(nicks.drop_first(), folded, i - 1);
            let w = choose|w: int|
                0 <= w < nicks.drop_first().len() && #[trigger] nicks.drop_first()[w]
                    == remove_first_nick(nicks.drop_first(), folded)[i - 1];
            assert(nicks[w + 1] == out[i]);
        }
    }
}

/// The registry without every entry keyed by `uuid`.
pub open spec fn remove_clients(
    clients: Seq<(u128, ServerClient)>,
    uuid: u128,
) -> Seq<(u128, ServerClient)>
    decreases clients.len(),
{
    if clients.len() == 0 {
        Seq::empty()
    } else if clients[0].0 == uuid {
        remove_clients(clients.drop_first(), uuid)
    } else {
        seq![clients[0]] + remove_clients(clients.drop_first(), uuid)
    }
}

pub proof fn lemma_remove_clients(clients: Seq<(u128, ServerClient)>, uuid: u128)
    ensures
        forall|i: int|
            0 <= i < remove_clients(clients, uuid).len() ==> (#[trigger] remove_clients(
                clients,
                uuid,
            )[i]).0 != uuid,
        forall|i: int|
            #![trigger remove_clients(clients, uuid)[i]]
            0 <= i < remove_clients(clients, uuid).len() ==> exists|w: int|
                0 <= w < clients.len() && #[trigger] clients[w] == remove_clients(
                    clients,
                    uuid,
                )[i],
    decreases clients.len(),
{
    let out = remove_clients(clients, uuid);
    if clients.len() == 0 {
    } else {
        lemma_remove_clients(clients.drop_first(), uuid);
        let sub = remove_clients(clients.drop_first(), uuid);
        if clients[0].0 == uuid {
            assert forall|i: int| #![trigger out[i]] 0 <= i < out.len() implies exists|w: int|
                0 <= w < clients.len() && #[trigger] clients[w] == out[i] by {
                let w0 = choose|w0: int|
                    0 <= w0 < clients.drop_first().len() && #[trigger] clients.drop_first()[w0]
                        == sub[i];
                assert(clients[w0 + 1] == out[i]);
            }
        } else {
            assert forall|i: int| 0 <= i < out.len() implies (#[trigger] out[i]).0 != uuid by {
                if i > 0 {
                    assert(out[i] == sub[i - 1]);
                }
            }
            assert forall|i: int| #![trigger out[i]] 0 <= i < out.len() implies exists|w: int|
                0 <= w < clients.len() && #[trigger] clients[w] == out[i] by {
                if i == 0 {
                    assert(clients[0] == out[0]);
                } else {
                    let w0 = choose|w0: int|
                        0 <= w0 < clients.drop_first().len() && #[trigger] clients.drop_first()[w0]
                            == sub[i - 1];
                    assert(clients[w0 + 1] == out[i]);
                }
            }
        }
    }
}

/// A member list without the member `uuid`.
pub open spec fn strip_members(ms: Seq<ChannelUserV>, uuid: u128) -> Seq<ChannelUserV>
    decreases ms.len(),
{
    if ms.len() == 0 {
        Seq::empty()
    } else if ms[0].uuid == uuid {
        strip_members(ms.drop_first(), uuid)
    } else {
        seq![ms[0]] + strip_members(ms.drop_first(), uuid)
    }
}

pub proof fn lemma_strip_members(ms: Seq<ChannelUserV>, uuid: u128)
    ensures
        forall|i: int|
            0 <= i < strip_members(ms, uuid).len() ==> (#[trigger] strip_members(ms, uuid)[i]).uuid
                != uuid,
        forall|i: int|
            #![trigger strip_members(ms, uuid)[i]]
            0 <= i < strip_members(ms, uuid).len() ==> exists|w: int|
                0 <= w < ms.len() && #[trigger] ms[w] == strip_members(ms, uuid)[i],
    decreases ms.len(),
{
    let out = strip_members(ms, uuid);
    if ms.len() == 0 {
    } else {
        lemma_strip_members(ms.drop_first(), uuid);
        let sub = strip_members(ms.drop_first(), uuid);
        if ms[0].uuid == uuid {
            assert forall|i: int| #![trigger out[i]] 0 <= i < out.len() implies exists|w: int|
                0 <= w < ms.len() && #[trigger] ms[w] == out[i] by {
                let w0 = choose|w0: int|
                    0 <= w0 < ms.drop_first().len() && #[trigger] ms.drop_first()[w0] == sub[i];
                assert(ms[w0 + 1] == out[i]);
            }
        } else {
            assert forall|i: int| 0 <= i < out.len() implies (#[trigger] out[i]).uuid != uuid by {
                if i > 0 {
                    assert(out[i] == sub[i - 1]);
                }
            }
            assert forall|i: int| #![trigger out[i]] 0 <= i < out.len() implies exists|w: int|
                0 <= w < ms.len() && #[trigger] ms[w] == out[i] by {
                if i == 0 {
                    assert(ms[0] == out[0]);
                } else {
                    let w0 = choose|w0: int|
                        0 <= w0 < ms.drop_first().len() && #[trigger] ms.drop_first()[w0] == sub[i
                            - 1];
                    assert(ms[w0 + 1] == out[i]);
                }
            }
        }
    }
}

/// The channels with the member `uuid` removed everywhere and the
/// channels left empty by that reaped.
pub open spec fn strip_channels(chs: Seq<ChannelV>, uuid: u128) -> Seq<ChannelV>
    decreases chs.len(),
{
    if chs.len() == 0 {
        Seq::empty()
    } else {
        let kept = strip_members(chs[0].clients, uuid);
        let rest = strip_channels(chs.drop_first(), uuid);
        if kept.len() == 0 {
            rest
        } else {
            seq![ChannelV { name: chs[0].name, clients: kept, topic: chs[0].topic }] + rest
        }
    }
}

pub proof fn lemma_strip_channels(chs: Seq<ChannelV>, uuid: u128)
    ensures
        forall|i: int, k: int|
            #![trigger strip_channels(chs, uuid)[i].clients[k]]
            0 <= i < strip_channels(chs, uuid).len() && 0 <= k < strip_channels(
                chs,
                uuid,
            )[i].clients.len() ==> strip_channels(chs, uuid)[i].clients[k].uuid != uuid,
        forall|i: int|
            0 <= i < strip_channels(chs, uuid).len() ==> (#[trigger] strip_channels(
                chs,
                uuid,
            )[i]).clients.len() >= 1,
    decreases chs.len(),
{
    let out = strip_channels(chs, uuid);
    if chs.len() == 0 {
    } else {
        lemma_strip_channels(chs.drop_first(), uuid);
        lemma_strip_members(chs[0].clients, uuid);
        let kept = strip_members(chs[0].clients, uuid);
        let rest = strip_channels(chs.drop_first(), uuid);
        if kept.len() == 0 {
        } else {
            assert forall|i: int, k: int|
                #![trigger out[i].clients[k]]
                0 <= i < out.len() && 0 <= k < out[i].clients.len() implies out[i].clients[k].uuid
                != uuid by {
                if i == 0 {
                    assert(out[0].clients == kept);
                } else {
                    assert(out[i] == rest[i - 1]);
                }
            }
            assert forall|i: int| 0 <= i < out.len() implies (#[trigger] out[i]).clients.len()
                >= 1 by {
                if i > 0 {
                    assert(out[i] == rest[i - 1]);
                }
            }
        }
    }
}

impl ServerState {
    /// Forgets a departed client: its nickname is released, its
    /// registry entry removed, and it leaves every channel it was in;
    /// channels left empty are deleted. An empty nickname or a nil
    /// identifier makes the call a no-op.
    pub fn drop_client(&mut self, nick: String, uuid: u128)
        ensures
            final(self).prefix == old(self).prefix,
            if nick@.len() == 0 || uuid == 0 {
                *final(self) == *old(self)
            } else {
                &&& final(self).nicks@ == remove_first_nick(old(self).nicks@, irc_lower(nick@))
                &&& final(self).clients@ == remove_clients(old(self).clients@, uuid)
                &&& channel_views(final(self).channels@) == strip_channels(
                    channel_views(old(self).channels@),
                    uuid,
                )
                &&& !final(self).has_client(uuid)
                &&& old(self).wf() ==> !final(self).nick_taken(nick@)
                &&& forall|i: int, k: int|
                    #![trigger channel_views(final(self).channels@)[i].clients[k]]
                    0 <= i < channel_views(final(self).channels@).len() && 0 <= k < channel_views(
                        final(self).channels@,
                    )[i].clients.len() ==> channel_views(final(self).channels@)[i].clients[k].uuid
                        != uuid
            },
    {
        if nick.as_str().unicode_len() == 0 || uuid == 0 {
            return ;
        }
        let folded = irc_fold(&str_chars(nick.as_str()));
        // release the nickname
        let ghost nicks0 = self.nicks@;
        let mut kept_nicks: Vec<String> = Vec::new();
        let mut removed = false;
        while self.nicks.len() > 0
            invariant
                self.prefix == old(self).prefix,
                self.clients == old(self).clients,
                self.channels == old(self).channels,
                folded@ == irc_lower(nick@),
                if removed {
                    kept_nicks@ + self.nicks@ == remove_first_nick(nicks0, irc_lower(nick@))
                } else {
                    remove_first_nick(nicks0, irc_lower(nick@)) == kept_nicks@
                        + remove_first_nick(self.nicks@, irc_lower(nick@)) && forall|i: int|
                        0 <= i < kept_nicks@.len() ==> irc_lower(#[trigger] kept_nicks@[i]@)
                            != irc_lower(nick@)
                },
            decreases self.nicks@.len(),
        {
            let ghost rem = self.nicks@;
            let entry = self.nicks.remove(0);
            if !removed && chars_eq(&irc_fold(&str_chars(entry.as_str())), &folded) {
                removed = true;
                proof {
                    assert(remove_first_nick(rem, irc_lower(nick@)) =~= self.nicks@);
                    assert(kept_nicks@ + self.nicks@ =~= remove_first_nick(
                        nicks0,
                        irc_lower(nick@),
                    ));
                }
            } else {
                kept_nicks.push(entry);
                proof {
                    if removed {
                        assert(kept_nicks@ + self.nicks@ =~= remove_first_nick(
                            nicks0,
                            irc_lower(nick@),
                        ));
                    } else {
                        assert(remove_first_nick(rem, irc_lower(nick@)) =~= seq![rem[0]]
                            + remove_first_nick(self.nicks@, irc_lower(nick@)));
                        assert((kept_nicks@.drop_last() + seq![rem[0]]) =~= kept_nicks@);
                        assert(remove_first_nick(nicks0, irc_lower(nick@)) =~= kept_nicks@
                            + remove_first_nick(self.nicks@, irc_lower(nick@)));
                    }
                }
            }
        }
        proof {
            if !removed {
                assert(remove_first_nick(self.nicks@, irc_lower(nick@))
                    =~= Seq::<String>::empty());
                assert(kept_nicks@ + remove_first_nick(self.nicks@, irc_lower(nick@))
                    =~= kept_nicks@);
            } else {
                assert(kept_nicks@ + self.nicks@ =~= kept_nicks@);
            }
        }
        self.nicks = kept_nicks;
        // remove the registry entry
        let ghost clients0 = self.clients@;
        let mut kept_clients: Vec<(u128, ServerClient)> = Vec::new();
        while self.clients.len() > 0
            invariant
                self.prefix == old(self).prefix,
                self.channels == old(self).channels,
                self.nicks@ == remove_first_nick(nicks0, irc_lower(nick@)),
                remove_clients(clients0, uuid) == kept_clients@ + remove_clients(
                    self.clients@,
                    uuid,
                ),
                forall|i: int|
                    0 <= i < kept_clients@.len() ==> (#[trigger] kept_clients@[i]).0 != uuid,
            decreases self.clients@.len(),
        {
            let ghost rem = self.clients@;
            let entry = self.clients.remove(0);
            if entry.0 != uuid {
                kept_clients.push(entry);
                proof {
                    assert(remove_clients(rem, uuid) =~= seq![rem[0]] + remove_clients(
                        self.clients@,
                        uuid,
                    ));
                    assert((kept_clients@.drop_last() + seq![rem[0]]) =~= kept_clients@);
                    assert(remove_clients(clients0, uuid) =~= kept_clients@ + remove_clients(
                        self.clients@,
                        uuid,
                    ));
                }
            } else {
                proof {
                    assert(remove_clients(rem, uuid) =~= remove_clients(self.clients@, uuid));
                }
            }
        }
        proof {
            assert(remove_clients(self.clients@, uuid) =~= Seq::<(u128, ServerClient)>::empty());
            assert(kept_clients@ + remove_clients(self.clients@, uuid) =~= kept_clients@);
        }
        self.clients = kept_clients;
        // leave every channel, reaping the ones emptied
        let ghost channels0 = channel_views(self.channels@);
        let mut kept_channels: Vec<Channel> = Vec::new();
        while self.channels.len() > 0
            invariant
                self.prefix == old(self).prefix,
                self.nicks@ == remove_first_nick(nicks0, irc_lower(nick@)),
                self.clients@ == remove_clients(clients0, uuid),
                strip_channels(channels0, uuid) == channel_views(kept_channels@)
                    + strip_channels(channel_views(self.channels@), uuid),
            decreases self.channels@.len(),
        {
            let ghost remv = channel_views(self.channels@);
            let mut ch = self.channels.remove(0);
            proof {
                assert(channel_views(self.channels@) =~= remv.drop_first());
            }
            let ghost chv = remv[0];
            // strip the member list of this channel
            let ghost members0 = ch@.clients;
            let mut kept_members: Vec<ChannelUser> = Vec::new();
            while ch.clients.len() > 0
                invariant
                    ch.name@ == chv.name,
                    ch@.topic == chv.topic,
                    strip_members(members0, uuid) == kept_members.deep_view() + strip_members(
                        ch.clients.deep_view(),
                        uuid,
                    ),
                decreases ch.clients@.len(),
            {
                let ghost mrem = ch.clients.deep_view();
                let m = ch.clients.remove(0);
                proof {
                    assert(ch.clients.deep_view() =~~= mrem.drop_first());
                }
                if m.uuid != uuid {
                    kept_members.push(m);
                    proof {
                        assert(strip_members(mrem, uuid) =~= seq![mrem[0]] + strip_members(
                            ch.clients.deep_view(),
                            uuid,
                        ));
                        assert(kept_members.deep_view() =~~= kept_members.deep_view().drop_last()
                            + seq![mrem[0]]);
                        assert(strip_members(members0, uuid) =~= kept_members.deep_view()
                            + strip_members(ch.clients.deep_view(), uuid));
                    }
                } else {
                    proof {
                        assert(mrem[0].uuid == uuid);
                        assert(strip_members(mrem, uuid) =~= strip_members(
                            ch.clients.deep_view(),
                            uuid,
                        ));
                    }
                }
            }
            proof {
                assert(ch.clients.deep_view() =~~= Seq::<ChannelUserV>::empty());
                assert(strip_members(ch.clients.deep_view(), uuid)
                    =~= Seq::<ChannelUserV>::empty());
                assert(kept_members.deep_view() + strip_members(ch.clients.deep_view(), uuid)
                    =~= kept_members.deep_view());
                assert(strip_members(members0, uuid) =~= kept_members.deep_view());
                assert(members0 == chv.clients);
            }
            if kept_members.len() > 0 {
                ch.clients = kept_members;
                let ghost keptv = channel_views(kept_channels@);
                kept_channels.push(ch);
                proof {
                    assert(channel_views(kept_channels@) =~= keptv.push(
                        ChannelV {
                            name: chv.name,
                            clients: strip_members(chv.clients, uuid),
                            topic: chv.topic,
                        },
                    ));
                    assert(strip_channels(remv, uuid) =~= seq![
                        ChannelV {
                            name: chv.name,
                            clients: strip_members(chv.clients, uuid),
                            topic: chv.topic,
                        },
                    ] + strip_channels(channel_views(self.channels@), uuid));
                    assert(channel_views(kept_channels@) + strip_channels(
                        channel_views(self.channels@),
                        uuid,
                    ) =~= keptv + strip_channels(remv, uuid));
                }
            } else {
                proof {
                    assert(strip_members(chv.clients, uuid).len() == 0);
                    assert(strip_channels(remv, uuid) =~= strip_channels(
                        channel_views(self.channels@),
                        uuid,
                    ));
                }
            }
        }
        proof {
            assert(channel_views(self.channels@) =~= Seq::<ChannelV>::empty());
            assert(strip_channels(channel_views(self.channels@), uuid)
                =~= Seq::<ChannelV>::empty());
            assert(channel_views(kept_channels@) + strip_channels(
                channel_views(self.channels@),
                uuid,
            ) =~= channel_views(kept_channels@));
        }
        self.channels = kept_channels;
        proof {
            lemma_remove_clients(clients0, uuid);
            if !self.has_client(uuid) {
            } else {
                let w = choose|w: int|
                    0 <= w < self.clients@.len() && (#[trigger] self.clients@[w]).0 == uuid;
                assert(false);
            }
            if old(self).wf() {
                lemma_remove_first_nick(nicks0, irc_lower(nick@));
                if self.nick_taken(nick@) {
                    let w = choose|w: int|
                        0 <= w < self.nicks@.len() && irc_lower(
                            #[trigger] self.nicks@[w]@,
                        ) == irc_lower(nick@);
                    assert(false);
                }
            }
            lemma_strip_channels(channels0, uuid);
        }
    }

    /// The NAMES reply block of one channel, empty when the channel
    /// does not exist.
    pub fn get_channel_users(&self, channel: &str) -> (r: Vec<Reply>)
        ensures
            ({
                let cv = channel_views(self.channels@);
                match find_channel_v(cv, channel@, 0) {
                    Some(i) => replies_views(r@) == names_replies(
                        cv[i].name,
                        cv[i].clients,
                        self.prefix@,
                    ),
                    None => r@.len() == 0,
                }
            }),
    {
        let name_chars = str_chars(channel);
        match Self::channel_index(&self.channels, &name_chars) {
            Some(i) => {
                let r = self.channels[i].reply_names(&self.prefix);
                proof {
                    let cv = channel_views(self.channels@);
                    assert(self.channels@[i as int]@ == cv[i as int]);
                    assert(replies_views(r@) =~= names_replies(
                        cv[i as int].name,
                        cv[i as int].clients,
                        self.prefix@,
                    ));
                }
                r
            },
            None => Vec::new(),
        }
    }
}

/// Bookkeeping for one join of an existing channel.
proof fn lemma_join_step_existing(
    pre_views: Seq<ChannelV>,
    name: Seq<char>,
    uuid: u128,
    nick: Seq<char>,
    p: PrefixV,
    i: int,
    post_views: Seq<ChannelV>,
    pre_ch: ChannelV,
    post_ch: ChannelV,
    names_v: Seq<Reply>,
)
    requires
        find_channel_v(pre_views, name, 0) == Some(i),
        0 <= i < pre_views.len(),
        pre_ch == pre_views[i],
        post_ch.name == pre_ch.name,
        post_ch.topic == pre_ch.topic,
        post_ch.clients == pre_ch.clients.push(plain_member(uuid, nick)),
        post_views.len() == pre_views.len(),
        forall|j: int| 0 <= j < pre_views.len() && j != i ==> post_views[j] == pre_views[j],
        post_views[i] == post_ch,
        ({
            let groups = pack_groups(post_ch.clients, names_bound(post_ch.name, p), Seq::empty(), 0);
            &&& names_v.len() == groups.len() + 1
            &&& forall|t: int|
                0 <= t < groups.len() ==> (#[trigger] names_v[t])@ == ReplyV::NamReply(
                    post_ch.name,
                    groups[t],
                )
            &&& names_v[names_v.len() - 1]@ == ReplyV::EndOfNames(post_ch.name)
        }),
    ensures
        ({
            let step = join_step(pre_views, name, uuid, nick, p);
            &&& step.0 == post_views
            &&& step.1 == seq![topic_reply(post_ch)] + replies_views(names_v)
        }),
{
    let step = join_step(pre_views, name, uuid, nick, p);
    let updated = ChannelV {
        name: pre_views[i].name,
        clients: pre_views[i].clients.push(plain_member(uuid, nick)),
        topic: pre_views[i].topic,
    };
    assert(updated == post_ch);
    assert(step.0 =~= post_views);
    let groups = pack_groups(post_ch.clients, names_bound(post_ch.name, p), Seq::empty(), 0);
    assert(names_replies(updated.name, updated.clients, p) =~= replies_views(names_v));
    assert(step.1 =~= seq![topic_reply(post_ch)] + replies_views(names_v));
}

/// Bookkeeping for one join that creates the channel.
proof fn lemma_join_step_fresh(
    pre_views: Seq<ChannelV>,
    name: Seq<char>,
    uuid: u128,
    nick: Seq<char>,
    p: PrefixV,
    post_views: Seq<ChannelV>,
    new_ch: ChannelV,
    names_v: Seq<Reply>,
)
    requires
        find_channel_v(pre_views, name, 0) is None,
        new_ch.name == name,
        new_ch.clients == seq![oper_member(uuid, nick)],
        new_ch.topic is None,
        post_views.len() == pre_views.len() + 1,
        forall|j: int| 0 <= j < pre_views.len() ==> post_views[j] == pre_views[j],
        post_views[pre_views.len() as int] == new_ch,
        ({
            let groups = pack_groups(new_ch.clients, names_bound(new_ch.name, p), Seq::empty(), 0);
            &&& names_v.len() == groups.len() + 1
            &&& forall|t: int|
                0 <= t < groups.len() ==> (#[trigger] names_v[t])@ == ReplyV::NamReply(
                    new_ch.name,
                    groups[t],
                )
            &&& names_v[names_v.len() - 1]@ == ReplyV::EndOfNames(new_ch.name)
        }),
    ensures
        ({
            let step = join_step(pre_views, name, uuid, nick, p);
            &&& step.0 == post_views
            &&& step.1 == seq![ReplyV::NoTopic(name)] + replies_views(names_v)
        }),
{
    let step = join_step(pre_views, name, uuid, nick, p);
    let fresh = ChannelV { name, clients: seq![oper_member(uuid, nick)], topic: None };
    assert(fresh == new_ch);
    assert(step.0 =~= post_views);
    assert(names_replies(name, fresh.clients, p) =~= replies_views(names_v));
    assert(step.1 =~= seq![ReplyV::NoTopic(name)] + replies_views(names_v));
}

/// Joining an existing channel keeps the registries consistent.
proof fn lemma_wf_join_existing(
    pre: ServerState,
    post: ServerState,
    uuid: u128,
    nick: Seq<char>,
    i: int,
)
    requires
        pre.wf(),
        pre.has_client(uuid),
        post.clients == pre.clients,
        post.nicks == pre.nicks,
        0 <= i < channel_views(pre.channels@).len(),
        channel_views(post.channels@).len() == channel_views(pre.channels@).len(),
        forall|j: int|
            0 <= j < channel_views(pre.channels@).len() && j != i ==> channel_views(
                post.channels@,
            )[j] == channel_views(pre.channels@)[j],
        channel_views(post.channels@)[i].name == channel_views(pre.channels@)[i].name,
        channel_views(post.channels@)[i].clients == channel_views(
            pre.channels@,
        )[i].clients.push(plain_member(uuid, nick)),
    ensures
        post.wf(),
{
    let pv = channel_views(pre.channels@);
    let qv = channel_views(post.channels@);
    assert forall|a: int, b: int| 0 <= a < b < qv.len() implies (#[trigger] qv[a]).name != (
    #[trigger] qv[b]).name by {
        assert(qv[a].name == pv[a].name && qv[b].name == pv[b].name);
    }
    assert forall|a: int| 0 <= a < qv.len() implies (#[trigger] qv[a]).clients.len() >= 1 by {
        if a != i {
            assert(qv[a] == pv[a]);
        }
    }
    assert forall|a: int, k: int|
        #![trigger qv[a].clients[k]]
        0 <= a < qv.len() && 0 <= k < qv[a].clients.len() implies post.has_client(
        qv[a].clients[k].uuid,
    ) by {
        if a == i && k == qv[i].clients.len() - 1 {
            assert(qv[a].clients[k] == plain_member(uuid, nick));
            assert(pre.has_client(uuid));
            let w = choose|w: int|
                0 <= w < pre.clients@.len() && (#[trigger] pre.clients@[w]).0 == uuid;
            assert(post.clients@[w].0 == uuid);
        } else {
            if a == i {
                assert(qv[a].clients[k] == pv[a].clients[k]);
            } else {
                assert(qv[a] == pv[a]);
            }
            assert(pre.has_client(pv[a].clients[k].uuid));
            let w = choose|w: int|
                0 <= w < pre.clients@.len() && (#[trigger] pre.clients@[w]).0
                    == pv[a].clients[k].uuid;
            assert(post.clients@[w].0 == pre.clients@[w].0);
        }
    }
}

/// Creating a channel under a new name keeps the registries
/// consistent.
proof fn lemma_wf_join_fresh(
    pre: ServerState,
    post: ServerState,
    uuid: u128,
    nick: Seq<char>,
    name: Seq<char>,
)
    requires
        pre.wf(),
        pre.has_client(uuid),
        post.clients == pre.clients,
        post.nicks == pre.nicks,
        find_channel_v(channel_views(pre.channels@), name, 0) is None,
        channel_views(post.channels@).len() == channel_views(pre.channels@).len() + 1,
        forall|j: int|
            0 <= j < channel_views(pre.channels@).len() ==> channel_views(post.channels@)[j]
                == channel_views(pre.channels@)[j],
        channel_views(post.channels@)[channel_views(pre.channels@).len() as int].name == name,
        channel_views(post.channels@)[channel_views(pre.channels@).len() as int].clients == seq![
            oper_member(uuid, nick),
        ],
    ensures
        post.wf(),
{
    let pv = channel_views(pre.channels@);
    let qv = channel_views(post.channels@);
    let last = pv.len() as int;
    lemma_find_channel_v(pv, name, 0);
    assert forall|a: int, b: int| 0 <= a < b < qv.len() implies (#[trigger] qv[a]).name != (
    #[trigger] qv[b]).name by {
        if b == last {
            assert(qv[a] == pv[a]);
            assert(pv[a].name != name);
        } else {
            assert(qv[a] == pv[a] && qv[b] == pv[b]);
        }
    }
    assert forall|a: int| 0 <= a < qv.len() implies (#[trigger] qv[a]).clients.len() >= 1 by {
        if a != last {
            assert(qv[a] == pv[a]);
        }
    }
    assert forall|a: int, k: int|
        #![trigger qv[a].clients[k]]
        0 <= a < qv.len() && 0 <= k < qv[a].clients.len() implies post.has_client(
        qv[a].clients[k].uuid,
    ) by {
        if a == last {
            assert(qv[a].clients[k] == oper_member(uuid, nick));
            let w = choose|w: int|
                0 <= w < pre.clients@.len() && (#[trigger] pre.clients@[w]).0 == uuid;
            assert(post.clients@[w].0 == uuid);
        } else {
            assert(qv[a] == pv[a]);
            assert(pre.has_client(pv[a].clients[k].uuid));
            let w = choose|w: int|
                0 <= w < pre.clients@.len() && (#[trigger] pre.clients@[w]).0
                    == pv[a].clients[k].uuid;
            assert(post.clients@[w].0 == pre.clients@[w].0);
        }
    }
}

} // verus!
