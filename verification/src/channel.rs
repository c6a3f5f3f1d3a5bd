//! Channels: membership entries, the channel itself, its topic reply and
//! the paginated NAMES reply sequence.
use vstd::prelude::*;
use crate::modes::ChannelMode;
use crate::prefix::{Prefix, PrefixV, prefix_text};
use crate::reply::{Reply, ReplyV, reply_text};

verus! {

/// Errors a channel operation can raise. No operation raises one yet;
/// the type is kept for the command surface.
pub enum ChannelError {
    Unspecified,
}

/// One member of a channel, with its display flags.
#[derive(Debug, PartialEq)]
pub struct ChannelUser {
    pub uuid: u128,
    pub nick: String,
    pub is_oper: bool,
    pub chat_allowed: bool,
}

/// The mathematical shape of a `ChannelUser`.
pub struct ChannelUserV {
    pub uuid: u128,
    pub nick: Seq<char>,
    pub is_oper: bool,
    pub chat_allowed: bool,
}

impl View for ChannelUser {
    type V = ChannelUserV;

    open spec fn view(&self) -> ChannelUserV {
        ChannelUserV {
            uuid: self.uuid,
            nick: self.nick@,
            is_oper: self.is_oper,
            chat_allowed: self.chat_allowed,
        }
    }
}

impl Clone for ChannelUser {
    fn clone(&self) -> (r: Self)
        ensures
            r == *self,
    {
        ChannelUser {
            uuid: self.uuid,
            nick: self.nick.clone(),
            is_oper: self.is_oper,
            chat_allowed: self.chat_allowed,
        }
    }
}

impl DeepView for ChannelUser {
    type V = ChannelUserV;

    open spec fn deep_view(&self) -> ChannelUserV {
        self.view()
    }
}

/// How a member is shown in a NAMES reply: `@` marks an operator, `+` a
/// voiced member, everyone else is the bare nick.
pub open spec fn user_display(u: ChannelUserV) -> Seq<char> {
    if u.is_oper {
        seq!['@'] + u.nick
    } else if u.chat_allowed {
        seq!['+'] + u.nick
    } else {
        u.nick
    }
}

impl ChannelUser {
    /// A member that enters as channel operator.
    pub fn new_oper(uuid: u128, nick: String) -> (r: ChannelUser)
        ensures
            r@ == (ChannelUserV { uuid, nick: nick@, is_oper: true, chat_allowed: false }),
    {
        ChannelUser { uuid, nick, is_oper: true, chat_allowed: false }
    }

    /// An ordinary member.
    pub fn new(uuid: u128, nick: String) -> (r: ChannelUser)
        ensures
            r@ == (ChannelUserV { uuid, nick: nick@, is_oper: false, chat_allowed: false }),
    {
        ChannelUser { uuid, nick, is_oper: false, chat_allowed: false }
    }

    /// The member's display string.
    pub fn display_text(&self) -> (r: String)
        ensures
            r@ == user_display(self@),
    {
        if self.is_oper {
            let mut out = String::from_str("@");
            out.append(self.nick.as_str());
            proof {
                reveal_strlit("@");
                assert(out@ =~= seq!['@'] + self.nick@);
            }
            out
        } else if self.chat_allowed {
            let mut out = String::from_str("+");
            out.append(self.nick.as_str());
            proof {
                reveal_strlit("+");
                assert(out@ =~= seq!['+'] + self.nick@);
            }
            out
        } else {
            self.nick.clone()
        }
    }

    /// The member's identity.
    pub fn uuid(&self) -> (r: u128)
        ensures
            r == self@.uuid,
    {
        self.uuid
    }
}

/// The length a group of members adds to a NAMES line: each display
/// string and one separating space.
pub open spec fn group_len(g: Seq<ChannelUserV>) -> int
    decreases g.len(),
{
    if g.len() == 0 {
        0
    } else {
        group_len(g.drop_last()) + user_display(g.last()).len() + 1
    }
}

/// The greedy pagination of a member list: members are appended to the
/// current group while the group stays under `bound`; a member that
/// would overflow closes the group and opens the next one; a member too
/// wide for any group stands alone.
pub open spec fn pack_groups(
    users: Seq<ChannelUserV>,
    bound: int,
    cur: Seq<ChannelUserV>,
    cur_len: int,
) -> Seq<Seq<ChannelUserV>>
    decreases users.len(),
{
    if users.len() == 0 {
        if cur.len() > 0 {
            seq![cur]
        } else {
            Seq::empty()
        }
    } else {
        let d = user_display(users[0]).len() as int;
        if cur.len() == 0 || cur_len + d + 1 < bound {
            pack_groups(users.drop_first(), bound, cur.push(users[0]), cur_len + d + 1)
        } else {
            seq![cur] + pack_groups(users.drop_first(), bound, seq![users[0]], d + 1)
        }
    }
}

/// All the groups, flattened back into one member list.
pub open spec fn concat_groups(gs: Seq<Seq<ChannelUserV>>) -> Seq<ChannelUserV>
    decreases gs.len(),
{
    if gs.len() == 0 {
        Seq::empty()
    } else {
        gs[0] + concat_groups(gs.drop_first())
    }
}

/// Pagination loses nobody: the groups flattened give back the current
/// group followed by every remaining member.
pub proof fn lemma_pack_groups_complete(
    users: Seq<ChannelUserV>,
    bound: int,
    cur: Seq<ChannelUserV>,
    cur_len: int,
)
    ensures
        concat_groups(pack_groups(users, bound, cur, cur_len)) == cur + users,
    decreases users.len(),
{
    if users.len() == 0 {
        if cur.len() > 0 {
            let gs = seq![cur];
            assert(gs.drop_first() =~= Seq::<Seq<ChannelUserV>>::empty());
            assert(concat_groups(Seq::<Seq<ChannelUserV>>::empty())
                =~= Seq::<ChannelUserV>::empty());
            assert(gs[0] == cur);
            assert(concat_groups(gs) =~= cur + users);
        } else {
            assert(cur + users =~= Seq::<ChannelUserV>::empty());
        }
    } else {
        let d = user_display(users[0]).len() as int;
        if cur.len() == 0 || cur_len + d + 1 < bound {
            lemma_pack_groups_complete(users.drop_first(), bound, cur.push(users[0]), cur_len + d
                + 1);
            assert(cur.push(users[0]) + users.drop_first() =~= cur + users);
        } else {
            lemma_pack_groups_complete(users.drop_first(), bound, seq![users[0]], d + 1);
            let rest = pack_groups(users.drop_first(), bound, seq![users[0]], d + 1);
            let gs = seq![cur] + rest;
            assert(gs.drop_first() =~= rest);
            assert(gs[0] == cur);
            assert(concat_groups(gs) == cur + (seq![users[0]] + users.drop_first()));
            assert(cur + (seq![users[0]] + users.drop_first()) =~= cur + users);
        }
    }
}

/// Every group of the pagination is non-empty, and stays under the
/// bound unless it holds a single member that is itself too wide.
pub proof fn lemma_pack_groups_fit(
    users: Seq<ChannelUserV>,
    bound: int,
    cur: Seq<ChannelUserV>,
    cur_len: int,
)
    requires
        cur_len == group_len(cur),
        cur.len() <= 1 || group_len(cur) < bound,
    ensures
        forall|k: int|
            0 <= k < pack_groups(users, bound, cur, cur_len).len() ==> {
                let g = #[trigger] pack_groups(users, bound, cur, cur_len)[k];
                g.len() >= 1 && (g.len() == 1 || group_len(g) < bound)
            },
    decreases users.len(),
{
    if users.len() == 0 {
        if cur.len() > 0 {
            assert(pack_groups(users, bound, cur, cur_len) == seq![cur]);
        } else {
            assert(pack_groups(users, bound, cur, cur_len) == Seq::<Seq<ChannelUserV>>::empty());
        }
    } else {
        let d = user_display(users[0]).len() as int;
        if cur.len() == 0 || cur_len + d + 1 < bound {
            let cur2 = cur.push(users[0]);
            assert(cur2.drop_last() =~= cur);
            assert(cur2.last() == users[0]);
            assert(group_len(cur2) == cur_len + d + 1);
            lemma_pack_groups_fit(users.drop_first(), bound, cur2, cur_len + d + 1);
            let packrec = pack_groups(users.drop_first(), bound, cur2, cur_len + d + 1);
            let pack = pack_groups(users, bound, cur, cur_len);
            assert(pack == packrec);
            assert forall|k: int| 0 <= k < pack.len() implies {
                let g = #[trigger] pack[k];
                g.len() >= 1 && (g.len() == 1 || group_len(g) < bound)
            } by {
                assert(packrec[k].len() >= 1 && (packrec[k].len() == 1 || group_len(packrec[k])
                    < bound));
            }
        } else {
            let cur2 = seq![users[0]];
            assert(cur2.drop_last() =~= Seq::<ChannelUserV>::empty());
            assert(cur2.last() == users[0]);
            assert(group_len(Seq::<ChannelUserV>::empty()) == 0);
            assert(group_len(cur2) == d + 1);
            lemma_pack_groups_fit(users.drop_first(), bound, cur2, d + 1);
            let rest = pack_groups(users.drop_first(), bound, cur2, d + 1);
            let gs = seq![cur] + rest;
            let pack = pack_groups(users, bound, cur, cur_len);
            assert(pack == gs);
            assert forall|k: int| 0 <= k < pack.len() implies {
                let g = #[trigger] pack[k];
                g.len() >= 1 && (g.len() == 1 || group_len(g) < bound)
            } by {
                if k == 0 {
                    assert(gs[0] == cur);
                } else {
                    assert(gs[k] == rest[k - 1]);
                    assert(rest[k - 1].len() >= 1 && (rest[k - 1].len() == 1 || group_len(
                        rest[k - 1],
                    ) < bound));
                }
            }
        }
    }
}

/// A NAMES page of `g` members joined with spaces is one space shorter
/// than the lengths `group_len` counts.
proof fn lemma_displays_join_len(g: Seq<ChannelUserV>)
    requires
        g.len() >= 1,
    ensures
        crate::text::join_with(crate::reply::user_displays(g), ' ').len() == group_len(g) - 1,
    decreases g.len(),
{
    let ds = crate::reply::user_displays(g);
    if g.len() == 1 {
        assert(ds.len() == 1);
        assert(crate::text::join_with(ds, ' ') == ds[0]);
        assert(ds[0] == user_display(g[0]));
        assert(g.drop_last() =~= Seq::<ChannelUserV>::empty());
        assert(group_len(Seq::<ChannelUserV>::empty()) == 0);
        assert(group_len(g) == user_display(g.last()).len() + 1);
    } else {
        let g0 = g.drop_last();
        lemma_displays_join_len(g0);
        let ds0 = crate::reply::user_displays(g0);
        assert(ds0.push(user_display(g.last())) =~= ds);
        crate::text::lemma_join_push(ds0, user_display(g.last()), ' ');
    }
}

/// One serialized NAMES page, sender prefix and frame terminator
/// included, for a group that kept under the bound.
proof fn lemma_names_page_fits(name: Seq<char>, p: PrefixV, g: Seq<ChannelUserV>)
    requires
        g.len() >= 1,
        group_len(g) < names_bound(name, p),
    ensures
        1 + prefix_text(p).len() + 1 + reply_text(ReplyV::NamReply(name, g)).len() + 2 <= 512,
{
    lemma_displays_join_len(g);
    reveal_strlit("353 ");
    reveal_strlit(" :");
    assert(reply_text(ReplyV::NamReply(name, g)).len() == 4 + name.len() + 2 + (group_len(g) - 1));
}

/// The NAMES pagination law: no member is lost, every page holds at
/// least one member, and every page with more than one member
/// serializes, sender prefix and frame terminator included, within the
/// 512-byte line budget.
pub proof fn lemma_reply_names_law(clients: Seq<ChannelUserV>, name: Seq<char>, p: PrefixV)
    ensures
        concat_groups(pack_groups(clients, names_bound(name, p), Seq::empty(), 0)) == clients,
        forall|k: int|
            0 <= k < pack_groups(clients, names_bound(name, p), Seq::empty(), 0).len() ==> {
                let g = #[trigger] pack_groups(clients, names_bound(name, p), Seq::empty(), 0)[k];
                g.len() >= 1 && (g.len() == 1 || 1 + prefix_text(p).len() + 1 + reply_text(
                    ReplyV::NamReply(name, g),
                ).len() + 2 <= 512)
            },
{
    let bound = names_bound(name, p);
    lemma_pack_groups_complete(clients, bound, Seq::empty(), 0);
    assert(Seq::<ChannelUserV>::empty() + clients =~= clients);
    lemma_pack_groups_fit(clients, bound, Seq::empty(), 0);
    let pack = pack_groups(clients, bound, Seq::empty(), 0);
    assert forall|k: int| 0 <= k < pack.len() implies {
        let g = #[trigger] pack[k];
        g.len() >= 1 && (g.len() == 1 || 1 + prefix_text(p).len() + 1 + reply_text(
            ReplyV::NamReply(name, g),
        ).len() + 2 <= 512)
    } by {
        let g = pack[k];
        assert(g.len() >= 1 && (g.len() == 1 || group_len(g) < bound));
        if g.len() > 1 {
            lemma_names_page_fits(name, p, g);
        }
    }
}

/// A named channel with its members, its mode and an optional topic.
pub struct Channel {
    pub name: String,
    pub clients: Vec<ChannelUser>,
    pub mode: ChannelMode,
    pub topic: Option<String>,
}

/// The mathematical shape of a `Channel`: its name, members and topic.
pub struct ChannelV {
    pub name: Seq<char>,
    pub clients: Seq<ChannelUserV>,
    pub topic: Option<Seq<char>>,
}

impl View for Channel {
    type V = ChannelV;

    open spec fn view(&self) -> ChannelV {
        ChannelV {
            name: self.name@,
            clients: self.clients.deep_view(),
            topic: match &self.topic {
                Some(t) => Some(t@),
                None => None,
            },
        }
    }
}

/// The room a member group may fill on one NAMES line for a channel of
/// this name, sent under this prefix: the line budget less the reply
/// header, the serialized prefix and the frame terminator.
pub open spec fn names_bound(name: Seq<char>, p: PrefixV) -> int {
    512 - ((6 + name.len()) + prefix_text(p).len() + 2)
}

impl Channel {
    /// A new channel: its creator is the sole member, as operator; the
    /// mode is the default; no topic is set.
    pub fn new(name: String, uuid: u128, nick: String) -> (r: Channel)
        ensures
            r@.name == name@,
            r@.clients =~= seq![
                ChannelUserV { uuid, nick: nick@, is_oper: true, chat_allowed: false },
            ],
            r@.topic is None,
    {
        let mut clients: Vec<ChannelUser> = Vec::new();
        clients.push(ChannelUser::new_oper(uuid, nick));
        Channel { name, clients, mode: ChannelMode::default(), topic: None }
    }

    /// Appends an ordinary member.
    pub fn add_client(&mut self, uuid: u128, nick: String)
        ensures
            final(self)@.name == old(self)@.name,
            final(self)@.topic == old(self)@.topic,
            final(self)@.clients =~= old(self)@.clients.push(
                ChannelUserV { uuid, nick: nick@, is_oper: false, chat_allowed: false },
            ),
    {
        self.clients.push(ChannelUser::new(uuid, nick));
    }

    /// The member list.
    pub fn get_clients(&self) -> (r: &Vec<ChannelUser>)
        ensures
            r.deep_view() == self@.clients,
    {
        &self.clients
    }

    /// The topic reply: the topic when one is set, else the no-topic
    /// numeric.
    pub fn reply_topic(&self) -> (r: Reply)
        ensures
            r@ == match self@.topic {
                Some(t) => ReplyV::Topic(self@.name, t),
                None => ReplyV::NoTopic(self@.name),
            },
    {
        match &self.topic {
            Some(topic) => Reply::Topic(self.name.clone(), topic.clone()),
            None => Reply::NoTopic(self.name.clone()),
        }
    }

    /// The full NAMES response: the members paginated into NAMREPLY
    /// lines that respect the line budget, closed by one ENDOFNAMES.
    pub fn reply_names(&self, prefix: &Prefix) -> (r: Vec<Reply>)
        ensures
            ({
                let groups = pack_groups(
                    self@.clients,
                    names_bound(self@.name, prefix@),
                    Seq::empty(),
                    0,
                );
                &&& r@.len() == groups.len() + 1
                &&& forall|i: int|
                    0 <= i < groups.len() ==> #[trigger] r@[i]@ == ReplyV::NamReply(
                        self@.name,
                        groups[i],
                    )
                &&& r@[r@.len() - 1]@ == ReplyV::EndOfNames(self@.name)
            }),
    {
        let ghost bound = names_bound(self@.name, prefix@);
        let prefix_str = prefix.to_text();
        let base: i128 = 512 - 2 - 6 - (self.name.as_str().unicode_len() as i128) - (
        prefix_str.as_str().unicode_len() as i128);
        let ghost full = self@.clients;
        let ghost packed = pack_groups(full, bound, Seq::empty(), 0);
        let mut r: Vec<Reply> = Vec::new();
        let ghost mut done = Seq::<Seq<ChannelUserV>>::empty();
        let mut cur: Vec<ChannelUser> = Vec::new();
        let mut cur_len: u128 = 0;
        let mut i: usize = 0;
        proof {
            assert(base == bound);
            assert(bound <= 504);
            assert(full.subrange(0, full.len() as int) =~= full);
            assert(cur.deep_view() =~= Seq::<ChannelUserV>::empty());
            assert(packed =~= concat_packs(done, packed));
        }
        while i < self.clients.len()
            invariant
                i <= self.clients@.len(),
                full == self@.clients,
                full.len() == self.clients@.len(),
                base == bound,
                bound <= 504,
                cur_len == group_len(cur.deep_view()),
                cur_len <= 0x1_0000_0000_0000_0000u128,
                cur@.len() == cur.deep_view().len(),
                r@.len() == done.len(),
                forall|j: int|
                    0 <= j < done.len() ==> #[trigger] r@[j]@ == ReplyV::NamReply(
                        self@.name,
                        done[j],
                    ),
                packed == concat_packs(
                    done,
                    pack_groups(
                        full.subrange(i as int, full.len() as int),
                        bound,
                        cur.deep_view(),
                        cur_len as int,
                    ),
                ),
            decreases self.clients@.len() - i,
        {
            let ghost remaining = full.subrange(i as int, full.len() as int);
            let ghost curv = cur.deep_view();
            let client = self.clients[i].clone();
            let d: usize = client.display_text().as_str().unicode_len();
            proof {
                assert(remaining[0] == full[i as int]);
                assert(remaining.drop_first() =~= full.subrange(i + 1, full.len() as int));
                assert(user_display(full[i as int]).len() == d);
            }
            if cur.len() == 0 || (cur_len as i128) + (d as i128) + 1 < base {
                let ghost cur2 = curv.push(full[i as int]);
                cur.push(client);
                proof {
                    assert(cur.deep_view() =~~= cur2);
                    assert(cur2.drop_last() =~= curv);
                    assert(cur2.last() == full[i as int]);
                    assert(group_len(cur2) == group_len(curv) + d + 1);
                    if curv.len() > 0 {
                        assert(cur_len + d + 1 < bound);
                        assert(bound <= 504);
                    }
                }
                cur_len = cur_len + (d as u128) + 1;
            } else {
                let ghost old_done = done;
                r.push(Reply::NamReply(self.name.clone(), cur));
                proof {
                    done = old_done.push(curv);
                }
                cur = Vec::new();
                cur.push(client);
                cur_len = (d as u128) + 1;
                proof {
                    let ghost cur2 = seq![full[i as int]];
                    assert(cur.deep_view() =~~= cur2);
                    assert(cur2.drop_last() =~= Seq::<ChannelUserV>::empty());
                    assert(cur2.last() == full[i as int]);
                    assert(group_len(Seq::<ChannelUserV>::empty()) == 0);
                    assert(group_len(cur2) == d + 1);
                    lemma_concat_packs_shift(old_done, curv, remaining, bound, d + 1);
                }
            }
            i = i + 1;
        }
        // close the open group, if any, and append the terminator
        proof {
            assert(full.subrange(full.len() as int, full.len() as int)
                =~= Seq::<ChannelUserV>::empty());
        }
        if cur.len() > 0 {
            let ghost curv = cur.deep_view();
            let ghost old_done = done;
            r.push(Reply::NamReply(self.name.clone(), cur));
            proof {
                done = old_done.push(curv);
                assert(pack_groups(
                    Seq::<ChannelUserV>::empty(),
                    bound,
                    curv,
                    cur_len as int,
                ) =~= seq![curv]);
                lemma_concat_packs_push(old_done, curv);
                assert(packed =~= done);
            }
        } else {
            proof {
                assert(pack_groups(
                    Seq::<ChannelUserV>::empty(),
                    bound,
                    cur.deep_view(),
                    cur_len as int,
                ) =~= Seq::<Seq<ChannelUserV>>::empty());
                lemma_concat_packs_empty(done);
                assert(packed =~= done);
            }
        }
        r.push(Reply::EndOfNames(self.name.clone()));
        r
    }
}

/// The groups already closed, followed by whatever the rest of the
/// pagination yields.
pub open spec fn concat_packs(
    done: Seq<Seq<ChannelUserV>>,
    rest: Seq<Seq<ChannelUserV>>,
) -> Seq<Seq<ChannelUserV>> {
    done + rest
}

proof fn lemma_concat_packs_shift(
    done: Seq<Seq<ChannelUserV>>,
    cur: Seq<ChannelUserV>,
    remaining: Seq<ChannelUserV>,
    bound: int,
    new_len: int,
)
    requires
        remaining.len() > 0,
        cur.len() > 0,
        !(group_len(cur) + user_display(remaining[0]).len() as int + 1 < bound),
    ensures
        concat_packs(done, pack_groups(remaining, bound, cur, group_len(cur))) == concat_packs(
            done.push(cur),
            pack_groups(
                remaining.drop_first(),
                bound,
                seq![remaining[0]],
                user_display(remaining[0]).len() as int + 1,
            ),
        ),
{
    let d = user_display(remaining[0]).len() as int;
    let rest = pack_groups(remaining.drop_first(), bound, seq![remaining[0]], d + 1);
    assert(pack_groups(remaining, bound, cur, group_len(cur)) == seq![cur] + rest);
    assert(done + (seq![cur] + rest) =~= done.push(cur) + rest);
}

proof fn lemma_concat_packs_push(done: Seq<Seq<ChannelUserV>>, cur: Seq<ChannelUserV>)
    ensures
        concat_packs(done, seq![cur]) == done.push(cur),
{
    assert(done + seq![cur] =~= done.push(cur));
}

proof fn lemma_concat_packs_empty(done: Seq<Seq<ChannelUserV>>)
    ensures
        concat_packs(done, Seq::empty()) == done,
{
    assert(done + Seq::<Seq<ChannelUserV>>::empty() =~= done);
}

} // verus!
