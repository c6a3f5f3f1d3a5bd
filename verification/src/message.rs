//! A full protocol message: an optional sender prefix and either a
//! command or a reply, with the line parser and the line writer.
use vstd::prelude::*;
use crate::command::{Command, CommandV, command_from_args, command_text};
use crate::error::{ProtocolError, ProtocolErrorV};
use crate::prefix::{Prefix, PrefixV, prefix_parse, prefix_text};
use crate::reply::{Reply, ReplyV, reply_text};
use crate::text::{
    contains_char, find_from, find_pair_from, split_limit, drop_empties, str_chars, chars_str,
    subvec, find_char_from, find_pair, split_limit_chars, drop_empty_pieces, push_char,
    lemma_find_from, lemma_find_pair_from,
};

verus! {

/// What a message carries: a client command or a server reply.
#[derive(Debug, PartialEq)]
pub enum MessageContents {
    Command(Command),
    Reply(Reply),
}

/// The mathematical shape of `MessageContents`.
pub enum MessageContentsV {
    Command(CommandV),
    Reply(ReplyV),
}

impl View for MessageContents {
    type V = MessageContentsV;

    open spec fn view(&self) -> MessageContentsV {
        match self {
            MessageContents::Command(c) => MessageContentsV::Command(c@),
            MessageContents::Reply(r) => MessageContentsV::Reply(r@),
        }
    }
}

/// A message as it travels between the codec and the session.
#[derive(Debug, PartialEq)]
pub struct Message {
    pub prefix: Option<Prefix>,
    pub contents: MessageContents,
}

/// The mathematical shape of a `Message`.
pub struct MessageV {
    pub prefix: Option<PrefixV>,
    pub contents: MessageContentsV,
}

impl View for Message {
    type V = MessageV;

    open spec fn view(&self) -> MessageV {
        MessageV {
            prefix: match &self.prefix {
                Some(p) => Some(p@),
                None => None,
            },
            contents: self.contents@,
        }
    }
}

/// How one decoded line is read: an empty line is refused; a leading
/// `:` lifts the prefix up to the first space; the first ` :` splits
/// off the trailing argument; the next token is the verb; what remains
/// is split on spaces into at most fourteen middles, empties dropped,
/// the trailing argument appended last; the verb and arguments then
/// build a command.
pub open spec fn parse_contents(state1: Seq<char>) -> Result<CommandV, ProtocolErrorV> {
    let suffix = match find_pair_from(state1, ' ', ':', 0) {
        Some(i) => Some(state1.subrange(i + 2, state1.len() as int)),
        None => None,
    };
    let state2 = match find_pair_from(state1, ' ', ':', 0) {
        Some(i) => state1.subrange(0, i + 1),
        None => state1,
    };
    let verb = match find_from(state2, ' ', 0) {
        Some(i) => state2.subrange(0, i),
        None => state2,
    };
    let state3 = match find_from(state2, ' ', 0) {
        Some(i) => state2.subrange(i + 1, state2.len() as int),
        None => Seq::<char>::empty(),
    };
    if find_from(state2, ' ', 0) is None && state2.len() > 0 && state2[0] == ':' {
        Err(ProtocolErrorV::InvalidCommand)
    } else {
        let middles = drop_empties(split_limit(state3, ' ', 14));
        let args = match suffix {
            Some(sf) => middles.push(sf),
            None => middles,
        };
        command_from_args(verb, args)
    }
}

pub open spec fn parse_message(s: Seq<char>) -> Result<MessageV, ProtocolErrorV> {
    if s.len() == 0 {
        Err(ProtocolErrorV::EmptyMessage)
    } else {
        let pfx = if s[0] == ':' {
            match find_from(s, ' ', 0) {
                Some(i) => Some(prefix_parse(s.subrange(1, i))),
                None => None,
            }
        } else {
            None
        };
        let state1 = if s[0] == ':' {
            match find_from(s, ' ', 0) {
                Some(i) => s.subrange(i + 1, s.len() as int),
                None => Seq::<char>::empty(),
            }
        } else {
            s
        };
        match parse_contents(state1) {
            Ok(c) => Ok(MessageV { prefix: pfx, contents: MessageContentsV::Command(c) }),
            Err(e) => Err(e),
        }
    }
}

/// The wire text of the message body.
pub open spec fn contents_text(c: MessageContentsV) -> Seq<char> {
    match c {
        MessageContentsV::Command(cmd) => command_text(cmd),
        MessageContentsV::Reply(r) => reply_text(r),
    }
}

/// The wire text of a whole message: when a prefix is set it is written
/// first, behind a colon and followed by one space.
pub open spec fn message_text(m: MessageV) -> Seq<char> {
    match m.prefix {
        Some(p) => seq![':'] + prefix_text(p) + seq![' '] + contents_text(m.contents),
        None => contents_text(m.contents),
    }
}

/// An argument that can stand anywhere but last: not empty, free of
/// spaces, and not opening with a colon.
pub open spec fn valid_middle(x: Seq<char>) -> bool {
    x.len() > 0 && !contains_char(x, ' ') && x[0] != ':'
}

/// Joined middles: the text opens with the first middle's first
/// character, and no space in it is followed by a colon.
proof fn lemma_join_middles(middles: Seq<Seq<char>>)
    requires
        forall|i: int| 0 <= i < middles.len() ==> valid_middle(#[trigger] middles[i]),
    ensures
        ({
            let jm = crate::text::join_with(middles, ' ');
            &&& (middles.len() > 0 ==> jm.len() > 0 && jm[0] == middles[0][0])
            &&& (middles.len() == 0 ==> jm.len() == 0)
            &&& forall|j: int|
                #![trigger jm[j]]
                0 <= j && j + 1 < jm.len() ==> !(jm[j] == ' ' && jm[j + 1] == ':')
        }),
    decreases middles.len(),
{
    let jm = crate::text::join_with(middles, ' ');
    if middles.len() == 0 {
    } else if middles.len() == 1 {
        assert(jm == middles[0]);
        assert(valid_middle(middles[0]));
        assert forall|j: int| #![trigger jm[j]] 0 <= j && j + 1 < jm.len() implies !(jm[j] == ' '
            && jm[j + 1] == ':') by {
            if jm[j] == ' ' {
                assert(contains_char(middles[0], ' '));
            }
        }
    } else {
        let m0 = middles[0];
        let rest = middles.drop_first();
        lemma_join_middles(rest);
        let jr = crate::text::join_with(rest, ' ');
        assert(jm == m0 + seq![' '] + jr);
        assert(jm[0] == m0[0]);
        assert(jr[0] == rest[0][0]);
        assert(rest[0][0] != ':');
        assert forall|j: int| #![trigger jm[j]] 0 <= j && j + 1 < jm.len() implies !(jm[j] == ' '
            && jm[j + 1] == ':') by {
            let b = m0.len() as int;
            if j < b {
                assert(jm[j] == m0[j]);
                if m0[j] == ' ' {
                    assert(contains_char(m0, ' '));
                }
            } else if j == b {
                assert(jm[j + 1] == jr[0]);
            } else {
                assert(jm[j] == jr[j - b - 1]);
                assert(jm[j + 1] == jr[j - b]);
            }
        }
    }
}

/// Writing a verb and arguments and parsing the line back recovers the
/// same verb and arguments: the contents stage inverts the writer, so
/// both sides build the same command.
pub proof fn lemma_stringify_parse(verb: Seq<char>, args: Seq<Seq<char>>)
    requires
        verb.len() > 0,
        !contains_char(verb, ' '),
        verb[0] != ':',
        1 <= args.len() <= 14,
        forall|i: int| 0 <= i < args.len() - 1 ==> valid_middle(#[trigger] args[i]),
    ensures
        parse_contents(crate::command::stringify_text(verb, args)) == command_from_args(
            verb,
            args,
        ),
{
    let s = crate::command::stringify_text(verb, args);
    let middles = args.subrange(0, args.len() - 1);
    let suffix = args.last();
    let jm = crate::text::join_with(middles, ' ');
    lemma_join_middles(middles);
    let sp: Seq<char> = if jm.len() == 0 {
        Seq::empty()
    } else {
        seq![' ']
    };
    let needs = suffix.len() == 0 || contains_char(suffix, ' ') || suffix[0] == ':';
    let co: Seq<char> = if needs {
        seq![':']
    } else {
        Seq::empty()
    };
    assert(s == verb + sp + jm + seq![' '] + co + suffix);
    let head = verb + sp + jm;
    let q = head.len() as int;
    assert(s.len() == q + 1 + co.len() + suffix.len());
    assert(s[q] == ' ');
    assert forall|j: int| #![trigger s[j]] 0 <= j < q implies !(s[j] == ' ' && s[j + 1]
        == ':') by {
        let vl = verb.len() as int;
        if j < vl {
            assert(s[j] == verb[j]);
            if verb[j] == ' ' {
                assert(contains_char(verb, ' '));
            }
        } else if sp.len() == 1 && j == vl {
            assert(s[j + 1] == jm[0]);
            assert(middles.len() > 0);
            assert(middles[0][0] != ':');
        } else {
            assert(sp.len() == 1 && middles.len() > 0);
            let b = vl + 1;
            assert(s[j] == jm[j - b]);
            if j + 1 < q {
                assert(s[j + 1] == jm[j - b + 1]);
            } else {
                assert(s[j + 1] == ' ');
            }
        }
    }
    if needs {
        assert(s[q + 1] == ':');
        crate::text::lemma_find_pair_exact(s, ' ', ':', 0, q);
        assert(find_pair_from(s, ' ', ':', 0) == Some(q));
        let state2 = s.subrange(0, q + 1);
        let sfx = s.subrange(q + 2, s.len() as int);
        assert(state2 =~= head + seq![' ']);
        assert(sfx =~= suffix);
        assert(args =~= middles.push(suffix));
        lemma_parse_tail(verb, middles, suffix, jm, sp, state2, args);
    } else {
        assert(suffix.len() > 0 && suffix[0] != ':');
        assert forall|j: int| #![trigger s[j]] 0 <= j && j + 1 < s.len() implies !(s[j] == ' '
            && s[j + 1] == ':') by {
            if j < q {
            } else if j == q {
                assert(s[j + 1] == suffix[0]);
            } else {
                assert(s[j] == suffix[j - q - 1]);
                if suffix[j - q - 1] == ' ' {
                    assert(contains_char(suffix, ' '));
                }
            }
        }
        crate::text::lemma_find_pair_none(s, ' ', ':', 0);
        // the whole line is the verb and argument section
        let vl = verb.len() as int;
        assert forall|j: int| 0 <= j < vl implies s[j] != ' ' by {
            assert(s[j] == verb[j]);
            if verb[j] == ' ' {
                assert(contains_char(verb, ' '));
            }
        }
        if middles.len() == 0 {
            assert(sp.len() == 0);
            assert(s[vl] == ' ');
            crate::text::lemma_find_from_exact(s, ' ', 0, vl);
            assert(s.subrange(0, vl) =~= verb);
            let state3 = s.subrange(vl + 1, s.len() as int);
            assert(state3 =~= suffix);
            crate::text::lemma_find_from_contains(suffix, ' ');
            assert(crate::text::split_on(suffix, ' ') == seq![suffix]);
            crate::text::lemma_split_limit_eq_split_on(suffix, ' ', 14);
            crate::text::lemma_drop_empties_id(seq![suffix]);
            assert(drop_empties(split_limit(state3, ' ', 14)) == seq![suffix]);
            assert(args =~= seq![suffix]);
        } else {
            assert(sp.len() == 1);
            assert(s[vl] == ' ');
            crate::text::lemma_find_from_exact(s, ' ', 0, vl);
            assert(s.subrange(0, vl) =~= verb);
            let state3 = s.subrange(vl + 1, s.len() as int);
            assert(state3 =~= jm + seq![' '] + suffix);
            let parts = middles.push(suffix);
            crate::text::lemma_join_push(middles, suffix, ' ');
            assert(crate::text::join_with(parts, ' ') =~= state3);
            assert forall|i: int| 0 <= i < parts.len() implies !contains_char(
                #[trigger] parts[i],
                ' ',
            ) by {
                if i < middles.len() {
                    assert(parts[i] == middles[i]);
                    assert(valid_middle(middles[i]));
                }
            }
            crate::text::lemma_split_join(parts, ' ');
            assert(crate::text::split_on(state3, ' ') == parts);
            crate::text::lemma_split_limit_eq_split_on(state3, ' ', 14);
            assert forall|i: int| 0 <= i < parts.len() implies (#[trigger] parts[i]).len()
                > 0 by {
                if i < middles.len() {
                    assert(valid_middle(middles[i]));
                }
            }
            crate::text::lemma_drop_empties_id(parts);
            assert(drop_empties(split_limit(state3, ' ', 14)) == parts);
            assert(args =~= parts);
        }
    }
}

/// The tail of the parse when the trailing argument was marked: the
/// section before the marker yields the verb and middles, the marker's
/// suffix is appended last.
proof fn lemma_parse_tail(
    verb: Seq<char>,
    middles: Seq<Seq<char>>,
    suffix: Seq<char>,
    jm: Seq<char>,
    sp: Seq<char>,
    state2: Seq<char>,
    args: Seq<Seq<char>>,
)
    requires
        verb.len() > 0,
        !contains_char(verb, ' '),
        forall|i: int| 0 <= i < middles.len() ==> valid_middle(#[trigger] middles[i]),
        jm == crate::text::join_with(middles, ' '),
        sp == if jm.len() == 0 {
            Seq::<char>::empty()
        } else {
            seq![' ']
        },
        middles.len() == 0 ==> jm.len() == 0,
        middles.len() > 0 ==> jm.len() > 0,
        state2 == verb + sp + jm + seq![' '],
        args == middles.push(suffix),
        middles.len() + 1 <= 14,
    ensures
        ({
            let verb2 = match find_from(state2, ' ', 0) {
                Some(i) => state2.subrange(0, i),
                None => state2,
            };
            let state3 = match find_from(state2, ' ', 0) {
                Some(i) => state2.subrange(i + 1, state2.len() as int),
                None => Seq::<char>::empty(),
            };
            &&& find_from(state2, ' ', 0) is Some
            &&& verb2 == verb
            &&& drop_empties(split_limit(state3, ' ', 14)).push(suffix) == args
        }),
{
    let vl = verb.len() as int;
    assert forall|j: int| 0 <= j < vl implies state2[j] != ' ' by {
        assert(state2[j] == verb[j]);
        if verb[j] == ' ' {
            assert(contains_char(verb, ' '));
        }
    }
    assert(state2[vl] == ' ');
    crate::text::lemma_find_from_exact(state2, ' ', 0, vl);
    assert(state2.subrange(0, vl) =~= verb);
    let state3 = state2.subrange(vl + 1, state2.len() as int);
    if middles.len() == 0 {
        assert(state3 =~= Seq::<char>::empty());
        assert(find_from(state3, ' ', 0) is None);
        assert(split_limit(state3, ' ', 14) == seq![state3]);
        assert(seq![state3].drop_first() =~= Seq::<Seq<char>>::empty());
        assert(drop_empties(Seq::<Seq<char>>::empty()) == Seq::<Seq<char>>::empty());
        assert(drop_empties(seq![state3]) =~= Seq::<Seq<char>>::empty());
        assert(drop_empties(split_limit(state3, ' ', 14)) =~= Seq::<Seq<char>>::empty());
        assert(Seq::<Seq<char>>::empty().push(suffix) =~= args);
    } else {
        assert(state3 =~= jm + seq![' ']);
        let parts = middles.push(Seq::<char>::empty());
        crate::text::lemma_join_push(middles, Seq::<char>::empty(), ' ');
        assert(crate::text::join_with(parts, ' ') =~= state3);
        assert forall|i: int| 0 <= i < parts.len() implies !contains_char(
            #[trigger] parts[i],
            ' ',
        ) by {
            if i < middles.len() {
                assert(parts[i] == middles[i]);
                assert(valid_middle(middles[i]));
            } else {
                assert(parts[i].len() == 0);
            }
        }
        crate::text::lemma_split_join(parts, ' ');
        assert(crate::text::split_on(state3, ' ') == parts);
        crate::text::lemma_split_limit_eq_split_on(state3, ' ', 14);
        crate::text::lemma_drop_empties_push(middles, Seq::<char>::empty());
        assert forall|i: int| 0 <= i < middles.len() implies (#[trigger] middles[i]).len()
            > 0 by {
            assert(valid_middle(middles[i]));
        }
        crate::text::lemma_drop_empties_id(middles);
        assert(drop_empties(split_limit(state3, ' ', 14)) == middles);
    }
}

/// A list argument the writer can reproduce: at least one element,
/// each non-empty and free of spaces and commas, none opening with a
/// colon.
pub open spec fn list_ok(l: Seq<Seq<char>>) -> bool {
    l.len() >= 1 && forall|i: int|
        0 <= i < l.len() ==> ((#[trigger] l[i]).len() >= 1 && !contains_char(l[i], ' ')
            && !contains_char(l[i], ',') && l[i][0] != ':')
}

/// A command in canonical form: every argument that stands before the
/// trailing position is a valid middle, list arguments are clean
/// lists, and the raw escape is excluded since no verb brings it back.
pub open spec fn canonical_command(c: CommandV) -> bool {
    match c {
        CommandV::PASS(_) => true,
        CommandV::NICK(n, hops) => hops is Some ==> valid_middle(n),
        CommandV::USER(u, h, s, _) => valid_middle(u) && valid_middle(h) && valid_middle(s),
        CommandV::PRIVMSG(t, _, cc) => valid_middle(t) && !contains_char(t, ',') && match cc {
            Some(l) => list_ok(l),
            None => true,
        },
        CommandV::NOTICE(t, _) => valid_middle(t),
        CommandV::PING(a, b) => b is Some ==> valid_middle(a),
        CommandV::PONG(a, b) => b is Some ==> valid_middle(a),
        CommandV::JOIN(ch, keys) => list_ok(ch) && match keys {
            Some(k) => list_ok(k),
            None => true,
        },
        CommandV::RAW(_) => false,
    }
}

/// The verbs are written in upper case already.
proof fn lemma_verb_upper(c: CommandV)
    requires
        !(c is RAW),
    ensures
        crate::text::ascii_upper(crate::command::command_verb(c)) == crate::command::command_verb(
            c,
        ),
        crate::command::command_verb(c).len() > 0,
        !contains_char(crate::command::command_verb(c), ' '),
        crate::command::command_verb(c)[0] != ':',
{
    reveal_strlit("PASS");
    reveal_strlit("NICK");
    reveal_strlit("USER");
    reveal_strlit("PRIVMSG");
    reveal_strlit("NOTICE");
    reveal_strlit("PING");
    reveal_strlit("PONG");
    reveal_strlit("JOIN");
    let v = crate::command::command_verb(c);
    assert(crate::text::ascii_upper(v) =~= v) by {
        assert forall|i: int| 0 <= i < v.len() implies crate::text::ascii_upper_char(
            #[trigger] v[i],
        ) == v[i] by {}
    }
    if contains_char(v, ' ') {
        let w = choose|w: int| 0 <= w < v.len() && v[w] == ' ';
    }
}

/// Canonical arguments are valid middles in every position before the
/// last.
proof fn lemma_command_args_ok(c: CommandV)
    requires
        canonical_command(c),
    ensures
        1 <= crate::command::command_args(c).len() <= 14,
        forall|i: int|
            0 <= i < crate::command::command_args(c).len() - 1 ==> valid_middle(
                #[trigger] crate::command::command_args(c)[i],
            ),
{
    let args = crate::command::command_args(c);
    match c {
        CommandV::PRIVMSG(t, _, cc) => {
            match cc {
                Some(l) => {
                    let combined = t + seq![','] + crate::text::join_with(l, ',');
                    assert(args[0] == combined);
                    assert(combined.len() > 0);
                    assert(combined[0] == t[0]);
                    assert forall|i: int| 0 <= i < l.len() implies !contains_char(
                        #[trigger] l[i],
                        ' ',
                    ) by {}
                    crate::text::lemma_join_free(l, ',', ' ');
                    let jl = crate::text::join_with(l, ',');
                    if contains_char(combined, ' ') {
                        let w = choose|w: int|
                            0 <= w < combined.len() && combined[w] == ' ';
                        let b = t.len() as int;
                        if w < b {
                            assert(contains_char(t, ' '));
                        } else if w == b {
                        } else {
                            assert(jl[w - b - 1] == ' ');
                            assert(contains_char(jl, ' '));
                        }
                    }
                    assert(valid_middle(args[0]));
                },
                None => {},
            }
        },
        CommandV::JOIN(ch, keys) => {
            match keys {
                Some(k) => {
                    let jc = crate::text::join_with(ch, ',');
                    assert(args[0] == jc);
                    assert(ch[0].len() > 0);
                    if ch.len() == 1 {
                        assert(jc == ch[0]);
                    } else {
                        assert(jc == ch[0] + seq![','] + crate::text::join_with(
                            ch.drop_first(),
                            ',',
                        ));
                    }
                    assert(jc.len() > 0 && jc[0] == ch[0][0]);
                    assert forall|i: int| 0 <= i < ch.len() implies !contains_char(
                        #[trigger] ch[i],
                        ' ',
                    ) by {}
                    crate::text::lemma_join_free(ch, ',', ' ');
                    assert(valid_middle(args[0]));
                },
                None => {},
            }
        },
        _ => {},
    }
}

/// No two verbs read the same.
proof fn lemma_verbs_distinct()
    ensures
        "PASS"@ != "NICK"@,
        "PASS"@ != "USER"@,
        "PASS"@ != "NOTICE"@,
        "PASS"@ != "PING"@,
        "PASS"@ != "PONG"@,
        "PASS"@ != "PRIVMSG"@,
        "PASS"@ != "JOIN"@,
        "NICK"@ != "USER"@,
        "NICK"@ != "NOTICE"@,
        "NICK"@ != "PING"@,
        "NICK"@ != "PONG"@,
        "NICK"@ != "PRIVMSG"@,
        "NICK"@ != "JOIN"@,
        "USER"@ != "NOTICE"@,
        "USER"@ != "PING"@,
        "USER"@ != "PONG"@,
        "USER"@ != "PRIVMSG"@,
        "USER"@ != "JOIN"@,
        "NOTICE"@ != "PING"@,
        "NOTICE"@ != "PONG"@,
        "NOTICE"@ != "PRIVMSG"@,
        "NOTICE"@ != "JOIN"@,
        "PING"@ != "PONG"@,
        "PING"@ != "PRIVMSG"@,
        "PING"@ != "JOIN"@,
        "PONG"@ != "PRIVMSG"@,
        "PONG"@ != "JOIN"@,
        "PRIVMSG"@ != "JOIN"@,
{
    reveal_strlit("PASS");
    reveal_strlit("NICK");
    reveal_strlit("USER");
    reveal_strlit("PRIVMSG");
    reveal_strlit("NOTICE");
    reveal_strlit("PING");
    reveal_strlit("PONG");
    reveal_strlit("JOIN");
    assert("PASS"@[0] == 'P' && "NICK"@[0] == 'N' && "USER"@[0] == 'U' && "NOTICE"@[0] == 'N'
        && "PING"@[0] == 'P' && "PONG"@[0] == 'P' && "PRIVMSG"@[0] == 'P' && "JOIN"@[0] == 'J');
    assert("PASS"@[1] == 'A' && "NICK"@[1] == 'I' && "NOTICE"@[1] == 'O' && "PING"@[1] == 'I'
        && "PONG"@[1] == 'O' && "PRIVMSG"@[1] == 'R');
    assert("PASS"@.len() == 4 && "NICK"@.len() == 4 && "USER"@.len() == 4 && "NOTICE"@.len() == 6
        && "PING"@.len() == 4 && "PONG"@.len() == 4 && "PRIVMSG"@.len() == 7 && "JOIN"@.len()
        == 4);
}

/// A canonical command built back from its own verb and arguments is
/// itself.
proof fn lemma_command_rebuild(c: CommandV)
    requires
        canonical_command(c),
    ensures
        crate::command::command_from_args(
            crate::command::command_verb(c),
            crate::command::command_args(c),
        ) == Ok::<CommandV, ProtocolErrorV>(c),
{
    reveal_strlit("PASS");
    reveal_strlit("NICK");
    reveal_strlit("USER");
    reveal_strlit("PRIVMSG");
    reveal_strlit("NOTICE");
    reveal_strlit("PING");
    reveal_strlit("PONG");
    reveal_strlit("JOIN");
    lemma_verb_upper(c);
    lemma_verbs_distinct();
    let verb = crate::command::command_verb(c);
    let args = crate::command::command_args(c);
    match c {
        CommandV::PASS(_) => {},
        CommandV::NICK(n, hops) => {
            match hops {
                Some(h) => {
                    crate::text::lemma_int_text_roundtrip(h);
                },
                None => {},
            }
        },
        CommandV::USER(_, _, _, _) => {},
        CommandV::NOTICE(_, _) => {},
        CommandV::PING(_, _) => {},
        CommandV::PONG(_, _) => {},
        CommandV::PRIVMSG(t, m, cc) => {
            match cc {
                Some(l) => {
                    let combined = t + seq![','] + crate::text::join_with(l, ',');
                    assert(args[0] == combined);
                    assert(combined[t.len() as int] == ',');
                    assert(contains_char(combined, ','));
                    let parts = seq![t] + l;
                    assert(parts.len() >= 2);
                    assert(parts.drop_first() =~= l);
                    assert(parts[0] == t);
                    assert(crate::text::join_with(parts, ',') == t + seq![',']
                        + crate::text::join_with(l, ','));
                    assert forall|i: int| 0 <= i < parts.len() implies !contains_char(
                        #[trigger] parts[i],
                        ',',
                    ) by {
                        if i > 0 {
                            assert(parts[i] == l[i - 1]);
                        }
                    }
                    crate::text::lemma_split_join(parts, ',');
                    assert(crate::text::split_on(combined, ',') == parts);
                },
                None => {},
            }
        },
        CommandV::JOIN(ch, keys) => {
            lemma_list_arg(ch);
            match keys {
                Some(k) => {
                    lemma_list_arg(k);
                },
                None => {},
            }
        },
        CommandV::RAW(_) => {},
    }
}

/// A clean list joined on commas splits back to itself; a single
/// element stays whole and comma-free.
proof fn lemma_list_arg(l: Seq<Seq<char>>)
    requires
        list_ok(l),
    ensures
        ({
            let j = crate::text::join_with(l, ',');
            if contains_char(j, ',') {
                crate::text::split_on(j, ',') == l
            } else {
                seq![j] == l
            }
        }),
{
    let j = crate::text::join_with(l, ',');
    if l.len() == 1 {
        assert(j == l[0]);
        assert(!contains_char(l[0], ','));
        assert(seq![j] =~= l);
    } else {
        crate::text::lemma_join_contains(l, ',');
        assert forall|i: int| 0 <= i < l.len() implies !contains_char(#[trigger] l[i], ',') by {}
        crate::text::lemma_split_join(l, ',');
    }
}

/// A message in canonical form: it carries a canonical command, under
/// a canonical prefix when one is set.
pub open spec fn canonical_message(m: MessageV) -> bool {
    match m.contents {
        MessageContentsV::Command(c) => canonical_command(c) && match m.prefix {
            Some(p) => crate::prefix::canonical_prefix(p),
            None => true,
        },
        MessageContentsV::Reply(_) => false,
    }
}

/// The grammar round trip: a canonical message written onto the wire
/// parses back to itself.
pub proof fn lemma_message_roundtrip(m: MessageV)
    requires
        canonical_message(m),
    ensures
        parse_message(message_text(m)) == Ok::<MessageV, ProtocolErrorV>(m),
{
    let c = m.contents->Command_0;
    let ct = contents_text(m.contents);
    lemma_verb_upper(c);
    lemma_command_args_ok(c);
    let verb = crate::command::command_verb(c);
    let args = crate::command::command_args(c);
    lemma_stringify_parse(verb, args);
    lemma_command_rebuild(c);
    assert(ct == crate::command::stringify_text(verb, args));
    assert(ct[0] == verb[0] && ct.len() > 0);
    assert(parse_contents(ct) == Ok::<CommandV, ProtocolErrorV>(c));
    match m.prefix {
        None => {
            assert(message_text(m) == ct);
            assert(parse_message(ct) == Ok::<MessageV, ProtocolErrorV>(
                MessageV { prefix: None, contents: MessageContentsV::Command(c) },
            ));
            assert(MessageV { prefix: None, contents: MessageContentsV::Command(c) } == m);
        },
        Some(p) => {
            let ptext = crate::prefix::prefix_text(p);
            let s = message_text(m);
            assert(s == seq![':'] + ptext + seq![' '] + ct);
            assert(s[0] == ':');
            let i = 1 + ptext.len() as int;
            assert(s[i] == ' ');
            assert forall|j: int| 0 <= j < i implies s[j] != ' ' by {
                if j == 0 {
                } else {
                    assert(s[j] == ptext[j - 1]);
                    if ptext[j - 1] == ' ' {
                        assert(contains_char(ptext, ' '));
                        lemma_prefix_no_space(p);
                    }
                }
            }
            crate::text::lemma_find_from_exact(s, ' ', 0, i);
            assert(s.subrange(1, i) =~= ptext);
            crate::prefix::lemma_prefix_roundtrip(p);
            assert(s.subrange(i + 1, s.len() as int) =~= ct);
            assert(MessageV { prefix: Some(p), contents: MessageContentsV::Command(c) } == m);
        },
    }
}

/// A canonical prefix holds no space in any part, so its written form
/// holds none either.
proof fn lemma_prefix_no_space(p: PrefixV)
    requires
        crate::prefix::canonical_prefix(p),
    ensures
        !contains_char(crate::prefix::prefix_text(p), ' '),
{
    let s = crate::prefix::prefix_text(p);
    match p {
        PrefixV::ServerOrNick(n) => {
            assert(s == n);
        },
        PrefixV::Nickname(n, u, h) => {
            if contains_char(s, ' ') {
                let w = choose|w: int| 0 <= w < s.len() && s[w] == ' ';
                let with_user: Seq<char> = if u.len() > 0 {
                    n + seq!['!'] + u
                } else {
                    n
                };
                let b = with_user.len() as int;
                if h.len() > 0 {
                    assert(s == with_user + seq!['@'] + h);
                    if w < b {
                        lemma_with_user_no_space(n, u, with_user, w);
                    } else if w == b {
                        assert(s[w] == '@');
                    } else {
                        assert(h[w - b - 1] == ' ');
                        assert(contains_char(h, ' '));
                    }
                } else {
                    assert(s == with_user);
                    lemma_with_user_no_space(n, u, with_user, w);
                }
            }
        },
    }
}

proof fn lemma_with_user_no_space(n: Seq<char>, u: Seq<char>, with_user: Seq<char>, w: int)
    requires
        !contains_char(n, ' '),
        !contains_char(u, ' '),
        with_user == if u.len() > 0 {
            n + seq!['!'] + u
        } else {
            n
        },
        0 <= w < with_user.len(),
    ensures
        with_user[w] != ' ',
{
    if u.len() > 0 {
        let bn = n.len() as int;
        if w < bn {
            assert(with_user[w] == n[w]);
            if n[w] == ' ' {
                assert(contains_char(n, ' '));
            }
        } else if w == bn {
            assert(with_user[w] == '!');
        } else {
            assert(with_user[w] == u[w - bn - 1]);
            if u[w - bn - 1] == ' ' {
                assert(contains_char(u, ' '));
            }
        }
    } else {
        if n[w] == ' ' {
            assert(contains_char(n, ' '));
        }
    }
}

/// The middle-argument cap: however many space-separated tokens a line
/// holds, at most fourteen middles come out of it.
pub proof fn lemma_middle_argument_cap(s: Seq<char>)
    ensures
        drop_empties(split_limit(s, ' ', 14)).len() <= 14,
{
    crate::text::lemma_split_limit_len(s, ' ', 14);
    crate::text::lemma_drop_empties_len(split_limit(s, ' ', 14));
}

impl DeepView for Message {
    type V = MessageV;

    open spec fn deep_view(&self) -> MessageV {
        self.view()
    }
}

impl Message {
    /// Builds a message from an optional raw prefix, a verb and its
    /// arguments.
    pub fn new(prefix: Option<&str>, command: &str, args: Vec<String>) -> (r: Result<
        Message,
        ProtocolError,
    >)
        ensures
            match r {
                Ok(m) => {
                    &&& m@.prefix == match prefix {
                        Some(p) => Some(prefix_parse(p@)),
                        None => None::<PrefixV>,
                    }
                    &&& match m@.contents {
                        MessageContentsV::Command(c) => command_from_args(
                            command@,
                            args.deep_view(),
                        ) == Ok::<CommandV, ProtocolErrorV>(c),
                        _ => false,
                    }
                },
                Err(e) => command_from_args(command@, args.deep_view()) == Err::<
                    CommandV,
                    ProtocolErrorV,
                >(e@),
            },
    {
        let parsed_prefix = match prefix {
            Some(p) => Some(Prefix::new_from_str(p)),
            None => None,
        };
        match Command::new(command, args) {
            Ok(c) => Ok(Message { prefix: parsed_prefix, contents: MessageContents::Command(c) }),
            Err(e) => Err(e),
        }
    }

    /// Replaces the prefix.
    pub fn set_prefix(&mut self, prefix: Prefix)
        ensures
            final(self)@.prefix == Some(prefix@),
            final(self)@.contents == old(self)@.contents,
    {
        self.prefix = Some(prefix);
    }

    /// Replaces the prefix with one read from its raw form.
    pub fn prefix_from_str(&mut self, prefix: &str)
        ensures
            final(self)@.prefix == Some(prefix_parse(prefix@)),
            final(self)@.contents == old(self)@.contents,
    {
        self.prefix = Some(Prefix::new_from_str(prefix));
    }

    /// A message carrying a command, without a prefix.
    pub fn from_command(value: Command) -> (r: Message)
        ensures
            r@.prefix is None,
            r@.contents == MessageContentsV::Command(value@),
    {
        Message { prefix: None, contents: MessageContents::Command(value) }
    }

    /// A message carrying a reply, without a prefix.
    pub fn from_reply(value: Reply) -> (r: Message)
        ensures
            r@.prefix is None,
            r@.contents == MessageContentsV::Reply(value@),
    {
        Message { prefix: None, contents: MessageContents::Reply(value) }
    }

    /// Reads a message from one decoded line, exactly as
    /// `parse_message` says.
    pub fn from_str(s: &str) -> (r: Result<Message, ProtocolError>)
        ensures
            match r {
                Ok(m) => parse_message(s@) == Ok::<MessageV, ProtocolErrorV>(m@),
                Err(e) => parse_message(s@) == Err::<MessageV, ProtocolErrorV>(e@),
            },
    {
        let chars = str_chars(s);
        if chars.len() == 0 {
            return Err(ProtocolError::EmptyMessage);
        }
        let mut prefix_opt: Option<Prefix> = None;
        let state1: Vec<char>;
        if chars[0] == ':' {
            match find_char_from(&chars, ' ', 0) {
                Some(i) => {
                    proof {
                        lemma_find_from(chars@, ' ', 0);
                    }
                    let ptoken = subvec(&chars, 1, i);
                    prefix_opt = Some(Prefix::new_from_str(chars_str(&ptoken).as_str()));
                    state1 = subvec(&chars, i + 1, chars.len());
                },
                None => {
                    state1 = Vec::new();
                    proof {
                        assert(state1@ =~= Seq::<char>::empty());
                    }
                },
            }
        } else {
            state1 = subvec(&chars, 0, chars.len());
            proof {
                assert(state1@ =~= chars@);
            }
        }
        let suffix: Option<Vec<char>>;
        let state2: Vec<char>;
        match find_pair(&state1, ' ', ':') {
            Some(i) => {
                proof {
                    lemma_find_pair_from(state1@, ' ', ':', 0);
                }
                suffix = Some(subvec(&state1, i + 2, state1.len()));
                state2 = subvec(&state1, 0, i + 1);
            },
            None => {
                suffix = None;
                state2 = state1;
            },
        }
        let verb: Vec<char>;
        let state3: Vec<char>;
        let mut no_space: bool = false;
        match find_char_from(&state2, ' ', 0) {
            Some(i) => {
                proof {
                    lemma_find_from(state2@, ' ', 0);
                }
                verb = subvec(&state2, 0, i);
                state3 = subvec(&state2, i + 1, state2.len());
            },
            None => {
                no_space = true;
                verb = state2;
                state3 = Vec::new();
                proof {
                    assert(state3@ =~= Seq::<char>::empty());
                }
            },
        }
        let ghost verb_spec = verb@;
        if no_space && verb.len() > 0 && verb[0] == ':' {
            return Err(ProtocolError::InvalidCommand);
        }
        let pieces = split_limit_chars(&state3, ' ', 14);
        let mut args = drop_empty_pieces(&pieces);
        let ghost middles = args.deep_view();
        match suffix {
            Some(sf) => {
                let ghost before = args.deep_view();
                args.push(chars_str(&sf));
                proof {
                    assert(args.deep_view() =~~= before.push(sf@));
                }
            },
            None => {},
        }
        match Command::new(chars_str(&verb).as_str(), args) {
            Ok(c) => Ok(
                Message { prefix: prefix_opt, contents: MessageContents::Command(c) },
            ),
            Err(e) => Err(e),
        }
    }

    /// Writes the message in its wire form.
    pub fn to_text(&self) -> (r: String)
        ensures
            r@ == message_text(self@),
    {
        let body = match &self.contents {
            MessageContents::Command(c) => c.to_text(),
            MessageContents::Reply(rep) => rep.to_text(),
        };
        match &self.prefix {
            Some(p) => {
                let mut out = String::new();
                push_char(&mut out, ':');
                let ptext = p.to_text();
                out.append(ptext.as_str());
                push_char(&mut out, ' ');
                out.append(body.as_str());
                proof {
                    assert(out@ =~= message_text(self@));
                }
                out
            },
            None => body,
        }
    }
}

} // verus!
