//! The typed command model: the verbs the server understands, how a verb
//! and its argument list become a command, and how a command is written
//! back onto the wire.
use vstd::prelude::*;
use crate::error::{ProtocolError, ProtocolErrorV};
use crate::text::{
    ascii_upper, contains_char, int_text, join_with, parse_i32_spec, split_on, str_chars,
    chars_str, to_ascii_upper, chars_eq, parse_i32_chars, vec_contains_char, split_string,
    join_strings, i32_dec_chars, push_char,
};

verus! {

/// A parsed client command.
#[derive(Debug, PartialEq)]
pub enum Command {
    PASS(String),
    NICK(String, Option<i32>),
    USER(String, String, String, String),
    PRIVMSG(String, String, Option<Vec<String>>),
    NOTICE(String, String),
    PING(String, Option<String>),
    PONG(String, Option<String>),
    JOIN(Vec<String>, Option<Vec<String>>),
    RAW(String),
}

/// The mathematical shape of a `Command`.
pub enum CommandV {
    PASS(Seq<char>),
    NICK(Seq<char>, Option<i32>),
    USER(Seq<char>, Seq<char>, Seq<char>, Seq<char>),
    PRIVMSG(Seq<char>, Seq<char>, Option<Seq<Seq<char>>>),
    NOTICE(Seq<char>, Seq<char>),
    PING(Seq<char>, Option<Seq<char>>),
    PONG(Seq<char>, Option<Seq<char>>),
    JOIN(Seq<Seq<char>>, Option<Seq<Seq<char>>>),
    RAW(Seq<char>),
}

impl View for Command {
    type V = CommandV;

    open spec fn view(&self) -> CommandV {
        match self {
            Command::PASS(p) => CommandV::PASS(p@),
            Command::NICK(n, h) => CommandV::NICK(n@, *h),
            Command::USER(u, h, s, r) => CommandV::USER(u@, h@, s@, r@),
            Command::PRIVMSG(t, m, cc) => CommandV::PRIVMSG(
                t@,
                m@,
                match cc {
                    Some(v) => Some(v.deep_view()),
                    None => None,
                },
            ),
            Command::NOTICE(t, m) => CommandV::NOTICE(t@, m@),
            Command::PING(a, b) => CommandV::PING(
                a@,
                match b {
                    Some(s) => Some(s@),
                    None => None,
                },
            ),
            Command::PONG(a, b) => CommandV::PONG(
                a@,
                match b {
                    Some(s) => Some(s@),
                    None => None,
                },
            ),
            Command::JOIN(c, k) => CommandV::JOIN(
                c.deep_view(),
                match k {
                    Some(v) => Some(v.deep_view()),
                    None => None,
                },
            ),
            Command::RAW(r) => CommandV::RAW(r@),
        }
    }
}

/// How a verb with its argument list becomes a command: the verb is
/// upper-cased, each verb checks its arity, `NICK` reads its hop count,
/// `PRIVMSG` splits a comma-separated target list, and `JOIN` splits its
/// channel and key lists. Unknown verbs and arity faults are errors.
pub open spec fn command_from_args(verb: Seq<char>, args: Seq<Seq<char>>) -> Result<
    CommandV,
    ProtocolErrorV,
> {
    let u = ascii_upper(verb);
    if u == "PASS"@ {
        if args.len() == 1 {
            Ok(CommandV::PASS(args[0]))
        } else {
            Err(ProtocolErrorV::NotEnoughArguments(u))
        }
    } else if u == "NICK"@ {
        if args.len() == 1 {
            Ok(CommandV::NICK(args[0], None))
        } else if args.len() == 2 {
            match parse_i32_spec(args[1]) {
                Some(h) => Ok(CommandV::NICK(args[0], Some(h))),
                None => Err(ProtocolErrorV::ParseError),
            }
        } else {
            Err(ProtocolErrorV::NotEnoughArguments(u))
        }
    } else if u == "USER"@ {
        if args.len() == 4 {
            Ok(CommandV::USER(args[0], args[1], args[2], args[3]))
        } else {
            Err(ProtocolErrorV::NotEnoughArguments(u))
        }
    } else if u == "NOTICE"@ {
        if args.len() == 2 {
            Ok(CommandV::NOTICE(args[0], args[1]))
        } else {
            Err(ProtocolErrorV::NotEnoughArguments(u))
        }
    } else if u == "PING"@ {
        if args.len() == 1 {
            Ok(CommandV::PING(args[0], None))
        } else if args.len() == 2 {
            Ok(CommandV::PING(args[0], Some(args[1])))
        } else {
            Err(ProtocolErrorV::NotEnoughArguments(u))
        }
    } else if u == "PONG"@ {
        if args.len() == 1 {
            Ok(CommandV::PONG(args[0], None))
        } else if args.len() == 2 {
            Ok(CommandV::PONG(args[0], Some(args[1])))
        } else {
            Err(ProtocolErrorV::NotEnoughArguments(u))
        }
    } else if u == "PRIVMSG"@ {
        if args.len() == 2 {
            if contains_char(args[0], ',') {
                let ccs = split_on(args[0], ',');
                Ok(CommandV::PRIVMSG(ccs[0], args[1], Some(ccs.drop_first())))
            } else {
                Ok(CommandV::PRIVMSG(args[0], args[1], None))
            }
        } else {
            Err(ProtocolErrorV::NotEnoughArguments(u))
        }
    } else if u == "JOIN"@ {
        if args.len() == 0 {
            Err(ProtocolErrorV::NotEnoughArguments(u))
        } else if args.len() == 1 {
            if contains_char(args[0], ',') {
                Ok(CommandV::JOIN(split_on(args[0], ','), None))
            } else {
                Ok(CommandV::JOIN(seq![args[0]], None))
            }
        } else if args.len() == 2 {
            let chans = if contains_char(args[0], ',') {
                split_on(args[0], ',')
            } else {
                seq![args[0]]
            };
            let keys = if contains_char(args[1], ',') {
                split_on(args[1], ',')
            } else {
                seq![args[1]]
            };
            Ok(CommandV::JOIN(chans, Some(keys)))
        } else {
            Err(ProtocolErrorV::ParseError)
        }
    } else {
        Err(ProtocolErrorV::UnknownCommand(u))
    }
}

/// How a verb and its arguments are written: arguments separated by one
/// space, the last prefixed with `:` exactly when it is empty, holds a
/// space, or itself starts with `:`.
pub open spec fn stringify_text(cmd: Seq<char>, args: Seq<Seq<char>>) -> Seq<char> {
    if args.len() == 0 {
        cmd
    } else {
        let head = args.subrange(0, args.len() - 1);
        let suffix = args.last();
        let joined = join_with(head, ' ');
        let sp: Seq<char> = if joined.len() == 0 {
            Seq::empty()
        } else {
            seq![' ']
        };
        let co: Seq<char> = if suffix.len() == 0 || contains_char(suffix, ' ') || suffix[0] == ':' {
            seq![':']
        } else {
            Seq::empty()
        };
        cmd + sp + joined + seq![' '] + co + suffix
    }
}

/// The verb a command answers to, `RAW` included.
pub open spec fn command_verb_name(c: CommandV) -> Seq<char> {
    match c {
        CommandV::PASS(_) => "PASS"@,
        CommandV::NICK(_, _) => "NICK"@,
        CommandV::USER(_, _, _, _) => "USER"@,
        CommandV::PRIVMSG(_, _, _) => "PRIVMSG"@,
        CommandV::NOTICE(_, _) => "NOTICE"@,
        CommandV::PING(_, _) => "PING"@,
        CommandV::PONG(_, _) => "PONG"@,
        CommandV::JOIN(_, _) => "JOIN"@,
        CommandV::RAW(_) => "RAW"@,
    }
}

/// The verb under which a command is written.
pub open spec fn command_verb(c: CommandV) -> Seq<char> {
    match c {
        CommandV::PASS(_) => "PASS"@,
        CommandV::NICK(_, _) => "NICK"@,
        CommandV::USER(_, _, _, _) => "USER"@,
        CommandV::PRIVMSG(_, _, _) => "PRIVMSG"@,
        CommandV::NOTICE(_, _) => "NOTICE"@,
        CommandV::PING(_, _) => "PING"@,
        CommandV::PONG(_, _) => "PONG"@,
        CommandV::JOIN(_, _) => "JOIN"@,
        CommandV::RAW(r) => r,
    }
}

/// The argument list under which a command is written.
pub open spec fn command_args(c: CommandV) -> Seq<Seq<char>> {
    match c {
        CommandV::PASS(p) => seq![p],
        CommandV::NICK(n, None) => seq![n],
        CommandV::NICK(n, Some(h)) => seq![n, int_text(h as int)],
        CommandV::USER(u, h, s, r) => seq![u, h, s, r],
        CommandV::PRIVMSG(t, m, None) => seq![t, m],
        CommandV::PRIVMSG(t, m, Some(cc)) => seq![t + seq![','] + join_with(cc, ','), m],
        CommandV::NOTICE(t, m) => seq![t, m],
        CommandV::PING(a, None) => seq![a],
        CommandV::PING(a, Some(b)) => seq![a, b],
        CommandV::PONG(a, None) => seq![a],
        CommandV::PONG(a, Some(b)) => seq![a, b],
        CommandV::JOIN(ch, None) => seq![join_with(ch, ',')],
        CommandV::JOIN(ch, Some(k)) => seq![join_with(ch, ','), join_with(k, ',')],
        CommandV::RAW(_) => Seq::empty(),
    }
}

/// The full wire text of a command.
pub open spec fn command_text(c: CommandV) -> Seq<char> {
    stringify_text(command_verb(c), command_args(c))
}

#[allow(non_snake_case)]
impl Command {
    pub fn Pass(password: String) -> (r: Command)
        ensures
            r@ == CommandV::PASS(password@),
    {
        Command::PASS(password)
    }

    pub fn Nick(nick: String, hops: Option<i32>) -> (r: Command)
        ensures
            r@ == CommandV::NICK(nick@, hops),
    {
        Command::NICK(nick, hops)
    }

    pub fn User(user: String, host: String, server: String, realname: String) -> (r: Command)
        ensures
            r@ == CommandV::USER(user@, host@, server@, realname@),
    {
        Command::USER(user, host, server, realname)
    }

    pub fn Privmsg(nick: String, message: String, cc: Option<Vec<String>>) -> (r: Command)
        ensures
            r@ == CommandV::PRIVMSG(
                nick@,
                message@,
                match cc {
                    Some(v) => Some(v.deep_view()),
                    None => None,
                },
            ),
    {
        Command::PRIVMSG(nick, message, cc)
    }

    pub fn Notice(nick: String, message: String) -> (r: Command)
        ensures
            r@ == CommandV::NOTICE(nick@, message@),
    {
        Command::NOTICE(nick, message)
    }

    pub fn Ping(target: String, target2: Option<String>) -> (r: Command)
        ensures
            r@ == CommandV::PING(
                target@,
                match target2 {
                    Some(s) => Some(s@),
                    None => None,
                },
            ),
    {
        Command::PING(target, target2)
    }

    pub fn Pong(target: String, target2: Option<String>) -> (r: Command)
        ensures
            r@ == CommandV::PONG(
                target@,
                match target2 {
                    Some(s) => Some(s@),
                    None => None,
                },
            ),
    {
        Command::PONG(target, target2)
    }

    pub fn Join(chans: Vec<String>, keys: Option<Vec<String>>) -> (r: Command)
        ensures
            r@ == CommandV::JOIN(
                chans.deep_view(),
                match keys {
                    Some(v) => Some(v.deep_view()),
                    None => None,
                },
            ),
    {
        Command::JOIN(chans, keys)
    }

    pub fn Raw(raw: String) -> (r: Command)
        ensures
            r@ == CommandV::RAW(raw@),
    {
        Command::RAW(raw)
    }

    /// The verb this command answers to, `RAW` included.
    pub fn name(&self) -> (r: String)
        ensures
            r@ == command_verb_name(self@),
    {
        match self {
            Command::PASS(_) => String::from_str("PASS"),
            Command::NICK(_, _) => String::from_str("NICK"),
            Command::USER(_, _, _, _) => String::from_str("USER"),
            Command::PRIVMSG(_, _, _) => String::from_str("PRIVMSG"),
            Command::NOTICE(_, _) => String::from_str("NOTICE"),
            Command::PING(_, _) => String::from_str("PING"),
            Command::PONG(_, _) => String::from_str("PONG"),
            Command::JOIN(_, _) => String::from_str("JOIN"),
            Command::RAW(_) => String::from_str("RAW"),
        }
    }

    /// Builds a command from a raw verb and its arguments, exactly as
    /// `command_from_args` reads them.
    pub fn new(command: &str, args: Vec<String>) -> (r: Result<Command, ProtocolError>)
        ensures
            match r {
                Ok(c) => command_from_args(command@, args.deep_view()) == Ok::<
                    CommandV,
                    ProtocolErrorV,
                >(c@),
                Err(e) => command_from_args(command@, args.deep_view()) == Err::<
                    CommandV,
                    ProtocolErrorV,
                >(e@),
            },
    {
        let ghost argv = args.deep_view();
        let upper_chars = to_ascii_upper(&str_chars(command));
        let upper = chars_str(&upper_chars);
        if chars_eq(&upper_chars, &str_chars("PASS")) {
            if args.len() == 1 {
                Ok(Command::PASS(args[0].clone()))
            } else {
                Err(ProtocolError::NotEnoughArguments(upper))
            }
        } else if chars_eq(&upper_chars, &str_chars("NICK")) {
            if args.len() == 1 {
                Ok(Command::NICK(args[0].clone(), None))
            } else if args.len() == 2 {
                match parse_i32_chars(&str_chars(args[1].as_str())) {
                    Some(h) => Ok(Command::NICK(args[0].clone(), Some(h))),
                    None => Err(ProtocolError::ParseError),
                }
            } else {
                Err(ProtocolError::NotEnoughArguments(upper))
            }
        } else if chars_eq(&upper_chars, &str_chars("USER")) {
            if args.len() == 4 {
                Ok(
                    Command::USER(
                        args[0].clone(),
                        args[1].clone(),
                        args[2].clone(),
                        args[3].clone(),
                    ),
                )
            } else {
                Err(ProtocolError::NotEnoughArguments(upper))
            }
        } else if chars_eq(&upper_chars, &str_chars("NOTICE")) {
            if args.len() == 2 {
                Ok(Command::NOTICE(args[0].clone(), args[1].clone()))
            } else {
                Err(ProtocolError::NotEnoughArguments(upper))
            }
        } else if chars_eq(&upper_chars, &str_chars("PING")) {
            if args.len() == 1 {
                Ok(Command::PING(args[0].clone(), None))
            } else if args.len() == 2 {
                Ok(Command::PING(args[0].clone(), Some(args[1].clone())))
            } else {
                Err(ProtocolError::NotEnoughArguments(upper))
            }
        } else if chars_eq(&upper_chars, &str_chars("PONG")) {
            if args.len() == 1 {
                Ok(Command::PONG(args[0].clone(), None))
            } else if args.len() == 2 {
                Ok(Command::PONG(args[0].clone(), Some(args[1].clone())))
            } else {
                Err(ProtocolError::NotEnoughArguments(upper))
            }
        } else if chars_eq(&upper_chars, &str_chars("PRIVMSG")) {
            if args.len() == 2 {
                let target_chars = str_chars(args[0].as_str());
                if vec_contains_char(&target_chars, ',') {
                    let pieces = split_string(args[0].as_str(), ',');
                    proof {
                        crate::text::lemma_split_on_nonempty(argv[0], ',');
                    }
                    let ghost splitv = split_on(argv[0], ',');
                    let mut ccs: Vec<String> = Vec::new();
                    let mut i: usize = 1;
                    proof {
                        assert(pieces.deep_view().len() == pieces@.len());
                    }
                    while i < pieces.len()
                        invariant
                            1 <= i <= pieces@.len(),
                            pieces.deep_view() == splitv,
                            splitv.len() == pieces@.len(),
                            ccs@.len() == i - 1,
                            forall|k: int| 0 <= k < i - 1 ==> #[trigger] ccs@[k]@ == splitv[k + 1],
                        decreases pieces@.len() - i,
                    {
                        ccs.push(pieces[i].clone());
                        i = i + 1;
                    }
                    proof {
                        assert(ccs.deep_view() =~~= splitv.drop_first());
                    }
                    Ok(Command::PRIVMSG(pieces[0].clone(), args[1].clone(), Some(ccs)))
                } else {
                    Ok(Command::PRIVMSG(args[0].clone(), args[1].clone(), None))
                }
            } else {
                Err(ProtocolError::NotEnoughArguments(upper))
            }
        } else if chars_eq(&upper_chars, &str_chars("JOIN")) {
            if args.len() == 0 {
                Err(ProtocolError::NotEnoughArguments(upper))
            } else if args.len() == 1 {
                let chans = Self::comma_list(&args[0]);
                Ok(Command::JOIN(chans, None))
            } else if args.len() == 2 {
                let chans = Self::comma_list(&args[0]);
                let keys = Self::comma_list(&args[1]);
                Ok(Command::JOIN(chans, Some(keys)))
            } else {
                Err(ProtocolError::ParseError)
            }
        } else {
            Err(ProtocolError::UnknownCommand(upper))
        }
    }

    /// A comma-separated list argument: split when a comma is present,
    /// the whole argument alone otherwise.
    fn comma_list(arg: &String) -> (r: Vec<String>)
        ensures
            r.deep_view() == if contains_char(arg@, ',') {
                split_on(arg@, ',')
            } else {
                seq![arg@]
            },
    {
        let chars = str_chars(arg.as_str());
        if vec_contains_char(&chars, ',') {
            split_string(arg.as_str(), ',')
        } else {
            let mut r: Vec<String> = Vec::new();
            r.push(arg.clone());
            proof {
                assert(r.deep_view() =~~= seq![arg@]);
            }
            r
        }
    }

    /// Writes the command in its wire form.
    pub fn to_text(&self) -> (r: String)
        ensures
            r@ == command_text(self@),
    {
        match self {
            Command::PASS(p) => stringify_one(String::from_str("PASS"), p.clone()),
            Command::NICK(n, None) => stringify_one(String::from_str("NICK"), n.clone()),
            Command::NICK(n, Some(h)) => {
                let hops = chars_str(&i32_dec_chars(*h));
                stringify_two(String::from_str("NICK"), n.clone(), hops)
            },
            Command::USER(u, h, s, r) => {
                let mut args: Vec<String> = Vec::new();
                args.push(u.clone());
                args.push(h.clone());
                args.push(s.clone());
                args.push(r.clone());
                proof {
                    assert(args.deep_view() =~~= command_args(self@));
                }
                stringify_exec(String::from_str("USER"), &args)
            },
            Command::PRIVMSG(t, m, None) => stringify_two(
                String::from_str("PRIVMSG"),
                t.clone(),
                m.clone(),
            ),
            Command::PRIVMSG(t, m, Some(cc)) => {
                let mut target = t.clone();
                push_char(&mut target, ',');
                let joined = join_strings(cc, ',');
                target.append(joined.as_str());
                proof {
                    assert(target@ =~= t@ + seq![','] + join_with(cc.deep_view(), ','));
                }
                stringify_two(String::from_str("PRIVMSG"), target, m.clone())
            },
            Command::NOTICE(t, m) => stringify_two(String::from_str("NOTICE"), t.clone(), m.clone()),
            Command::PING(a, None) => stringify_one(String::from_str("PING"), a.clone()),
            Command::PING(a, Some(b)) => stringify_two(
                String::from_str("PING"),
                a.clone(),
                b.clone(),
            ),
            Command::PONG(a, None) => stringify_one(String::from_str("PONG"), a.clone()),
            Command::PONG(a, Some(b)) => stringify_two(
                String::from_str("PONG"),
                a.clone(),
                b.clone(),
            ),
            Command::JOIN(ch, None) => stringify_one(
                String::from_str("JOIN"),
                join_strings(ch, ','),
            ),
            Command::JOIN(ch, Some(k)) => stringify_two(
                String::from_str("JOIN"),
                join_strings(ch, ','),
                join_strings(k, ','),
            ),
            Command::RAW(r) => {
                let out = r.clone();
                proof {
                    assert(command_args(self@).len() == 0);
                }
                out
            },
        }
    }
}

/// Writes a verb with a single argument.
fn stringify_one(cmd: String, arg: String) -> (r: String)
    ensures
        r@ == stringify_text(cmd@, seq![arg@]),
{
    let mut args: Vec<String> = Vec::new();
    args.push(arg);
    let ghost a0 = args.deep_view()[0];
    proof {
        assert(args.deep_view() =~~= seq![a0]);
    }
    stringify_exec(cmd, &args)
}

/// Writes a verb with two arguments.
fn stringify_two(cmd: String, arg1: String, arg2: String) -> (r: String)
    ensures
        r@ == stringify_text(cmd@, seq![arg1@, arg2@]),
{
    let ghost v1 = arg1@;
    let ghost v2 = arg2@;
    let mut args: Vec<String> = Vec::new();
    args.push(arg1);
    args.push(arg2);
    proof {
        assert(args.deep_view() =~~= seq![v1, v2]);
    }
    stringify_exec(cmd, &args)
}

/// Writes a verb and its arguments, as `stringify_text` lays them out.
fn stringify_exec(cmd: String, args: &Vec<String>) -> (r: String)
    ensures
        r@ == stringify_text(cmd@, args.deep_view()),
{
    let ghost argv = args.deep_view();
    if args.len() == 0 {
        return cmd;
    }
    let n = args.len();
    let mut head: Vec<String> = Vec::new();
    let mut i: usize = 0;
    while i < n - 1
        invariant
            i <= n - 1,
            n == args@.len(),
            n >= 1,
            argv == args.deep_view(),
            argv.len() == n,
            head@.len() == i,
            forall|k: int| 0 <= k < i ==> #[trigger] head@[k]@ == argv[k],
        decreases n - 1 - i,
    {
        let piece = args[i].clone();
        head.push(piece);
        i = i + 1;
    }
    proof {
        assert(head.deep_view() =~~= argv.subrange(0, argv.len() - 1));
    }
    let suffix = args[n - 1].clone();
    let joined = join_strings(&head, ' ');
    let mut out = cmd;
    if joined.as_str().unicode_len() > 0 {
        push_char(&mut out, ' ');
        out.append(joined.as_str());
    }
    push_char(&mut out, ' ');
    let suffix_chars = str_chars(suffix.as_str());
    let needs_colon = suffix_chars.len() == 0 || vec_contains_char(&suffix_chars, ' ')
        || suffix_chars[0] == ':';
    if needs_colon {
        push_char(&mut out, ':');
    }
    out.append(suffix.as_str());
    proof {
        let spec_out = stringify_text(cmd@, argv);
        assert(out@ =~= spec_out);
    }
    out
}

} // verus!
