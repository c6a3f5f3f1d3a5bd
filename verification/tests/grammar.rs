//! The message grammar: parsing, serialization, and their round trip.
use paw_irc::{Command, Message, MessageContents, Prefix, ProtocolError, Reply, ChannelUser};
use paw_irc::text::{split_limit_chars, drop_empty_pieces, str_chars};

#[test]
fn parse_message() {
    let str = ":localhost NOTICE * :*** Hello World.";
    let message = Message {
        prefix: Some(Prefix::ServerOrNick("localhost".to_string())),
        contents: MessageContents::Command(Command::NOTICE(
            "*".to_string(),
            "*** Hello World.".to_string(),
        )),
    };
    assert_eq!(Message::from_str(str).unwrap(), message);
}

#[test]
fn name_reply() {
    let names = vec![
        ChannelUser::new_oper(0, "pooh".to_string()),
        ChannelUser::new(0, "pooh".to_string()),
    ];
    let name_reply = Reply::NamReply("test".to_string(), names);
    assert_eq!(name_reply.to_text(), "353 test :@pooh pooh");
}

#[test]
fn parse_empty_line() {
    match Message::from_str("") {
        Err(ProtocolError::EmptyMessage) => {}
        _ => panic!("an empty line must be refused"),
    }
}

#[test]
fn parse_prefix_without_command() {
    match Message::from_str(":localhost ::x") {
        Err(ProtocolError::InvalidCommand) => {}
        _ => panic!("a colon token after the prefix is no command"),
    }
}

#[test]
fn parse_unknown_verb() {
    match Message::from_str("FOOBAR x y") {
        Err(ProtocolError::UnknownCommand(v)) => assert_eq!(v, "FOOBAR"),
        _ => panic!("an unknown verb must be refused"),
    }
}

#[test]
fn parse_missing_arguments() {
    match Message::from_str("USER alice 0 *") {
        Err(ProtocolError::NotEnoughArguments(v)) => assert_eq!(v, "USER"),
        _ => panic!("three arguments are not enough for USER"),
    }
}

#[test]
fn parse_bad_hop_count() {
    match Message::from_str("NICK alice many") {
        Err(ProtocolError::ParseError) => {}
        _ => panic!("a hop count must be a number"),
    }
}

#[test]
fn parse_verb_case_insensitive() {
    let m = Message::from_str("nick alice").unwrap();
    assert_eq!(
        m.contents,
        MessageContents::Command(Command::NICK("alice".to_string(), None))
    );
}

#[test]
fn parse_privmsg_target_list() {
    let m = Message::from_str("PRIVMSG alice,bob,carol :hi there").unwrap();
    assert_eq!(
        m.contents,
        MessageContents::Command(Command::PRIVMSG(
            "alice".to_string(),
            "hi there".to_string(),
            Some(vec!["bob".to_string(), "carol".to_string()]),
        ))
    );
}

#[test]
fn parse_join_lists() {
    let m = Message::from_str("JOIN #a,#b key1,key2").unwrap();
    assert_eq!(
        m.contents,
        MessageContents::Command(Command::JOIN(
            vec!["#a".to_string(), "#b".to_string()],
            Some(vec!["key1".to_string(), "key2".to_string()]),
        ))
    );
}

#[test]
fn nick_hops_roundtrip() {
    let m = Message::from_command(Command::NICK("alice".to_string(), Some(-3)));
    let text = m.to_text();
    assert_eq!(text, "NICK alice -3");
    assert_eq!(Message::from_str(&text).unwrap(), m);
}

#[test]
fn message_roundtrip_samples() {
    let samples = vec![
        Message::from_command(Command::USER(
            "alice".to_string(),
            "0".to_string(),
            "*".to_string(),
            "Alice Liddell".to_string(),
        )),
        Message::from_command(Command::PING("irc.test".to_string(), None)),
        Message::from_command(Command::PONG("xyz".to_string(), None)),
        Message::from_command(Command::PRIVMSG(
            "#rust".to_string(),
            "hello world".to_string(),
            None,
        )),
        Message::from_command(Command::JOIN(
            vec!["#a".to_string(), "#b".to_string()],
            None,
        )),
        Message::from_command(Command::PASS("sekrit".to_string())),
    ];
    for m in samples {
        let text = m.to_text();
        assert_eq!(Message::from_str(&text).unwrap(), m, "line was {text:?}");
    }
}

#[test]
fn prefixed_message_roundtrip() {
    let mut m = Message::from_command(Command::NOTICE("*".to_string(), "hi there".to_string()));
    m.set_prefix(Prefix::Nickname(
        "alice".to_string(),
        "al".to_string(),
        "host.example".to_string(),
    ));
    let text = m.to_text();
    assert_eq!(text, ":alice!al@host.example NOTICE * :hi there");
    assert_eq!(Message::from_str(&text).unwrap(), m);
}

#[test]
fn middles_cap_at_fourteen() {
    let line: Vec<char> = str_chars("a1 a2 a3 a4 a5 a6 a7 a8 a9 a10 a11 a12 a13 a14 a15 a16");
    let pieces = drop_empty_pieces(&split_limit_chars(&line, ' ', 14));
    assert_eq!(pieces.len(), 14);
    assert_eq!(pieces[13], "a14 a15 a16");
}

#[test]
fn middles_cap_with_trailing() {
    // fourteen middles, the fourteenth absorbing the rest, then the
    // trailing: fifteen arguments in all, too many for PING
    match Message::from_str("PING a b c d e f g h i j k l m n o p :tail") {
        Err(ProtocolError::NotEnoughArguments(v)) => assert_eq!(v, "PING"),
        _ => panic!("fifteen arguments are too many for PING"),
    }
}

#[test]
fn prefix_shapes() {
    match Prefix::new_from_str("irc.example.net") {
        Prefix::ServerOrNick(n) => assert_eq!(n, "irc.example.net"),
        _ => panic!("a dotted bare token reads as a server"),
    }
    match Prefix::new_from_str("alice!al@host") {
        Prefix::Nickname(n, u, h) => {
            assert_eq!(n, "alice");
            assert_eq!(u, "al");
            assert_eq!(h, "host");
        }
        _ => panic!("a full triple reads as a nickname"),
    }
    match Prefix::new_from_str("alice") {
        Prefix::ServerOrNick(n) => assert_eq!(n, "alice"),
        _ => panic!("a bare token keeps the ambiguity"),
    }
    match Prefix::new_from_str("alice@host") {
        Prefix::Nickname(n, u, h) => {
            assert_eq!(n, "alice");
            assert_eq!(u, "");
            assert_eq!(h, "host");
        }
        _ => panic!("a host part makes it a nickname"),
    }
}

#[test]
fn hop_count_extremes() {
    let m = Message::from_str("NICK n 2147483647").unwrap();
    assert_eq!(
        m.contents,
        MessageContents::Command(Command::NICK("n".to_string(), Some(2147483647)))
    );
    let m = Message::from_str("NICK n -2147483648").unwrap();
    assert_eq!(
        m.contents,
        MessageContents::Command(Command::NICK("n".to_string(), Some(-2147483648)))
    );
    match Message::from_str("NICK n 2147483648") {
        Err(ProtocolError::ParseError) => {}
        _ => panic!("a hop count past the integer range must be refused"),
    }
}

#[test]
fn empty_trailing_argument() {
    let m = Message::from_str("PASS :").unwrap();
    assert_eq!(m.contents, MessageContents::Command(Command::PASS(String::new())));
    assert_eq!(m.to_text(), "PASS :");
}
