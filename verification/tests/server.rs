//! The registries and the session state machine, end to end on
//! literal lines; the server calls itself irc.test.
use paw_irc::{
    Channel, Client, Command, Message, Pinger, PingerVerdict, Prefix, Reply, ServerState,
};

fn server() -> ServerState {
    ServerState::new(Prefix::ServerOrNick("irc.test".to_string()))
}

fn feed(client: &mut Client, state: &mut ServerState, line: &str) -> Vec<Message> {
    let msg = Message::from_str(line).expect("the line must parse");
    client.handle_message(
        state,
        msg,
        "irc.test".to_string(),
        &vec!["welcome".to_string()],
    )
}

#[test]
fn nick_collision() {
    let mut state = server();
    let mut alice = Client::new("127.0.0.1".to_string());
    assert_eq!(feed(&mut alice, &mut state, "NICK alice").len(), 0);
    let motd = feed(&mut alice, &mut state, "USER a 0 * :Alice");
    assert!(motd.len() >= 2);
    assert_eq!(motd[0].to_text(), "375 :- irc.test Message of the day - ");

    let mut bob = Client::new("127.0.0.2".to_string());
    let out = feed(&mut bob, &mut state, "NICK alice");
    assert_eq!(out.len(), 1);
    assert_eq!(out[0].to_text(), "436 alice :Nickname collision KILL");
}

#[test]
fn nick_collision_is_case_insensitive() {
    let mut state = server();
    assert!(state.set_nick("Alice".to_string()));
    assert!(state.contains_nick(&"ALICE".to_string()));
    assert!(state.contains_nick(&"alice".to_string()));
    assert!(!state.set_nick("aliCe".to_string()));
    // the protocol's fold pairs the bracket characters too
    assert!(state.set_nick("w[a]re".to_string()));
    assert!(!state.set_nick("w{a}re".to_string()));
}

#[test]
fn unknown_command_reply() {
    let client = Client::new("127.0.0.1".to_string());
    let err = Message::from_str("FOOBAR x y").unwrap_err();
    let out = client.handle_message_error(err).expect("answered in-band");
    assert_eq!(out.to_text(), "421 FOOBAR :Unknown command");
}

#[test]
fn ping_is_answered_and_swallowed() {
    let mut pinger = Pinger::new();
    let ping = Message::from_str("PING :xyz").unwrap();
    match pinger.handle_message(&ping) {
        PingerVerdict::Answer(mut pong) => {
            pong.set_prefix(Prefix::ServerOrNick("irc.test".to_string()));
            assert_eq!(pong.to_text(), ":irc.test PONG xyz");
        }
        _ => panic!("a probe is answered, not delivered"),
    }
}

#[test]
fn pong_disarms_the_deadline() {
    let mut pinger = Pinger::new();
    let probe = pinger.poll(false, true, "irc.test".to_string()).unwrap();
    assert_eq!(probe.unwrap().to_text(), "PING irc.test");
    assert!(pinger.deadline_armed);
    let pong = Message::from_command(Command::PONG("irc.test".to_string(), None));
    match pinger.handle_message(&pong) {
        PingerVerdict::Swallow => {}
        _ => panic!("an answer is swallowed"),
    }
    assert!(!pinger.deadline_armed);
}

#[test]
fn ping_timeout_is_fatal() {
    let mut pinger = Pinger::new();
    pinger.poll(false, true, "irc.test".to_string()).unwrap();
    assert!(pinger.poll(true, false, "irc.test".to_string()).is_err());
}

#[test]
fn not_enough_parameters_reply() {
    let client = Client::new("127.0.0.1".to_string());
    let err = Message::from_str("USER alice 0 *").unwrap_err();
    let out = client.handle_message_error(err).expect("answered in-band");
    assert_eq!(out.to_text(), "462 USER :Not enough parameters");
}

#[test]
fn join_creates_channel() {
    let mut state = server();
    let mut alice = Client::new("127.0.0.1".to_string());
    feed(&mut alice, &mut state, "NICK alice");
    feed(&mut alice, &mut state, "USER a 0 * :Alice");
    let out = feed(&mut alice, &mut state, "JOIN #rust");
    let lines: Vec<String> = out.iter().map(|m| m.to_text()).collect();
    assert_eq!(
        lines,
        vec![
            "331 #rust :No topic is set".to_string(),
            "353 #rust :@alice".to_string(),
            "366 #rust :End of /NAMES list".to_string(),
        ]
    );
}

#[test]
fn join_before_registration_is_refused() {
    let mut state = server();
    let mut alice = Client::new("127.0.0.1".to_string());
    let out = feed(&mut alice, &mut state, "JOIN #rust");
    assert_eq!(out.len(), 1);
    assert_eq!(out[0].to_text(), "451 :You have not registered");
}

#[test]
fn registration_idempotent() {
    let mut state = server();
    let mut alice = Client::new("127.0.0.1".to_string());
    feed(&mut alice, &mut state, "NICK alice");
    feed(&mut alice, &mut state, "USER a 0 * :Alice");
    let uuid = alice.uuid;
    assert!(uuid != 0);
    let clients_before = state.clients.len();
    let nicks_before = state.nicks.len();
    let out = feed(&mut alice, &mut state, "USER a 0 * :Alice");
    assert_eq!(out.len(), 1);
    assert_eq!(out[0].to_text(), "462 :You may not reregister");
    assert_eq!(alice.uuid, uuid);
    assert_eq!(state.clients.len(), clients_before);
    assert_eq!(state.nicks.len(), nicks_before);
}

#[test]
fn drop_client_releases_everything() {
    let mut state = server();
    let mut alice = Client::new("127.0.0.1".to_string());
    feed(&mut alice, &mut state, "NICK alice");
    feed(&mut alice, &mut state, "USER a 0 * :Alice");
    let mut bob = Client::new("127.0.0.2".to_string());
    feed(&mut bob, &mut state, "NICK bob");
    feed(&mut bob, &mut state, "USER b 0 * :Bob");
    feed(&mut alice, &mut state, "JOIN #rust,#verus");
    feed(&mut bob, &mut state, "JOIN #rust");
    let uuid = alice.uuid;

    state.drop_client("alice".to_string(), uuid);
    assert!(!state.contains_nick(&"alice".to_string()));
    assert!(state.contains_nick(&"bob".to_string()));
    // the channel alice alone was in is gone; the shared one remains
    // without her
    assert_eq!(state.channels.len(), 1);
    for ch in &state.channels {
        for member in ch.get_clients() {
            assert!(member.uuid() != uuid);
        }
    }
}

#[test]
fn drop_client_is_idempotent_for_nil() {
    let mut state = server();
    state.set_nick("alice".to_string());
    state.drop_client("alice".to_string(), 0);
    assert!(state.contains_nick(&"alice".to_string()));
    state.drop_client(String::new(), 7);
    assert!(state.contains_nick(&"alice".to_string()));
}

#[test]
fn names_pagination_stays_in_budget() {
    let mut channel = Channel::new("test_1".to_string(), 0, "oper!".to_string());
    for i in 0..250 {
        channel.add_client(0, format!("testy_{}", i));
    }
    let prefix = Prefix::ServerOrNick("irc.tlph.one".to_string());
    let replies = channel.reply_names(&prefix);
    assert!(replies.len() > 2);
    let mut seen = 0;
    for reply in &replies {
        assert!(reply.to_text().len() < 512, "len: {}", reply.to_text().len());
        if let Reply::NamReply(_, users) = reply {
            seen += users.len();
        }
    }
    // pagination loses nobody
    assert_eq!(seen, 251);
    match replies.last().unwrap() {
        Reply::EndOfNames(name) => assert_eq!(name, "test_1"),
        _ => panic!("the block ends with the end marker"),
    }
}

#[test]
fn format_channel_reply() {
    let mut channel = Channel::new("test_1".to_string(), 0, "oper!".to_string());
    for i in 0..250 {
        channel.add_client(0, format!("testy_{}", i));
    }
    for reply in channel.reply_names(&Prefix::ServerOrNick("irc.tlph.one".to_string())) {
        println!("len: {}", reply.to_text().len());
        assert!(reply.to_text().len() < 512);
        println!("{}", reply.to_text());
    }
}

#[test]
fn topic_reply_shapes() {
    let mut channel = Channel::new("#x".to_string(), 1, "op".to_string());
    assert_eq!(channel.reply_topic().to_text(), "331 #x :No topic is set");
    channel.topic = Some("the topic".to_string());
    assert_eq!(channel.reply_topic().to_text(), "332 #x :the topic");
}

#[test]
fn notices_use_star_before_a_nick_is_set() {
    let mut state = server();
    let mut alice = Client::new("127.0.0.1".to_string());
    let before = alice.send_notice("hello".to_string());
    assert_eq!(before.to_text(), "NOTICE * hello");
    feed(&mut alice, &mut state, "NICK alice");
    let after = alice.send_notice("hello".to_string());
    assert_eq!(after.to_text(), "NOTICE alice hello");
}

#[test]
fn error_reply_adapter() {
    let err = paw_irc::ServerError::InvalidUUID;
    let reply = err.to_reply("JOIN", None);
    assert_eq!(reply.to_text(), "400 JOIN  :the uuid doesn't have a client");
}
