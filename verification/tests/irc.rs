use ircnvim::channel::IsChannelName;
use ircnvim::irc::{IrcMessage, IrcMessagePrefix, IrcMessageType, ParseError};

#[test]
fn test_is_channel_name() {
    assert!("##c".to_string().is_channel_name());
    assert!("&mychan".is_channel_name());
    assert!("~otherchan".is_channel_name());
}

#[test]
fn test_ping() {
    let message = IrcMessage::parse(b"PING :verne.freenode.net").unwrap();
    println!("{:?}", message);
    match message.kind {
        IrcMessageType::Ping => {}
        _ => unreachable!(),
    }
}

#[test]
fn test_quit() {
    let _message = IrcMessage::parse(
        b":harukomoto!~harukomot@93-34-148-177.ip50.fastwebnet.it QUIT :",
    )
    .unwrap();
    let _message =
        IrcMessage::parse(b":Andrius!~andrius@5ec081cd.skybroadband.com QUIT :").unwrap();
    let message = IrcMessage::parse(b":randomstatistic!~randomsta@64.124.61.215 QUIT :").unwrap();
    assert_eq!(message.params().len(), 0);
}

#[test]
fn test_mode_services() {
    let message = IrcMessage::parse(b":services. MODE #foobartest -o marchelzo").unwrap();
    println!("{:?}", message);
    match message.kind {
        IrcMessageType::Mode => {}
        _ => unreachable!(),
    }
    match message.prefix {
        Some(IrcMessagePrefix::ServerPrefix(_)) => {}
        _ => unreachable!(),
    }

    assert_eq!(message.params().len(), 3);
}

#[test]
fn ping_has_one_trailing_parameter() {
    let message = IrcMessage::parse(b"PING :verne.example.net").unwrap();
    assert_eq!(message.kind, IrcMessageType::Ping);
    assert!(message.prefix.is_none());
    assert_eq!(message.params().len(), 1);
    assert_eq!(message.param(0).text(), b"verne.example.net");
    assert_eq!(message.raw, Some(b"PING :verne.example.net".to_vec()));
}

#[test]
fn quit_of_a_user_in_full() {
    let message = IrcMessage::parse(b":nick!user@host QUIT :bye").unwrap();
    assert_eq!(message.kind, IrcMessageType::Quit);
    match &message.prefix {
        Some(IrcMessagePrefix::UserPrefix(user)) => {
            assert_eq!(user.nick, b"nick".to_vec());
            assert_eq!(user.username, Some(b"user".to_vec()));
            assert_eq!(user.host, Some(b"host".to_vec()));
        }
        _ => panic!("no user"),
    }
    assert_eq!(message.params().len(), 1);
    assert_eq!(message.param(0).text(), b"bye");
    assert_eq!(message.source(), b"nick");
    assert_eq!(message.user().nick, b"nick".to_vec());
}

#[test]
fn mode_of_a_server() {
    let message = IrcMessage::parse(b":services. MODE #chan -o someone").unwrap();
    assert_eq!(message.kind, IrcMessageType::Mode);
    match &message.prefix {
        Some(IrcMessagePrefix::ServerPrefix(name)) => assert_eq!(name, &b"services.".to_vec()),
        _ => panic!("no server"),
    }
    assert_eq!(message.params().len(), 3);
    assert_eq!(message.param(0).text(), b"#chan");
    assert_eq!(message.param(1).text(), b"-o");
    assert_eq!(message.param(2).text(), b"someone");
    assert_eq!(message.source(), b"server");
    assert_eq!(message.sequence(1), b"-o someone".to_vec());
    assert_eq!(message.sequence(0), b"#chan -o someone".to_vec());
    assert_eq!(message.sequence(3), Vec::<u8>::new());
}

#[test]
fn name_without_a_dot_is_a_user() {
    let message = IrcMessage::parse(b":nick PRIVMSG #chan :hello there").unwrap();
    match &message.prefix {
        Some(IrcMessagePrefix::UserPrefix(user)) => {
            assert_eq!(user.nick, b"nick".to_vec());
            assert_eq!(user.username, None);
            assert_eq!(user.host, None);
        }
        _ => panic!("no user"),
    }
    assert_eq!(message.kind, IrcMessageType::PrivMsg);
    assert_eq!(message.param(1).text(), b"hello there");
}

#[test]
fn name_with_separator_is_a_user_even_with_a_dot() {
    let message = IrcMessage::parse(b":irc.example.net!u@h NOTICE x :y").unwrap();
    match &message.prefix {
        Some(IrcMessagePrefix::UserPrefix(user)) => {
            assert_eq!(user.nick, b"irc.example.net".to_vec());
            assert_eq!(user.username, Some(b"u".to_vec()));
            assert_eq!(user.host, Some(b"h".to_vec()));
        }
        _ => panic!("no user"),
    }
}

#[test]
fn user_name_without_host_and_host_without_user_name() {
    let message = IrcMessage::parse(b":nick!user QUIT :bye").unwrap();
    assert_eq!(message.kind, IrcMessageType::Quit);
    match &message.prefix {
        Some(IrcMessagePrefix::UserPrefix(user)) => {
            assert_eq!(user.username, Some(b"user".to_vec()));
            assert_eq!(user.host, None);
        }
        _ => panic!("no user"),
    }
    let message = IrcMessage::parse(b":nick@host QUIT :bye").unwrap();
    assert_eq!(message.kind, IrcMessageType::Quit);
    match &message.prefix {
        Some(IrcMessagePrefix::UserPrefix(user)) => {
            assert_eq!(user.username, None);
            assert_eq!(user.host, Some(b"host".to_vec()));
        }
        _ => panic!("no user"),
    }
}

#[test]
fn parse_errors() {
    assert_eq!(IrcMessage::parse(b":nick").unwrap_err(), ParseError::PrefixUnfinished);
    assert_eq!(IrcMessage::parse(b":nick!user@host").unwrap_err(), ParseError::SpaceMissing);
    assert_eq!(IrcMessage::parse(b":nick!user").unwrap_err(), ParseError::SpaceMissing);
    assert_eq!(IrcMessage::parse(b"").unwrap_err(), ParseError::CommandMissing);
    assert_eq!(IrcMessage::parse(b" PING").unwrap_err(), ParseError::CommandMissing);
    assert_eq!(IrcMessage::parse(b":nick  PING").unwrap_err(), ParseError::CommandMissing);
    assert_eq!(IrcMessage::parse(b":nick ").unwrap_err(), ParseError::CommandMissing);
    assert_eq!(
        ParseError::PrefixUnfinished.describe(),
        "unexpected end of input while parsing message prefix"
    );
    assert_eq!(ParseError::SpaceMissing.describe(), "expecting ' ' but encountered end of input");
    assert_eq!(ParseError::CommandMissing.describe(), "reply type missing from message");
}

#[test]
fn runs_of_spaces_before_parameters() {
    let message = IrcMessage::parse(b"MODE   #chan    +v   :a  b ").unwrap();
    assert_eq!(message.params().len(), 3);
    assert_eq!(message.param(0).text(), b"#chan");
    assert_eq!(message.param(1).text(), b"+v");
    assert_eq!(message.param(2).text(), b"a  b ");
    let message = IrcMessage::parse(b"MODE #chan   ").unwrap();
    assert_eq!(message.params().len(), 1);
}

#[test]
fn every_command_word_and_number() {
    let table: Vec<(&[u8], IrcMessageType)> = vec![
        (b"328", IrcMessageType::ChannelURL),
        (b"NOTICE", IrcMessageType::Notice),
        (b"PRIVMSG", IrcMessageType::PrivMsg),
        (b"ERROR", IrcMessageType::Error),
        (b"NICK", IrcMessageType::Nick),
        (b"JOIN", IrcMessageType::Join),
        (b"QUIT", IrcMessageType::Quit),
        (b"PART", IrcMessageType::Part),
        (b"251", IrcMessageType::LUserClient),
        (b"252", IrcMessageType::LUserOp),
        (b"253", IrcMessageType::LUserUnknown),
        (b"254", IrcMessageType::LUserChannels),
        (b"255", IrcMessageType::LUserMe),
        (b"MODE", IrcMessageType::Mode),
        (b"372", IrcMessageType::MOTD),
        (b"375", IrcMessageType::MOTDStart),
        (b"376", IrcMessageType::MOTDEnd),
        (b"001", IrcMessageType::Welcome),
        (b"002", IrcMessageType::YourHost),
        (b"003", IrcMessageType::Created),
        (b"004", IrcMessageType::MyInfo),
        (b"421", IrcMessageType::UnknownCommand),
        (b"353", IrcMessageType::Names),
        (b"366", IrcMessageType::NamesEnd),
        (b"PING", IrcMessageType::Ping),
        (b"332", IrcMessageType::Topic),
        (b"333", IrcMessageType::TopicWhoTime),
        (b"ping", IrcMessageType::NotImplemented),
        (b"CAP", IrcMessageType::NotImplemented),
        (b"999", IrcMessageType::NotImplemented),
    ];
    for (word, kind) in table {
        assert_eq!(IrcMessage::parse(word).unwrap().kind, kind);
    }
}

#[test]
fn contains_looks_in_the_whole_frame() {
    let message = IrcMessage::parse(b":srv.example CAP * ACK :sasl").unwrap();
    assert!(message.contains(b"ACK :sasl"));
    assert!(message.contains(b""));
    assert!(!message.contains(b"NAK :sasl"));
}

#[test]
fn notice_components() {
    let message = IrcMessage::parse(b":srv.example NOTICE * :looking up").unwrap();
    let (target, text) = message.get_notice_components();
    assert_eq!(target, b"server");
    assert_eq!(text, b"looking up");
    let message = IrcMessage::parse(b":srv.example NOTICE #chan :hello").unwrap();
    let (target, text) = message.get_notice_components();
    assert_eq!(target, b"#chan");
    assert_eq!(text, b"hello");
    let message = IrcMessage::parse(b":ChanServ!s@services. NOTICE me :[#chan] welcome").unwrap();
    let (target, text) = message.get_notice_components();
    assert_eq!(target, b"#chan");
    assert_eq!(text, b"[#chan] welcome");
    let message = IrcMessage::parse(b":ChanServ!s@services. NOTICE me :no brackets").unwrap();
    let (target, _) = message.get_notice_components();
    assert_eq!(target, b"server");
    let message = IrcMessage::parse(b":ChanServ!s@services. NOTICE me :a] then [b").unwrap();
    let (target, _) = message.get_notice_components();
    assert_eq!(target, b"server");
    let message = IrcMessage::parse(b":bob!b@h NOTICE me :[#chan] psst").unwrap();
    let (target, text) = message.get_notice_components();
    assert_eq!(target, b"server");
    assert_eq!(text, b"[#chan] psst");
    let message = IrcMessage::parse(b"NOTICE #a :no sender").unwrap();
    let (target, _) = message.get_notice_components();
    assert_eq!(target, b"#a");
}

#[test]
fn channel_names_in_bytes() {
    assert!(b"#chan".to_vec().is_channel_name());
    assert!((&b"+chan"[..]).is_channel_name());
    assert!("!chan".is_channel_name());
    assert!(!"chan".is_channel_name());
    assert!(!"".is_channel_name());
    assert!(!Vec::<u8>::new().is_channel_name());
}
