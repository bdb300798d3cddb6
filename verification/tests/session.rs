use ircnvim::clock::Timestamp;
use ircnvim::config::{AuthMethod, Config};
use ircnvim::irc::IrcMessage;
use ircnvim::room::NotifyLevel;
use ircnvim::session::{Action, Phase, Session};
use ircnvim::updater::Updater;
use ircnvim::user::User;

const DIR: &str = "/tmp/irc/irc.example.net:6667";

fn setup() -> Config {
    Config {
        nick: b"me".to_vec(),
        username: b"myself".to_vec(),
        password: None,
        server: b"irc.example.net:6667".to_vec(),
        directory: b"/tmp/irc".to_vec(),
        auth: AuthMethod::NoAuth,
    }
}

fn at() -> Timestamp {
    Timestamp { hour: 8, minute: 30, second: 0 }
}

fn path(name: &str) -> Vec<u8> {
    format!("{}/{}", DIR, name).into_bytes()
}

fn tell(line: &str) -> Action {
    Action::Tell(line.as_bytes().to_vec())
}

fn sent(line: &str) -> Action {
    Action::Send(format!("{}\r\n", line).into_bytes())
}

fn notice(name: &str, words: &str) -> Action {
    Action::Write(path(name), format!(" [08:30:00] {:>18}  {}", "", words).into_bytes())
}

fn spoken(name: &str, nick: &str, words: &str) -> Action {
    let sender = format!("<{}>", nick);
    Action::Write(path(name), format!(" [08:30:00] {:>18}  {}", sender, words).into_bytes())
}

fn warned(name: &str, words: &str) -> Action {
    Action::Write(path(name), format!(" [08:30:00] {:>18}  {}", "!!!    ", words).into_bytes())
}

fn take(session: &mut Session, frame: &[u8]) -> Vec<Action> {
    session.handle_message(&IrcMessage::parse(frame).unwrap(), at())
}

fn ready() -> Session {
    let (mut session, _) = Session::new(setup());
    session.start();
    session
}

fn in_channel() -> Session {
    let mut session = ready();
    take(&mut session, b":me!u@h JOIN #chan");
    take(&mut session, b":srv.example 353 me = #chan :@alice +bob carol");
    session
}

#[test]
fn a_new_session_has_the_servers_room() {
    let (session, actions) = Session::new(setup());
    assert_eq!(actions, vec![Action::Create(path("server"))]);
    assert_eq!(session.rooms().len(), 1);
    assert!(session.rooms()[0].is_server());
    assert_eq!(session.active_room(), 0);
    assert_eq!(session.phase(), Phase::Connecting);
    assert_eq!(session.config().nick, b"me".to_vec());
}

#[test]
fn start_without_a_password() {
    let (mut session, _) = Session::new(setup());
    let actions = session.start();
    let goto = format!("GOTO server {}/server", DIR);
    assert_eq!(
        actions,
        vec![
            tell("NICK me"),
            tell(&goto),
            sent("NICK me"),
            sent("USER myself _ _ :_"),
            tell(&goto),
        ]
    );
    assert_eq!(session.phase(), Phase::Ready);

    let mut config = setup();
    config.auth = AuthMethod::NickServ;
    config.password = Some(b"secret".to_vec());
    config.nick = b"m[e]".to_vec();
    let (mut session, _) = Session::new(config);
    let actions = session.start();
    assert_eq!(actions[0], tell("NICK m\\[e\\]"));
    assert_eq!(actions[2], sent("NICK m[e]"));
    assert_eq!(actions.len(), 5);
    assert_eq!(session.phase(), Phase::Ready);
}

#[test]
fn join_names_and_part() {
    let mut session = ready();
    let actions = take(&mut session, b":me!u@h JOIN #chan");
    assert_eq!(
        actions,
        vec![
            Action::Create(path("channel_#chan")),
            tell(&format!("GOTO #chan {}/channel_\\#chan", DIR)),
        ]
    );
    assert_eq!(session.rooms().len(), 2);
    assert!(session.rooms()[1].is_channel());
    assert_eq!(session.rooms()[1].target(), b"#chan");
    assert_eq!(session.rooms()[1].status_string_active(), b"[#chan:0]".to_vec());
    assert_eq!(session.rooms()[1].messages().len(), 0);
    assert_eq!(session.active_room(), 1);

    let actions = take(&mut session, b":srv.example 353 me = #chan :@alice +bob  carol @alice");
    assert_eq!(actions, vec![]);
    assert_eq!(session.rooms()[1].status_string_active(), b"[#chan:3]".to_vec());
    assert!(session.rooms()[1].is_user_present(&User::from_nick(b"alice".to_vec())));
    assert!(session.rooms()[1].is_user_present(&User::from_nick(b"bob".to_vec())));
    assert!(session.rooms()[1].is_user_present(&User::from_nick(b"carol".to_vec())));
    assert_eq!(session.rooms().len(), 2);

    let actions = session.handle_line(b"INPUT /part bye now", at());
    assert_eq!(
        actions,
        vec![
            sent("PART #chan :bye now"),
            tell(&format!("GOTO server {}/server", DIR)),
            tell("UPDATE"),
        ]
    );
    assert_eq!(session.rooms().len(), 1);
    assert!(session.rooms()[0].is_server());
    assert_eq!(session.active_room(), 0);
}

#[test]
fn part_in_the_middle_keeps_the_place() {
    let mut session = ready();
    take(&mut session, b":me!u@h JOIN #a");
    take(&mut session, b":me!u@h JOIN #b");
    take(&mut session, b":bob!b@h PRIVMSG me :psst");
    assert_eq!(session.rooms().len(), 4);
    assert_eq!(session.active_room(), 3);
    session.handle_line(b"ROOM-PREVIOUS", at());
    assert_eq!(session.active_room(), 2);
    let actions = session.handle_line(b"INPUT /p", at());
    assert_eq!(
        actions,
        vec![sent("PART #b :"), tell(&format!("GOTO bob {}/private_bob", DIR)), tell("UPDATE")]
    );
    assert_eq!(session.rooms().len(), 3);
    assert_eq!(session.active_room(), 2);
    let actions = session.handle_line(b"INPUT /PART", at());
    assert_eq!(actions, vec![tell(&format!("GOTO #a {}/channel_\\#a", DIR)), tell("UPDATE")]);
    assert_eq!(session.rooms().len(), 2);
    assert_eq!(session.active_room(), 1);
}

#[test]
fn another_user_joins_and_parts() {
    let mut session = in_channel();
    let actions = take(&mut session, b":dave!d@h JOIN #chan");
    assert_eq!(actions, vec![notice("channel_#chan", "dave [dave!d@h] has joined #chan")]);
    assert_eq!(session.rooms()[1].status_string_active(), b"[#chan:4]".to_vec());
    assert_eq!(session.rooms()[1].notify_level(), NotifyLevel::Unimportant);
    let actions = take(&mut session, b":dave!d@h PART #chan");
    assert_eq!(actions, vec![notice("channel_#chan", "dave [dave!d@h] has left #chan")]);
    assert_eq!(session.rooms()[1].status_string_active(), b"[#chan:3]".to_vec());
    assert_eq!(take(&mut session, b":dave!d@h JOIN #nowhere"), vec![]);
    assert_eq!(take(&mut session, b":dave!d@h PART #nowhere"), vec![]);
    assert_eq!(take(&mut session, b":dave!d@h JOIN"), vec![]);
    assert_eq!(session.rooms().len(), 2);
}

#[test]
fn somebody_speaks() {
    let mut session = in_channel();
    let actions = take(&mut session, b":alice!a@h PRIVMSG #chan :hello all");
    assert_eq!(actions, vec![spoken("channel_#chan", "alice", "hello all")]);
    assert_eq!(session.rooms()[1].notify_level(), NotifyLevel::Normal);
    let actions = take(&mut session, b":alice!a@h PRIVMSG #chan :hello me, you there?");
    assert_eq!(actions, vec![spoken("channel_#chan", "alice", "hello me, you there?")]);
    assert_eq!(session.rooms()[1].notify_level(), NotifyLevel::Important);
    assert_eq!(session.rooms().len(), 2);

    let actions = take(&mut session, b":bob!b@h PRIVMSG me :psst");
    assert_eq!(
        actions,
        vec![
            Action::Create(path("private_bob")),
            tell(&format!("GOTO bob {}/private_bob", DIR)),
            spoken("private_bob", "bob", "psst"),
        ]
    );
    assert_eq!(session.rooms().len(), 3);
    assert!(session.rooms()[2].is_private());
    assert_eq!(session.active_room(), 2);
    let actions = take(&mut session, b":bob!b@h PRIVMSG me :\x01ACTION waves\x01");
    assert_eq!(
        actions,
        vec![Action::Write(
            path("private_bob"),
            format!(" [08:30:00] {:>18}  <bob> waves", " ").into_bytes()
        )]
    );
    assert_eq!(session.rooms().len(), 3);
    assert_eq!(take(&mut session, b":bob!b@h PRIVMSG me"), vec![]);
}

#[test]
fn nicknames_change() {
    let mut session = in_channel();
    take(&mut session, b":bob!b@h PRIVMSG me :psst");
    let actions = take(&mut session, b":bob!b@h NICK rob");
    assert_eq!(
        actions,
        vec![
            notice("channel_#chan", "bob is now known as rob"),
            notice("private_bob", "bob is now known as rob"),
        ]
    );
    assert_eq!(session.rooms()[2].target(), b"rob");
    assert!(session.rooms()[1].is_user_present(&User::from_nick(b"rob".to_vec())));
    assert!(!session.rooms()[1].is_user_present(&User::from_nick(b"bob".to_vec())));
    assert_eq!(session.rooms()[1].status_string_active(), b"[#chan:3]".to_vec());

    let actions = take(&mut session, b":me!u@h NICK m.e");
    assert_eq!(
        actions,
        vec![tell("NICK m\\.e"), notice("private_bob", "You are now known as m.e")]
    );
    assert_eq!(session.config().nick, b"m.e".to_vec());
    assert_eq!(take(&mut session, b":srv.example NICK x"), vec![]);
    assert_eq!(take(&mut session, b":me!u@h NICK"), vec![]);
}

#[test]
fn somebody_quits() {
    let mut session = in_channel();
    take(&mut session, b":bob!b@h PRIVMSG me :psst");
    let actions = take(&mut session, b":bob!b@h QUIT :");
    assert_eq!(
        actions,
        vec![
            notice("channel_#chan", "bob [bob!b@h] has quit ()"),
            notice("private_bob", "bob [bob!b@h] has quit ()"),
        ]
    );
    assert_eq!(session.rooms()[1].status_string_active(), b"[#chan:2]".to_vec());
    assert_eq!(session.rooms().len(), 3);
    let actions = take(&mut session, b":carol!c@h QUIT :gone fishing");
    assert_eq!(actions, vec![notice("channel_#chan", "carol [carol!c@h] has quit (gone fishing)")]);
    assert_eq!(take(&mut session, b":nobody!n@h QUIT :bye"), vec![]);
    assert_eq!(take(&mut session, b"QUIT :bye"), vec![]);
}

#[test]
fn modes_notices_and_news_of_the_server() {
    let mut session = in_channel();
    assert_eq!(
        take(&mut session, b":services. MODE #chan -o someone"),
        vec![notice("channel_#chan", "server sets mode -o someone for #chan")]
    );
    assert_eq!(
        take(&mut session, b":alice!a@h MODE #chan +m"),
        vec![notice("channel_#chan", "alice sets mode +m")]
    );
    assert_eq!(
        take(&mut session, b":me!u@h MODE me +i extra :more"),
        vec![notice("server", "me sets mode +i extra more for me")]
    );
    assert_eq!(take(&mut session, b"MODE"), vec![]);
    assert_eq!(
        take(&mut session, b":srv.example NOTICE * :*** Looking up your hostname"),
        vec![notice("server", "*** Looking up your hostname")]
    );
    assert_eq!(
        take(&mut session, b":ChanServ!s@services. NOTICE me :[#chan] be kind"),
        vec![notice("channel_#chan", "[#chan] be kind")]
    );
    assert_eq!(
        take(&mut session, b":ChanServ!s@services. NOTICE me :[#other] be kind"),
        vec![notice("server", "[#other] be kind")]
    );
    assert_eq!(take(&mut session, b":srv.example NOTICE *"), vec![]);
    assert_eq!(
        take(&mut session, b":srv.example 001 me :Welcome to the network"),
        vec![notice("server", "me Welcome to the network")]
    );
    assert_eq!(
        take(&mut session, b":srv.example 251 me :There are 3 users"),
        vec![notice("server", "me There are 3 users")]
    );
    assert_eq!(
        take(&mut session, b":srv.example 421 me FROB :Unknown command"),
        vec![notice("server", "me FROB Unknown command")]
    );
    assert_eq!(take(&mut session, b"ERROR :Closing link"), vec![notice("server", "Closing link")]);
    assert_eq!(take(&mut session, b":srv.example 372 me"), vec![notice("server", "me")]);
    assert_eq!(take(&mut session, b":srv.example 376"), vec![notice("server", "")]);
    assert_eq!(take(&mut session, b":srv.example 366 me #chan :End of names"), vec![]);
    assert_eq!(take(&mut session, b":srv.example 004 me srv 1.0"), vec![]);
    assert_eq!(take(&mut session, b":srv.example CAP * LS :sasl"), vec![]);
    assert_eq!(take(&mut session, b"PING :srv.example"), vec![sent("PONG")]);
    assert_eq!(session.rooms()[0].notify_level(), NotifyLevel::Unimportant);
}

#[test]
fn topics() {
    let mut session = in_channel();
    assert_eq!(
        take(&mut session, b":srv.example 332 me #chan :all things rust"),
        vec![notice("channel_#chan", "The topic for #chan is all things rust")]
    );
    assert_eq!(
        take(&mut session, b":srv.example 328 me #chan :http://example.net/"),
        vec![notice("channel_#chan", "The website for #chan is http://example.net/")]
    );
    assert_eq!(take(&mut session, b":srv.example 332 me #other :x"), vec![]);
    assert_eq!(take(&mut session, b":srv.example 328 me #other :x"), vec![]);
    assert_eq!(take(&mut session, b":srv.example 332 me #chan"), vec![]);
    assert_eq!(take(&mut session, b":srv.example 328 me #chan"), vec![]);

    let message = IrcMessage::parse(b":srv.example 333 me #chan alice 86400").unwrap();
    assert_eq!(
        session.handle_message_dated(&message, at(), b"some day"),
        vec![notice("channel_#chan", "The topic was last set by alice on some day")]
    );
    let actions = take(&mut session, b":srv.example 333 me #chan alice 86400");
    assert_eq!(actions.len(), 1);
    match &actions[0] {
        Action::Write(file, line) => {
            assert_eq!(file, &path("channel_#chan"));
            let head = format!(" [08:30:00] {:>18}  The topic was last set by alice on ", "");
            assert!(line.starts_with(head.as_bytes()));
            let date = String::from_utf8(line[head.len()..].to_vec()).unwrap();
            assert!(date.contains(" 1970 "));
            assert!(date.contains(":"));
            assert_ne!(date, "86400");
        }
        _ => panic!("a line is written"),
    }
    assert_eq!(take(&mut session, b":srv.example 333 me #chan alice yesterday"), vec![]);
    assert_eq!(take(&mut session, b":srv.example 333 me #chan alice -5"), vec![]);
    assert_eq!(take(&mut session, b":srv.example 333 me #chan alice 253402300800"), vec![]);
    assert_eq!(take(&mut session, b":srv.example 333 me #chan alice"), vec![]);
    assert_eq!(take(&mut session, b":srv.example 333 me #other alice 86400"), vec![]);
    assert_eq!(take(&mut session, b":srv.example 333 me #chan alice 253402300799").len(), 1);
}

#[test]
fn typed_lines() {
    let mut session = in_channel();
    assert_eq!(
        session.handle_line(b"INPUT hello all  \n", at()),
        vec![
            sent("PRIVMSG #chan :hello all"),
            spoken("channel_#chan", "me", "hello all"),
            tell("UPDATE"),
        ]
    );
    assert_eq!(session.rooms()[1].notify_level(), NotifyLevel::Nothing);
    assert_eq!(session.rooms()[1].messages().len(), 1);
    assert_eq!(
        session.handle_line(b"INPUT", at()),
        vec![sent("PRIVMSG #chan :"), spoken("channel_#chan", "me", ""), tell("UPDATE")]
    );
    assert_eq!(
        session.handle_line(b"INPUT /join #a  #b", at()),
        vec![sent("JOIN #a"), sent("JOIN #b"), tell("UPDATE")]
    );
    assert_eq!(session.handle_line(b"INPUT /J", at()), vec![tell("UPDATE")]);
    assert_eq!(
        session.handle_line(b"INPUT /msg bob hi  there", at()),
        vec![sent("PRIVMSG bob :hi  there"), tell("UPDATE")]
    );
    assert_eq!(
        session.handle_line(b"INPUT /msg bob", at()),
        vec![
            warned(
                "channel_#chan",
                "Invalid syntax in /msg command. Syntax is /msg <target> <message>."
            ),
            tell("UPDATE"),
        ]
    );
    assert_eq!(
        session.handle_line(b"INPUT /raw WHOIS  bob", at()),
        vec![sent("WHOIS  bob"), tell("UPDATE")]
    );
    assert_eq!(
        session.handle_line(b"INPUT /Nick   newme ", at()),
        vec![sent("NICK newme"), tell("UPDATE")]
    );
    assert_eq!(
        session.handle_line(b"INPUT /frob x", at()),
        vec![warned("channel_#chan", "frob is not a recognized command"), tell("UPDATE")]
    );
    assert_eq!(
        session.handle_line(b"INPUT /", at()),
        vec![warned("channel_#chan", " is not a recognized command"), tell("UPDATE")]
    );
    assert_eq!(session.handle_line(b"BOGUS line", at()), vec![]);
    assert_eq!(session.handle_line(b"", at()), vec![]);
    assert_eq!(session.handle_line(b"input hello", at()), vec![]);
    assert_eq!(session.rooms()[1].messages().len(), 5);
}

#[test]
fn typed_in_the_servers_room() {
    let mut session = ready();
    assert_eq!(
        session.handle_line(b"INPUT LIST", at()),
        vec![sent("LIST"), spoken("server", "me", "LIST"), tell("UPDATE")]
    );
    assert_eq!(
        session.handle_line(b"INPUT /part so long", at()),
        vec![sent("QUIT :so long"), tell("QUIT"), Action::Exit(0)]
    );
    assert_eq!(session.phase(), Phase::Terminated);
    assert_eq!(session.rooms().len(), 1);
}

#[test]
fn quit_ends_the_session() {
    let mut session = in_channel();
    assert_eq!(
        session.handle_line(b"INPUT /quit  so long ", at()),
        vec![sent("QUIT :so long"), tell("QUIT"), Action::Exit(0)]
    );
    assert_eq!(session.phase(), Phase::Terminated);
    assert_eq!(session.rooms().len(), 2);
}

#[test]
fn rooms_before_and_behind() {
    let mut session = in_channel();
    let server = format!("GOTO server {}/server", DIR);
    let chan = format!("GOTO #chan {}/channel_\\#chan", DIR);
    assert_eq!(session.handle_line(b"ROOM-NEXT", at()), vec![tell("UPDATE")]);
    assert_eq!(session.active_room(), 1);
    assert_eq!(session.handle_line(b"ROOM-PREVIOUS", at()), vec![tell(&server), tell("UPDATE")]);
    assert_eq!(session.active_room(), 0);
    assert_eq!(session.handle_line(b"ROOM-PREVIOUS", at()), vec![tell("UPDATE")]);
    assert_eq!(session.active_room(), 0);
    assert_eq!(session.handle_line(b"ROOM-NEXT  ", at()), vec![tell(&chan), tell("UPDATE")]);
    assert_eq!(session.active_room(), 1);
}

#[test]
fn status_line_and_updater() {
    let mut session = in_channel();
    assert_eq!(session.status_line(), b" server  [#chan:3] ".to_vec());
    let mut updater = Updater::new();
    assert_eq!(updater.acquired(&mut session), vec![tell("STATUS  server  [#chan:3] ")]);
    assert_eq!(updater.acquired(&mut session), vec![]);
    take(&mut session, b":srv.example NOTICE * :hello");
    take(&mut session, b":alice!a@h PRIVMSG #chan :hello me");
    assert_eq!(session.status_line(), b" server.  [#chan:3] ".to_vec());
    assert_eq!(
        updater.acquired(&mut session),
        vec![tell("UPDATE"), tell("STATUS  server.  [#chan:3] ")]
    );
    assert_eq!(session.rooms()[1].notify_level(), NotifyLevel::Nothing);
    assert_eq!(session.rooms()[0].notify_level(), NotifyLevel::Unimportant);
    session.handle_line(b"ROOM-PREVIOUS", at());
    take(&mut session, b":alice!a@h PRIVMSG #chan :hello");
    assert_eq!(session.status_line(), b" [server]  #chan! ".to_vec());
    take(&mut session, b":alice!a@h PRIVMSG #chan :hello me");
    assert_eq!(session.status_line(), b" [server]  #chan*! ".to_vec());
    assert_eq!(updater.acquired(&mut session), vec![tell("STATUS  [server]  #chan*! ")]);

    assert_eq!(updater.missed(), vec![]);
    assert_eq!(updater.missed(), vec![]);
    assert_eq!(updater.missed(), vec![tell("UPDATE")]);
    assert_eq!(updater.missed(), vec![]);
    assert_eq!(updater.acquired(&mut session), vec![]);
    assert_eq!(updater.missed(), vec![]);
    assert_eq!(updater.missed(), vec![]);
    assert_eq!(updater.missed(), vec![tell("UPDATE")]);
}

fn with_password() -> Session {
    let mut config = setup();
    config.auth = AuthMethod::SASL;
    config.password = Some(b"secret".to_vec());
    let (session, _) = Session::new(config);
    session
}

fn hear(session: &mut Session, frame: &[u8]) -> Vec<Action> {
    session.receive(&IrcMessage::parse(frame).unwrap(), at())
}

#[test]
fn password_is_taken() {
    let mut session = with_password();
    let goto = format!("GOTO server {}/server", DIR);
    assert_eq!(
        session.start(),
        vec![
            tell("NICK me"),
            tell(&goto),
            sent("CAP REQ :sasl"),
            sent("NICK me"),
            sent("USER myself _ _ :_"),
        ]
    );
    assert_eq!(session.phase(), Phase::AwaitingAck);
    assert!(session.phase().is_awaiting());
    assert!(!Phase::Ready.is_awaiting());
    assert!(!Phase::Connecting.is_awaiting());
    assert!(!Phase::Terminated.is_awaiting());
    assert_eq!(
        hear(&mut session, b":srv.example NOTICE * :*** Checking Ident"),
        vec![notice("server", "*** Checking Ident")]
    );
    assert_eq!(session.phase(), Phase::AwaitingAck);
    assert_eq!(hear(&mut session, b":srv.example CAP * ACK :sasl"), vec![sent("AUTHENTICATE PLAIN")]);
    assert_eq!(session.phase(), Phase::AwaitingGoAhead);
    assert_eq!(hear(&mut session, b":srv.example CAP * ACK :sasl"), vec![]);
    assert_eq!(
        hear(&mut session, b"AUTHENTICATE +"),
        vec![sent("AUTHENTICATE bXlzZWxmAG15c2VsZgBzZWNyZXQ=")]
    );
    assert_eq!(session.phase(), Phase::AwaitingVerdict);
    assert_eq!(
        hear(&mut session, b":srv.example 903 me :SASL authentication successful"),
        vec![sent("CAP END"), tell(&goto)]
    );
    assert_eq!(session.phase(), Phase::Ready);
    assert_eq!(
        hear(&mut session, b":srv.example 903 me :SASL authentication successful"),
        vec![]
    );
    assert_eq!(session.disconnect(), vec![]);
    assert_eq!(session.phase(), Phase::Ready);
}

#[test]
fn password_is_refused() {
    let mut session = with_password();
    session.start();
    assert_eq!(
        hear(&mut session, b":srv.example CAP * NAK :sasl"),
        vec![
            Action::Warn(
                b"Error: failed to authenticate: the ircd at irc.example.net:6667 does not support SASL"
                    .to_vec()
            ),
            Action::Exit(-1),
        ]
    );
    assert_eq!(session.phase(), Phase::Terminated);

    let mut session = with_password();
    session.start();
    hear(&mut session, b":srv.example CAP * ACK :sasl");
    hear(&mut session, b"AUTHENTICATE +");
    assert_eq!(
        hear(&mut session, b":srv.example 904 me :SASL authentication failed"),
        vec![
            Action::Warn(
                b"Error: failed to authenticate: invalid username/password combination".to_vec()
            ),
            Action::Exit(-1),
        ]
    );
    assert_eq!(session.phase(), Phase::Terminated);
}

#[test]
fn stream_ends_while_an_answer_is_awaited() {
    let mut session = with_password();
    session.start();
    assert_eq!(
        session.disconnect(),
        vec![
            Action::Warn(
                b"Error: failed to authenticate: the ircd at irc.example.net:6667 does not support SASL"
                    .to_vec()
            ),
            Action::Exit(-1),
        ]
    );
    let mut session = with_password();
    session.start();
    hear(&mut session, b":srv.example CAP * ACK :sasl");
    assert_eq!(
        session.disconnect(),
        vec![
            Action::Warn(b"Error: failed to authenticate: timed out waiting for reponse".to_vec()),
            Action::Exit(-1),
        ]
    );
    let mut session = with_password();
    session.start();
    hear(&mut session, b":srv.example CAP * ACK :sasl");
    hear(&mut session, b"AUTHENTICATE +");
    assert_eq!(
        session.disconnect(),
        vec![
            Action::Warn(
                b"Error: failed to authenticate: invalid username/password combination".to_vec()
            ),
            Action::Exit(-1),
        ]
    );
}

#[test]
fn password_is_wanted_and_missing() {
    let mut config = setup();
    config.auth = AuthMethod::SASL;
    let (mut session, _) = Session::new(config);
    let actions = session.start();
    assert_eq!(
        &actions[2..],
        &[
            Action::Warn(
                b"Error: failed to authenticate: an authentication method was specified but no password was provided"
                    .to_vec()
            ),
            Action::Exit(-1),
        ]
    );
    assert_eq!(session.phase(), Phase::Terminated);
}
