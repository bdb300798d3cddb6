//! The session: its rooms, the room that is shown, and what each event
//! does to them.
use vstd::prelude::*;
use vstd::slice::slice_to_vec;
use crate::bytes::{
    append, ascii, bytes_eq, eq_ignore_case, find_first, first_of, lowered, number_up_to,
    parse_number, split_words, trim, trim_end, trim_start, trimmed, trimmed_end, trimmed_start,
    words, SPACE,
};
use crate::clock::{local_date, Timestamp, LAST_SECOND};
use crate::config::{AuthMethod, Config, ConfigView};
use crate::framer::{to_wire, wire};
use crate::irc::{
    notice_of, plains, source_of, spaced, IrcMessage, IrcMessagePrefix, IrcMessageType,
    MessageView, PrefixView,
};
use crate::mention::{escape, escaped, found_in, nick_pattern, regex_search};
use crate::msg::{message_at, Message};
use crate::room::{kind_for, Room, RoomKind, RoomView};
use crate::sasl::{authenticate, authenticate_plain, base64_standard, credentials};
use crate::text::{unstyled, Text};
use crate::user::{User, UserView};

verus! {

/// What the session asks its surroundings to do.
#[derive(Debug, PartialEq, Eq)]
pub enum Action {
    /// Send these bytes, a line with its end, to the server.
    Send(Vec<u8>),
    /// Print this instruction, as a line, for the front end.
    Tell(Vec<u8>),
    /// Create the transcript at this path, empty.
    Create(Vec<u8>),
    /// Add this line to the transcript at this path.
    Write(Vec<u8>, Vec<u8>),
    /// Report this error to the operator.
    Warn(Vec<u8>),
    /// End the process with this code.
    Exit(i32),
}

/// What an action holds.
pub enum Effect {
    Send(Seq<u8>),
    Tell(Seq<u8>),
    Create(Seq<u8>),
    Write(Seq<u8>, Seq<u8>),
    Warn(Seq<u8>),
    Exit(i32),
}

impl View for Action {
    type V = Effect;

    open spec fn view(&self) -> Effect {
        match self {
            Action::Send(line) => Effect::Send(line@),
            Action::Tell(line) => Effect::Tell(line@),
            Action::Create(path) => Effect::Create(path@),
            Action::Write(path, line) => Effect::Write(path@, line@),
            Action::Warn(line) => Effect::Warn(line@),
            Action::Exit(code) => Effect::Exit(*code),
        }
    }
}

/// What a row of actions holds.
pub open spec fn effects(actions: Seq<Action>) -> Seq<Effect> {
    actions.map_values(|action: Action| action@)
}

/// What a row of rooms holds.
pub open spec fn room_views(rooms: Seq<Room>) -> Seq<RoomView> {
    rooms.map_values(|room: Room| room@)
}

/// Where the session stands.
#[derive(Debug, Clone, Copy, PartialEq, Eq, Structural)]
pub enum Phase {
    /// Nothing was sent yet.
    Connecting,
    /// The server was asked for authentication with a password: its
    /// acknowledgement is awaited.
    AwaitingAck,
    /// The mechanism was named: the server's go-ahead is awaited.
    AwaitingGoAhead,
    /// The password was sent: the server's verdict is awaited.
    AwaitingVerdict,
    /// The session is under way.
    Ready,
    /// The session is over.
    Terminated,
}

impl Phase {
    /// Whether an answer of the server to the password is awaited.
    pub open spec fn awaiting(self) -> bool {
        self == Phase::AwaitingAck || self == Phase::AwaitingGoAhead || self
            == Phase::AwaitingVerdict
    }

    /// Whether an answer of the server to the password is awaited.
    pub fn is_awaiting(&self) -> (waits: bool)
        ensures
            waits == self.awaiting(),
    {
        match self {
            Phase::AwaitingAck | Phase::AwaitingGoAhead | Phase::AwaitingVerdict => true,
            _ => false,
        }
    }
}

pub struct Session {
    config: Config,
    rooms: Vec<Room>,
    active_room: usize,
    status_line: Vec<u8>,
    phase: Phase,
}

/// What a session holds.
pub struct SessionView {
    pub config: ConfigView,
    pub rooms: Seq<RoomView>,
    pub active_room: int,
    pub status_line: Seq<u8>,
    pub phase: Phase,
}

impl View for Session {
    type V = SessionView;

    closed spec fn view(&self) -> SessionView {
        SessionView {
            config: self.config@,
            rooms: room_views(self.rooms@),
            active_room: self.active_room as int,
            status_line: self.status_line@,
            phase: self.phase,
        }
    }
}

/// The place of the first room from `from` on that the server knows as
/// `name`, or none.
pub open spec fn room_from(rooms: Seq<RoomView>, name: Seq<u8>, from: int) -> Option<int>
    decreases rooms.len() - from,
{
    if from < 0 || from >= rooms.len() {
        None
    } else if rooms[from].target() == name {
        Some(from)
    } else {
        room_from(rooms, name, from + 1)
    }
}

/// What `room_from` finds is the first room of that name.
pub proof fn lemma_room_from(rooms: Seq<RoomView>, name: Seq<u8>, from: int)
    requires
        0 <= from,
    ensures
        match room_from(rooms, name, from) {
            Some(i) => from <= i < rooms.len() && rooms[i].target() == name && forall|k: int|
                from <= k < i ==> rooms[k].target() != name,
            None => forall|k: int| from <= k < rooms.len() ==> rooms[k].target() != name,
        },
    decreases rooms.len() - from,
{
    if from < rooms.len() && rooms[from].target() != name {
        lemma_room_from(rooms, name, from + 1);
    }
}

/// A session after an event, and what the event asks for.
pub struct Outcome {
    pub state: SessionView,
    pub effects: Seq<Effect>,
}

/// The room with each of `names` from place `from` on as a member.
pub open spec fn with_members(room: RoomView, names: Seq<Seq<u8>>, from: int) -> RoomView
    decreases names.len() - from,
{
    if from < 0 || from >= names.len() {
        room
    } else {
        with_members(room.with_member(names[from]), names, from + 1)
    }
}

/// The user that a message is from, where it is from a user.
pub open spec fn user_of(message: MessageView) -> Option<UserView> {
    match message.prefix {
        Some(PrefixView::User(user)) => Some(user),
        _ => None,
    }
}

/// The news of a channel's website.
pub open spec fn website_notice(channel: Seq<u8>, url: Seq<u8>) -> Seq<u8> {
    ascii("The website for ") + channel + ascii(" is ") + url
}

/// The second of the epoch at which a topic was set, where the message
/// tells it: a message of that kind whose fourth parameter is a number
/// that can be turned into a date. Any other message tells none.
pub open spec fn topic_second(message: MessageView) -> Option<int> {
    if message.kind == IrcMessageType::TopicWhoTime && message.params.len() >= 4 {
        number_up_to(message.params[3].plain, LAST_SECOND as int)
    } else {
        None
    }
}

/// The news of who set a topic, and when.
pub open spec fn topic_setter_notice(nick: Seq<u8>, date: Seq<u8>) -> Seq<u8> {
    ascii("The topic was last set by ") + nick + ascii(" on ") + date
}

/// The news of a mode. The room that the mode is for is named, but not
/// where the message has two parameters.
pub open spec fn mode_notice(message: MessageView) -> Seq<u8> {
    let head = source_of(message) + ascii(" sets mode ") + spaced(plains(message.params), 1);
    if message.params.len() == 2 {
        head
    } else {
        head + ascii(" for ") + message.params[0].plain
    }
}

/// The news of a new nickname, for the one who took it.
pub open spec fn own_nick_notice(new_nick: Seq<u8>) -> Seq<u8> {
    ascii("You are now known as ") + new_nick
}

/// The news of a new nickname, for the others.
pub open spec fn nick_notice(old_nick: Seq<u8>, new_nick: Seq<u8>) -> Seq<u8> {
    old_nick + ascii(" is now known as ") + new_nick
}

/// The instruction that tells the front end this session's nickname.
pub open spec fn nick_line(nick: Seq<u8>) -> Seq<u8> {
    ascii("NICK ") + escaped(nick)
}

/// The lines that the transcript of a room lacks, each as the request to
/// write it.
pub open spec fn room_writes(room: RoomView) -> Seq<Effect> {
    room.unwritten().map_values(|line: Seq<u8>| Effect::Write(room.file_name, line))
}

/// The requests to write what the transcripts of the rooms from place
/// `from` on lack.
pub open spec fn writes_from(rooms: Seq<RoomView>, from: int) -> Seq<Effect>
    decreases rooms.len() - from,
{
    if from < 0 || from >= rooms.len() {
        seq![]
    } else {
        room_writes(rooms[from]) + writes_from(rooms, from + 1)
    }
}

/// A room whose transcript lacks nothing.
pub open spec fn written_out(room: RoomView) -> RoomView {
    RoomView { written: room.history.len(), ..room }
}

impl Outcome {
    /// The outcome, and then what the message does to a session that is
    /// proving who it is.
    pub open spec fn advanced(self, m: MessageView) -> Outcome {
        Outcome {
            state: self.state.advanced(m).state,
            effects: self.effects + self.state.advanced(m).effects,
        }
    }

    /// The outcome with the transcripts brought up to date: each line that
    /// one lacks is to be written, room by room, behind what was asked for
    /// already.
    pub open spec fn flushed(self) -> Outcome {
        Outcome {
            state: SessionView {
                rooms: self.state.rooms.map_values(|room: RoomView| written_out(room)),
                ..self.state
            },
            effects: self.effects + writes_from(self.state.rooms, 0),
        }
    }

    /// The outcome with the front end told to show anew the room that is
    /// shown, whose news is then forgotten; nothing more is done where the
    /// session is over.
    pub open spec fn updated(self) -> Outcome {
        if self.state.phase == Phase::Terminated {
            self
        } else {
            Outcome {
                state: self.state.with_room(
                    self.state.active_room,
                    RoomView { notify: crate::room::NotifyLevel::Nothing, ..self.state.active() },
                ),
                effects: self.effects.push(Effect::Tell(ascii("UPDATE"))),
            }
        }
    }
}

pub const SLASH: u8 = 0x2F;

/// Whether `name` is the command `word`, in small or capital letters.
pub open spec fn is_command(name: Seq<u8>, word: &str) -> bool {
    lowered(name) == lowered(ascii(word))
}

/// The requests to join the channels from place `from` on.
pub open spec fn joins_from(channels: Seq<Seq<u8>>, from: int) -> Seq<Effect>
    decreases channels.len() - from,
{
    if from < 0 || from >= channels.len() {
        seq![]
    } else {
        seq![Effect::Send(wire(ascii("JOIN ") + channels[from]))] + joins_from(channels, from + 1)
    }
}

/// The warning that a message to a user was not written as it should.
pub open spec fn msg_usage() -> Seq<u8> {
    ascii("Invalid syntax in /msg command. Syntax is /msg <target> <message>.")
}

/// The status line from the room at place `from` on: each room between
/// two spaces, the one that is shown in its own form.
pub open spec fn status_from(rooms: Seq<RoomView>, shown: int, from: int) -> Seq<u8>
    decreases rooms.len() - from,
{
    if from < 0 || from >= rooms.len() {
        seq![]
    } else {
        ascii(" ") + if from == shown {
            rooms[from].status_active()
        } else {
            rooms[from].status()
        } + ascii(" ") + status_from(rooms, shown, from + 1)
    }
}

/// Why the server did not take the password: it does not know the way.
pub open spec fn no_sasl(server: Seq<u8>) -> Seq<u8> {
    ascii("the ircd at ") + server + ascii(" does not support SASL")
}

/// Why the server did not take the password: it did not answer.
pub open spec fn no_answer() -> Seq<u8> {
    ascii("timed out waiting for reponse")
}

/// Why the server did not take the password: it is wrong.
pub open spec fn wrong_password() -> Seq<u8> {
    ascii("invalid username/password combination")
}

/// Why the session cannot prove who it is: it has no password.
pub open spec fn no_password() -> Seq<u8> {
    ascii("an authentication method was specified but no password was provided")
}

impl SessionView {
    /// The status line of the session.
    pub open spec fn status(self) -> Seq<u8> {
        status_from(self.rooms, self.active_room, 0)
    }

    /// What the updater does when it has the session to itself: where the
    /// room that is shown has news, the front end is told to show it
    /// anew and the news is forgotten; where the status line is no more
    /// what it was, the front end is told the new one.
    pub open spec fn refreshed(self) -> Outcome {
        let first = if self.active().notify != crate::room::NotifyLevel::Nothing {
            self.quiet().updated()
        } else {
            self.quiet()
        };
        let line = first.state.status();
        if line != first.state.status_line {
            Outcome {
                state: SessionView { status_line: line, ..first.state },
                effects: first.effects.push(Effect::Tell(ascii("STATUS ") + line)),
            }
        } else {
            first
        }
    }

    /// What tells the server who the session is.
    pub open spec fn identified(self) -> Seq<Effect> {
        seq![
            Effect::Send(wire(ascii("NICK ") + self.config.nick)),
            Effect::Send(wire(ascii("USER ") + self.config.username + ascii(" _ _ :_"))),
        ]
    }

    /// The session gives up proving who it is: the operator is told why
    /// and the process is to end.
    pub open spec fn failed(self, reason: Seq<u8>) -> Outcome {
        Outcome {
            state: SessionView { phase: Phase::Terminated, ..self },
            effects: seq![
                Effect::Warn(ascii("Error: failed to authenticate: ") + reason),
                Effect::Exit(-1i32),
            ],
        }
    }

    /// The session begins: the front end is told the nickname and sent to
    /// the server's room, and the server is told who the session is.
    /// Without a password the session is under way at once, and the front
    /// end is sent to the server's room once more. With one the server
    /// is asked first whether it takes passwords, and its answer is
    /// awaited.
    pub open spec fn started(self) -> Outcome {
        let head = seq![
            Effect::Tell(nick_line(self.config.nick)),
            Effect::Tell(self.rooms[0].goto_line()),
        ];
        match self.config.auth {
            AuthMethod::SASL => {
                if self.config.password is Some {
                    Outcome {
                        state: SessionView { phase: Phase::AwaitingAck, ..self },
                        effects: head + seq![Effect::Send(wire(ascii("CAP REQ :sasl")))]
                            + self.identified(),
                    }
                } else {
                    Outcome {
                        state: self.failed(no_password()).state,
                        effects: head + self.failed(no_password()).effects,
                    }
                }
            },
            _ => Outcome {
                state: SessionView { phase: Phase::Ready, ..self },
                effects: head + self.identified() + seq![Effect::Tell(self.rooms[0].goto_line())],
            },
        }
    }

    /// The password of the session, or none.
    pub open spec fn password(self) -> Seq<u8> {
        match self.config.password {
            Some(password) => password,
            None => seq![],
        }
    }

    /// What a message of the server does to a session that is proving
    /// who it is. The server's acknowledgement is answered with the name
    /// of the mechanism, its go-ahead with the user name and the
    /// password, its approval with the end of the negotiation, upon which
    /// the session is under way; its refusal ends the session.
    pub open spec fn advanced(self, m: MessageView) -> Outcome {
        match self.phase {
            Phase::AwaitingAck => {
                if m.holds(ascii("ACK :sasl")) {
                    Outcome {
                        state: SessionView { phase: Phase::AwaitingGoAhead, ..self },
                        effects: seq![Effect::Send(wire(ascii("AUTHENTICATE PLAIN")))],
                    }
                } else if m.holds(ascii("NAK :sasl")) {
                    self.failed(no_sasl(self.config.server))
                } else {
                    self.quiet()
                }
            },
            Phase::AwaitingGoAhead => {
                if m.holds(ascii("AUTHENTICATE +")) {
                    Outcome {
                        state: SessionView { phase: Phase::AwaitingVerdict, ..self },
                        effects: seq![
                            Effect::Send(
                                wire(
                                    authenticate(
                                        base64_standard(
                                            credentials(self.config.username, self.password()),
                                        ),
                                    ),
                                ),
                            ),
                        ],
                    }
                } else {
                    self.quiet()
                }
            },
            Phase::AwaitingVerdict => {
                if m.holds(ascii("authentication successful")) {
                    Outcome {
                        state: SessionView { phase: Phase::Ready, ..self },
                        effects: seq![
                            Effect::Send(wire(ascii("CAP END"))),
                            Effect::Tell(self.rooms[0].goto_line()),
                        ],
                    }
                } else if m.holds(ascii("authentication failed")) {
                    self.failed(wrong_password())
                } else {
                    self.quiet()
                }
            },
            _ => self.quiet(),
        }
    }

    /// What the end of the server's stream does to the session: where an
    /// answer of the server was awaited, the session gives up.
    pub open spec fn disconnected(self) -> Outcome {
        match self.phase {
            Phase::AwaitingAck => self.failed(no_sasl(self.config.server)),
            Phase::AwaitingGoAhead => self.failed(no_answer()),
            Phase::AwaitingVerdict => self.failed(wrong_password()),
            _ => self.quiet(),
        }
    }

    /// The session as it is, and nothing to do.
    pub open spec fn quiet(self) -> Outcome {
        Outcome { state: self, effects: seq![] }
    }

    /// The session after a notification in the room at place `i`.
    pub open spec fn notified_at(self, i: int, text: Seq<u8>, now: Timestamp) -> SessionView {
        self.with_room(i, self.rooms[i].notified(text, now))
    }

    /// The place of the room that the server knows as `name`, or that of
    /// the server's room where there is none.
    pub open spec fn room_or_server(self, name: Seq<u8>) -> int {
        match self.room_named(name) {
            Some(i) => i,
            None => 0,
        }
    }

    /// A new room for `name` is made and shown: its transcript is to be
    /// made, and the front end is sent there.
    pub open spec fn entered(self, name: Seq<u8>) -> Outcome {
        let room = RoomView::fresh(kind_for(name), self.config.directory, self.config.server);
        Outcome {
            state: self.with_new_room(name),
            effects: seq![Effect::Create(room.file_name), Effect::Tell(room.goto_line())],
        }
    }

    /// The website of a channel is told in its room.
    pub open spec fn on_channel_url(self, m: MessageView, now: Timestamp) -> Outcome {
        if m.params.len() >= 3 {
            match self.room_named(m.params[1].plain) {
                Some(i) => self.notified_at(
                    i,
                    website_notice(m.params[1].plain, m.params[2].plain),
                    now,
                ).quiet(),
                None => self.quiet(),
            }
        } else {
            self.quiet()
        }
    }

    /// Who set the topic of a channel, and when, is told in its room,
    /// where `date` is the time that the message gives, as a date.
    pub open spec fn on_topic_who_time(
        self,
        m: MessageView,
        now: Timestamp,
        date: Seq<u8>,
    ) -> Outcome {
        if m.params.len() >= 4 && number_up_to(m.params[3].plain, LAST_SECOND as int) is Some {
            match self.room_named(m.params[1].plain) {
                Some(i) => self.notified_at(
                    i,
                    topic_setter_notice(m.params[2].plain, date),
                    now,
                ).quiet(),
                None => self.quiet(),
            }
        } else {
            self.quiet()
        }
    }

    /// The topic of a channel is set and told in its room.
    pub open spec fn on_topic(self, m: MessageView, now: Timestamp) -> Outcome {
        if m.params.len() >= 3 {
            match self.room_named(m.params[1].plain) {
                Some(i) => self.with_room(
                    i,
                    self.rooms[i].with_topic(m.params[2].plain).topic_notified(now),
                ).quiet(),
                None => self.quiet(),
            }
        } else {
            self.quiet()
        }
    }

    /// What the server says of itself is told in its room: the
    /// parameters, with spaces between them.
    pub open spec fn on_info(self, m: MessageView, now: Timestamp) -> Outcome {
        self.notified_at(0, spaced(plains(m.params), 0), now).quiet()
    }

    /// A mode is told in the room that it is for, or in the server's.
    pub open spec fn on_mode(self, m: MessageView, now: Timestamp) -> Outcome {
        if m.params.len() >= 1 {
            self.notified_at(self.room_or_server(m.params[0].plain), mode_notice(m), now).quiet()
        } else {
            self.quiet()
        }
    }

    /// A notice is told in the room that it is for, or in the server's.
    pub open spec fn on_notice(self, m: MessageView, now: Timestamp) -> Outcome {
        if m.params.len() >= 2 {
            self.notified_at(self.room_or_server(notice_of(m).0), notice_of(m).1, now).quiet()
        } else {
            self.quiet()
        }
    }

    /// A ping is answered.
    pub open spec fn on_ping(self) -> Outcome {
        Outcome { state: self, effects: seq![Effect::Send(wire(ascii("PONG")))] }
    }

    /// A user left a room that the session has.
    pub open spec fn on_part(self, m: MessageView, now: Timestamp) -> Outcome {
        if m.params.len() >= 1 && user_of(m) is Some {
            match self.room_named(m.params[0].plain) {
                Some(i) => self.with_room(i, self.rooms[i].parted(user_of(m)->Some_0, now)).quiet(),
                None => self.quiet(),
            }
        } else {
            self.quiet()
        }
    }

    /// A user quit: it is told in each room that the user is in, and the
    /// user leaves the channels.
    pub open spec fn on_quit(self, m: MessageView, now: Timestamp) -> Outcome {
        match user_of(m) {
            Some(user) => {
                let reason = if m.params.len() >= 1 {
                    m.params[0].plain
                } else {
                    seq![]
                };
                SessionView {
                    rooms: self.rooms.map_values(
                        |room: RoomView|
                            if room.has_user(user) {
                                room.quitted(user, reason, now)
                            } else {
                                room
                            },
                    ),
                    ..self
                }.quiet()
            },
            None => self.quiet(),
        }
    }

    /// Somebody joined a channel: this session, for which a room is made
    /// and shown, or another user, who is put into the room of the
    /// channel.
    pub open spec fn on_join(self, m: MessageView, now: Timestamp) -> Outcome {
        if m.params.len() >= 1 {
            if source_of(m) == self.config.nick {
                self.entered(m.params[0].plain)
            } else {
                match (user_of(m), self.room_named(m.params[0].plain)) {
                    (Some(user), Some(i)) => self.with_room(
                        i,
                        self.rooms[i].joined(user, now),
                    ).quiet(),
                    _ => self.quiet(),
                }
            }
        } else {
            self.quiet()
        }
    }

    /// The room that a message of a user is said in: the room of the
    /// sender where the message is for this session, else the room that
    /// the message names.
    pub open spec fn talk_target(self, m: MessageView) -> Seq<u8> {
        if m.params[0].plain == self.config.nick {
            source_of(m)
        } else {
            m.params[0].plain
        }
    }

    /// Somebody spoke: the message is said in its room, which is made and
    /// shown first where the session has none of that name.
    pub open spec fn on_privmsg(self, m: MessageView, now: Timestamp) -> Outcome {
        if m.params.len() >= 2 {
            let said = message_at(
                now,
                unstyled(ascii("<") + source_of(m) + ascii(">")),
                m.params[1],
            );
            let mentioned = found_in(
                regex_search(nick_pattern(self.config.nick), m.params[1].plain),
            );
            match self.room_named(self.talk_target(m)) {
                Some(i) => self.with_room(i, self.rooms[i].with_message(said, mentioned)).quiet(),
                None => {
                    let entered = self.entered(self.talk_target(m));
                    let last = self.rooms.len() as int;
                    Outcome {
                        state: entered.state.with_room(
                            last,
                            entered.state.rooms[last].with_message(said, mentioned),
                        ),
                        effects: entered.effects,
                    }
                },
            }
        } else {
            self.quiet()
        }
    }

    /// The members of a channel are put into its room.
    pub open spec fn on_names(self, m: MessageView) -> Outcome {
        if m.params.len() >= 4 {
            match self.room_named(m.params[2].plain) {
                Some(i) => self.with_room(
                    i,
                    with_members(self.rooms[i], words(m.params[3].plain), 0),
                ).quiet(),
                None => self.quiet(),
            }
        } else {
            self.quiet()
        }
    }

    /// A room after a user took a new nickname, where `me` says that the
    /// user is this session and `shown` that the room is shown: this
    /// session is told of its own new name in the room that is shown,
    /// and the others of theirs in each room that they are in.
    pub open spec fn room_after_nick(
        room: RoomView,
        user: UserView,
        new_nick: Seq<u8>,
        me: bool,
        shown: bool,
        now: Timestamp,
    ) -> RoomView {
        let told = if me && shown {
            room.notified(own_nick_notice(new_nick), now)
        } else {
            room
        };
        if told.has_user(user) {
            if me {
                told.renamed(user, new_nick)
            } else {
                told.renamed(user, new_nick).notified(nick_notice(user.nick, new_nick), now)
            }
        } else {
            told
        }
    }

    /// A user took a new nickname. Where it is this session, the session
    /// goes by the new name from now on and tells the front end.
    pub open spec fn on_nick(self, m: MessageView, now: Timestamp) -> Outcome {
        if m.params.len() >= 1 && user_of(m) is Some {
            let user = user_of(m)->Some_0;
            let new_nick = m.params[0].plain;
            let me = user.nick == self.config.nick;
            Outcome {
                state: SessionView {
                    config: if me {
                        ConfigView { nick: new_nick, ..self.config }
                    } else {
                        self.config
                    },
                    rooms: self.rooms.map(
                        |i: int, room: RoomView|
                            SessionView::room_after_nick(
                                room,
                                user,
                                new_nick,
                                me,
                                i == self.active_room,
                                now,
                            ),
                    ),
                    ..self
                },
                effects: if me {
                    seq![Effect::Tell(nick_line(new_nick))]
                } else {
                    seq![]
                },
            }
        } else {
            self.quiet()
        }
    }

    /// The session after a message of the server, and what the message
    /// asks for. `date` is the date that the message gives, where it
    /// tells when a topic was set.
    pub open spec fn received(self, m: MessageView, now: Timestamp, date: Seq<u8>) -> Outcome {
        match m.kind {
            IrcMessageType::Nick => self.on_nick(m, now),
            IrcMessageType::ChannelURL => self.on_channel_url(m, now),
            IrcMessageType::TopicWhoTime => self.on_topic_who_time(m, now, date),
            IrcMessageType::Topic => self.on_topic(m, now),
            IrcMessageType::Welcome
            | IrcMessageType::YourHost
            | IrcMessageType::Created
            | IrcMessageType::MOTDStart
            | IrcMessageType::MOTD
            | IrcMessageType::MOTDEnd
            | IrcMessageType::LUserClient
            | IrcMessageType::LUserOp
            | IrcMessageType::LUserUnknown
            | IrcMessageType::LUserChannels
            | IrcMessageType::LUserMe
            | IrcMessageType::UnknownCommand
            | IrcMessageType::Error => self.on_info(m, now),
            IrcMessageType::Names => self.on_names(m),
            IrcMessageType::Mode => self.on_mode(m, now),
            IrcMessageType::Notice => self.on_notice(m, now),
            IrcMessageType::Ping => self.on_ping(),
            IrcMessageType::Part => self.on_part(m, now),
            IrcMessageType::Quit => self.on_quit(m, now),
            IrcMessageType::Join => self.on_join(m, now),
            IrcMessageType::PrivMsg => self.on_privmsg(m, now),
            IrcMessageType::NamesEnd
            | IrcMessageType::MyInfo
            | IrcMessageType::NotImplemented => self.quiet(),
        }
    }

    /// Whether a warning in the room that is shown speaks of this
    /// session's nickname.
    pub open spec fn warning_mentions(self, text: Seq<u8>) -> bool {
        found_in(regex_search(nick_pattern(self.config.nick), text))
    }

    /// The session after a warning in the room that is shown.
    pub open spec fn warned(self, text: Seq<u8>, now: Timestamp) -> Outcome {
        self.with_room(
            self.active_room,
            self.active().warned(text, now, self.warning_mentions(text)),
        ).quiet()
    }

    /// The session ends: the server is told so with a last word, the
    /// front end is told so, and the process is to end.
    pub open spec fn on_quit_command(self, last_word: Seq<u8>) -> Outcome {
        Outcome {
            state: SessionView { phase: Phase::Terminated, ..self },
            effects: seq![
                Effect::Send(wire(ascii("QUIT :") + last_word)),
                Effect::Tell(ascii("QUIT")),
                Effect::Exit(0),
            ],
        }
    }

    /// The room that is shown is left. In the server's room that ends the
    /// session. Else the server is told where the room is a channel's,
    /// the room is taken out, and the room that now stands at its place,
    /// or the last one, is shown.
    pub open spec fn on_part_command(self, last_word: Seq<u8>) -> Outcome {
        if self.active().kind is Server {
            self.on_quit_command(last_word)
        } else {
            let target = self.active().target();
            let rooms = self.rooms.remove(self.active_room);
            let shown = if self.active_room == rooms.len() {
                self.active_room - 1
            } else {
                self.active_room
            };
            let told = seq![Effect::Tell(rooms[shown].goto_line())];
            Outcome {
                state: SessionView { rooms, active_room: shown, ..self },
                effects: if crate::channel::channel_name(target) {
                    seq![Effect::Send(wire(ascii("PART ") + target + ascii(" :") + last_word))]
                        + told
                } else {
                    told
                },
            }
        }
    }

    /// A message to a user is sent, where the argument names the user and,
    /// behind a space, the message; else a warning is given.
    pub open spec fn on_msg_command(self, arg: Seq<u8>, now: Timestamp) -> Outcome {
        let space = first_of(arg, 0, crate::irc::word_stops());
        if space < arg.len() {
            Outcome {
                state: self,
                effects: seq![
                    Effect::Send(
                        wire(
                            ascii("PRIVMSG ") + arg.take(space) + ascii(" :") + arg.skip(space + 1),
                        ),
                    ),
                ],
            }
        } else {
            self.warned(msg_usage(), now)
        }
    }

    /// The session after a command of the user, and what the command asks
    /// for.
    pub open spec fn commanded(self, name: Seq<u8>, arg: Seq<u8>, now: Timestamp) -> Outcome {
        if is_command(name, "j") || is_command(name, "join") {
            Outcome { state: self, effects: joins_from(words(arg), 0) }
        } else if is_command(name, "p") || is_command(name, "part") {
            self.on_part_command(trimmed(arg))
        } else if is_command(name, "msg") {
            self.on_msg_command(arg, now)
        } else if is_command(name, "quit") {
            self.on_quit_command(trimmed(arg))
        } else if is_command(name, "raw") {
            Outcome { state: self, effects: seq![Effect::Send(wire(arg))] }
        } else if is_command(name, "nick") {
            Outcome {
                state: self,
                effects: seq![Effect::Send(wire(ascii("NICK ") + trimmed(arg)))],
            }
        } else {
            self.warned(name + ascii(" is not a recognized command"), now)
        }
    }

    /// The user said something in the room that is shown: it is sent to
    /// the server and said in the room.
    pub open spec fn said(self, input: Seq<u8>, now: Timestamp) -> Outcome {
        Outcome {
            state: self.with_room(
                self.active_room,
                self.active().with_message(
                    message_at(
                        now,
                        unstyled(ascii("<") + self.config.nick + ascii(">")),
                        unstyled(input),
                    ),
                    self.warning_mentions(input),
                ),
            ),
            effects: seq![Effect::Send(wire(self.active().outgoing(input)))],
        }
    }

    /// The session after a line that the user typed: a command where it
    /// begins with a slash, else something said.
    pub open spec fn typed(self, input: Seq<u8>, now: Timestamp) -> Outcome {
        if input.len() > 0 && input[0] == SLASH {
            let end = first_of(input, 0, crate::irc::word_stops());
            self.commanded(input.subrange(1, end), trimmed_start(input.skip(end)), now)
        } else {
            self.said(input, now)
        }
    }

    /// Another room is shown: the one at place `place`.
    pub open spec fn shown(self, place: int) -> Outcome {
        Outcome {
            state: SessionView { active_room: place, ..self },
            effects: seq![Effect::Tell(self.rooms[place].goto_line())],
        }
    }

    /// The session after a line of the front end: typed input, or a step
    /// to the room before or behind the one that is shown. The
    /// transcripts are brought up to date, and the front end is told to
    /// show the room anew. A line that says none of these is passed over.
    pub open spec fn instructed(self, line: Seq<u8>, now: Timestamp) -> Outcome {
        let whole = trimmed_end(line);
        let end = first_of(whole, 0, crate::irc::word_stops());
        let command = whole.take(end);
        let rest = trimmed_start(whole.skip(end));
        if command == ascii("INPUT") {
            self.typed(rest, now).flushed().updated()
        } else if command == ascii("ROOM-PREVIOUS") {
            if self.active_room > 0 {
                self.shown(self.active_room - 1).updated()
            } else {
                self.quiet().updated()
            }
        } else if command == ascii("ROOM-NEXT") {
            if self.active_room + 1 < self.rooms.len() {
                self.shown(self.active_room + 1).updated()
            } else {
                self.quiet().updated()
            }
        } else {
            self.quiet()
        }
    }

    /// The session has the server's room, first and only there; the room
    /// that is shown is one of its rooms.
    pub open spec fn wf(self) -> bool {
        &&& self.rooms.len() >= 1
        &&& self.rooms[0].kind is Server
        &&& forall|i: int| 1 <= i < self.rooms.len() ==> !(#[trigger] self.rooms[i].kind is Server)
        &&& 0 <= self.active_room < self.rooms.len()
    }

    /// The place of the room that the server knows as `name`.
    pub open spec fn room_named(self, name: Seq<u8>) -> Option<int> {
        room_from(self.rooms, name, 0)
    }

    /// The room that is shown.
    pub open spec fn active(self) -> RoomView {
        self.rooms[self.active_room]
    }

    /// The session with the room at place `i` replaced.
    pub open spec fn with_room(self, i: int, room: RoomView) -> SessionView {
        SessionView { rooms: self.rooms.update(i, room), ..self }
    }

    /// The session with a new room for `name`, which is shown.
    pub open spec fn with_new_room(self, name: Seq<u8>) -> SessionView {
        SessionView {
            rooms: self.rooms.push(
                RoomView::fresh(kind_for(name), self.config.directory, self.config.server),
            ),
            active_room: self.rooms.len() as int,
            ..self
        }
    }
}

/// When this session joins a channel, one room comes behind the others:
/// the room of that channel, with no member, and it is the room that is
/// shown.
pub proof fn lemma_join_makes_room(
    state: SessionView,
    m: MessageView,
    now: Timestamp,
    date: Seq<u8>,
)
    requires
        state.wf(),
        m.kind == IrcMessageType::Join,
        m.params.len() >= 1,
        source_of(m) == state.config.nick,
        crate::channel::channel_name(m.params[0].plain),
    ensures
        ({
            let after = state.received(m, now, date).state;
            &&& after.wf()
            &&& after.rooms.len() == state.rooms.len() + 1
            &&& after.rooms.drop_last() == state.rooms
            &&& after.rooms.last().kind == RoomKind::Channel(
                crate::channel::ChannelView {
                    name: m.params[0].plain,
                    topic: None,
                    members: Set::empty(),
                },
            )
            &&& after.rooms.last().history.len() == 0
            &&& after.active_room == state.rooms.len()
        }),
{
    let after = state.received(m, now, date).state;
    assert(after.rooms.drop_last() =~= state.rooms);
}

/// The members that a list of names puts into a channel are the members
/// that it had and the bare nicknames of the list; nothing else of the
/// room changes, and a room that is no channel stays as it is.
pub proof fn lemma_names_fill_room(room: RoomView, names: Seq<Seq<u8>>, from: int)
    requires
        0 <= from <= names.len(),
    ensures
        match room.kind {
            RoomKind::Channel(channel) => with_members(room, names, from) == (RoomView {
                kind: RoomKind::Channel(
                    crate::channel::ChannelView {
                        members: channel.members + names.skip(from).map_values(
                            |name: Seq<u8>| crate::user::bare_nick(name),
                        ).to_set(),
                        ..channel
                    },
                ),
                ..room
            }),
            _ => with_members(room, names, from) == room,
        },
    decreases names.len() - from,
{
    let bare = |name: Seq<u8>| crate::user::bare_nick(name);
    if from < names.len() {
        lemma_names_fill_room(room.with_member(names[from]), names, from + 1);
        match room.kind {
            RoomKind::Channel(channel) => {
                let rest = names.skip(from + 1).map_values(bare).to_set();
                let all = names.skip(from).map_values(bare).to_set();
                assert forall|x: Seq<u8>| all.contains(x) <==> (x == bare(names[from])
                    || rest.contains(x)) by {
                    let row = names.skip(from).map_values(bare);
                    let tail = names.skip(from + 1).map_values(bare);
                    if all.contains(x) {
                        let k = choose|k: int| 0 <= k < row.len() && row[k] == x;
                        if k > 0 {
                            assert(tail[k - 1] == x);
                        }
                    }
                    if rest.contains(x) {
                        let k = choose|k: int| 0 <= k < tail.len() && tail[k] == x;
                        assert(row[k + 1] == x);
                    }
                    if x == bare(names[from]) {
                        assert(row[0] == x);
                    }
                }
                assert(channel.members.insert(bare(names[from])) + rest =~= channel.members + all);
            },
            _ => {},
        }
    } else {
        match room.kind {
            RoomKind::Channel(channel) => {
                assert(names.skip(from).map_values(bare).to_set() =~= Set::<Seq<u8>>::empty());
                assert(channel.members + Set::<Seq<u8>>::empty() =~= channel.members);
            },
            _ => {},
        }
    }
}

/// To leave a room that is not the server's takes that room out and
/// nothing else, and the room that is shown then is one of those that
/// are left.
pub proof fn lemma_part_keeps_cursor(state: SessionView, last_word: Seq<u8>)
    requires
        state.wf(),
        !(state.active().kind is Server),
    ensures
        ({
            let after = state.on_part_command(last_word).state;
            &&& after.wf()
            &&& after.rooms == state.rooms.remove(state.active_room)
            &&& 0 <= after.active_room < after.rooms.len()
        }),
{
}

/// A join of this session and then the command to leave bring the rooms
/// back to what they were.
pub proof fn lemma_join_then_part(
    state: SessionView,
    m: MessageView,
    now: Timestamp,
    date: Seq<u8>,
    last_word: Seq<u8>,
)
    requires
        state.wf(),
        m.kind == IrcMessageType::Join,
        m.params.len() >= 1,
        source_of(m) == state.config.nick,
        crate::channel::channel_name(m.params[0].plain),
    ensures
        state.received(m, now, date).state.on_part_command(last_word).state.rooms == state.rooms,
        0 <= state.received(m, now, date).state.on_part_command(last_word).state.active_room
            < state.rooms.len(),
{
    lemma_join_makes_room(state, m, now, date);
    let joined = state.received(m, now, date).state;
    assert(joined.rooms.remove(joined.active_room) =~= state.rooms);
}

/// Puts an action behind the others.
fn emit(out: &mut Vec<Action>, action: Action)
    ensures
        effects(final(out)@) == effects(old(out)@).push(action@),
{
    out.push(action);
    assert(effects(out@) =~= effects(old(out)@).push(action@));
}

/// Asks for a line to be sent to the server.
fn send(out: &mut Vec<Action>, text: &[u8])
    ensures
        effects(final(out)@) == effects(old(out)@).push(Effect::Send(wire(text@))),
{
    emit(out, Action::Send(to_wire(text)));
}

impl Session {
    /// The session is well formed, and so is each of its rooms.
    pub closed spec fn wf(&self) -> bool {
        &&& self@.wf()
        &&& forall|i: int| 0 <= i < self.rooms.len() ==> (#[trigger] self.rooms[i]).wf()
    }

    /// A session that has the server's room alone, and the transcript
    /// that is to be made for it.
    pub fn new(config: Config) -> (made: (Session, Vec<Action>))
        ensures
            made.0.wf(),
            made.0@ == (SessionView {
                config: config@,
                rooms: seq![
                    RoomView::fresh(RoomKind::Server, config@.directory, config@.server),
                ],
                active_room: 0,
                status_line: seq![],
                phase: Phase::Connecting,
            }),
            effects(made.1@) == seq![
                Effect::Create(
                    RoomView::fresh(RoomKind::Server, config@.directory, config@.server).file_name,
                ),
            ],
    {
        let server = Room::server(&config);
        let mut actions: Vec<Action> = Vec::new();
        let mut path: Vec<u8> = Vec::new();
        append(&mut path, server.file_name());
        actions.push(Action::Create(path));
        let mut rooms: Vec<Room> = Vec::new();
        rooms.push(server);
        let session = Session {
            config,
            rooms,
            active_room: 0,
            status_line: Vec::new(),
            phase: Phase::Connecting,
        };
        assert(room_views(session.rooms@) =~= seq![session.rooms@[0]@]);
        assert(effects(actions@) =~= seq![actions@[0]@]);
        (session, actions)
    }

    /// The place of the room that the server knows as `name`.
    fn get_room(&self, name: &[u8]) -> (place: Option<usize>)
        ensures
            match place {
                Some(i) => self@.room_named(name@) == Some(i as int) && i < self.rooms.len(),
                None => self@.room_named(name@) is None,
            },
    {
        let mut i: usize = 0;
        while i < self.rooms.len()
            invariant
                i <= self.rooms.len(),
                room_from(room_views(self.rooms@), name@, 0) == room_from(
                    room_views(self.rooms@),
                    name@,
                    i as int,
                ),
            decreases self.rooms.len() - i,
        {
            if bytes_eq(self.rooms[i].target(), name) {
                return Some(i);
            }
            i += 1;
        }
        None
    }

    /// The place of the room that the server knows as `name`, or that of
    /// the server's room.
    fn get_room_or_server(&self, name: &[u8]) -> (place: usize)
        requires
            self.wf(),
        ensures
            place == self@.room_or_server(name@),
            place < self.rooms.len(),
    {
        match self.get_room(name) {
            Some(i) => i,
            None => 0,
        }
    }

    /// Says a notification in the room at place `i`.
    fn notify_room(&mut self, i: usize, text: &[u8], now: Timestamp)
        requires
            old(self).wf(),
            i < old(self)@.rooms.len(),
        ensures
            final(self).wf(),
            final(self)@ == old(self)@.notified_at(i as int, text@, now),
    {
        self.rooms[i].notify(text, now);
        assert(room_views(self.rooms@) =~= room_views(old(self).rooms@).update(
            i as int,
            self.rooms@[i as int]@,
        ));
    }

    /// Makes a room for `name` and shows it.
    fn join_room(&mut self, name: &[u8], out: &mut Vec<Action>)
        requires
            old(self).wf(),
        ensures
            final(self).wf(),
            final(self)@ == old(self)@.entered(name@).state,
            effects(final(out)@) == effects(old(out)@) + old(self)@.entered(name@).effects,
    {
        let room = Room::new(name, &self.config);
        emit(out, Action::Create(slice_to_vec(room.file_name())));
        emit(out, Action::Tell(room.goto()));
        assert(effects(out@) =~= effects(old(out)@) + old(self)@.entered(name@).effects);
        self.rooms.push(room);
        self.active_room = self.rooms.len() - 1;
        assert(room_views(self.rooms@) =~= room_views(old(self).rooms@).push(
            self.rooms@[self.active_room as int]@,
        ));
    }

    fn on_channel_url(&mut self, message: &IrcMessage, now: Timestamp)
        requires
            old(self).wf(),
        ensures
            final(self).wf(),
            final(self)@ == old(self)@.on_channel_url(message@, now).state,
    {
        if message.params.len() >= 3 {
            let channel = message.param(1).text();
            let url = message.param(2).text();
            if let Some(i) = self.get_room(channel) {
                let mut notice: Vec<u8> = Vec::new();
                append(&mut notice, "The website for ".as_bytes());
                append(&mut notice, channel);
                append(&mut notice, " is ".as_bytes());
                append(&mut notice, url);
                self.notify_room(i, notice.as_slice(), now);
            }
        }
    }

    /// Tells in the room of a channel who set its topic and when, where
    /// `date` is the time that the message gives, as a date.
    fn on_topic_who_time(&mut self, message: &IrcMessage, now: Timestamp, date: &[u8])
        requires
            old(self).wf(),
        ensures
            final(self).wf(),
            final(self)@ == old(self)@.on_topic_who_time(message@, now, date@).state,
    {
        if message.params.len() >= 4 && parse_number(
            message.param(3).text(),
            LAST_SECOND as u64,
        ).is_some() {
            let channel = message.param(1).text();
            let nick = message.param(2).text();
            if let Some(i) = self.get_room(channel) {
                let mut notice: Vec<u8> = Vec::new();
                append(&mut notice, "The topic was last set by ".as_bytes());
                append(&mut notice, nick);
                append(&mut notice, " on ".as_bytes());
                append(&mut notice, date);
                self.notify_room(i, notice.as_slice(), now);
            }
        }
    }

    fn on_topic(&mut self, message: &IrcMessage, now: Timestamp)
        requires
            old(self).wf(),
        ensures
            final(self).wf(),
            final(self)@ == old(self)@.on_topic(message@, now).state,
    {
        if message.params.len() >= 3 {
            let channel = message.param(1).text();
            let topic = message.param(2).text();
            if let Some(i) = self.get_room(channel) {
                self.rooms[i].set_topic(slice_to_vec(topic));
                self.rooms[i].notify_topic(now);
                assert(room_views(self.rooms@) =~= room_views(old(self).rooms@).update(
                    i as int,
                    self.rooms@[i as int]@,
                ));
            }
        }
    }

    fn on_info(&mut self, message: &IrcMessage, now: Timestamp)
        requires
            old(self).wf(),
        ensures
            final(self).wf(),
            final(self)@ == old(self)@.on_info(message@, now).state,
    {
        let text = message.sequence(0);
        self.notify_room(0, text.as_slice(), now);
    }

    fn on_mode(&mut self, message: &IrcMessage, now: Timestamp)
        requires
            old(self).wf(),
        ensures
            final(self).wf(),
            final(self)@ == old(self)@.on_mode(message@, now).state,
    {
        if message.params.len() >= 1 {
            let target = message.param(0).text();
            let i = self.get_room_or_server(target);
            let mut notice: Vec<u8> = Vec::new();
            append(&mut notice, message.source());
            append(&mut notice, " sets mode ".as_bytes());
            let modes = message.sequence(1);
            append(&mut notice, modes.as_slice());
            if message.params.len() != 2 {
                append(&mut notice, " for ".as_bytes());
                append(&mut notice, target);
            }
            self.notify_room(i, notice.as_slice(), now);
        }
    }

    fn on_notice(&mut self, message: &IrcMessage, now: Timestamp)
        requires
            old(self).wf(),
        ensures
            final(self).wf(),
            final(self)@ == old(self)@.on_notice(message@, now).state,
    {
        if message.params.len() >= 2 {
            let (target, text) = message.get_notice_components();
            let i = self.get_room_or_server(target);
            self.notify_room(i, text, now);
        }
    }

    fn on_part(&mut self, message: &IrcMessage, now: Timestamp)
        requires
            old(self).wf(),
        ensures
            final(self).wf(),
            final(self)@ == old(self)@.on_part(message@, now).state,
    {
        if message.params.len() >= 1 {
            if let Some(IrcMessagePrefix::UserPrefix(user)) = &message.prefix {
                if let Some(i) = self.get_room(message.param(0).text()) {
                    self.rooms[i].handle_part(user, now);
                    assert(room_views(self.rooms@) =~= room_views(old(self).rooms@).update(
                        i as int,
                        self.rooms@[i as int]@,
                    ));
                }
            }
        }
    }

    fn on_join(&mut self, message: &IrcMessage, now: Timestamp, out: &mut Vec<Action>)
        requires
            old(self).wf(),
        ensures
            final(self).wf(),
            final(self)@ == old(self)@.on_join(message@, now).state,
            effects(final(out)@) == effects(old(out)@) + old(self)@.on_join(message@, now).effects,
    {
        if message.params.len() >= 1 {
            let name = message.param(0).text();
            if bytes_eq(message.source(), self.config.nick.as_slice()) {
                self.join_room(name, out);
                return ;
            } else if let Some(IrcMessagePrefix::UserPrefix(user)) = &message.prefix {
                if let Some(i) = self.get_room(name) {
                    self.rooms[i].handle_join(user.clone(), now);
                    assert(room_views(self.rooms@) =~= room_views(old(self).rooms@).update(
                        i as int,
                        self.rooms@[i as int]@,
                    ));
                }
            }
        }
        assert(effects(out@) + Seq::<Effect>::empty() =~= effects(out@));
    }

    fn on_privmsg(&mut self, message: &IrcMessage, now: Timestamp, out: &mut Vec<Action>)
        requires
            old(self).wf(),
        ensures
            final(self).wf(),
            final(self)@ == old(self)@.on_privmsg(message@, now).state,
            effects(final(out)@) == effects(old(out)@) + old(self)@.on_privmsg(
                message@,
                now,
            ).effects,
    {
        if message.params.len() >= 2 {
            let source = Text::decorate_nick(message.source());
            let said = Message::at(now, source, message.param(1).clone());
            let to = message.param(0).text();
            let target = if bytes_eq(to, self.config.nick.as_slice()) {
                message.source()
            } else {
                to
            };
            let nick = self.config.nick.clone();
            match self.get_room(target) {
                Some(i) => {
                    self.rooms[i].add_message(said, nick.as_slice());
                    assert(room_views(self.rooms@) =~= room_views(old(self).rooms@).update(
                        i as int,
                        self.rooms@[i as int]@,
                    ));
                    assert(effects(out@) + Seq::<Effect>::empty() =~= effects(out@));
                },
                None => {
                    self.join_room(target, out);
                    let ghost entered = self@;
                    let last = self.rooms.len() - 1;
                    self.rooms[last].add_message(said, nick.as_slice());
                    assert(room_views(self.rooms@) =~= entered.rooms.update(
                        last as int,
                        self.rooms@[last as int]@,
                    ));
                },
            }
        } else {
            assert(effects(out@) + Seq::<Effect>::empty() =~= effects(out@));
        }
    }

    fn on_names(&mut self, message: &IrcMessage)
        requires
            old(self).wf(),
        ensures
            final(self).wf(),
            final(self)@ == old(self)@.on_names(message@).state,
    {
        if message.params.len() >= 4 {
            if let Some(i) = self.get_room(message.param(2).text()) {
                let nicks = split_words(message.param(3).text());
                let ghost names = words(message@.params[3].plain);
                let ghost start = self.rooms@[i as int]@;
                let mut k: usize = 0;
                while k < nicks.len()
                    invariant
                        k <= nicks.len(),
                        i < self.rooms.len(),
                        self.rooms.len() == old(self).rooms.len(),
                        self.wf(),
                        nicks@.map_values(|word: Vec<u8>| word@) == names,
                        room_views(self.rooms@) == room_views(old(self).rooms@).update(
                            i as int,
                            self.rooms@[i as int]@,
                        ),
                        self.config == old(self).config,
                        self.active_room == old(self).active_room,
                        self.status_line == old(self).status_line,
                        self.phase == old(self).phase,
                        with_members(start, names, 0) == with_members(
                            self.rooms@[i as int]@,
                            names,
                            k as int,
                        ),
                    decreases nicks.len() - k,
                {
                    let ghost before = room_views(self.rooms@);
                    assert(names[k as int] == nicks@[k as int]@);
                    self.rooms[i].add_user(User::from_nick(nicks[k].clone()));
                    assert(room_views(self.rooms@) =~= before.update(
                        i as int,
                        self.rooms@[i as int]@,
                    ));
                    assert(self.rooms@[i as int]@ == before[i as int].with_member(names[k as int]));
                    k += 1;
                }
            }
        }
    }

    fn on_quit(&mut self, message: &IrcMessage, now: Timestamp)
        requires
            old(self).wf(),
        ensures
            final(self).wf(),
            final(self)@ == old(self)@.on_quit(message@, now).state,
    {
        if let Some(IrcMessagePrefix::UserPrefix(user)) = &message.prefix {
            let none: Vec<u8> = Vec::new();
            let reason = if message.params.len() >= 1 {
                message.param(0).text()
            } else {
                none.as_slice()
            };
            assert(none@ =~= seq![]);
            let ghost before = room_views(self.rooms@);
            let ghost after = old(self)@.on_quit(message@, now).state.rooms;
            let mut i: usize = 0;
            while i < self.rooms.len()
                invariant
                    i <= self.rooms.len(),
                    self.wf(),
                    before == room_views(old(self).rooms@),
                    after == old(self)@.on_quit(message@, now).state.rooms,
                    after.len() == before.len(),
                    forall|k: int|
                        0 <= k < before.len() ==> #[trigger] after[k] == if before[k].has_user(
                            user@,
                        ) {
                            before[k].quitted(user@, reason@, now)
                        } else {
                            before[k]
                        },
                    self.rooms.len() == before.len(),
                    forall|k: int| 0 <= k < i ==> room_views(self.rooms@)[k] == after[k],
                    forall|k: int|
                        i <= k < self.rooms.len() ==> room_views(self.rooms@)[k] == before[k],
                    self.config == old(self).config,
                    self.active_room == old(self).active_room,
                    self.status_line == old(self).status_line,
                    self.phase == old(self).phase,
                decreases self.rooms.len() - i,
            {
                let ghost views = room_views(self.rooms@);
                assert(views[i as int] == before[i as int]);
                if self.rooms[i].is_user_present(user) {
                    self.rooms[i].handle_quit(user, reason, now);
                }
                assert(room_views(self.rooms@) =~= views.update(i as int, self.rooms@[i as int]@));
                i += 1;
            }
            assert(room_views(self.rooms@) =~= after);
        }
    }

    fn on_nick(&mut self, message: &IrcMessage, now: Timestamp, out: &mut Vec<Action>)
        requires
            old(self).wf(),
        ensures
            final(self).wf(),
            final(self)@ == old(self)@.on_nick(message@, now).state,
            effects(final(out)@) == effects(old(out)@) + old(self)@.on_nick(message@, now).effects,
    {
        if message.params.len() >= 1 {
            if let Some(IrcMessagePrefix::UserPrefix(user)) = &message.prefix {
                let new_nick = message.param(0).text();
                let me = bytes_eq(user.nick.as_slice(), self.config.nick.as_slice());
                let ghost before = room_views(self.rooms@);
                let ghost after = old(self)@.on_nick(message@, now).state.rooms;
                let ghost shown = self.active_room as int;
                if me {
                    self.config.nick = slice_to_vec(new_nick);
                    let mut line: Vec<u8> = Vec::new();
                    append(&mut line, "NICK ".as_bytes());
                    let quoted = escape(new_nick);
                    append(&mut line, quoted.as_slice());
                    emit(out, Action::Tell(line));
                    assert(effects(out@) =~= effects(old(out)@) + old(self)@.on_nick(
                        message@,
                        now,
                    ).effects);
                } else {
                    assert(effects(out@) + Seq::<Effect>::empty() =~= effects(out@));
                }
                let mut i: usize = 0;
                while i < self.rooms.len()
                    invariant
                        i <= self.rooms.len(),
                        self.wf(),
                        before == room_views(old(self).rooms@),
                        after.len() == before.len(),
                        forall|k: int|
                            0 <= k < before.len() ==> #[trigger] after[k]
                                == SessionView::room_after_nick(
                                before[k],
                                user@,
                                new_nick@,
                                me,
                                k == shown,
                                now,
                            ),
                        self.rooms.len() == before.len(),
                        forall|k: int| 0 <= k < i ==> room_views(self.rooms@)[k] == after[k],
                        forall|k: int|
                            i <= k < self.rooms.len() ==> room_views(self.rooms@)[k] == before[k],
                        self.config@ == old(self)@.on_nick(message@, now).state.config,
                        self.active_room == old(self).active_room,
                        shown == self.active_room,
                        self.status_line == old(self).status_line,
                        self.phase == old(self).phase,
                    decreases self.rooms.len() - i,
                {
                    let ghost views = room_views(self.rooms@);
                    assert(views[i as int] == before[i as int]);
                    if me && i == self.active_room {
                        let mut notice: Vec<u8> = Vec::new();
                        append(&mut notice, "You are now known as ".as_bytes());
                        append(&mut notice, new_nick);
                        self.rooms[i].notify(notice.as_slice(), now);
                    }
                    if self.rooms[i].is_user_present(user) {
                        self.rooms[i].rename_user(user, new_nick);
                        if !me {
                            let mut notice: Vec<u8> = Vec::new();
                            append(&mut notice, user.nick.as_slice());
                            append(&mut notice, " is now known as ".as_bytes());
                            append(&mut notice, new_nick);
                            self.rooms[i].notify(notice.as_slice(), now);
                        }
                    }
                    assert(room_views(self.rooms@) =~= views.update(
                        i as int,
                        self.rooms@[i as int]@,
                    ));
                    i += 1;
                }
                assert(room_views(self.rooms@) =~= after);
                return ;
            }
        }
        assert(effects(out@) + Seq::<Effect>::empty() =~= effects(out@));
    }

    /// Asks for each line that a transcript lacks to be written.
    fn flush(&mut self, out: &mut Vec<Action>)
        requires
            old(self).wf(),
        ensures
            final(self).wf(),
            (Outcome { state: final(self)@, effects: effects(final(out)@) }) == (Outcome {
                state: old(self)@,
                effects: effects(old(out)@),
            }).flushed(),
    {
        let ghost before = room_views(self.rooms@);
        let ghost start = effects(out@);
        let mut i: usize = 0;
        while i < self.rooms.len()
            invariant
                i <= self.rooms.len(),
                self.wf(),
                before == room_views(old(self).rooms@),
                self.rooms.len() == before.len(),
                forall|k: int| 0 <= k < i ==> room_views(self.rooms@)[k] == written_out(before[k]),
                forall|k: int|
                    i <= k < self.rooms.len() ==> room_views(self.rooms@)[k] == before[k],
                effects(out@) + writes_from(before, i as int) == start + writes_from(before, 0),
                self.config == old(self).config,
                self.active_room == old(self).active_room,
                self.status_line == old(self).status_line,
                self.phase == old(self).phase,
            decreases self.rooms.len() - i,
        {
            let ghost views = room_views(self.rooms@);
            let ghost base = effects(out@);
            let ghost room = before[i as int];
            assert(views[i as int] == room);
            let path = slice_to_vec(self.rooms[i].file_name());
            let lines = self.rooms[i].drain_transcript();
            assert(room_views(self.rooms@) =~= views.update(i as int, self.rooms@[i as int]@));
            let ghost texts = lines@.map_values(|line: Vec<u8>| line@);
            let mut k: usize = 0;
            while k < lines.len()
                invariant
                    k <= lines.len(),
                    path@ == room.file_name,
                    texts == lines@.map_values(|line: Vec<u8>| line@),
                    texts == room.unwritten(),
                    effects(out@) == base + room_writes(room).take(k as int),
                decreases lines.len() - k,
            {
                let ghost sofar = effects(out@);
                assert(texts[k as int] == lines@[k as int]@);
                emit(out, Action::Write(path.clone(), lines[k].clone()));
                assert(room_writes(room).take(k + 1) =~= room_writes(room).take(k as int).push(
                    Effect::Write(room.file_name, texts[k as int]),
                ));
                assert(sofar.push(Effect::Write(room.file_name, texts[k as int])) =~= base
                    + room_writes(room).take(k + 1));
                k += 1;
            }
            proof {
                assert(room_writes(room).take(k as int) =~= room_writes(room));
                assert(base + (room_writes(room) + writes_from(before, i + 1)) =~= (base
                    + room_writes(room)) + writes_from(before, i + 1));
            }
            i += 1;
        }
        proof {
            assert(effects(out@) + Seq::<Effect>::empty() =~= effects(out@));
            assert(room_views(self.rooms@) =~= before.map_values(
                |room: RoomView| written_out(room),
            ));
        }
    }

    /// Does to the session what a message of the server asks for, where
    /// `date` is the date that the message gives where it tells when a
    /// topic was set, and brings the transcripts up to date.
    pub fn handle_message_dated(
        &mut self,
        message: &IrcMessage,
        now: Timestamp,
        date: &[u8],
    ) -> (actions: Vec<Action>)
        requires
            old(self).wf(),
        ensures
            final(self).wf(),
            (Outcome { state: final(self)@, effects: effects(actions@) }) == old(self)@.received(
                message@,
                now,
                date@,
            ).flushed(),
    {
        let mut actions: Vec<Action> = Vec::new();
        assert(effects(actions@) =~= seq![]);
        self.dispatch(message, now, date, &mut actions);
        assert(effects(actions@) =~= old(self)@.received(message@, now, date@).effects);
        self.flush(&mut actions);
        actions
    }

    /// The date that a message gives where it tells when a topic was
    /// set, in the local time zone. A message that tells no such time
    /// gives the empty text.
    fn date_of(message: &IrcMessage) -> (date: Vec<u8>)
        ensures
            topic_second(message@) is None ==> date@ == Seq::<u8>::empty(),
    {
        let mut date: Vec<u8> = Vec::new();
        match message.kind {
            IrcMessageType::TopicWhoTime => {
                if message.params.len() >= 4 {
                    if let Some(seconds) = parse_number(
                        message.param(3).text(),
                        LAST_SECOND as u64,
                    ) {
                        date = local_date(seconds as i64);
                    }
                }
            },
            _ => {},
        }
        date
    }

    /// Does to the session what a message of the server asks for, and
    /// brings the transcripts up to date. Where the message tells when a
    /// topic was set, the time is turned into a date of the local time
    /// zone.
    pub fn handle_message(&mut self, message: &IrcMessage, now: Timestamp) -> (actions: Vec<
        Action,
    >)
        requires
            old(self).wf(),
        ensures
            final(self).wf(),
            exists|date: Seq<u8>|
                (Outcome { state: final(self)@, effects: effects(actions@) }) == #[trigger] old(
                    self,
                )@.received(message@, now, date).flushed(),
            message@.kind != IrcMessageType::TopicWhoTime ==> (Outcome {
                state: final(self)@,
                effects: effects(actions@),
            }) == old(self)@.received(message@, now, seq![]).flushed(),
    {
        let date = Session::date_of(message);
        self.handle_message_dated(message, now, date.as_slice())
    }

    /// Says a warning in the room that is shown.
    fn warn(&mut self, text: &[u8], now: Timestamp)
        requires
            old(self).wf(),
        ensures
            final(self).wf(),
            final(self)@ == old(self)@.warned(text@, now).state,
    {
        let shown = self.active_room;
        self.rooms[shown].warn(text, now, self.config.nick.as_slice());
        assert(room_views(self.rooms@) =~= room_views(old(self).rooms@).update(
            shown as int,
            self.rooms@[shown as int]@,
        ));
    }

    /// Ends the session.
    fn quit(&mut self, last_word: &[u8], out: &mut Vec<Action>)
        requires
            old(self).wf(),
        ensures
            final(self).wf(),
            final(self)@ == old(self)@.on_quit_command(last_word@).state,
            effects(final(out)@) == effects(old(out)@) + old(self)@.on_quit_command(
                last_word@,
            ).effects,
    {
        let mut line: Vec<u8> = Vec::new();
        append(&mut line, "QUIT :".as_bytes());
        append(&mut line, last_word);
        send(out, line.as_slice());
        emit(out, Action::Tell(slice_to_vec("QUIT".as_bytes())));
        emit(out, Action::Exit(0));
        self.phase = Phase::Terminated;
        assert(effects(out@) =~= effects(old(out)@) + old(self)@.on_quit_command(
            last_word@,
        ).effects);
    }

    /// Leaves the room that is shown.
    fn part(&mut self, last_word: &[u8], out: &mut Vec<Action>)
        requires
            old(self).wf(),
        ensures
            final(self).wf(),
            final(self)@ == old(self)@.on_part_command(last_word@).state,
            effects(final(out)@) == effects(old(out)@) + old(self)@.on_part_command(
                last_word@,
            ).effects,
    {
        if self.rooms[self.active_room].is_server() {
            self.quit(last_word, out);
            return ;
        }
        let target = slice_to_vec(self.rooms[self.active_room].target());
        if crate::channel::names_channel(target.as_slice()) {
            let mut line: Vec<u8> = Vec::new();
            append(&mut line, "PART ".as_bytes());
            append(&mut line, target.as_slice());
            append(&mut line, " :".as_bytes());
            append(&mut line, last_word);
            send(out, line.as_slice());
        }
        let ghost before = room_views(self.rooms@);
        assert(self.active_room >= 1) by {
            assert(before[0].kind is Server);
        }
        self.rooms.remove(self.active_room);
        assert(room_views(self.rooms@) =~= before.remove(self.active_room as int));
        if self.active_room == self.rooms.len() {
            self.active_room = self.active_room - 1;
        }
        emit(out, Action::Tell(self.rooms[self.active_room].goto()));
        assert(effects(out@) =~= effects(old(out)@) + old(self)@.on_part_command(
            last_word@,
        ).effects);
    }

    /// Does what a command of the user asks for.
    fn handle_command(&mut self, name: &[u8], arg: &[u8], now: Timestamp, out: &mut Vec<Action>)
        requires
            old(self).wf(),
        ensures
            final(self).wf(),
            final(self)@ == old(self)@.commanded(name@, arg@, now).state,
            effects(final(out)@) == effects(old(out)@) + old(self)@.commanded(
                name@,
                arg@,
                now,
            ).effects,
    {
        let ghost start = effects(out@);
        assert(start + Seq::<Effect>::empty() =~= start);
        if eq_ignore_case(name, "j".as_bytes()) || eq_ignore_case(name, "join".as_bytes()) {
            let channels = split_words(arg);
            let ghost names = words(arg@);
            let mut k: usize = 0;
            while k < channels.len()
                invariant
                    k <= channels.len(),
                    channels@.map_values(|word: Vec<u8>| word@) == names,
                    effects(out@) + joins_from(names, k as int) == start + joins_from(names, 0),
                decreases channels.len() - k,
            {
                let ghost sofar = effects(out@);
                let mut line: Vec<u8> = Vec::new();
                append(&mut line, "JOIN ".as_bytes());
                append(&mut line, channels[k].as_slice());
                assert(names[k as int] == channels@[k as int]@);
                send(out, line.as_slice());
                assert(sofar + (seq![Effect::Send(wire(line@))] + joins_from(names, k + 1))
                    =~= effects(out@) + joins_from(names, k + 1));
                k += 1;
            }
            assert(effects(out@) + Seq::<Effect>::empty() =~= effects(out@));
        } else if eq_ignore_case(name, "p".as_bytes()) || eq_ignore_case(
            name,
            "part".as_bytes(),
        ) {
            self.part(trim(arg), out);
        } else if eq_ignore_case(name, "msg".as_bytes()) {
            let stops = [SPACE];
            assert(stops@ =~= seq![SPACE]);
            let space = find_first(arg, 0, &stops);
            if space < arg.len() {
                let mut line: Vec<u8> = Vec::new();
                append(&mut line, "PRIVMSG ".as_bytes());
                append(&mut line, vstd::slice::slice_subrange(arg, 0, space));
                append(&mut line, " :".as_bytes());
                append(&mut line, vstd::slice::slice_subrange(arg, space + 1, arg.len()));
                assert(arg@.subrange(0, space as int) =~= arg@.take(space as int));
                assert(arg@.subrange(space + 1, arg.len() as int) =~= arg@.skip(space + 1));
                send(out, line.as_slice());
                assert(effects(out@) =~= start + old(self)@.on_msg_command(arg@, now).effects);
            } else {
                self.warn(
                    "Invalid syntax in /msg command. Syntax is /msg <target> <message>.".as_bytes(),
                    now,
                );
            }
        } else if eq_ignore_case(name, "quit".as_bytes()) {
            self.quit(trim(arg), out);
        } else if eq_ignore_case(name, "raw".as_bytes()) {
            send(out, arg);
            assert(effects(out@) =~= start + seq![Effect::Send(wire(arg@))]);
        } else if eq_ignore_case(name, "nick".as_bytes()) {
            let mut line: Vec<u8> = Vec::new();
            append(&mut line, "NICK ".as_bytes());
            append(&mut line, trim(arg));
            send(out, line.as_slice());
            assert(effects(out@) =~= start + seq![Effect::Send(wire(line@))]);
        } else {
            let mut text: Vec<u8> = Vec::new();
            append(&mut text, name);
            append(&mut text, " is not a recognized command".as_bytes());
            self.warn(text.as_slice(), now);
        }
    }

    /// Does what a line that the user typed asks for.
    fn handle_input(&mut self, input: &[u8], now: Timestamp, out: &mut Vec<Action>)
        requires
            old(self).wf(),
        ensures
            final(self).wf(),
            final(self)@ == old(self)@.typed(input@, now).state,
            effects(final(out)@) == effects(old(out)@) + old(self)@.typed(input@, now).effects,
    {
        if input.len() > 0 && input[0] == SLASH {
            let stops = [SPACE];
            assert(stops@ =~= seq![SPACE]);
            let end = find_first(input, 0, &stops);
            proof {
                crate::bytes::lemma_first_of(input@, 0, stops@.to_set());
                assert(stops@[0] == SPACE);
                assert(end >= 1);
            }
            let name = vstd::slice::slice_subrange(input, 1, end);
            let rest = vstd::slice::slice_subrange(input, end, input.len());
            assert(rest@ =~= input@.skip(end as int));
            self.handle_command(name, trim_start(rest), now, out);
        } else {
            let shown = self.active_room;
            let line = self.rooms[shown].make_message(input);
            send(out, line.as_slice());
            assert(effects(out@) =~= effects(old(out)@) + old(self)@.said(input@, now).effects);
            let source = Text::decorate_nick(self.config.nick.as_slice());
            let message = Message::at(now, source, Text::from_string(slice_to_vec(input)));
            self.rooms[shown].add_message(message, self.config.nick.as_slice());
            assert(room_views(self.rooms@) =~= room_views(old(self).rooms@).update(
                shown as int,
                self.rooms@[shown as int]@,
            ));
        }
    }

    /// Tells the front end to show anew the room that is shown, and
    /// forgets the news of that room.
    fn update(&mut self, out: &mut Vec<Action>)
        requires
            old(self).wf(),
        ensures
            final(self).wf(),
            (Outcome { state: final(self)@, effects: effects(final(out)@) }) == (Outcome {
                state: old(self)@,
                effects: effects(old(out)@),
            }).updated(),
    {
        if self.phase == Phase::Terminated {
            return ;
        }
        emit(out, Action::Tell(slice_to_vec("UPDATE".as_bytes())));
        let shown = self.active_room;
        self.rooms[shown].clear_notify();
        assert(room_views(self.rooms@) =~= room_views(old(self).rooms@).update(
            shown as int,
            self.rooms@[shown as int]@,
        ));
    }

    /// Shows the room at place `place`.
    fn show(&mut self, place: usize, out: &mut Vec<Action>)
        requires
            old(self).wf(),
            place < old(self)@.rooms.len(),
        ensures
            final(self).wf(),
            final(self)@ == old(self)@.shown(place as int).state,
            effects(final(out)@) == effects(old(out)@) + old(self)@.shown(place as int).effects,
    {
        self.active_room = place;
        emit(out, Action::Tell(self.rooms[place].goto()));
        assert(effects(out@) =~= effects(old(out)@) + old(self)@.shown(place as int).effects);
    }

    /// Does what a line that the user typed asks for, brings the
    /// transcripts up to date and has the room shown anew.
    fn typed_line(&mut self, input: &[u8], now: Timestamp) -> (actions: Vec<Action>)
        requires
            old(self).wf(),
        ensures
            final(self).wf(),
            (Outcome { state: final(self)@, effects: effects(actions@) }) == old(self)@.typed(
                input@,
                now,
            ).flushed().updated(),
    {
        let mut actions: Vec<Action> = Vec::new();
        assert(effects(actions@) =~= seq![]);
        self.handle_input(input, now, &mut actions);
        assert(effects(actions@) =~= old(self)@.typed(input@, now).effects);
        self.flush(&mut actions);
        self.update(&mut actions);
        actions
    }

    /// Shows the room before the one that is shown, where there is one,
    /// and has the room shown anew.
    fn previous_room(&mut self) -> (actions: Vec<Action>)
        requires
            old(self).wf(),
        ensures
            final(self).wf(),
            (Outcome { state: final(self)@, effects: effects(actions@) }) == if old(
                self,
            )@.active_room > 0 {
                old(self)@.shown(old(self)@.active_room - 1).updated()
            } else {
                old(self)@.quiet().updated()
            },
    {
        let mut actions: Vec<Action> = Vec::new();
        assert(effects(actions@) =~= seq![]);
        if self.active_room > 0 {
            self.show(self.active_room - 1, &mut actions);
            assert(effects(actions@) =~= old(self)@.shown(self.active_room as int).effects);
        }
        self.update(&mut actions);
        actions
    }

    /// Shows the room behind the one that is shown, where there is one,
    /// and has the room shown anew.
    fn next_room(&mut self) -> (actions: Vec<Action>)
        requires
            old(self).wf(),
        ensures
            final(self).wf(),
            (Outcome { state: final(self)@, effects: effects(actions@) }) == if old(
                self,
            )@.active_room + 1 < old(self)@.rooms.len() {
                old(self)@.shown(old(self)@.active_room + 1).updated()
            } else {
                old(self)@.quiet().updated()
            },
    {
        let mut actions: Vec<Action> = Vec::new();
        assert(effects(actions@) =~= seq![]);
        assert(self@.rooms.len() == self.rooms@.len());
        assert(self.active_room < self.rooms.len());
        if self.active_room + 1 < self.rooms.len() {
            self.show(self.active_room + 1, &mut actions);
            assert(effects(actions@) =~= old(self)@.shown(self.active_room as int).effects);
        }
        self.update(&mut actions);
        actions
    }

    /// Does what a line of the front end asks for.
    pub fn handle_line(&mut self, line: &[u8], now: Timestamp) -> (actions: Vec<Action>)
        requires
            old(self).wf(),
        ensures
            final(self).wf(),
            (Outcome { state: final(self)@, effects: effects(actions@) }) == old(self)@.instructed(
                line@,
                now,
            ),
    {
        let whole = trim_end(line);
        let stops = [SPACE];
        assert(stops@ =~= seq![SPACE]);
        let end = find_first(whole, 0, &stops);
        let command = vstd::slice::slice_subrange(whole, 0, end);
        assert(command@ =~= whole@.take(end as int));
        let tail = vstd::slice::slice_subrange(whole, end, whole.len());
        assert(tail@ =~= whole@.skip(end as int));
        let rest = trim_start(tail);
        if bytes_eq(command, "INPUT".as_bytes()) {
            self.typed_line(rest, now)
        } else if bytes_eq(command, "ROOM-PREVIOUS".as_bytes()) {
            self.previous_room()
        } else if bytes_eq(command, "ROOM-NEXT".as_bytes()) {
            self.next_room()
        } else {
            let actions: Vec<Action> = Vec::new();
            assert(effects(actions@) =~= seq![]);
            actions
        }
    }

    /// The status line of the session.
    pub fn status_line(&self) -> (line: Vec<u8>)
        requires
            self.wf(),
        ensures
            line@ == self@.status(),
    {
        let mut line: Vec<u8> = Vec::new();
        let ghost rooms = room_views(self.rooms@);
        let ghost shown = self.active_room as int;
        let mut i: usize = 0;
        while i < self.rooms.len()
            invariant
                i <= self.rooms.len(),
                self.wf(),
                rooms == room_views(self.rooms@),
                shown == self.active_room,
                status_from(rooms, shown, 0) == line@ + status_from(rooms, shown, i as int),
            decreases self.rooms.len() - i,
        {
            let ghost before = line@;
            let status = if i == self.active_room {
                self.rooms[i].status_string_active()
            } else {
                self.rooms[i].status_string()
            };
            append(&mut line, " ".as_bytes());
            append(&mut line, status.as_slice());
            append(&mut line, " ".as_bytes());
            assert(before + (ascii(" ") + status@ + ascii(" ") + status_from(rooms, shown, i + 1))
                =~= line@ + status_from(rooms, shown, i + 1));
            i += 1;
        }
        assert(line@ + Seq::<u8>::empty() =~= line@);
        line
    }

    /// Brings the status line up to date, and says whether it changed.
    fn update_status_line(&mut self) -> (changed: bool)
        requires
            old(self).wf(),
        ensures
            final(self).wf(),
            changed == (old(self)@.status() != old(self)@.status_line),
            final(self)@ == (SessionView { status_line: old(self)@.status(), ..old(self)@ }),
    {
        let line = self.status_line();
        if !bytes_eq(line.as_slice(), self.status_line.as_slice()) {
            self.status_line = line;
            true
        } else {
            false
        }
    }

    /// Whether the room that is shown has news.
    fn should_update(&self) -> (news: bool)
        requires
            self.wf(),
        ensures
            news == (self@.active().notify != crate::room::NotifyLevel::Nothing),
    {
        self.rooms[self.active_room].should_update()
    }

    /// What the updater does when it has the session to itself.
    pub fn refresh(&mut self) -> (actions: Vec<Action>)
        requires
            old(self).wf(),
        ensures
            final(self).wf(),
            (Outcome { state: final(self)@, effects: effects(actions@) }) == old(
                self,
            )@.refreshed(),
    {
        let mut actions: Vec<Action> = Vec::new();
        assert(effects(actions@) =~= seq![]);
        if self.should_update() {
            self.update(&mut actions);
        }
        if self.update_status_line() {
            let mut line: Vec<u8> = Vec::new();
            append(&mut line, "STATUS ".as_bytes());
            append(&mut line, self.status_line.as_slice());
            emit(&mut actions, Action::Tell(line));
        }
        actions
    }

    /// Asks for the server to be told who the session is.
    fn identify(&self, out: &mut Vec<Action>)
        ensures
            effects(final(out)@) == effects(old(out)@) + self@.identified(),
    {
        let mut nick: Vec<u8> = Vec::new();
        append(&mut nick, "NICK ".as_bytes());
        append(&mut nick, self.config.nick.as_slice());
        send(out, nick.as_slice());
        let mut user: Vec<u8> = Vec::new();
        append(&mut user, "USER ".as_bytes());
        append(&mut user, self.config.username.as_slice());
        append(&mut user, " _ _ :_".as_bytes());
        send(out, user.as_slice());
        assert(effects(out@) =~= effects(old(out)@) + self@.identified());
    }

    /// Gives up proving who the session is.
    fn fail(&mut self, reason: &[u8], out: &mut Vec<Action>)
        requires
            old(self).wf(),
        ensures
            final(self).wf(),
            final(self)@ == old(self)@.failed(reason@).state,
            effects(final(out)@) == effects(old(out)@) + old(self)@.failed(reason@).effects,
    {
        let mut line: Vec<u8> = Vec::new();
        append(&mut line, "Error: failed to authenticate: ".as_bytes());
        append(&mut line, reason);
        emit(out, Action::Warn(line));
        emit(out, Action::Exit(-1));
        self.phase = Phase::Terminated;
        assert(effects(out@) =~= effects(old(out)@) + old(self)@.failed(reason@).effects);
    }

    /// The reason that the server does not know how to take a password.
    fn no_sasl_reason(&self) -> (reason: Vec<u8>)
        ensures
            reason@ == no_sasl(self@.config.server),
    {
        let mut reason: Vec<u8> = Vec::new();
        append(&mut reason, "the ircd at ".as_bytes());
        append(&mut reason, self.config.server.as_slice());
        append(&mut reason, " does not support SASL".as_bytes());
        reason
    }

    /// Begins the session.
    pub fn start(&mut self) -> (actions: Vec<Action>)
        requires
            old(self).wf(),
        ensures
            final(self).wf(),
            (Outcome { state: final(self)@, effects: effects(actions@) }) == old(self)@.started(),
    {
        let mut actions: Vec<Action> = Vec::new();
        assert(effects(actions@) =~= seq![]);
        let mut line: Vec<u8> = Vec::new();
        append(&mut line, "NICK ".as_bytes());
        let quoted = escape(self.config.nick.as_slice());
        append(&mut line, quoted.as_slice());
        emit(&mut actions, Action::Tell(line));
        emit(&mut actions, Action::Tell(self.rooms[0].goto()));
        let ghost head = effects(actions@);
        match self.config.auth {
            AuthMethod::SASL => {
                if self.config.password.is_some() {
                    send(&mut actions, "CAP REQ :sasl".as_bytes());
                    self.identify(&mut actions);
                    self.phase = Phase::AwaitingAck;
                    assert(effects(actions@) =~= old(self)@.started().effects);
                } else {
                    self.fail(
                        "an authentication method was specified but no password was provided".as_bytes(),
                        &mut actions,
                    );
                    assert(effects(actions@) =~= old(self)@.started().effects);
                }
            },
            _ => {
                self.identify(&mut actions);
                emit(&mut actions, Action::Tell(self.rooms[0].goto()));
                self.phase = Phase::Ready;
                assert(effects(actions@) =~= old(self)@.started().effects);
            },
        }
        actions
    }

    /// Goes on proving who the session is, as a message of the server
    /// asks for.
    fn advance(&mut self, message: &IrcMessage, out: &mut Vec<Action>)
        requires
            old(self).wf(),
        ensures
            final(self).wf(),
            final(self)@ == old(self)@.advanced(message@).state,
            effects(final(out)@) == effects(old(out)@) + old(self)@.advanced(message@).effects,
    {
        let ghost start = effects(out@);
        assert(start + Seq::<Effect>::empty() =~= start);
        match self.phase {
            Phase::AwaitingAck => {
                if message.contains("ACK :sasl".as_bytes()) {
                    send(out, "AUTHENTICATE PLAIN".as_bytes());
                    self.phase = Phase::AwaitingGoAhead;
                    assert(effects(out@) =~= start + old(self)@.advanced(message@).effects);
                } else if message.contains("NAK :sasl".as_bytes()) {
                    let reason = self.no_sasl_reason();
                    self.fail(reason.as_slice(), out);
                }
            },
            Phase::AwaitingGoAhead => {
                if message.contains("AUTHENTICATE +".as_bytes()) {
                    let none: Vec<u8> = Vec::new();
                    assert(none@ =~= seq![]);
                    let password = match &self.config.password {
                        Some(password) => password.as_slice(),
                        None => none.as_slice(),
                    };
                    let line = authenticate_plain(self.config.username.as_slice(), password);
                    send(out, line.as_slice());
                    self.phase = Phase::AwaitingVerdict;
                    assert(effects(out@) =~= start + old(self)@.advanced(message@).effects);
                }
            },
            Phase::AwaitingVerdict => {
                if message.contains("authentication successful".as_bytes()) {
                    send(out, "CAP END".as_bytes());
                    emit(out, Action::Tell(self.rooms[0].goto()));
                    self.phase = Phase::Ready;
                    assert(effects(out@) =~= start + old(self)@.advanced(message@).effects);
                } else if message.contains("authentication failed".as_bytes()) {
                    self.fail("invalid username/password combination".as_bytes(), out);
                }
            },
            _ => {},
        }
    }

    /// Takes a message of the server, where `date` is the date that the
    /// message gives where it tells when a topic was set: does what the
    /// message asks for, brings the transcripts up to date, and goes on
    /// proving who the session is.
    pub fn receive_dated(&mut self, message: &IrcMessage, now: Timestamp, date: &[u8]) -> (actions:
        Vec<Action>)
        requires
            old(self).wf(),
        ensures
            final(self).wf(),
            (Outcome { state: final(self)@, effects: effects(actions@) }) == old(self)@.received(
                message@,
                now,
                date@,
            ).flushed().advanced(message@),
    {
        let mut actions = self.handle_message_dated(message, now, date);
        self.advance(message, &mut actions);
        actions
    }

    /// Takes a message of the server: does what the message asks for,
    /// brings the transcripts up to date, and goes on proving who the
    /// session is.
    pub fn receive(&mut self, message: &IrcMessage, now: Timestamp) -> (actions: Vec<Action>)
        requires
            old(self).wf(),
        ensures
            final(self).wf(),
            exists|date: Seq<u8>|
                (Outcome { state: final(self)@, effects: effects(actions@) }) == #[trigger] old(
                    self,
                )@.received(message@, now, date).flushed().advanced(message@),
            message@.kind != IrcMessageType::TopicWhoTime ==> (Outcome {
                state: final(self)@,
                effects: effects(actions@),
            }) == old(self)@.received(message@, now, seq![]).flushed().advanced(message@),
    {
        let date = Session::date_of(message);
        self.receive_dated(message, now, date.as_slice())
    }

    /// Takes the end of the server's stream.
    pub fn disconnect(&mut self) -> (actions: Vec<Action>)
        requires
            old(self).wf(),
        ensures
            final(self).wf(),
            (Outcome { state: final(self)@, effects: effects(actions@) }) == old(
                self,
            )@.disconnected(),
    {
        let mut actions: Vec<Action> = Vec::new();
        assert(effects(actions@) =~= seq![]);
        match self.phase {
            Phase::AwaitingAck => {
                let reason = self.no_sasl_reason();
                self.fail(reason.as_slice(), &mut actions);
            },
            Phase::AwaitingGoAhead => {
                self.fail("timed out waiting for reponse".as_bytes(), &mut actions);
            },
            Phase::AwaitingVerdict => {
                self.fail("invalid username/password combination".as_bytes(), &mut actions);
            },
            _ => {},
        }
        assert(seq![] + old(self)@.disconnected().effects =~= old(self)@.disconnected().effects);
        actions
    }

    /// Where the session stands.
    pub fn phase(&self) -> (phase: Phase)
        ensures
            phase == self@.phase,
    {
        self.phase
    }

    /// The rooms of the session.
    pub fn rooms(&self) -> (rooms: &[Room])
        ensures
            room_views(rooms@) == self@.rooms,
    {
        self.rooms.as_slice()
    }

    /// The place of the room that is shown.
    pub fn active_room(&self) -> (place: usize)
        ensures
            place == self@.active_room,
    {
        self.active_room
    }

    /// What the session was set up with, with the nickname that it goes
    /// by now.
    pub fn config(&self) -> (config: &Config)
        ensures
            config@ == self@.config,
    {
        &self.config
    }

    /// Does to the session what a message of the server asks for, where
    /// `date` is the date that the message gives.
    fn dispatch(&mut self, message: &IrcMessage, now: Timestamp, date: &[u8], out: &mut Vec<Action>)
        requires
            old(self).wf(),
        ensures
            final(self).wf(),
            final(self)@ == old(self)@.received(message@, now, date@).state,
            effects(final(out)@) == effects(old(out)@) + old(self)@.received(
                message@,
                now,
                date@,
            ).effects,
    {
        let ghost nothing = Seq::<Effect>::empty();
        assert(effects(out@) + nothing =~= effects(out@));
        match message.kind {
            IrcMessageType::Nick => self.on_nick(message, now, out),
            IrcMessageType::ChannelURL => self.on_channel_url(message, now),
            IrcMessageType::TopicWhoTime => self.on_topic_who_time(message, now, date),
            IrcMessageType::Topic => self.on_topic(message, now),
            IrcMessageType::Welcome
            | IrcMessageType::YourHost
            | IrcMessageType::Created
            | IrcMessageType::MOTDStart
            | IrcMessageType::MOTD
            | IrcMessageType::MOTDEnd
            | IrcMessageType::LUserClient
            | IrcMessageType::LUserOp
            | IrcMessageType::LUserUnknown
            | IrcMessageType::LUserChannels
            | IrcMessageType::LUserMe
            | IrcMessageType::UnknownCommand
            | IrcMessageType::Error => self.on_info(message, now),
            IrcMessageType::Names => self.on_names(message),
            IrcMessageType::Mode => self.on_mode(message, now),
            IrcMessageType::Notice => self.on_notice(message, now),
            IrcMessageType::Ping => {
                send(out, "PONG".as_bytes());
                assert(effects(out@) =~= effects(old(out)@) + old(self)@.on_ping().effects);
            },
            IrcMessageType::Part => self.on_part(message, now),
            IrcMessageType::Quit => self.on_quit(message, now),
            IrcMessageType::Join => self.on_join(message, now, out),
            IrcMessageType::PrivMsg => self.on_privmsg(message, now, out),
            IrcMessageType::NamesEnd | IrcMessageType::MyInfo | IrcMessageType::NotImplemented => {},
        }
    }
}

} // verus!
