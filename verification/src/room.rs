//! Rooms: the server's own, a channel, or a talk with one user. A room
//! holds what was said in it and how much of that wants attention.
use vstd::prelude::*;
use crate::bytes::{append, ascii, bytes_eq, decimal, decimal_bytes};
use crate::channel::{channel_name, names_channel, Channel, ChannelView};
use crate::clock::Timestamp;
use crate::config::Config;
use crate::mention::{found_in, mentions, nick_pattern, regex_search};
use crate::msg::{message_at, notification_at, Message, MessageRecord};
use crate::text::{unstyled, Text};
use crate::user::{bare_nick, full_name, User, UserView};

verus! {

pub const HASH: u8 = 0x23;

pub enum RoomType {
    Channel(Channel),
    Private(Vec<u8>),
    Server,
}

/// What a `RoomType` holds.
pub enum RoomKind {
    Channel(ChannelView),
    Private(Seq<u8>),
    Server,
}

impl View for RoomType {
    type V = RoomKind;

    open spec fn view(&self) -> RoomKind {
        match self {
            RoomType::Channel(channel) => RoomKind::Channel(channel@),
            RoomType::Private(name) => RoomKind::Private(name@),
            RoomType::Server => RoomKind::Server,
        }
    }
}

/// How much the news of a room wants attention.
#[derive(Debug, Clone, Copy, PartialEq, Eq, Structural)]
pub enum NotifyLevel {
    /// Nothing happened.
    Nothing,
    /// Users came and went, but nobody spoke.
    Unimportant,
    /// Somebody spoke.
    Normal,
    /// Somebody spoke of this session's nickname.
    Important,
}

impl NotifyLevel {
    /// The place of the level among the four, from 0 for `Nothing`.
    pub open spec fn rank(self) -> nat {
        match self {
            NotifyLevel::Nothing => 0,
            NotifyLevel::Unimportant => 1,
            NotifyLevel::Normal => 2,
            NotifyLevel::Important => 3,
        }
    }

    /// The higher of two levels.
    pub open spec fn raised(self, other: NotifyLevel) -> NotifyLevel {
        if other.rank() > self.rank() {
            other
        } else {
            self
        }
    }

    /// The mark of the level in a status line.
    pub open spec fn mark(self) -> Seq<u8> {
        match self {
            NotifyLevel::Nothing => ascii(""),
            NotifyLevel::Unimportant => ascii("."),
            NotifyLevel::Normal => ascii("!"),
            NotifyLevel::Important => ascii("*!"),
        }
    }

    fn raise(self, other: NotifyLevel) -> (level: NotifyLevel)
        ensures
            level == self.raised(other),
    {
        match (self, other) {
            (NotifyLevel::Important, _) => self,
            (_, NotifyLevel::Nothing) => self,
            (NotifyLevel::Nothing, _) => other,
            (_, NotifyLevel::Important) => other,
            (NotifyLevel::Unimportant, _) => other,
            (NotifyLevel::Normal, _) => self,
        }
    }
}

/// The level that a message asks for: a notification the lowest, a
/// message that speaks of this session's nickname the highest.
pub open spec fn level_of(message: MessageRecord, mentioned: bool) -> NotifyLevel {
    if message.is_notification {
        NotifyLevel::Unimportant
    } else if mentioned {
        NotifyLevel::Important
    } else {
        NotifyLevel::Normal
    }
}

/// The name of the transcript of a room, without its directory.
pub open spec fn file_name_of(kind: RoomKind) -> Seq<u8> {
    match kind {
        RoomKind::Server => ascii("server"),
        RoomKind::Channel(channel) => ascii("channel_") + channel.name,
        RoomKind::Private(name) => ascii("private_") + name,
    }
}

/// The path of the transcript of a room: the directory of the session,
/// the server's address, and the name of the transcript.
pub open spec fn path_of(directory: Seq<u8>, server: Seq<u8>, kind: RoomKind) -> Seq<u8> {
    directory + ascii("/") + server + ascii("/") + file_name_of(kind)
}

/// A path with a backslash before each `#`.
pub open spec fn hash_escaped(path: Seq<u8>) -> Seq<u8>
    decreases path.len(),
{
    if path.len() == 0 {
        seq![]
    } else if path.last() == HASH {
        hash_escaped(path.drop_last()).push(crate::mention::BACKSLASH).push(HASH)
    } else {
        hash_escaped(path.drop_last()).push(path.last())
    }
}

/// The kind of room that a name asks for: a channel or a talk with one
/// user.
pub open spec fn kind_for(name: Seq<u8>) -> RoomKind {
    if channel_name(name) {
        RoomKind::Channel(ChannelView { name, topic: None, members: Set::empty() })
    } else {
        RoomKind::Private(name)
    }
}

/// The news that a user joined a channel.
pub open spec fn join_notice(user: UserView, channel: Seq<u8>) -> Seq<u8> {
    user.nick + ascii(" [") + full_name(user) + ascii("] has joined ") + channel
}

/// The news that a user quit.
pub open spec fn quit_notice(user: UserView, reason: Seq<u8>) -> Seq<u8> {
    user.nick + ascii(" [") + full_name(user) + ascii("] has quit (") + reason + ascii(")")
}

/// The news that a user left a room.
pub open spec fn part_notice(user: UserView, target: Seq<u8>) -> Seq<u8> {
    user.nick + ascii(" [") + full_name(user) + ascii("] has left ") + target
}

/// The news of a topic.
pub open spec fn topic_notice(target: Seq<u8>, topic: Seq<u8>) -> Seq<u8> {
    ascii("The topic for ") + target + ascii(" is ") + topic
}

/// What stands before a warning in the column of the sender.
pub open spec fn warning_source() -> Seq<u8> {
    ascii("!!!    ")
}

/// What a room holds.
pub struct RoomView {
    pub kind: RoomKind,
    pub history: Seq<MessageRecord>,
    pub file_name: Seq<u8>,
    pub escaped_file_name: Seq<u8>,
    pub notify: NotifyLevel,
    /// How many messages of the history stand in the transcript already.
    pub written: nat,
}

impl RoomView {
    /// The room as it is made for a kind: nothing said, nothing to show.
    pub open spec fn fresh(kind: RoomKind, directory: Seq<u8>, server: Seq<u8>) -> RoomView {
        RoomView {
            kind,
            history: seq![],
            file_name: path_of(directory, server, kind),
            escaped_file_name: hash_escaped(path_of(directory, server, kind)),
            notify: NotifyLevel::Nothing,
            written: 0,
        }
    }

    /// The name under which the server knows the room.
    pub open spec fn target(self) -> Seq<u8> {
        match self.kind {
            RoomKind::Server => ascii("server"),
            RoomKind::Channel(channel) => channel.name,
            RoomKind::Private(name) => name,
        }
    }

    /// Whether the user is in the room: in a channel by its bare
    /// nickname, in a talk by the nickname as it stands.
    pub open spec fn has_user(self, user: UserView) -> bool {
        match self.kind {
            RoomKind::Channel(channel) => channel.members.contains(bare_nick(user.nick)),
            RoomKind::Private(name) => name == user.nick,
            RoomKind::Server => false,
        }
    }

    /// The room after a message was said in it: the message ends the
    /// history, and the level rises to what the message asks for.
    pub open spec fn with_message(self, message: MessageRecord, mentioned: bool) -> RoomView {
        RoomView {
            history: self.history.push(message),
            notify: self.notify.raised(level_of(message, mentioned)),
            ..self
        }
    }

    /// The room after a notification.
    pub open spec fn notified(self, text: Seq<u8>, now: Timestamp) -> RoomView {
        self.with_message(notification_at(now, unstyled(text)), false)
    }

    /// The room after a warning.
    pub open spec fn warned(self, text: Seq<u8>, now: Timestamp, mentioned: bool) -> RoomView {
        self.with_message(
            message_at(now, unstyled(warning_source()), unstyled(text)),
            mentioned,
        )
    }

    /// The room with a member more, where it is a channel.
    pub open spec fn with_member(self, nick: Seq<u8>) -> RoomView {
        match self.kind {
            RoomKind::Channel(channel) => RoomView {
                kind: RoomKind::Channel(
                    ChannelView { members: channel.members.insert(bare_nick(nick)), ..channel },
                ),
                ..self
            },
            _ => self,
        }
    }

    /// The room with a member less, where it is a channel.
    pub open spec fn without_member(self, nick: Seq<u8>) -> RoomView {
        match self.kind {
            RoomKind::Channel(channel) => RoomView {
                kind: RoomKind::Channel(
                    ChannelView { members: channel.members.remove(bare_nick(nick)), ..channel },
                ),
                ..self
            },
            _ => self,
        }
    }

    /// The room after a user took a new nickname: a channel has the new
    /// one for the old, a talk is with the new one.
    pub open spec fn renamed(self, user: UserView, new_nick: Seq<u8>) -> RoomView {
        match self.kind {
            RoomKind::Channel(_) => self.without_member(user.nick).with_member(new_nick),
            RoomKind::Private(_) => RoomView { kind: RoomKind::Private(new_nick), ..self },
            RoomKind::Server => self,
        }
    }

    /// The channel after a user joined: the news of it, and the user in.
    pub open spec fn joined(self, user: UserView, now: Timestamp) -> RoomView {
        match self.kind {
            RoomKind::Channel(channel) => self.with_member(user.nick).notified(
                join_notice(user, channel.name),
                now,
            ),
            _ => self,
        }
    }

    /// The room after a user quit: the news of it, and the user out of a
    /// channel.
    pub open spec fn quitted(self, user: UserView, reason: Seq<u8>, now: Timestamp) -> RoomView {
        match self.kind {
            RoomKind::Server => self,
            _ => self.without_member(user.nick).notified(quit_notice(user, reason), now),
        }
    }

    /// The room after a user left: the news of it, and the user out of a
    /// channel.
    pub open spec fn parted(self, user: UserView, now: Timestamp) -> RoomView {
        match self.kind {
            RoomKind::Server => self,
            _ => self.without_member(user.nick).notified(part_notice(user, self.target()), now),
        }
    }

    /// The channel with a topic.
    pub open spec fn with_topic(self, topic: Seq<u8>) -> RoomView {
        match self.kind {
            RoomKind::Channel(channel) => RoomView {
                kind: RoomKind::Channel(ChannelView { topic: Some(topic), ..channel }),
                ..self
            },
            _ => self,
        }
    }

    /// The channel after the news of its topic, where it has one.
    pub open spec fn topic_notified(self, now: Timestamp) -> RoomView {
        match self.kind {
            RoomKind::Channel(channel) => match channel.topic {
                Some(topic) => self.notified(topic_notice(channel.name, topic), now),
                None => self,
            },
            _ => self,
        }
    }

    /// What the server is sent for a line typed in the room.
    pub open spec fn outgoing(self, input: Seq<u8>) -> Seq<u8> {
        match self.kind {
            RoomKind::Server => input,
            _ => ascii("PRIVMSG ") + self.target() + ascii(" :") + input,
        }
    }

    /// The instruction that shows the room.
    pub open spec fn goto_line(self) -> Seq<u8> {
        ascii("GOTO ") + self.target() + ascii(" ") + self.escaped_file_name
    }

    /// The room in a status line while another room is shown.
    pub open spec fn status(self) -> Seq<u8> {
        self.target() + self.notify.mark()
    }

    /// The room in a status line while it is shown: a channel with the
    /// number of its members.
    pub open spec fn status_active(self) -> Seq<u8> {
        match self.kind {
            RoomKind::Channel(channel) => ascii("[") + self.target() + ascii(":") + decimal(
                channel.members.len(),
            ) + ascii("]"),
            _ => ascii("[") + self.target() + ascii("]"),
        }
    }

    /// The lines that the transcript lacks.
    pub open spec fn unwritten(self) -> Seq<Seq<u8>> {
        self.history.skip(self.written as int).map_values(|message: MessageRecord| message.text)
    }
}

/// The level of a room never falls when a message is said in it, and a
/// message that asks for less than an earlier one leaves the level where
/// the earlier one brought it.
pub proof fn lemma_level_monotone(
    room: RoomView,
    first: MessageRecord,
    first_mentioned: bool,
    second: MessageRecord,
    second_mentioned: bool,
)
    ensures
        room.with_message(first, first_mentioned).notify.rank() >= room.notify.rank(),
        room.with_message(first, first_mentioned).notify.rank() >= level_of(
            first,
            first_mentioned,
        ).rank(),
        room.with_message(first, first_mentioned).with_message(
            second,
            second_mentioned,
        ).notify.rank() >= room.with_message(first, first_mentioned).notify.rank(),
        level_of(second, second_mentioned).rank() <= level_of(first, first_mentioned).rank()
            ==> room.with_message(first, first_mentioned).with_message(
            second,
            second_mentioned,
        ).notify == room.with_message(first, first_mentioned).notify,
{
}

/// What a row of messages holds.
pub open spec fn records(messages: Seq<Message>) -> Seq<MessageRecord> {
    messages.map_values(|message: Message| message@)
}

pub struct Room {
    kind: RoomType,
    msgs: Vec<Message>,
    file_name: Vec<u8>,
    escaped_file_name: Vec<u8>,
    notify: NotifyLevel,
    written: usize,
}

impl View for Room {
    type V = RoomView;

    closed spec fn view(&self) -> RoomView {
        RoomView {
            kind: self.kind@,
            history: records(self.msgs@),
            file_name: self.file_name@,
            escaped_file_name: self.escaped_file_name@,
            notify: self.notify,
            written: self.written as nat,
        }
    }
}

/// Puts a backslash before each `#` of a path.
fn escape_hashes(path: &[u8]) -> (out: Vec<u8>)
    ensures
        out@ == hash_escaped(path@),
{
    let mut out: Vec<u8> = Vec::new();
    let mut i: usize = 0;
    while i < path.len()
        invariant
            i <= path.len(),
            out@ == hash_escaped(path@.subrange(0, i as int)),
        decreases path.len() - i,
    {
        let b = path[i];
        proof {
            let next = path@.subrange(0, i + 1);
            assert(next.drop_last() =~= path@.subrange(0, i as int));
            assert(next.last() == b);
        }
        if b == HASH {
            out.push(crate::mention::BACKSLASH);
        }
        out.push(b);
        i += 1;
    }
    assert(path@.subrange(0, i as int) =~= path@);
    out
}

impl RoomType {
    /// The channel of a channel's room holds no user twice.
    pub open spec fn wf(&self) -> bool {
        match self {
            RoomType::Channel(channel) => channel.wf(),
            _ => true,
        }
    }

    /// The name of the transcript of the room, without its directory.
    pub fn file_name(&self) -> (name: Vec<u8>)
        ensures
            name@ == file_name_of(self@),
    {
        let mut name: Vec<u8> = Vec::new();
        match self {
            RoomType::Server => {
                append(&mut name, "server".as_bytes());
            },
            RoomType::Channel(channel) => {
                append(&mut name, "channel_".as_bytes());
                append(&mut name, channel.name());
            },
            RoomType::Private(target) => {
                append(&mut name, "private_".as_bytes());
                append(&mut name, target.as_slice());
            },
        }
        name
    }
}

impl Room {
    /// The channel of the room holds no user twice, and no more is
    /// written than was said.
    pub closed spec fn wf(&self) -> bool {
        &&& self.kind.wf()
        &&& self.written <= self.msgs.len()
    }

    /// The room for a name: a channel's where the name is a channel's,
    /// else a talk with the user of that name.
    pub fn new(name: &[u8], config: &Config) -> (room: Room)
        ensures
            room.wf(),
            room@ == RoomView::fresh(kind_for(name@), config@.directory, config@.server),
    {
        let kind = if names_channel(name) {
            RoomType::Channel(Channel::new(name))
        } else {
            let mut target: Vec<u8> = Vec::new();
            append(&mut target, name);
            RoomType::Private(target)
        };
        Room::make(kind, config)
    }

    /// The server's own room.
    pub fn server(config: &Config) -> (room: Room)
        ensures
            room.wf(),
            room@ == RoomView::fresh(RoomKind::Server, config@.directory, config@.server),
    {
        Room::make(RoomType::Server, config)
    }

    fn make(kind: RoomType, config: &Config) -> (room: Room)
        requires
            kind.wf(),
        ensures
            room.wf(),
            room@ == RoomView::fresh(kind@, config@.directory, config@.server),
    {
        let mut file_name: Vec<u8> = Vec::new();
        append(&mut file_name, config.directory.as_slice());
        append(&mut file_name, "/".as_bytes());
        append(&mut file_name, config.server.as_slice());
        append(&mut file_name, "/".as_bytes());
        let name = kind.file_name();
        append(&mut file_name, name.as_slice());
        let escaped_file_name = escape_hashes(file_name.as_slice());
        let room = Room {
            kind,
            msgs: Vec::new(),
            file_name,
            escaped_file_name,
            notify: NotifyLevel::Nothing,
            written: 0,
        };
        assert(records(room.msgs@) =~= seq![]);
        room
    }

    pub fn is_channel(&self) -> (is: bool)
        ensures
            is == (self@.kind is Channel),
    {
        match self.kind {
            RoomType::Channel(_) => true,
            _ => false,
        }
    }

    pub fn is_private(&self) -> (is: bool)
        ensures
            is == (self@.kind is Private),
    {
        match self.kind {
            RoomType::Private(_) => true,
            _ => false,
        }
    }

    pub fn is_server(&self) -> (is: bool)
        ensures
            is == (self@.kind is Server),
    {
        match self.kind {
            RoomType::Server => true,
            _ => false,
        }
    }

    /// The path of the transcript.
    pub fn file_name(&self) -> (path: &[u8])
        ensures
            path@ == self@.file_name,
    {
        self.file_name.as_slice()
    }

    /// The path of the transcript with a backslash before each `#`.
    pub fn escaped_file_name(&self) -> (path: &[u8])
        ensures
            path@ == self@.escaped_file_name,
    {
        self.escaped_file_name.as_slice()
    }

    /// What the server is sent for a line typed in the room: in the
    /// server's room the line itself, else a message to the room.
    pub fn make_message(&mut self, input: &[u8]) -> (line: Vec<u8>)
        ensures
            *final(self) == *old(self),
            line@ == old(self)@.outgoing(input@),
    {
        let mut line: Vec<u8> = Vec::new();
        match &self.kind {
            RoomType::Server => {
                append(&mut line, input);
                assert(line@ =~= input@);
            },
            _ => {
                append(&mut line, "PRIVMSG ".as_bytes());
                append(&mut line, self.target());
                append(&mut line, " :".as_bytes());
                append(&mut line, input);
            },
        }
        line
    }

    /// The name under which the server knows the room.
    pub fn target(&self) -> (name: &[u8])
        ensures
            name@ == self@.target(),
    {
        match &self.kind {
            RoomType::Server => "server".as_bytes(),
            RoomType::Channel(channel) => channel.name(),
            RoomType::Private(name) => name.as_slice(),
        }
    }

    /// Says a message in the room, where `mentioned` tells whether it
    /// speaks of this session's nickname.
    pub fn append(&mut self, message: Message, mentioned: bool)
        requires
            old(self).wf(),
        ensures
            final(self).wf(),
            final(self)@ == old(self)@.with_message(message@, mentioned),
    {
        let level = if message.is_notification {
            NotifyLevel::Unimportant
        } else if mentioned {
            NotifyLevel::Important
        } else {
            NotifyLevel::Normal
        };
        self.notify = self.notify.raise(level);
        proof {
            assert(records(self.msgs@.push(message)) =~= records(self.msgs@).push(message@));
        }
        self.msgs.push(message);
    }

    /// Says a message in the room, and looks in it for `nick`.
    pub fn add_message(&mut self, message: Message, nick: &[u8])
        requires
            old(self).wf(),
        ensures
            final(self).wf(),
            final(self)@ == old(self)@.with_message(
                message@,
                found_in(regex_search(nick_pattern(nick@), message@.body.plain)),
            ),
    {
        let mentioned = !message.is_notification && mentions(nick, message.body.text());
        self.append(message, mentioned);
    }

    /// What was said in the room.
    pub fn messages(&self) -> (messages: &[Message])
        ensures
            records(messages@) == self@.history,
    {
        self.msgs.as_slice()
    }

    /// Takes the lines that the transcript lacks.
    pub fn drain_transcript(&mut self) -> (lines: Vec<Vec<u8>>)
        requires
            old(self).wf(),
        ensures
            final(self).wf(),
            final(self)@ == (RoomView { written: old(self)@.history.len(), ..old(self)@ }),
            lines@.map_values(|line: Vec<u8>| line@) == old(self)@.unwritten(),
    {
        let mut lines: Vec<Vec<u8>> = Vec::new();
        let ghost from = self.written as int;
        let ghost all = self@.unwritten();
        while self.written < self.msgs.len()
            invariant
                0 <= from <= self.written <= self.msgs.len(),
                self.kind == old(self).kind,
                self.msgs == old(self).msgs,
                self.file_name == old(self).file_name,
                self.escaped_file_name == old(self).escaped_file_name,
                self.notify == old(self).notify,
                all == records(self.msgs@).skip(from).map_values(
                    |message: MessageRecord| message.text,
                ),
                all.len() == self.msgs.len() - from,
                lines@.map_values(|line: Vec<u8>| line@) == all.subrange(0, self.written - from),
            decreases self.msgs.len() - self.written,
        {
            let line = self.msgs[self.written].text.clone();
            proof {
                let recs = records(self.msgs@);
                let k = self.written - from;
                assert(recs.len() == self.msgs@.len());
                assert(recs[self.written as int] == self.msgs@[self.written as int]@);
                assert(recs.skip(from).len() == recs.len() - from);
                assert(recs.skip(from)[k] == recs[from + k]);
                assert(all[k] == line@);
                let texts = lines@.map_values(|line: Vec<u8>| line@);
                assert(lines@.push(line).map_values(|line: Vec<u8>| line@) =~= texts.push(line@));
                assert(all.subrange(0, k + 1) =~= all.subrange(0, k).push(all[k]));
            }
            lines.push(line);
            self.written = self.written + 1;
        }
        assert(all.subrange(0, self.written - from) =~= all);
        lines
    }

    /// A user joined the channel.
    pub fn handle_join(&mut self, user: User, now: Timestamp)
        requires
            old(self).wf(),
        ensures
            final(self).wf(),
            final(self)@ == old(self)@.joined(user@, now),
    {
        let mut notice: Vec<u8> = Vec::new();
        match &mut self.kind {
            RoomType::Channel(channel) => {
                append(&mut notice, user.nick.as_slice());
                append(&mut notice, " [".as_bytes());
                let full = user.to_string();
                append(&mut notice, full.as_slice());
                append(&mut notice, "] has joined ".as_bytes());
                append(&mut notice, channel.name());
                channel.add_user(user);
            },
            _ => {
                return ;
            },
        }
        self.notify(notice.as_slice(), now);
    }

    /// Says a warning in the room, and looks in it for `nick`.
    pub fn warn(&mut self, warning: &[u8], now: Timestamp, nick: &[u8])
        requires
            old(self).wf(),
        ensures
            final(self).wf(),
            final(self)@ == old(self)@.warned(
                warning@,
                now,
                found_in(regex_search(nick_pattern(nick@), warning@)),
            ),
    {
        let mut source: Vec<u8> = Vec::new();
        append(&mut source, "!!!    ".as_bytes());
        let mut body: Vec<u8> = Vec::new();
        append(&mut body, warning);
        let message = Message::at(now, Text::from_string(source), Text::from_string(body));
        self.add_message(message, nick);
    }

    /// Says a notification in the room.
    pub fn notify(&mut self, message: &[u8], now: Timestamp)
        requires
            old(self).wf(),
        ensures
            final(self).wf(),
            final(self)@ == old(self)@.notified(message@, now),
    {
        let mut body: Vec<u8> = Vec::new();
        append(&mut body, message);
        let notification = Message::notification_at(now, Text::from_string(body));
        self.append(notification, false);
    }

    pub fn is_user_present(&self, user: &User) -> (present: bool)
        ensures
            present == self@.has_user(user@),
    {
        match &self.kind {
            RoomType::Channel(channel) => channel.is_user_present(user),
            RoomType::Private(name) => bytes_eq(name.as_slice(), user.nick.as_slice()),
            RoomType::Server => false,
        }
    }

    /// Puts a user into the channel.
    pub fn add_user(&mut self, user: User)
        requires
            old(self).wf(),
        ensures
            final(self).wf(),
            final(self)@ == old(self)@.with_member(user@.nick),
    {
        match &mut self.kind {
            RoomType::Channel(channel) => channel.add_user(user),
            _ => {},
        }
    }

    /// A user took a new nickname.
    pub fn rename_user(&mut self, user: &User, new_nick: &[u8])
        requires
            old(self).wf(),
        ensures
            final(self).wf(),
            final(self)@ == old(self)@.renamed(user@, new_nick@),
    {
        match &mut self.kind {
            RoomType::Channel(channel) => channel.rename(user, new_nick),
            RoomType::Private(name) => {
                let mut target: Vec<u8> = Vec::new();
                append(&mut target, new_nick);
                *name = target;
            },
            RoomType::Server => {},
        }
    }

    /// A user quit.
    pub fn handle_quit(&mut self, user: &User, reason: &[u8], now: Timestamp)
        requires
            old(self).wf(),
        ensures
            final(self).wf(),
            final(self)@ == old(self)@.quitted(user@, reason@, now),
    {
        let mut notice: Vec<u8> = Vec::new();
        append(&mut notice, user.nick.as_slice());
        append(&mut notice, " [".as_bytes());
        let full = user.to_string();
        append(&mut notice, full.as_slice());
        append(&mut notice, "] has quit (".as_bytes());
        append(&mut notice, reason);
        append(&mut notice, ")".as_bytes());
        match &mut self.kind {
            RoomType::Channel(channel) => channel.remove_user(user),
            RoomType::Private(_) => {},
            RoomType::Server => {
                return ;
            },
        }
        self.notify(notice.as_slice(), now);
    }

    /// A user left the room.
    pub fn handle_part(&mut self, user: &User, now: Timestamp)
        requires
            old(self).wf(),
        ensures
            final(self).wf(),
            final(self)@ == old(self)@.parted(user@, now),
    {
        let mut notice: Vec<u8> = Vec::new();
        append(&mut notice, user.nick.as_slice());
        append(&mut notice, " [".as_bytes());
        let full = user.to_string();
        append(&mut notice, full.as_slice());
        append(&mut notice, "] has left ".as_bytes());
        append(&mut notice, self.target());
        match &mut self.kind {
            RoomType::Channel(channel) => channel.remove_user(user),
            RoomType::Private(_) => {},
            RoomType::Server => {
                return ;
            },
        }
        self.notify(notice.as_slice(), now);
    }

    /// Says the topic of the channel in it, where it has one.
    pub fn notify_topic(&mut self, now: Timestamp)
        requires
            old(self).wf(),
        ensures
            final(self).wf(),
            final(self)@ == old(self)@.topic_notified(now),
    {
        let mut notice: Vec<u8> = Vec::new();
        match &self.kind {
            RoomType::Channel(channel) => match channel.topic() {
                Some(topic) => {
                    append(&mut notice, "The topic for ".as_bytes());
                    append(&mut notice, channel.name());
                    append(&mut notice, " is ".as_bytes());
                    append(&mut notice, topic);
                },
                None => {
                    return ;
                },
            },
            _ => {
                return ;
            },
        }
        self.notify(notice.as_slice(), now);
    }

    /// Sets the topic of the channel.
    pub fn set_topic(&mut self, topic: Vec<u8>)
        requires
            old(self).wf(),
        ensures
            final(self).wf(),
            final(self)@ == old(self)@.with_topic(topic@),
    {
        match &mut self.kind {
            RoomType::Channel(channel) => channel.set_topic(topic),
            _ => {},
        }
    }

    /// The instruction that shows the room.
    pub fn goto(&self) -> (line: Vec<u8>)
        ensures
            line@ == self@.goto_line(),
    {
        let mut line: Vec<u8> = Vec::new();
        append(&mut line, "GOTO ".as_bytes());
        append(&mut line, self.target());
        append(&mut line, " ".as_bytes());
        append(&mut line, self.escaped_file_name.as_slice());
        line
    }

    /// Whether the room has news.
    pub fn should_update(&self) -> (news: bool)
        ensures
            news == (self@.notify != NotifyLevel::Nothing),
    {
        self.notify != NotifyLevel::Nothing
    }

    /// Forgets the news of the room.
    pub fn clear_notify(&mut self)
        ensures
            final(self).wf() == old(self).wf(),
            final(self)@ == (RoomView { notify: NotifyLevel::Nothing, ..old(self)@ }),
    {
        self.notify = NotifyLevel::Nothing;
    }

    /// The level of the news of the room.
    pub fn notify_level(&self) -> (level: NotifyLevel)
        ensures
            level == self@.notify,
    {
        self.notify
    }

    /// The room in a status line while another room is shown.
    pub fn status_string(&self) -> (status: Vec<u8>)
        ensures
            status@ == self@.status(),
    {
        let mut status: Vec<u8> = Vec::new();
        append(&mut status, self.target());
        match self.notify {
            NotifyLevel::Nothing => append(&mut status, "".as_bytes()),
            NotifyLevel::Unimportant => append(&mut status, ".".as_bytes()),
            NotifyLevel::Normal => append(&mut status, "!".as_bytes()),
            NotifyLevel::Important => append(&mut status, "*!".as_bytes()),
        }
        status
    }

    /// The room in a status line while it is shown.
    pub fn status_string_active(&self) -> (status: Vec<u8>)
        requires
            self.wf(),
        ensures
            status@ == self@.status_active(),
    {
        let mut status: Vec<u8> = Vec::new();
        append(&mut status, "[".as_bytes());
        append(&mut status, self.target());
        match &self.kind {
            RoomType::Channel(channel) => {
                append(&mut status, ":".as_bytes());
                let count = decimal_bytes(channel.num_users());
                append(&mut status, count.as_slice());
            },
            _ => {},
        }
        append(&mut status, "]".as_bytes());
        status
    }
}

} // verus!
