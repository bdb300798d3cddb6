//! Messages of the server: the grammar of a frame and what is read off a
//! parsed message.
use vstd::prelude::*;
use vstd::slice::slice_subrange;
use crate::bytes::{
    append, ascii, bytes_eq, contains, copy_range, find_first, first_not, first_of, lemma_first_of,
    occurs_in, skip_run, COLON, SPACE,
};
use crate::text::{decoded, Styled, Text};
use crate::user::{option_view, User, UserView};

verus! {

pub const BANG: u8 = 0x21;

pub const AT: u8 = 0x40;

pub const DOT: u8 = 0x2E;

pub const OPEN_BRACKET: u8 = 0x5B;

pub const CLOSE_BRACKET: u8 = 0x5D;

pub const STAR: u8 = 0x2A;

#[derive(Debug, Clone, Copy, PartialEq, Eq, Structural)]
pub enum IrcMessageType {
    ChannelURL,
    Error,
    Join,
    LUserClient,
    LUserOp,
    LUserUnknown,
    LUserChannels,
    LUserMe,
    Mode,
    MOTD,
    MOTDEnd,
    MOTDStart,
    Names,
    NamesEnd,
    Nick,
    Notice,
    Part,
    Ping,
    PrivMsg,
    Quit,
    Topic,
    TopicWhoTime,
    UnknownCommand,
    Welcome,
    YourHost,
    Created,
    MyInfo,
    NotImplemented,
}

#[derive(Debug)]
pub enum IrcMessagePrefix {
    ServerPrefix(Vec<u8>),
    UserPrefix(User),
}

/// What a prefix holds.
pub enum PrefixView {
    Server(Seq<u8>),
    User(UserView),
}

impl View for IrcMessagePrefix {
    type V = PrefixView;

    open spec fn view(&self) -> PrefixView {
        match self {
            IrcMessagePrefix::ServerPrefix(name) => PrefixView::Server(name@),
            IrcMessagePrefix::UserPrefix(user) => PrefixView::User(user@),
        }
    }
}

/// Why a frame is no message.
#[derive(Debug, Clone, Copy, PartialEq, Eq, Structural)]
pub enum ParseError {
    /// The frame ends inside the first field of its prefix.
    PrefixUnfinished,
    /// The frame ends with its prefix: no space follows.
    SpaceMissing,
    /// No command stands where one is due.
    CommandMissing,
}

impl ParseError {
    /// The error in words.
    pub fn describe(&self) -> (words: &'static str)
        ensures
            words@ == match self {
                ParseError::PrefixUnfinished => "unexpected end of input while parsing message prefix"@,
                ParseError::SpaceMissing => "expecting ' ' but encountered end of input"@,
                ParseError::CommandMissing => "reply type missing from message"@,
            },
    {
        match self {
            ParseError::PrefixUnfinished => "unexpected end of input while parsing message prefix",
            ParseError::SpaceMissing => "expecting ' ' but encountered end of input",
            ParseError::CommandMissing => "reply type missing from message",
        }
    }
}

#[derive(Debug)]
pub struct IrcMessage {
    pub kind: IrcMessageType,
    pub prefix: Option<IrcMessagePrefix>,
    pub params: Vec<Text>,
    pub raw: Option<Vec<u8>>,
}

/// What a message holds.
pub struct MessageView {
    pub kind: IrcMessageType,
    pub prefix: Option<PrefixView>,
    pub params: Seq<Styled>,
    pub raw: Option<Seq<u8>>,
}

impl MessageView {
    /// Whether the frame of the message holds `text`.
    pub open spec fn holds(self, text: Seq<u8>) -> bool {
        match self.raw {
            Some(raw) => occurs_in(raw, text),
            None => false,
        }
    }
}

/// What an optional prefix holds.
pub open spec fn prefix_view(prefix: Option<IrcMessagePrefix>) -> Option<PrefixView> {
    match prefix {
        Some(p) => Some(p@),
        None => None,
    }
}

/// What a row of texts holds.
pub open spec fn texts_view(texts: Seq<Text>) -> Seq<Styled> {
    texts.map_values(|text: Text| text@)
}

impl View for IrcMessage {
    type V = MessageView;

    open spec fn view(&self) -> MessageView {
        MessageView {
            kind: self.kind,
            prefix: prefix_view(self.prefix),
            params: texts_view(self.params@),
            raw: option_view(self.raw),
        }
    }
}

/// The bytes that end the first field of a prefix.
pub open spec fn name_stops() -> Set<u8> {
    seq![SPACE, BANG, AT].to_set()
}

/// The bytes that end the user name of a prefix.
pub open spec fn username_stops() -> Set<u8> {
    seq![SPACE, AT].to_set()
}

/// The byte that ends a host, a command and a parameter.
pub open spec fn word_stops() -> Set<u8> {
    seq![SPACE].to_set()
}

/// The fields of the prefix of a frame that begins with a colon.
pub struct PrefixFields {
    pub name: Seq<u8>,
    pub username: Option<Seq<u8>>,
    pub host: Option<Seq<u8>>,
    /// The place where the first field ends.
    pub name_end: int,
    /// The place where the prefix ends.
    pub end: int,
}

/// Reads the prefix of `s`, whose first byte is the colon: a name up to a
/// space, `!` or `@`; behind `!` a user name up to `@` or a space; behind
/// `@` a host up to a space.
pub open spec fn prefix_fields(s: Seq<u8>) -> PrefixFields {
    let name_end = first_of(s, 1, name_stops());
    let has_username = name_end < s.len() && s[name_end] == BANG;
    let username_end = if has_username {
        first_of(s, name_end + 1, username_stops())
    } else {
        name_end
    };
    let has_host = username_end < s.len() && s[username_end] == AT;
    let end = if has_host {
        first_of(s, username_end + 1, word_stops())
    } else {
        username_end
    };
    PrefixFields {
        name: s.subrange(1, name_end),
        username: if has_username {
            Some(s.subrange(name_end + 1, username_end))
        } else {
            None
        },
        host: if has_host {
            Some(s.subrange(username_end + 1, end))
        } else {
            None
        },
        name_end,
        end,
    }
}

/// Whom the fields of a prefix name: a server where the name stands alone
/// and holds a dot, else a user.
pub open spec fn sender(fields: PrefixFields) -> PrefixView {
    if fields.username is None && fields.host is None && fields.name.contains(DOT) {
        PrefixView::Server(fields.name)
    } else {
        PrefixView::User(
            UserView { nick: fields.name, username: fields.username, host: fields.host },
        )
    }
}

/// The kind that a command word or a reply number stands for.
pub open spec fn kind_of(command: Seq<u8>) -> IrcMessageType {
    if command == ascii("328") {
        IrcMessageType::ChannelURL
    } else if command == ascii("NOTICE") {
        IrcMessageType::Notice
    } else if command == ascii("PRIVMSG") {
        IrcMessageType::PrivMsg
    } else if command == ascii("ERROR") {
        IrcMessageType::Error
    } else if command == ascii("NICK") {
        IrcMessageType::Nick
    } else if command == ascii("JOIN") {
        IrcMessageType::Join
    } else if command == ascii("QUIT") {
        IrcMessageType::Quit
    } else if command == ascii("PART") {
        IrcMessageType::Part
    } else if command == ascii("251") {
        IrcMessageType::LUserClient
    } else if command == ascii("252") {
        IrcMessageType::LUserOp
    } else if command == ascii("253") {
        IrcMessageType::LUserUnknown
    } else if command == ascii("254") {
        IrcMessageType::LUserChannels
    } else if command == ascii("255") {
        IrcMessageType::LUserMe
    } else if command == ascii("MODE") {
        IrcMessageType::Mode
    } else if command == ascii("372") {
        IrcMessageType::MOTD
    } else if command == ascii("375") {
        IrcMessageType::MOTDStart
    } else if command == ascii("376") {
        IrcMessageType::MOTDEnd
    } else if command == ascii("001") {
        IrcMessageType::Welcome
    } else if command == ascii("002") {
        IrcMessageType::YourHost
    } else if command == ascii("003") {
        IrcMessageType::Created
    } else if command == ascii("004") {
        IrcMessageType::MyInfo
    } else if command == ascii("421") {
        IrcMessageType::UnknownCommand
    } else if command == ascii("353") {
        IrcMessageType::Names
    } else if command == ascii("366") {
        IrcMessageType::NamesEnd
    } else if command == ascii("PING") {
        IrcMessageType::Ping
    } else if command == ascii("332") {
        IrcMessageType::Topic
    } else if command == ascii("333") {
        IrcMessageType::TopicWhoTime
    } else {
        IrcMessageType::NotImplemented
    }
}

/// The parameters of `s` from `at` on, where `at` is the end of the
/// command or of a parameter. Each parameter follows a run of spaces and
/// ends at the next space, but one that begins with a colon takes the rest
/// of the frame, without the colon. Spaces at the end, and a colon that
/// nothing follows, give no parameter.
pub open spec fn params_from(s: Seq<u8>, at: int) -> Seq<Seq<u8>>
    decreases s.len() - at,
    via params_from_decreases
{
    let start = first_not(s, at, SPACE);
    if at < 0 || start >= s.len() {
        seq![]
    } else if s[start] == COLON {
        if start + 1 < s.len() {
            seq![s.skip(start + 1)]
        } else {
            seq![]
        }
    } else {
        let end = first_of(s, start, word_stops());
        seq![s.subrange(start, end)] + params_from(s, end)
    }
}

#[via_fn]
proof fn params_from_decreases(s: Seq<u8>, at: int) {
    if at >= 0 && at <= s.len() {
        lemma_param_bounds(s, at);
    }
}

/// Where a parameter begins and ends.
pub proof fn lemma_param_bounds(s: Seq<u8>, at: int)
    requires
        0 <= at <= s.len(),
    ensures
        at <= first_not(s, at, SPACE) <= s.len(),
        first_not(s, at, SPACE) < s.len() ==> s[first_not(s, at, SPACE)] != SPACE,
        first_not(s, at, SPACE) < s.len() ==> first_not(s, at, SPACE) < first_of(
            s,
            first_not(s, at, SPACE),
            word_stops(),
        ) <= s.len(),
{
    let start = first_not(s, at, SPACE);
    lemma_first_of(s, at, crate::bytes::all_but(SPACE));
    if start < s.len() {
        lemma_first_of(s, start, word_stops());
        assert(seq![SPACE][0] == SPACE);
        assert(!word_stops().contains(s[start]));
    }
}

/// What a frame says, or why it says nothing.
///
/// A frame is an optional prefix behind a colon, one space, a command, and
/// parameters. It is refused where it ends inside the prefix, and where
/// no command stands at the start or behind the space that ends the
/// prefix.
pub open spec fn parsed(s: Seq<u8>) -> Result<MessageView, ParseError> {
    let has_prefix = s.len() > 0 && s[0] == COLON;
    let fields = prefix_fields(s);
    let start = if has_prefix {
        fields.end + 1
    } else {
        0
    };
    let end = first_of(s, start, word_stops());
    if has_prefix && fields.name_end >= s.len() {
        Err(ParseError::PrefixUnfinished)
    } else if has_prefix && fields.end >= s.len() {
        Err(ParseError::SpaceMissing)
    } else if end <= start {
        Err(ParseError::CommandMissing)
    } else {
        Ok(
            MessageView {
                kind: kind_of(s.subrange(start, end)),
                prefix: if has_prefix {
                    Some(sender(fields))
                } else {
                    None
                },
                params: params_from(s, end).map_values(|param: Seq<u8>| decoded(param)),
                raw: Some(s),
            },
        )
    }
}

/// A frame whose prefix is a name alone, ended by a space, is from a
/// server just where that name holds a dot; else it is from a user of
/// that nickname, with no user name and no host.
pub proof fn lemma_server_prefix(frame: Seq<u8>)
    requires
        parsed(frame) is Ok,
        frame.len() > 0,
        frame[0] == COLON,
        frame[prefix_fields(frame).name_end] == SPACE,
    ensures
        parsed(frame)->Ok_0.prefix is Some,
        parsed(frame)->Ok_0.prefix->Some_0 is Server <==> prefix_fields(frame).name.contains(DOT),
        prefix_fields(frame).name.contains(DOT) ==> parsed(frame)->Ok_0.prefix == Some(
            PrefixView::Server(prefix_fields(frame).name),
        ),
        !prefix_fields(frame).name.contains(DOT) ==> parsed(frame)->Ok_0.prefix == Some(
            PrefixView::User(
                UserView { nick: prefix_fields(frame).name, username: None, host: None },
            ),
        ),
{
}

/// A prefix names a server only where its name stands alone and holds a
/// dot.
pub proof fn lemma_server_prefix_only(frame: Seq<u8>)
    requires
        parsed(frame) is Ok,
        parsed(frame)->Ok_0.prefix matches Some(PrefixView::Server(_)),
    ensures
        frame.len() > 0 && frame[0] == COLON,
        frame[prefix_fields(frame).name_end] == SPACE,
        prefix_fields(frame).name.contains(DOT),
        parsed(frame)->Ok_0.prefix == Some(PrefixView::Server(prefix_fields(frame).name)),
{
    lemma_first_of(frame, 1, name_stops());
    let end = prefix_fields(frame).name_end;
    assert(name_stops().contains(frame[end]));
    let stops = seq![SPACE, BANG, AT];
    let k = choose|k: int| 0 <= k < stops.len() && stops[k] == frame[end];
    assert(stops[0] == SPACE && stops[1] == BANG && stops[2] == AT);
}

/// What `parse` hands back, as a view.
pub open spec fn outcome(result: Result<IrcMessage, ParseError>) -> Result<
    MessageView,
    ParseError,
> {
    match result {
        Ok(message) => Ok(message@),
        Err(error) => Err(error),
    }
}

/// The texts from place `from` on, with one space between two of them.
pub open spec fn spaced(texts: Seq<Seq<u8>>, from: int) -> Seq<u8>
    decreases texts.len() - from,
{
    if from < 0 || from >= texts.len() {
        seq![]
    } else if from + 1 == texts.len() {
        texts[from]
    } else {
        texts[from] + seq![SPACE] + spaced(texts, from + 1)
    }
}

/// The plain texts of a row of styled texts.
pub open spec fn plains(texts: Seq<Styled>) -> Seq<Seq<u8>> {
    texts.map_values(|text: Styled| text.plain)
}

/// The nickname of the sender, or the word `server` where a server sent
/// the message or nobody is named.
pub open spec fn source_of(message: MessageView) -> Seq<u8> {
    match message.prefix {
        Some(PrefixView::User(user)) => user.nick,
        _ => ascii("server"),
    }
}

/// The room that a notice of the channel service speaks of: what stands
/// between the first `[` and the first `]` of its text, where the one
/// comes before the other.
pub open spec fn bracketed(text: Seq<u8>) -> Option<Seq<u8>> {
    let open = first_of(text, 0, seq![OPEN_BRACKET].to_set());
    let close = first_of(text, 0, seq![CLOSE_BRACKET].to_set());
    if open < close < text.len() {
        Some(text.subrange(open + 1, close))
    } else {
        None
    }
}

/// The room that a notice is for, and its text.
///
/// A notice of the server names the room in its first parameter, where a
/// star stands for the server's own room. One of the user `ChanServ`
/// names it in brackets in its text. Any other goes to the server's room.
pub open spec fn notice_of(message: MessageView) -> (Seq<u8>, Seq<u8>) {
    let text = message.params[1].plain;
    match message.prefix {
        Some(PrefixView::User(user)) => {
            if user.nick == ascii("ChanServ") {
                match bracketed(text) {
                    Some(target) => (target, text),
                    None => (ascii("server"), text),
                }
            } else {
                (ascii("server"), text)
            }
        },
        _ => {
            let target = message.params[0].plain;
            if target == seq![STAR] {
                (ascii("server"), text)
            } else {
                (target, text)
            }
        },
    }
}

/// Reads the kind off a command word.
fn kind_from(command: &[u8]) -> (kind: IrcMessageType)
    ensures
        kind == kind_of(command@),
{
    if bytes_eq(command, "328".as_bytes()) {
        IrcMessageType::ChannelURL
    } else if bytes_eq(command, "NOTICE".as_bytes()) {
        IrcMessageType::Notice
    } else if bytes_eq(command, "PRIVMSG".as_bytes()) {
        IrcMessageType::PrivMsg
    } else if bytes_eq(command, "ERROR".as_bytes()) {
        IrcMessageType::Error
    } else if bytes_eq(command, "NICK".as_bytes()) {
        IrcMessageType::Nick
    } else if bytes_eq(command, "JOIN".as_bytes()) {
        IrcMessageType::Join
    } else if bytes_eq(command, "QUIT".as_bytes()) {
        IrcMessageType::Quit
    } else if bytes_eq(command, "PART".as_bytes()) {
        IrcMessageType::Part
    } else if bytes_eq(command, "251".as_bytes()) {
        IrcMessageType::LUserClient
    } else if bytes_eq(command, "252".as_bytes()) {
        IrcMessageType::LUserOp
    } else if bytes_eq(command, "253".as_bytes()) {
        IrcMessageType::LUserUnknown
    } else if bytes_eq(command, "254".as_bytes()) {
        IrcMessageType::LUserChannels
    } else if bytes_eq(command, "255".as_bytes()) {
        IrcMessageType::LUserMe
    } else if bytes_eq(command, "MODE".as_bytes()) {
        IrcMessageType::Mode
    } else if bytes_eq(command, "372".as_bytes()) {
        IrcMessageType::MOTD
    } else if bytes_eq(command, "375".as_bytes()) {
        IrcMessageType::MOTDStart
    } else if bytes_eq(command, "376".as_bytes()) {
        IrcMessageType::MOTDEnd
    } else if bytes_eq(command, "001".as_bytes()) {
        IrcMessageType::Welcome
    } else if bytes_eq(command, "002".as_bytes()) {
        IrcMessageType::YourHost
    } else if bytes_eq(command, "003".as_bytes()) {
        IrcMessageType::Created
    } else if bytes_eq(command, "004".as_bytes()) {
        IrcMessageType::MyInfo
    } else if bytes_eq(command, "421".as_bytes()) {
        IrcMessageType::UnknownCommand
    } else if bytes_eq(command, "353".as_bytes()) {
        IrcMessageType::Names
    } else if bytes_eq(command, "366".as_bytes()) {
        IrcMessageType::NamesEnd
    } else if bytes_eq(command, "PING".as_bytes()) {
        IrcMessageType::Ping
    } else if bytes_eq(command, "332".as_bytes()) {
        IrcMessageType::Topic
    } else if bytes_eq(command, "333".as_bytes()) {
        IrcMessageType::TopicWhoTime
    } else {
        IrcMessageType::NotImplemented
    }
}

/// Reads the prefix of a frame that begins with a colon: the sender, and
/// the places where its first field and the whole prefix end.
fn parse_prefix(bytes: &[u8]) -> (read: (IrcMessagePrefix, usize, usize))
    requires
        bytes.len() > 0,
    ensures
        read.0@ == sender(prefix_fields(bytes@)),
        read.1 == prefix_fields(bytes@).name_end,
        read.2 == prefix_fields(bytes@).end,
        1 <= read.1 <= read.2 <= bytes.len(),
{
    let name_stops = [SPACE, BANG, AT];
    let username_stops = [SPACE, AT];
    let word_stops = [SPACE];
    assert(name_stops@ =~= seq![SPACE, BANG, AT]);
    assert(username_stops@ =~= seq![SPACE, AT]);
    assert(word_stops@ =~= seq![SPACE]);
    let name_end = find_first(bytes, 1, &name_stops);
    let name = copy_range(bytes, 1, name_end);
    let has_username = name_end < bytes.len() && bytes[name_end] == BANG;
    let mut username: Option<Vec<u8>> = None;
    let mut username_end = name_end;
    if has_username {
        username_end = find_first(bytes, name_end + 1, &username_stops);
        username = Some(copy_range(bytes, name_end + 1, username_end));
    }
    let has_host = username_end < bytes.len() && bytes[username_end] == AT;
    let mut host: Option<Vec<u8>> = None;
    let mut end = username_end;
    if has_host {
        end = find_first(bytes, username_end + 1, &word_stops);
        host = Some(copy_range(bytes, username_end + 1, end));
    }
    let dots = [DOT];
    let dotted = find_first(name.as_slice(), 0, &dots) < name.len();
    proof {
        assert(dots@ =~= seq![DOT]);
        assert(dots@[0] == DOT);
        lemma_first_of(name@, 0, dots@.to_set());
        if name@.contains(DOT) {
            let k = choose|k: int| 0 <= k < name@.len() && name@[k] == DOT;
            assert(dots@.to_set().contains(name@[k]));
        }
        assert(dotted == name@.contains(DOT));
    }
    if !has_username && !has_host && dotted {
        (IrcMessagePrefix::ServerPrefix(name), name_end, end)
    } else {
        (IrcMessagePrefix::UserPrefix(User::new(name, username, host)), name_end, end)
    }
}

impl IrcMessage {
    /// Reads one frame: a line of the server without the bytes that end it.
    pub fn parse(bytes: &[u8]) -> (result: Result<IrcMessage, ParseError>)
        ensures
            outcome(result) == parsed(bytes@),
    {
        let word_stops = [SPACE];
        assert(word_stops@ =~= seq![SPACE]);
        let mut prefix: Option<IrcMessagePrefix> = None;
        let mut start: usize = 0;
        if bytes.len() > 0 && bytes[0] == COLON {
            let (sender, name_end, end) = parse_prefix(bytes);
            if name_end >= bytes.len() {
                return Err(ParseError::PrefixUnfinished);
            }
            if end >= bytes.len() {
                return Err(ParseError::SpaceMissing);
            }
            prefix = Some(sender);
            start = end + 1;
        }
        let end = find_first(bytes, start, &word_stops);
        if end <= start {
            return Err(ParseError::CommandMissing);
        }
        let kind = kind_from(slice_subrange(bytes, start, end));
        let ghost all = params_from(bytes@, end as int);
        let ghost mut raws: Seq<Seq<u8>> = seq![];
        let mut params: Vec<Text> = Vec::new();
        let mut at: usize = end;
        let mut done = false;
        while !done
            invariant
                at <= bytes.len(),
                word_stops@ == seq![SPACE],
                all == raws + if done {
                    seq![]
                } else {
                    params_from(bytes@, at as int)
                },
                texts_view(params@) == raws.map_values(|param: Seq<u8>| decoded(param)),
            decreases bytes.len() - at, if done { 0int } else { 1int },
        {
            proof {
                lemma_param_bounds(bytes@, at as int);
            }
            let from = skip_run(bytes, at, SPACE);
            if from >= bytes.len() {
                done = true;
            } else if bytes[from] == COLON {
                if from + 1 < bytes.len() {
                    let raw = copy_range(bytes, from + 1, bytes.len());
                    assert(raw@ =~= bytes@.skip(from + 1));
                    let ghost before = params@;
                    let ghost rows = raws;
                    params.push(Text::from_bytes(raw));
                    proof {
                        raws = raws.push(raw@);
                        assert(texts_view(params@) =~= texts_view(before).push(decoded(raw@)));
                        assert(raws.map_values(|param: Seq<u8>| decoded(param)) =~= rows.map_values(
                            |param: Seq<u8>| decoded(param),
                        ).push(decoded(raw@)));
                        assert(rows + seq![raw@] =~= raws);
                    }
                }
                done = true;
            } else {
                let to = find_first(bytes, from, &word_stops);
                let raw = copy_range(bytes, from, to);
                let ghost before = params@;
                let ghost rows = raws;
                params.push(Text::from_bytes(raw));
                proof {
                    raws = raws.push(raw@);
                    assert(texts_view(params@) =~= texts_view(before).push(decoded(raw@)));
                    assert(raws.map_values(|param: Seq<u8>| decoded(param)) =~= rows.map_values(
                        |param: Seq<u8>| decoded(param),
                    ).push(decoded(raw@)));
                    assert(rows + (seq![raw@] + params_from(bytes@, to as int)) =~= raws
                        + params_from(bytes@, to as int));
                }
                at = to;
            }
        }
        assert(all =~= raws);
        let raw = copy_range(bytes, 0, bytes.len());
        assert(raw@ =~= bytes@);
        Ok(IrcMessage { kind, prefix, params, raw: Some(raw) })
    }

    /// The nickname of the sender, or the word `server`.
    pub fn source(&self) -> (name: &[u8])
        ensures
            name@ == source_of(self@),
    {
        match &self.prefix {
            Some(IrcMessagePrefix::UserPrefix(user)) => user.nick.as_slice(),
            _ => "server".as_bytes(),
        }
    }

    /// The parameter at place `i`.
    pub fn param(&self, i: usize) -> (text: &Text)
        requires
            i < self@.params.len(),
        ensures
            text@ == self@.params[i as int],
    {
        &self.params[i]
    }

    /// The user who sent the message.
    pub fn user(&self) -> (user: User)
        requires
            self@.prefix matches Some(PrefixView::User(_)),
        ensures
            self@.prefix == Some(PrefixView::User(user@)),
    {
        match &self.prefix {
            Some(IrcMessagePrefix::UserPrefix(user)) => user.clone(),
            _ => {
                proof {
                    assert(false);
                }
                User::from_nick(Vec::new())
            },
        }
    }

    /// Whether the frame holds `text`.
    pub fn contains(&self, text: &[u8]) -> (found: bool)
        ensures
            found == self@.holds(text@),
    {
        match &self.raw {
            Some(raw) => contains(raw.as_slice(), text),
            None => false,
        }
    }

    /// The parameters.
    pub fn params(&self) -> (texts: &[Text])
        ensures
            texts_view(texts@) == self@.params,
    {
        self.params.as_slice()
    }

    /// The plain texts of the parameters from place `i` on, with one space
    /// between two of them.
    pub fn sequence(&self, i: usize) -> (joined: Vec<u8>)
        ensures
            joined@ == spaced(plains(self@.params), i as int),
    {
        let mut joined: Vec<u8> = Vec::new();
        if i >= self.params.len() {
            return joined;
        }
        let ghost texts = plains(self@.params);
        let mut k: usize = i;
        while k + 1 < self.params.len()
            invariant
                i <= k < self.params.len(),
                texts == plains(self@.params),
                texts.len() == self.params.len(),
                spaced(texts, i as int) == joined@ + spaced(texts, k as int),
            decreases self.params.len() - k,
        {
            let ghost before = joined@;
            append(&mut joined, self.params[k].text());
            joined.push(SPACE);
            proof {
                assert(texts[k as int] == self.params@[k as int]@.plain);
                assert(joined@ =~= before + (texts[k as int] + seq![SPACE]));
                assert(spaced(texts, k as int) == texts[k as int] + seq![SPACE] + spaced(
                    texts,
                    k + 1,
                ));
                assert(before + (texts[k as int] + seq![SPACE] + spaced(texts, k + 1)) =~= before
                    + (texts[k as int] + seq![SPACE]) + spaced(texts, k + 1));
            }
            k += 1;
        }
        proof {
            assert(texts[k as int] == self.params@[k as int]@.plain);
            assert(spaced(texts, k as int) == texts[k as int]);
        }
        append(&mut joined, self.params[k].text());
        joined
    }

    /// The room that a notice is for, and its text.
    pub fn get_notice_components(&self) -> (parts: (&[u8], &[u8]))
        requires
            self@.params.len() >= 2,
        ensures
            (parts.0@, parts.1@) == notice_of(self@),
    {
        let text = self.params[1].text();
        assert(text@ == self@.params[1].plain);
        match &self.prefix {
            Some(IrcMessagePrefix::UserPrefix(user)) => {
                if bytes_eq(user.nick.as_slice(), "ChanServ".as_bytes()) {
                    let opens = [OPEN_BRACKET];
                    let closes = [CLOSE_BRACKET];
                    assert(opens@ =~= seq![OPEN_BRACKET]);
                    assert(closes@ =~= seq![CLOSE_BRACKET]);
                    let open = find_first(text, 0, &opens);
                    let close = find_first(text, 0, &closes);
                    if open < close && close < text.len() {
                        (slice_subrange(text, open + 1, close), text)
                    } else {
                        ("server".as_bytes(), text)
                    }
                } else {
                    ("server".as_bytes(), text)
                }
            },
            _ => {
                let target = self.params[0].text();
                assert(target@ == self@.params[0].plain);
                if target.len() == 1 && target[0] == STAR {
                    assert(target@ =~= seq![STAR]);
                    ("server".as_bytes(), text)
                } else {
                    (target, text)
                }
            },
        }
    }
}

} // verus!
