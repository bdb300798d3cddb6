//! The lines of a transcript.
use vstd::prelude::*;
use crate::bytes::{append, ascii, SPACE};
use crate::clock::{clock, clock_text, Timestamp};
use crate::text::{unstyled, Styled, Text};

verus! {

/// The width to which the sender of a line is padded.
pub const SOURCE_WIDTH: usize = 18;

/// `n` spaces.
pub open spec fn blanks(n: nat) -> Seq<u8> {
    Seq::new(n, |i: int| SPACE)
}

/// `text` behind as many spaces as bring it to `width` bytes.
pub open spec fn right_aligned(text: Seq<u8>, width: nat) -> Seq<u8> {
    if text.len() >= width {
        text
    } else {
        blanks((width - text.len()) as nat) + text
    }
}

/// A line of a transcript: the time, the sender in a column, the text.
pub open spec fn line(at: Timestamp, sender: Seq<u8>, words: Seq<u8>) -> Seq<u8> {
    ascii(" [") + clock(at) + ascii("] ") + right_aligned(sender, SOURCE_WIDTH as nat) + ascii("  ")
        + words
}

/// What a message holds.
pub struct MessageRecord {
    pub time: Timestamp,
    pub source: Styled,
    pub body: Styled,
    pub text: Seq<u8>,
    pub is_notification: bool,
}

/// The message of `source` that says `body` at the time `at`. An action
/// leaves the column of the sender empty and names the sender before the
/// text.
pub open spec fn message_at(at: Timestamp, source: Styled, body: Styled) -> MessageRecord {
    MessageRecord {
        time: at,
        source,
        body,
        text: if body.action {
            line(at, seq![SPACE], source.plain + seq![SPACE] + body.plain)
        } else {
            line(at, source.plain, body.plain)
        },
        is_notification: false,
    }
}

/// The notification that says `body` at the time `at`: a line without a
/// sender.
pub open spec fn notification_at(at: Timestamp, body: Styled) -> MessageRecord {
    MessageRecord {
        time: at,
        source: unstyled(seq![]),
        body,
        text: line(at, seq![], body.plain),
        is_notification: true,
    }
}

#[derive(Debug)]
pub struct Message {
    pub time: Timestamp,
    pub source: Text,
    pub body: Text,
    pub text: Vec<u8>,
    pub is_notification: bool,
}

impl View for Message {
    type V = MessageRecord;

    open spec fn view(&self) -> MessageRecord {
        MessageRecord {
            time: self.time,
            source: self.source@,
            body: self.body@,
            text: self.text@,
            is_notification: self.is_notification,
        }
    }
}

/// Writes a line of a transcript.
fn render(at: Timestamp, sender: &[u8], words: &[u8]) -> (text: Vec<u8>)
    ensures
        text@ == line(at, sender@, words@),
{
    let mut text: Vec<u8> = Vec::new();
    append(&mut text, " [".as_bytes());
    let stamp = clock_text(at);
    append(&mut text, stamp.as_slice());
    append(&mut text, "] ".as_bytes());
    let ghost head = text@;
    let mut width: usize = sender.len();
    while width < SOURCE_WIDTH
        invariant
            sender.len() <= width,
            width <= SOURCE_WIDTH || width == sender.len(),
            text@ == head + blanks((width - sender.len()) as nat),
        decreases SOURCE_WIDTH - width,
    {
        text.push(SPACE);
        width += 1;
        assert(text@ =~= head + blanks((width - sender.len()) as nat));
    }
    proof {
        if sender.len() >= SOURCE_WIDTH {
            assert(head + blanks(0) + sender@ =~= head + sender@);
        }
        assert(head + blanks((width - sender.len()) as nat) + sender@ =~= head + right_aligned(
            sender@,
            SOURCE_WIDTH as nat,
        ));
    }
    append(&mut text, sender);
    append(&mut text, "  ".as_bytes());
    append(&mut text, words);
    text
}

impl Message {
    /// The message of `source` that says `body` at the time `at`.
    pub fn at(at: Timestamp, source: Text, body: Text) -> (message: Message)
        ensures
            message@ == message_at(at, source@, body@),
    {
        let text = if body.action {
            let mut words: Vec<u8> = Vec::new();
            append(&mut words, source.text());
            words.push(SPACE);
            append(&mut words, body.text());
            assert(words@ =~= source@.plain + seq![SPACE] + body@.plain);
            let mut blank: Vec<u8> = Vec::new();
            blank.push(SPACE);
            assert(blank@ =~= seq![SPACE]);
            render(at, blank.as_slice(), words.as_slice())
        } else {
            render(at, source.text(), body.text())
        };
        Message { time: at, source, body, text, is_notification: false }
    }

    /// The notification that says `body` at the time `at`.
    pub fn notification_at(at: Timestamp, body: Text) -> (message: Message)
        ensures
            message@ == notification_at(at, body@),
    {
        let none: Vec<u8> = Vec::new();
        assert(none@ =~= seq![]);
        let text = render(at, none.as_slice(), body.text());
        Message { time: at, source: Text::from_string(none), body, text, is_notification: true }
    }

    /// The message of `source` that says `body` now, by the local clock.
    pub fn new(source: Text, body: Text) -> (message: Message)
        ensures
            message.time.valid(),
            message@ == message_at(message.time, source@, body@),
    {
        Message::at(Timestamp::now(), source, body)
    }

    /// An action of the user of this nickname, now.
    pub fn action(nick: &[u8], body: Vec<u8>) -> (message: Message)
        ensures
            message.time.valid(),
            message@ == message_at(
                message.time,
                unstyled(ascii("<") + nick@ + ascii(">")),
                (Styled { ctcp: true, action: true, ..unstyled(body@) }),
            ),
    {
        Message::new(Text::decorate_nick(nick), Text::action(body))
    }

    /// The notification that says `body` now, by the local clock.
    pub fn notification(body: Text) -> (message: Message)
        ensures
            message.time.valid(),
            message@ == notification_at(message.time, body@),
    {
        Message::notification_at(Timestamp::now(), body)
    }
}

impl Clone for Message {
    fn clone(&self) -> (copy: Message)
        ensures
            copy@ == self@,
    {
        Message {
            time: self.time,
            source: self.source.clone(),
            body: self.body.clone(),
            text: self.text.clone(),
            is_notification: self.is_notification,
        }
    }
}

} // verus!
