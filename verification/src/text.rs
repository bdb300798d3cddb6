//! Text with inline styles: the control bytes that toggle styles and set
//! colours, and the envelope of a client-to-client message.
use vstd::prelude::*;
use crate::bytes::{append, ascii, matches_at};

verus! {

/// The colour of text whose colour was never set.
pub const DEFAULT_COLOR: u8 = 255;

pub const CTCP_DELIMITER: u8 = 0x01;

pub const BOLD: u8 = 0x02;

pub const COLOR: u8 = 0x03;

pub const RESET: u8 = 0x0F;

pub const REVERSE: u8 = 0x16;

pub const ITALIC: u8 = 0x1D;

pub const UNDERLINE: u8 = 0x1F;

pub const COMMA: u8 = 0x2C;

/// How a run of text is drawn.
#[derive(Clone, Copy, Debug, PartialEq, Eq, Structural)]
pub struct Style {
    pub fg: u8,
    pub bg: u8,
    pub bold: bool,
    pub italic: bool,
    pub underline: bool,
    pub reverse: bool,
}

impl Style {
    /// No flag set and no colour.
    pub open spec fn plain() -> Style {
        Style {
            fg: DEFAULT_COLOR,
            bg: DEFAULT_COLOR,
            bold: false,
            italic: false,
            underline: false,
            reverse: false,
        }
    }

    /// The style after one of the control bytes that stand alone: a toggle
    /// flips its flag, a reset gives the plain style, any other byte
    /// changes nothing.
    pub open spec fn after(self, control: u8) -> Style {
        if control == BOLD {
            Style { bold: !self.bold, ..self }
        } else if control == ITALIC {
            Style { italic: !self.italic, ..self }
        } else if control == UNDERLINE {
            Style { underline: !self.underline, ..self }
        } else if control == REVERSE {
            Style { reverse: !self.reverse, ..self }
        } else if control == RESET {
            Style::plain()
        } else {
            self
        }
    }

    /// The style after a colour escape: without a number both colours are
    /// unset, else each colour that was given is set.
    pub open spec fn colored(self, escape: ColorEscape) -> Style {
        match (escape.fg, escape.bg) {
            (None, _) => Style { fg: DEFAULT_COLOR, bg: DEFAULT_COLOR, ..self },
            (Some(fg), None) => Style { fg, ..self },
            (Some(fg), Some(bg)) => Style { fg, bg, ..self },
        }
    }

    pub fn new() -> (style: Style)
        ensures
            style == Style::plain(),
    {
        Style {
            fg: DEFAULT_COLOR,
            bg: DEFAULT_COLOR,
            bold: false,
            italic: false,
            underline: false,
            reverse: false,
        }
    }

    pub fn apply(self, control: u8) -> (next: Style)
        ensures
            next == self.after(control),
    {
        if control == BOLD {
            Style { bold: !self.bold, ..self }
        } else if control == ITALIC {
            Style { italic: !self.italic, ..self }
        } else if control == UNDERLINE {
            Style { underline: !self.underline, ..self }
        } else if control == REVERSE {
            Style { reverse: !self.reverse, ..self }
        } else if control == RESET {
            Style::new()
        } else {
            self
        }
    }
}

/// One of the four bytes that flip a flag.
pub open spec fn is_toggle(b: u8) -> bool {
    b == BOLD || b == ITALIC || b == UNDERLINE || b == REVERSE
}

/// A byte that is read as a command and is not part of the text.
pub open spec fn is_control(b: u8) -> bool {
    is_toggle(b) || b == RESET || b == COLOR
}

pub open spec fn is_digit(b: u8) -> bool {
    0x30 <= b <= 0x39
}

/// The number written at `at` with one or two decimal digits, and the
/// place behind it.
pub open spec fn number_at(s: Seq<u8>, at: int) -> Option<(u8, int)> {
    if 0 <= at < s.len() && is_digit(s[at]) {
        if at + 1 < s.len() && is_digit(s[at + 1]) {
            Some((((s[at] - 0x30) * 10 + (s[at + 1] - 0x30)) as u8, at + 2))
        } else {
            Some(((s[at] - 0x30) as u8, at + 1))
        }
    } else {
        None
    }
}

/// What follows a colour introducer: a foreground, a background, and the
/// place where the text goes on.
pub struct ColorEscape {
    pub fg: Option<u8>,
    pub bg: Option<u8>,
    pub end: int,
}

/// The colour escape written at `at`: a number, then perhaps a comma and
/// a second number. A comma that no digit follows belongs to the text.
pub open spec fn color_escape(s: Seq<u8>, at: int) -> ColorEscape {
    match number_at(s, at) {
        None => ColorEscape { fg: None, bg: None, end: at },
        Some((fg, after)) => {
            if after < s.len() && s[after] == COMMA {
                match number_at(s, after + 1) {
                    Some((bg, end)) => ColorEscape { fg: Some(fg), bg: Some(bg), end },
                    None => ColorEscape { fg: Some(fg), bg: None, end: after },
                }
            } else {
                ColorEscape { fg: Some(fg), bg: None, end: after }
            }
        },
    }
}

/// The style after the control byte at `at`.
pub open spec fn restyled(style: Style, s: Seq<u8>, at: int) -> Style {
    if s[at] == COLOR {
        style.colored(color_escape(s, at + 1))
    } else {
        style.after(s[at])
    }
}

/// The place behind the control byte at `at` and what belongs to it.
pub open spec fn control_end(s: Seq<u8>, at: int) -> int {
    if s[at] == COLOR {
        color_escape(s, at + 1).end
    } else {
        at + 1
    }
}

/// A run of text in one style.
pub struct Segment {
    pub text: Seq<u8>,
    pub style: Style,
}

/// The segments of `s` from `at` on, where `run` is the text read since
/// the last segment was closed and `style` the style in force.
///
/// A control byte closes the run into a segment that carries the style
/// after that byte; nothing is closed where the run is empty and the
/// style stays as it was. The end of the text closes a run that is not
/// empty.
pub open spec fn segments_from(s: Seq<u8>, at: int, style: Style, run: Seq<u8>) -> Seq<Segment>
    decreases s.len() - at,
{
    if at < 0 || at >= s.len() {
        if run.len() > 0 {
            seq![Segment { text: run, style }]
        } else {
            seq![]
        }
    } else if is_control(s[at]) {
        let next = restyled(style, s, at);
        let closed = if run.len() > 0 || next != style {
            seq![Segment { text: run, style: next }]
        } else {
            seq![]
        };
        closed + segments_from(s, control_end(s, at), next, seq![])
    } else {
        segments_from(s, at + 1, style, run.push(s[at]))
    }
}

/// The texts of the segments, one after the other.
pub open spec fn joined(segments: Seq<Segment>) -> Seq<u8>
    decreases segments.len(),
{
    if segments.len() == 0 {
        seq![]
    } else {
        joined(segments.drop_last()) + segments.last().text
    }
}

/// The word that marks an action, with the space behind it.
pub open spec fn action_tag() -> Seq<u8> {
    ascii("ACTION ")
}

/// What a `Text` holds.
pub struct Styled {
    pub plain: Seq<u8>,
    pub segments: Seq<Segment>,
    pub ctcp: bool,
    pub action: bool,
}

/// What lies between the delimiters of a client-to-client message: the
/// bytes without the first one, and without the last where that is a
/// delimiter too.
pub open spec fn unwrapped(bytes: Seq<u8>) -> Seq<u8> {
    let inner = bytes.skip(1);
    if inner.len() > 0 && inner.last() == CTCP_DELIMITER {
        inner.drop_last()
    } else {
        inner
    }
}

/// The styled text that raw bytes stand for.
pub open spec fn decoded(bytes: Seq<u8>) -> Styled {
    let ctcp = bytes.len() > 0 && bytes[0] == CTCP_DELIMITER;
    let inner = if ctcp {
        unwrapped(bytes)
    } else {
        bytes
    };
    let action = ctcp && action_tag().is_prefix_of(inner);
    let payload = if action {
        inner.skip(action_tag().len() as int)
    } else {
        inner
    };
    let segments = segments_from(payload, 0, Style::plain(), seq![]);
    Styled { plain: joined(segments), segments, ctcp, action }
}

/// The text that is one plain segment.
pub open spec fn unstyled(text: Seq<u8>) -> Styled {
    Styled {
        plain: text,
        segments: seq![Segment { text, style: Style::plain() }],
        ctcp: false,
        action: false,
    }
}

#[derive(Debug)]
pub struct TextChunk {
    pub text: Vec<u8>,
    pub fg: u8,
    pub bg: u8,
    pub bold: bool,
    pub italic: bool,
    pub underline: bool,
    pub reverse: bool,
}

impl TextChunk {
    pub open spec fn style(&self) -> Style {
        Style {
            fg: self.fg,
            bg: self.bg,
            bold: self.bold,
            italic: self.italic,
            underline: self.underline,
            reverse: self.reverse,
        }
    }

    fn styled(text: Vec<u8>, style: Style) -> (chunk: TextChunk)
        ensures
            chunk@ == (Segment { text: text@, style }),
    {
        TextChunk {
            text,
            fg: style.fg,
            bg: style.bg,
            bold: style.bold,
            italic: style.italic,
            underline: style.underline,
            reverse: style.reverse,
        }
    }
}

impl View for TextChunk {
    type V = Segment;

    open spec fn view(&self) -> Segment {
        Segment { text: self.text@, style: self.style() }
    }
}

impl Clone for TextChunk {
    fn clone(&self) -> (copy: TextChunk)
        ensures
            copy@ == self@,
    {
        TextChunk {
            text: self.text.clone(),
            fg: self.fg,
            bg: self.bg,
            bold: self.bold,
            italic: self.italic,
            underline: self.underline,
            reverse: self.reverse,
        }
    }
}

/// The segments that a row of chunks stands for.
pub open spec fn segments_of(chunks: Seq<TextChunk>) -> Seq<Segment> {
    chunks.map_values(|chunk: TextChunk| chunk@)
}

#[derive(Debug)]
pub struct Text {
    pub raw: Vec<u8>,
    pub chunks: Vec<TextChunk>,
    pub ctcp: bool,
    pub action: bool,
}

impl View for Text {
    type V = Styled;

    open spec fn view(&self) -> Styled {
        Styled {
            plain: self.raw@,
            segments: segments_of(self.chunks@),
            ctcp: self.ctcp,
            action: self.action,
        }
    }
}

/// Reads the one or two digits of a colour number at `at`.
fn parse_number(s: &[u8], at: usize) -> (number: Option<(u8, usize)>)
    requires
        at <= s.len(),
    ensures
        match number {
            Some((value, end)) => number_at(s@, at as int) == Some((value, end as int)),
            None => number_at(s@, at as int) is None,
        },
{
    if at < s.len() && 0x30 <= s[at] && s[at] <= 0x39 {
        let high: u8 = s[at] - 0x30;
        if at + 1 < s.len() && 0x30 <= s[at + 1] && s[at + 1] <= 0x39 {
            let low: u8 = s[at + 1] - 0x30;
            Some((high * 10 + low, at + 2))
        } else {
            Some((high, at + 1))
        }
    } else {
        None
    }
}

/// Reads the colour escape that follows a colour introducer: the
/// foreground, the background, and the place where the text goes on.
pub fn parse_color(s: &[u8], at: usize) -> (escape: (Option<u8>, Option<u8>, usize))
    requires
        at <= s.len(),
    ensures
        color_escape(s@, at as int) == (ColorEscape {
            fg: escape.0,
            bg: escape.1,
            end: escape.2 as int,
        }),
        at <= escape.2 <= s.len(),
{
    match parse_number(s, at) {
        None => (None, None, at),
        Some((fg, after)) => {
            if after < s.len() && s[after] == COMMA {
                match parse_number(s, after + 1) {
                    Some((bg, end)) => (Some(fg), Some(bg), end),
                    None => (Some(fg), None, after),
                }
            } else {
                (Some(fg), None, after)
            }
        },
    }
}

/// Pushing a segment appends its text to the joined text.
pub proof fn lemma_joined_push(segments: Seq<Segment>, last: Segment)
    ensures
        joined(segments.push(last)) == joined(segments) + last.text,
{
    assert(segments.push(last).drop_last() =~= segments);
}

/// A toggle applied twice leaves the style as it was.
pub proof fn lemma_toggle_twice(style: Style, control: u8)
    requires
        is_toggle(control),
    ensures
        style.after(control).after(control) == style,
{
}

/// A reset gives the plain style, whatever the style was.
pub proof fn lemma_reset_is_plain(style: Style)
    ensures
        style.after(RESET) == Style::plain(),
        style.after(RESET).fg == DEFAULT_COLOR,
        style.after(RESET).bg == DEFAULT_COLOR,
{
}

/// From a place behind which no control byte stands, the rest of the
/// text joins the run, and one segment in the style in force comes out.
pub proof fn lemma_segments_without_control(s: Seq<u8>, at: int, style: Style, run: Seq<u8>)
    requires
        0 <= at <= s.len(),
        forall|i: int| at <= i < s.len() ==> !is_control(#[trigger] s[i]),
    ensures
        segments_from(s, at, style, run) == if run.len() + s.len() - at > 0 {
            seq![Segment { text: run + s.skip(at), style }]
        } else {
            seq![]
        },
    decreases s.len() - at,
{
    if at < s.len() {
        lemma_segments_without_control(s, at + 1, style, run.push(s[at]));
        assert(run.push(s[at]) + s.skip(at + 1) =~= run + s.skip(at));
    } else {
        assert(run + s.skip(at) =~= run);
    }
}

/// A text that is not empty, does not begin with the delimiter of a
/// client-to-client message and holds no control byte decodes to itself:
/// one segment, plain, with no colour.
pub proof fn lemma_plain_text_roundtrip(bytes: Seq<u8>)
    requires
        bytes.len() > 0,
        bytes[0] != CTCP_DELIMITER,
        forall|i: int| 0 <= i < bytes.len() ==> !is_control(#[trigger] bytes[i]),
    ensures
        decoded(bytes) == unstyled(bytes),
{
    lemma_segments_without_control(bytes, 0, Style::plain(), seq![]);
    assert(seq![] + bytes.skip(0) =~= bytes);
    let only = Segment { text: bytes, style: Style::plain() };
    assert(seq![only].drop_last() =~= seq![]);
    assert(joined(seq![only]) =~= bytes) by {
        reveal_with_fuel(joined, 2);
    }
}

/// The plain text of a decoded text is the text of its segments, joined.
pub proof fn lemma_decoded_plain(bytes: Seq<u8>)
    ensures
        decoded(bytes).plain == joined(decoded(bytes).segments),
{
}

impl Text {
    /// The text without its control bytes.
    pub fn text(&self) -> (plain: &[u8])
        ensures
            plain@ == self@.plain,
    {
        self.raw.as_slice()
    }

    /// The runs of the text, each with its style.
    pub fn chunks(&self) -> (chunks: &[TextChunk])
        ensures
            segments_of(chunks@) == self@.segments,
    {
        self.chunks.as_slice()
    }

    /// Decodes raw bytes: takes a client-to-client envelope off, notes
    /// whether it holds an action, and splits what is left into runs at
    /// the control bytes.
    pub fn from_bytes(bytes: Vec<u8>) -> (text: Text)
        ensures
            text@ == decoded(bytes@),
    {
        let ctcp = bytes.len() > 0 && bytes[0] == CTCP_DELIMITER;
        let mut start: usize = 0;
        let mut end: usize = bytes.len();
        let mut action = false;
        if ctcp {
            start = 1;
            if end > 1 && bytes[end - 1] == CTCP_DELIMITER {
                end = end - 1;
            }
            assert(bytes@.subrange(start as int, end as int) =~= unwrapped(bytes@));
            let tag = "ACTION ".as_bytes();
            if matches_at(vstd::slice::slice_subrange(bytes.as_slice(), start, end), tag, 0) {
                action = true;
                start = start + tag.len();
            }
            proof {
                let inner = unwrapped(bytes@);
                if action_tag().is_prefix_of(inner) {
                    assert(inner.subrange(0, action_tag().len() as int) =~= action_tag());
                }
                if action {
                    assert(action_tag().is_prefix_of(inner));
                    assert(bytes@.subrange(start as int, end as int) =~= inner.skip(
                        action_tag().len() as int,
                    ));
                }
            }
        } else {
            assert(bytes@.subrange(start as int, end as int) =~= bytes@);
        }
        let payload = vstd::slice::slice_subrange(bytes.as_slice(), start, end);
        let ghost all = segments_from(payload@, 0, Style::plain(), seq![]);
        let mut raw: Vec<u8> = Vec::new();
        let mut chunks: Vec<TextChunk> = Vec::new();
        let mut run: Vec<u8> = Vec::new();
        let mut style = Style::new();
        let mut i: usize = 0;
        while i < payload.len()
            invariant
                i <= payload.len(),
                all == segments_of(chunks@) + segments_from(payload@, i as int, style, run@),
                raw@ == joined(segments_of(chunks@)),
            decreases payload.len() - i,
        {
            let b = payload[i];
            if b == BOLD || b == ITALIC || b == UNDERLINE || b == REVERSE || b == RESET || b
                == COLOR {
                let mut next = style.apply(b);
                let mut after: usize = i + 1;
                if b == COLOR {
                    let (fg, bg, stop) = parse_color(payload, i + 1);
                    after = stop;
                    next = match (fg, bg) {
                        (None, _) => Style { fg: DEFAULT_COLOR, bg: DEFAULT_COLOR, ..style },
                        (Some(fg), None) => Style { fg, ..style },
                        (Some(fg), Some(bg)) => Style { fg, bg, ..style },
                    };
                }
                assert(next == restyled(style, payload@, i as int));
                assert(after == control_end(payload@, i as int));
                if run.len() > 0 || next != style {
                    let ghost before = segments_of(chunks@);
                    let ghost closed = Segment { text: run@, style: next };
                    append(&mut raw, run.as_slice());
                    chunks.push(TextChunk::styled(run, next));
                    run = Vec::new();
                    proof {
                        assert(segments_of(chunks@) =~= before.push(closed));
                        lemma_joined_push(before, closed);
                        assert(all =~= before.push(closed) + segments_from(
                            payload@,
                            after as int,
                            next,
                            seq![],
                        ));
                    }
                } else {
                    assert(run@ =~= seq![]);
                }
                style = next;
                i = after;
            } else {
                run.push(b);
                i += 1;
            }
        }
        if run.len() > 0 {
            let ghost before = segments_of(chunks@);
            let ghost closed = Segment { text: run@, style };
            append(&mut raw, run.as_slice());
            chunks.push(TextChunk::styled(run, style));
            proof {
                assert(segments_of(chunks@) =~= before.push(closed));
                lemma_joined_push(before, closed);
                assert(all =~= before.push(closed));
            }
        } else {
            assert(all =~= segments_of(chunks@));
        }
        assert(all == decoded(bytes@).segments);
        assert(ctcp == decoded(bytes@).ctcp);
        assert(action == decoded(bytes@).action);
        Text { raw, chunks, ctcp, action }
    }

    /// A plain text of one segment.
    pub fn from_string(s: Vec<u8>) -> (text: Text)
        ensures
            text@ == unstyled(s@),
    {
        let raw = s.clone();
        let mut chunks: Vec<TextChunk> = Vec::new();
        chunks.push(TextChunk::styled(s, Style::new()));
        assert(segments_of(chunks@) =~= seq![Segment { text: s@, style: Style::plain() }]);
        Text { raw, chunks, ctcp: false, action: false }
    }

    /// The text of an action: one plain segment in an envelope.
    pub fn action(s: Vec<u8>) -> (text: Text)
        ensures
            text@ == (Styled { ctcp: true, action: true, ..unstyled(s@) }),
    {
        let raw = s.clone();
        let mut chunks: Vec<TextChunk> = Vec::new();
        chunks.push(TextChunk::styled(s, Style::new()));
        assert(segments_of(chunks@) =~= seq![Segment { text: s@, style: Style::plain() }]);
        Text { raw, chunks, ctcp: true, action: true }
    }

    /// A nickname between angle brackets, as it stands before a message.
    pub fn decorate_nick(nick: &[u8]) -> (text: Text)
        ensures
            text@ == unstyled(ascii("<") + nick@ + ascii(">")),
    {
        let mut s: Vec<u8> = Vec::new();
        append(&mut s, "<".as_bytes());
        append(&mut s, nick);
        append(&mut s, ">".as_bytes());
        Text::from_string(s)
    }
}

impl Clone for Text {
    fn clone(&self) -> (copy: Text)
        ensures
            copy@ == self@,
    {
        let mut chunks: Vec<TextChunk> = Vec::new();
        let mut i: usize = 0;
        while i < self.chunks.len()
            invariant
                i <= self.chunks.len(),
                segments_of(chunks@) == segments_of(self.chunks@.subrange(0, i as int)),
            decreases self.chunks.len() - i,
        {
            chunks.push(self.chunks[i].clone());
            assert(segments_of(chunks@) =~= segments_of(
                self.chunks@.subrange(0, i as int),
            ).push(self.chunks@[i as int]@));
            assert(segments_of(self.chunks@.subrange(0, i + 1)) =~= segments_of(
                self.chunks@.subrange(0, i as int),
            ).push(self.chunks@[i as int]@));
            i += 1;
        }
        assert(self.chunks@.subrange(0, i as int) =~= self.chunks@);
        Text { raw: self.raw.clone(), chunks, ctcp: self.ctcp, action: self.action }
    }
}

} // verus!
