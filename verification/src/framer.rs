//! Frames: the lines of the server, cut out of the stream of bytes that
//! arrives bit by bit.
use vstd::prelude::*;
use crate::bytes::{append, copy_range};

verus! {

/// How many bytes the buffer of a framer holds at most.
pub const BUFFER_SIZE: usize = 512;

pub const CR: u8 = 0x0D;

pub const LF: u8 = 0x0A;

/// A frame ends at `at`: a carriage return stands there and a line feed
/// behind it.
pub open spec fn ends_at(s: Seq<u8>, at: int) -> bool {
    0 <= at && at + 1 < s.len() && s[at] == CR && s[at + 1] == LF
}

/// The first place from `from` on where a frame ends, or none.
pub open spec fn terminator_from(s: Seq<u8>, from: int) -> Option<int>
    decreases s.len() - from,
{
    if from < 0 || from + 1 >= s.len() {
        None
    } else if s[from] == CR && s[from + 1] == LF {
        Some(from)
    } else {
        terminator_from(s, from + 1)
    }
}

/// The first place where a frame ends, or none.
pub open spec fn terminator(s: Seq<u8>) -> Option<int> {
    terminator_from(s, 0)
}

/// The frames that a stream holds in full, in order, and the bytes
/// behind the last of them.
pub open spec fn frames_of(s: Seq<u8>) -> (Seq<Seq<u8>>, Seq<u8>)
    decreases s.len(),
{
    match terminator(s) {
        Some(at) => if 0 <= at && at + 2 <= s.len() {
            let rest = frames_of(s.skip(at + 2));
            (seq![s.take(at)] + rest.0, rest.1)
        } else {
            (seq![], s)
        },
        None => (seq![], s),
    }
}

/// What `terminator_from` finds is the first end of a frame from `from`
/// on.
pub proof fn lemma_terminator_from(s: Seq<u8>, from: int)
    requires
        0 <= from,
    ensures
        match terminator_from(s, from) {
            Some(at) => from <= at && ends_at(s, at) && forall|k: int|
                from <= k < at ==> !ends_at(s, k),
            None => forall|k: int| from <= k ==> !ends_at(s, k),
        },
    decreases s.len() - from,
{
    if from + 1 < s.len() && !(s[from] == CR && s[from + 1] == LF) {
        lemma_terminator_from(s, from + 1);
    }
}

/// A place where a frame ends and before which none ends is the
/// terminator.
pub proof fn lemma_terminator_unique(s: Seq<u8>, from: int, at: int)
    requires
        0 <= from <= at,
        ends_at(s, at),
        forall|k: int| from <= k < at ==> !ends_at(s, k),
    ensures
        terminator_from(s, from) == Some(at),
    decreases at - from,
{
    if from < at {
        assert(!ends_at(s, from));
        lemma_terminator_unique(s, from + 1, at);
    }
}

/// The frames of a stream do not depend on where the stream was cut: to
/// take the frames of a first part, and then those of what it left with a
/// second part behind it, gives the frames of the whole, and leaves the
/// same bytes.
pub proof fn lemma_frames_of_split(a: Seq<u8>, b: Seq<u8>)
    ensures
        frames_of(a + b).0 == frames_of(a).0 + frames_of(frames_of(a).1 + b).0,
        frames_of(a + b).1 == frames_of(frames_of(a).1 + b).1,
    decreases a.len(),
{
    lemma_terminator_from(a, 0);
    match terminator(a) {
        Some(at) => {
            let whole = a + b;
            assert forall|k: int| 0 <= k < at implies !ends_at(whole, k) by {
                assert(!ends_at(a, k));
                assert(whole[k] == a[k] && whole[k + 1] == a[k + 1]);
            }
            assert(whole[at] == a[at] && whole[at + 1] == a[at + 1]);
            lemma_terminator_unique(whole, 0, at);
            assert(whole.skip(at + 2) =~= a.skip(at + 2) + b);
            assert(whole.take(at) =~= a.take(at));
            lemma_frames_of_split(a.skip(at + 2), b);
            let rest = frames_of(a.skip(at + 2));
            assert(seq![a.take(at)] + (rest.0 + frames_of(rest.1 + b).0) =~= (seq![a.take(at)]
                + rest.0) + frames_of(rest.1 + b).0);
        },
        None => {
            assert(seq![] + frames_of(a + b).0 =~= frames_of(a + b).0);
        },
    }
}

/// Why the stream gives no frame.
#[derive(Debug, Clone, Copy, PartialEq, Eq, Structural)]
pub enum FramingError {
    /// More bytes came than the buffer has room for.
    Overflow,
}

/// What a framer asks for next.
#[derive(Debug)]
pub enum Step {
    /// A frame, without the two bytes that end it.
    Frame(Vec<u8>),
    /// No frame is whole yet: read at most so many bytes and feed them.
    Read(usize),
    /// The buffer is full and holds no frame.
    Overflow,
}

pub struct Framer {
    buf: Vec<u8>,
}

impl View for Framer {
    type V = Seq<u8>;

    closed spec fn view(&self) -> Seq<u8> {
        self.buf@
    }
}

impl Framer {
    /// The buffer holds no more than its size.
    pub open spec fn wf(&self) -> bool {
        self@.len() <= BUFFER_SIZE
    }

    /// A framer that holds nothing.
    pub fn new() -> (framer: Framer)
        ensures
            framer.wf(),
            framer@ == Seq::<u8>::empty(),
    {
        Framer { buf: Vec::new() }
    }

    /// How many bytes are held.
    pub fn len(&self) -> (held: usize)
        ensures
            held == self@.len(),
    {
        self.buf.len()
    }

    /// Puts bytes that were read behind those that are held, or refuses
    /// them where they are more than there is room for.
    pub fn feed(&mut self, chunk: &[u8]) -> (result: Result<(), FramingError>)
        requires
            old(self).wf(),
        ensures
            final(self).wf(),
            match result {
                Ok(_) => old(self)@.len() + chunk@.len() <= BUFFER_SIZE && final(self)@ == old(
                    self,
                )@ + chunk@,
                Err(error) => old(self)@.len() + chunk@.len() > BUFFER_SIZE && final(self)@ == old(
                    self,
                )@ && error == FramingError::Overflow,
            },
    {
        if chunk.len() > BUFFER_SIZE - self.buf.len() {
            return Err(FramingError::Overflow);
        }
        append(&mut self.buf, chunk);
        Ok(())
    }

    /// Takes the first frame out of the buffer, where one is whole: the
    /// bytes before the first carriage return with a line feed behind it.
    /// What follows those two bytes moves to the front.
    pub fn next_frame(&mut self) -> (frame: Option<Vec<u8>>)
        requires
            old(self).wf(),
        ensures
            final(self).wf(),
            match frame {
                Some(bytes) => terminator(old(self)@) matches Some(at) && bytes@ == old(
                    self,
                )@.take(at) && final(self)@ == old(self)@.skip(at + 2),
                None => terminator(old(self)@) is None && final(self)@ == old(self)@,
            },
    {
        let mut i: usize = 0;
        while i + 1 < self.buf.len()
            invariant
                self.buf == old(self).buf,
                self.buf.len() <= BUFFER_SIZE,
                i <= self.buf.len(),
                forall|k: int| 0 <= k < i ==> !ends_at(self.buf@, k),
            decreases self.buf.len() - i,
        {
            if self.buf[i] == CR && self.buf[i + 1] == LF {
                proof {
                    lemma_terminator_unique(self.buf@, 0, i as int);
                }
                let frame = copy_range(self.buf.as_slice(), 0, i);
                let rest = copy_range(self.buf.as_slice(), i + 2, self.buf.len());
                assert(frame@ =~= old(self)@.take(i as int));
                assert(rest@ =~= old(self)@.skip(i + 2));
                self.buf = rest;
                return Some(frame);
            }
            i += 1;
        }
        proof {
            lemma_terminator_from(self.buf@, 0);
            if terminator(self.buf@) is Some {
                let at = terminator(self.buf@)->Some_0;
                assert(ends_at(self.buf@, at));
                assert(at < i);
            }
        }
        None
    }

    /// Takes every frame that is whole out of the buffer, in order. What
    /// is left is the beginning of a frame that is not whole yet.
    pub fn drain(&mut self) -> (frames: Vec<Vec<u8>>)
        requires
            old(self).wf(),
        ensures
            final(self).wf(),
            frames@.map_values(|frame: Vec<u8>| frame@) == frames_of(old(self)@).0,
            final(self)@ == frames_of(old(self)@).1,
    {
        let mut frames: Vec<Vec<u8>> = Vec::new();
        let ghost all = frames_of(self@);
        assert(frames@.map_values(|frame: Vec<u8>| frame@) + all.0 =~= all.0);
        loop
            invariant
                self.wf(),
                all.0 == frames@.map_values(|frame: Vec<u8>| frame@) + frames_of(self@).0,
                all.1 == frames_of(self@).1,
            ensures
                self.wf(),
                all.0 == frames@.map_values(|frame: Vec<u8>| frame@),
                all.1 == self@,
            decreases self@.len(),
        {
            let ghost held = self@;
            let ghost taken = frames@.map_values(|frame: Vec<u8>| frame@);
            proof {
                lemma_terminator_from(held, 0);
            }
            match self.next_frame() {
                Some(frame) => {
                    frames.push(frame);
                    proof {
                        let at = terminator(held)->Some_0;
                        assert(frames@.map_values(|frame: Vec<u8>| frame@) =~= taken.push(
                            held.take(at),
                        ));
                        assert(taken + (seq![held.take(at)] + frames_of(held.skip(at + 2)).0)
                            =~= taken.push(held.take(at)) + frames_of(held.skip(at + 2)).0);
                    }
                },
                None => {
                    assert(taken + Seq::<Seq<u8>>::empty() =~= taken);
                    break ;
                },
            }
        }
        frames
    }

    /// Gives the next frame, or says how many bytes may be read, or that
    /// the buffer is full of bytes that hold no frame.
    pub fn step(&mut self) -> (step: Step)
        requires
            old(self).wf(),
        ensures
            final(self).wf(),
            match step {
                Step::Frame(bytes) => terminator(old(self)@) matches Some(at) && bytes@ == old(
                    self,
                )@.take(at) && final(self)@ == old(self)@.skip(at + 2),
                Step::Read(room) => terminator(old(self)@) is None && final(self)@ == old(self)@
                    && room == BUFFER_SIZE - old(self)@.len() && room > 0,
                Step::Overflow => terminator(old(self)@) is None && final(self)@ == old(self)@
                    && old(self)@.len() == BUFFER_SIZE,
            },
    {
        match self.next_frame() {
            Some(bytes) => Step::Frame(bytes),
            None => {
                if self.buf.len() >= BUFFER_SIZE {
                    Step::Overflow
                } else {
                    Step::Read(BUFFER_SIZE - self.buf.len())
                }
            },
        }
    }
}

/// A line as it goes to the server: the text and the two bytes that end
/// a frame.
pub open spec fn wire(text: Seq<u8>) -> Seq<u8> {
    text + seq![CR, LF]
}

/// Ends a line for the server.
pub fn to_wire(text: &[u8]) -> (line: Vec<u8>)
    ensures
        line@ == wire(text@),
{
    let mut line: Vec<u8> = Vec::new();
    append(&mut line, text);
    line.push(CR);
    line.push(LF);
    assert(line@ =~= wire(text@));
    line
}

} // verus!
