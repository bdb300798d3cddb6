//! Whether a text speaks of a nickname.
use vstd::prelude::*;
use crate::bytes::{append, ascii};

verus! {

pub const BACKSLASH: u8 = 0x5C;

/// A byte that a regular expression reads as a command: one of
/// `\ . + * ? ( ) | [ ] { } ^ $ # & - ~`.
pub open spec fn is_meta(b: u8) -> bool {
    b == 0x5C || b == 0x2E || b == 0x2B || b == 0x2A || b == 0x3F || b == 0x28 || b == 0x29 || b
        == 0x7C || b == 0x5B || b == 0x5D || b == 0x7B || b == 0x7D || b == 0x5E || b == 0x24 || b
        == 0x23 || b == 0x26 || b == 0x2D || b == 0x7E
}

/// `text` with a backslash before each byte that a regular expression
/// reads as a command, so that the whole is read as `text` itself.
pub open spec fn escaped(text: Seq<u8>) -> Seq<u8>
    decreases text.len(),
{
    if text.len() == 0 {
        seq![]
    } else if is_meta(text.last()) {
        escaped(text.drop_last()).push(BACKSLASH).push(text.last())
    } else {
        escaped(text.drop_last()).push(text.last())
    }
}

/// What may stand on either side of a nickname that is spoken of: a
/// character that is no capital letter, or the edge of a word.
pub open spec fn edge() -> Seq<u8> {
    ascii("([^A-Z]|\\b)")
}

/// The regular expression that finds a nickname in a text.
pub open spec fn nick_pattern(nick: Seq<u8>) -> Seq<u8> {
    edge() + escaped(nick) + edge()
}

/// Whether the regular expression `pattern` matches somewhere in `text`,
/// or nothing where `pattern` is no regular expression.
pub uninterp spec fn regex_search(pattern: Seq<u8>, text: Seq<u8>) -> Option<bool>;

/// Compiles `pattern` with `regex::bytes::Regex::new` and asks
/// `Regex::is_match` whether it matches somewhere in `text`.
///
/// Nothing comes back where the pattern is not UTF-8 or the crate refuses
/// it. The contract only names the result: it is a function of the two
/// arguments alone.
#[verifier::external_body]
pub(crate) fn search(pattern: &[u8], text: &[u8]) -> (found: Option<bool>)
    ensures
        found == regex_search(pattern@, text@),
{
    let pattern = std::str::from_utf8(pattern).ok()?;
    let regex = regex::bytes::Regex::new(pattern).ok()?;
    Some(regex.is_match(text))
}

/// Puts a backslash before each byte that a regular expression reads as
/// a command.
pub fn escape(text: &[u8]) -> (out: Vec<u8>)
    ensures
        out@ == escaped(text@),
{
    let mut out: Vec<u8> = Vec::new();
    let mut i: usize = 0;
    while i < text.len()
        invariant
            i <= text.len(),
            out@ == escaped(text@.subrange(0, i as int)),
        decreases text.len() - i,
    {
        let b = text[i];
        proof {
            let next = text@.subrange(0, i + 1);
            assert(next.drop_last() =~= text@.subrange(0, i as int));
            assert(next.last() == b);
        }
        if b == 0x5C || b == 0x2E || b == 0x2B || b == 0x2A || b == 0x3F || b == 0x28 || b == 0x29
            || b == 0x7C || b == 0x5B || b == 0x5D || b == 0x7B || b == 0x7D || b == 0x5E || b
            == 0x24 || b == 0x23 || b == 0x26 || b == 0x2D || b == 0x7E {
            out.push(BACKSLASH);
        }
        out.push(b);
        i += 1;
    }
    assert(text@.subrange(0, i as int) =~= text@);
    out
}

/// The regular expression that finds `nick` in a text.
pub fn pattern_for(nick: &[u8]) -> (pattern: Vec<u8>)
    ensures
        pattern@ == nick_pattern(nick@),
{
    let mut pattern: Vec<u8> = Vec::new();
    append(&mut pattern, "([^A-Z]|\\b)".as_bytes());
    let quoted = escape(nick);
    append(&mut pattern, quoted.as_slice());
    append(&mut pattern, "([^A-Z]|\\b)".as_bytes());
    pattern
}

/// Whether the search for `nick` in a text found it.
pub open spec fn found_in(outcome: Option<bool>) -> bool {
    outcome == Some(true)
}

/// Whether `text` speaks of `nick`.
pub fn mentions(nick: &[u8], text: &[u8]) -> (found: bool)
    ensures
        found == found_in(regex_search(nick_pattern(nick@), text@)),
{
    let pattern = pattern_for(nick);
    match search(pattern.as_slice(), text) {
        Some(found) => found,
        None => false,
    }
}

} // verus!
