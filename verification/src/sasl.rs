//! What a session sends to prove who it is with a password.
use vstd::prelude::*;
use rustc_serialize::base64::{CharacterSet, Config, Newline, ToBase64};
use crate::bytes::{append, ascii};

verus! {

/// A user name and a password as the plain mechanism wants them: the
/// name twice and the password, with a zero byte between them.
pub open spec fn credentials(username: Seq<u8>, password: Seq<u8>) -> Seq<u8> {
    username + seq![0u8] + username + seq![0u8] + password
}

/// Bytes in base 64, with the standard alphabet, padded, on one line.
pub uninterp spec fn base64_standard(bytes: Seq<u8>) -> Seq<u8>;

/// Bytes in base 64, from `to_base64` of `rustc_serialize` with the
/// standard alphabet, with padding and without line breaks.
///
/// The contract only names the result: it is a function of the bytes
/// alone.
#[verifier::external_body]
pub(crate) fn base64(bytes: &[u8]) -> (text: Vec<u8>)
    ensures
        text@ == base64_standard(bytes@),
{
    bytes.to_base64(
        Config {
            char_set: CharacterSet::Standard,
            newline: Newline::CRLF,
            pad: true,
            line_length: None,
        },
    ).into_bytes()
}

/// A user name and a password as the plain mechanism wants them.
pub fn plain_credentials(username: &[u8], password: &[u8]) -> (out: Vec<u8>)
    ensures
        out@ == credentials(username@, password@),
{
    let mut out: Vec<u8> = Vec::new();
    append(&mut out, username);
    out.push(0);
    append(&mut out, username);
    out.push(0);
    append(&mut out, password);
    assert(out@ =~= credentials(username@, password@));
    out
}

/// The line that hands the server what proves who the session is.
pub open spec fn authenticate(proof_text: Seq<u8>) -> Seq<u8> {
    ascii("AUTHENTICATE ") + proof_text
}

/// The line that hands the server `proof_text`.
pub fn authenticate_line(proof_text: &[u8]) -> (line: Vec<u8>)
    ensures
        line@ == authenticate(proof_text@),
{
    let mut line: Vec<u8> = Vec::new();
    append(&mut line, "AUTHENTICATE ".as_bytes());
    append(&mut line, proof_text);
    line
}

/// The line that hands the server a user name and a password, in base
/// 64.
pub fn authenticate_plain(username: &[u8], password: &[u8]) -> (line: Vec<u8>)
    ensures
        line@ == authenticate(base64_standard(credentials(username@, password@))),
{
    let plain = plain_credentials(username, password);
    let coded = base64(plain.as_slice());
    authenticate_line(coded.as_slice())
}

} // verus!
