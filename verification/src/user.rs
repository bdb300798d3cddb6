//! Users, told apart by their nickname alone.
use vstd::prelude::*;
use vstd::slice::slice_subrange;
use vstd::std_specs::cmp::PartialEqSpec;
use crate::bytes::{append, ascii, bytes_eq, first_of};

verus! {

pub const OPERATOR_MARK: u8 = 0x40;

pub const VOICE_MARK: u8 = 0x2B;

/// The bytes that are not status marks.
pub open spec fn unmarked() -> Set<u8> {
    Set::new(|b: u8| b != OPERATOR_MARK && b != VOICE_MARK)
}

/// A nickname without the run of status marks (`@`, `+`) that it begins
/// with.
pub open spec fn bare_nick(nick: Seq<u8>) -> Seq<u8> {
    nick.skip(first_of(nick, 0, unmarked()))
}

/// The bytes held by an optional field.
pub open spec fn option_view(field: Option<Vec<u8>>) -> Option<Seq<u8>> {
    match field {
        Some(bytes) => Some(bytes@),
        None => None,
    }
}

/// A copy of an optional field.
pub fn copy_option(field: &Option<Vec<u8>>) -> (copy: Option<Vec<u8>>)
    ensures
        option_view(copy) == option_view(*field),
{
    match field {
        Some(bytes) => Some(bytes.clone()),
        None => None,
    }
}

#[derive(Debug)]
pub struct User {
    pub nick: Vec<u8>,
    pub username: Option<Vec<u8>>,
    pub host: Option<Vec<u8>>,
}

/// What a `User` holds.
pub struct UserView {
    pub nick: Seq<u8>,
    pub username: Option<Seq<u8>>,
    pub host: Option<Seq<u8>>,
}

impl View for User {
    type V = UserView;

    open spec fn view(&self) -> UserView {
        UserView {
            nick: self.nick@,
            username: option_view(self.username),
            host: option_view(self.host),
        }
    }
}

impl Clone for User {
    fn clone(&self) -> (copy: User)
        ensures
            copy@ == self@,
    {
        User {
            nick: self.nick.clone(),
            username: copy_option(&self.username),
            host: copy_option(&self.host),
        }
    }
}

/// The bytes of an optional field, or none where it is not there.
pub open spec fn or_empty(field: Option<Seq<u8>>) -> Seq<u8> {
    match field {
        Some(bytes) => bytes,
        None => seq![],
    }
}

/// A user in full: the bare nickname, `!`, the user name, `@`, the host.
pub open spec fn full_name(user: UserView) -> Seq<u8> {
    bare_nick(user.nick) + ascii("!") + or_empty(user.username) + ascii("@") + or_empty(user.host)
}

impl User {
    /// What tells this user from others: the nickname without its status
    /// marks.
    pub open spec fn identity(&self) -> Seq<u8> {
        bare_nick(self.nick@)
    }

    pub fn new(nick: Vec<u8>, username: Option<Vec<u8>>, host: Option<Vec<u8>>) -> (user: User)
        ensures
            user.nick == nick,
            user.username == username,
            user.host == host,
    {
        User { nick, username, host }
    }

    pub fn from_nick(nick: Vec<u8>) -> (user: User)
        ensures
            user.nick == nick,
            user.username is None,
            user.host is None,
    {
        User { nick, username: None, host: None }
    }

    /// The user in full: the bare nickname, the user name and the host.
    pub fn to_string(&self) -> (text: Vec<u8>)
        ensures
            text@ == full_name(self@),
    {
        let mut text: Vec<u8> = Vec::new();
        append(&mut text, self.actual_nick());
        append(&mut text, "!".as_bytes());
        match &self.username {
            Some(username) => append(&mut text, username.as_slice()),
            None => {},
        }
        append(&mut text, "@".as_bytes());
        match &self.host {
            Some(host) => append(&mut text, host.as_slice()),
            None => {},
        }
        text
    }

    pub fn actual_nick(&self) -> (bare: &[u8])
        ensures
            bare@ == self.identity(),
    {
        let mut i: usize = 0;
        while i < self.nick.len() && (self.nick[i] == OPERATOR_MARK || self.nick[i] == VOICE_MARK)
            invariant
                i <= self.nick.len(),
                forall|k: int| 0 <= k < i ==> !unmarked().contains(#[trigger] self.nick@[k]),
            decreases self.nick.len() - i,
        {
            i += 1;
        }
        proof {
            crate::bytes::lemma_first_of_unique(self.nick@, 0, unmarked(), i as int);
        }
        slice_subrange(self.nick.as_slice(), i, self.nick.len())
    }
}

impl PartialEq for User {
    fn eq(&self, other: &User) -> (same: bool) {
        bytes_eq(self.actual_nick(), other.actual_nick())
    }
}

/// `hash` of a slice, from std: it feeds the items of the slice to the
/// hasher. Nothing is claimed of what the hasher then holds.
pub assume_specification<T: core::hash::Hash, H: core::hash::Hasher>[ <[T] as core::hash::Hash>::hash ](
    slice: &[T],
    state: &mut H,
);

/// Users that are equal hash alike: what is hashed is the bare nickname.
impl core::hash::Hash for User {
    fn hash<H: core::hash::Hasher>(&self, state: &mut H) {
        self.actual_nick().hash(state);
    }
}

impl Eq for User {

}

impl vstd::std_specs::cmp::PartialEqSpecImpl for User {
    open spec fn obeys_eq_spec() -> bool {
        true
    }

    open spec fn eq_spec(&self, other: &User) -> bool {
        self.identity() == other.identity()
    }
}

/// Every user equals itself.
pub proof fn lemma_eq_reflexive(a: User)
    ensures
        PartialEqSpec::eq_spec(&a, &a),
{
}

/// Equality of users does not depend on the side.
pub proof fn lemma_eq_symmetric(a: User, b: User)
    ensures
        PartialEqSpec::eq_spec(&a, &b) == PartialEqSpec::eq_spec(&b, &a),
{
}

/// Two users equal to a third are equal.
pub proof fn lemma_eq_transitive(a: User, b: User, c: User)
    requires
        PartialEqSpec::eq_spec(&a, &b),
        PartialEqSpec::eq_spec(&b, &c),
    ensures
        PartialEqSpec::eq_spec(&a, &c),
{
}

/// Status marks before a nickname do not change who the user is, and
/// neither do the user name and the host.
pub proof fn lemma_eq_ignores_marks(a: User, b: User, marks: Seq<u8>)
    requires
        forall|i: int| 0 <= i < marks.len() ==> marks[i] == OPERATOR_MARK || marks[i] == VOICE_MARK,
        a.nick@ == marks + b.nick@,
    ensures
        PartialEqSpec::eq_spec(&a, &b),
{
    lemma_bare_nick_after_marks(marks, b.nick@);
}

/// Stripping a nickname that follows a run of marks strips the run too.
pub proof fn lemma_bare_nick_after_marks(marks: Seq<u8>, nick: Seq<u8>)
    requires
        forall|i: int| 0 <= i < marks.len() ==> marks[i] == OPERATOR_MARK || marks[i] == VOICE_MARK,
    ensures
        bare_nick(marks + nick) == bare_nick(nick),
{
    let whole = marks + nick;
    let run = first_of(nick, 0, unmarked());
    crate::bytes::lemma_first_of(nick, 0, unmarked());
    assert forall|i: int| 0 <= i < marks.len() + run implies !unmarked().contains(
        #[trigger] whole[i],
    ) by {
        if i >= marks.len() {
            assert(whole[i] == nick[i - marks.len()]);
        }
    }
    if run < nick.len() {
        assert(whole[marks.len() + run] == nick[run]);
    }
    crate::bytes::lemma_first_of_unique(whole, 0, unmarked(), marks.len() + run);
    assert(whole.skip(marks.len() + run) =~= nick.skip(run));
}

} // verus!
