//! Channels: a name, a topic, and the users that are in it.
use vstd::prelude::*;
use vstd::string::StringSliceAdditionalSpecFns;
use crate::bytes::bytes_eq;
use crate::user::{bare_nick, option_view, User};

verus! {

/// Whether a name is that of a channel: it begins with one of `#&+!~`.
pub open spec fn channel_name(name: Seq<u8>) -> bool {
    name.len() > 0 && (name[0] == 0x23 || name[0] == 0x26 || name[0] == 0x2B || name[0] == 0x21
        || name[0] == 0x7E)
}

/// Whether the bytes of a name are those of a channel's name.
pub fn names_channel(name: &[u8]) -> (is: bool)
    ensures
        is == channel_name(name@),
{
    name.len() > 0 && (name[0] == 0x23 || name[0] == 0x26 || name[0] == 0x2B || name[0] == 0x21
        || name[0] == 0x7E)
}

pub trait IsChannelName {
    /// The bytes of the name.
    spec fn name_bytes(&self) -> Seq<u8>;

    fn is_channel_name(&self) -> (is: bool)
        ensures
            is == channel_name(self.name_bytes()),
    ;
}

impl<'a> IsChannelName for &'a str {
    open spec fn name_bytes(&self) -> Seq<u8> {
        self.spec_bytes()
    }

    fn is_channel_name(&self) -> (is: bool) {
        names_channel(self.as_bytes())
    }
}

impl IsChannelName for String {
    open spec fn name_bytes(&self) -> Seq<u8> {
        vstd::utf8::encode_utf8(self@)
    }

    fn is_channel_name(&self) -> (is: bool) {
        names_channel(self.as_str().as_bytes())
    }
}

impl<'a> IsChannelName for &'a [u8] {
    open spec fn name_bytes(&self) -> Seq<u8> {
        self@
    }

    fn is_channel_name(&self) -> (is: bool) {
        names_channel(self)
    }
}

impl IsChannelName for Vec<u8> {
    open spec fn name_bytes(&self) -> Seq<u8> {
        self@
    }

    fn is_channel_name(&self) -> (is: bool) {
        names_channel(self.as_slice())
    }
}

/// What tells each of a row of users from the others.
pub open spec fn identities(users: Seq<User>) -> Seq<Seq<u8>> {
    users.map_values(|user: User| user.identity())
}

pub struct Channel {
    name: Vec<u8>,
    topic: Option<Vec<u8>>,
    users: Vec<User>,
}

/// What a channel holds: the users as the set of their bare nicknames.
pub struct ChannelView {
    pub name: Seq<u8>,
    pub topic: Option<Seq<u8>>,
    pub members: Set<Seq<u8>>,
}

impl View for Channel {
    type V = ChannelView;

    closed spec fn view(&self) -> ChannelView {
        ChannelView {
            name: self.name@,
            topic: option_view(self.topic),
            members: identities(self.users@).to_set(),
        }
    }
}

/// Taking one of a row of distinct items out takes it out of their set.
proof fn lemma_remove_distinct(row: Seq<Seq<u8>>, i: int)
    requires
        row.no_duplicates(),
        0 <= i < row.len(),
    ensures
        row.remove(i).no_duplicates(),
        row.remove(i).to_set() == row.to_set().remove(row[i]),
{
    let rest = row.remove(i);
    assert forall|a: int, b: int| 0 <= a < rest.len() && 0 <= b < rest.len() && a != b implies rest[a]
        != rest[b] by {
        let a0 = if a < i {
            a
        } else {
            a + 1
        };
        let b0 = if b < i {
            b
        } else {
            b + 1
        };
        assert(rest[a] == row[a0] && rest[b] == row[b0]);
    }
    assert forall|x: Seq<u8>| rest.to_set().contains(x) <==> row.to_set().remove(row[i]).contains(
        x,
    ) by {
        if rest.to_set().contains(x) {
            let k = choose|k: int| 0 <= k < rest.len() && rest[k] == x;
            let k0 = if k < i {
                k
            } else {
                k + 1
            };
            assert(row[k0] == x);
        }
        if row.to_set().remove(row[i]).contains(x) {
            let k = choose|k: int| 0 <= k < row.len() && row[k] == x;
            let k1 = if k < i {
                k
            } else {
                k - 1
            };
            assert(rest[k1] == x);
        }
    }
    assert(rest.to_set() =~= row.to_set().remove(row[i]));
}

/// Adding a new item to a row of distinct items adds it to their set.
proof fn lemma_push_distinct(row: Seq<Seq<u8>>, item: Seq<u8>)
    requires
        row.no_duplicates(),
        !row.contains(item),
    ensures
        row.push(item).no_duplicates(),
        row.push(item).to_set() == row.to_set().insert(item),
{
    let more = row.push(item);
    assert forall|x: Seq<u8>| more.to_set().contains(x) <==> row.to_set().insert(item).contains(
        x,
    ) by {
        if more.to_set().contains(x) {
            let k = choose|k: int| 0 <= k < more.len() && more[k] == x;
            if k < row.len() {
                assert(row[k] == x);
            }
        }
        if row.to_set().contains(x) {
            let k = choose|k: int| 0 <= k < row.len() && row[k] == x;
            assert(more[k] == x);
        }
        if x == item {
            assert(more[row.len() as int] == x);
        }
    }
    assert(more.to_set() =~= row.to_set().insert(item));
}

impl Channel {
    /// No user is in the channel twice.
    pub closed spec fn wf(&self) -> bool {
        identities(self.users@).no_duplicates()
    }

    pub fn new(name: &[u8]) -> (channel: Channel)
        ensures
            channel.wf(),
            channel@ == (ChannelView { name: name@, topic: None, members: Set::empty() }),
    {
        let mut own: Vec<u8> = Vec::new();
        crate::bytes::append(&mut own, name);
        let channel = Channel { name: own, topic: None, users: Vec::new() };
        assert(identities(channel.users@).to_set() =~= Set::empty());
        channel
    }

    /// The name of the channel.
    pub fn name(&self) -> (name: &[u8])
        ensures
            name@ == self@.name,
    {
        self.name.as_slice()
    }

    /// The topic, where one was set.
    pub fn topic(&self) -> (topic: Option<&[u8]>)
        ensures
            match topic {
                Some(text) => self@.topic == Some(text@),
                None => self@.topic is None,
            },
    {
        match &self.topic {
            Some(text) => Some(text.as_slice()),
            None => None,
        }
    }

    /// The place of the user with this bare nickname, if it is in.
    fn position(&self, identity: &[u8]) -> (place: Option<usize>)
        ensures
            match place {
                Some(i) => i < self.users.len() && identities(self.users@)[i as int] == identity@,
                None => !identities(self.users@).contains(identity@),
            },
    {
        let mut i: usize = 0;
        while i < self.users.len()
            invariant
                i <= self.users.len(),
                forall|k: int| 0 <= k < i ==> identities(self.users@)[k] != identity@,
            decreases self.users.len() - i,
        {
            if bytes_eq(self.users[i].actual_nick(), identity) {
                return Some(i);
            }
            i += 1;
        }
        None
    }

    /// Puts a user in, unless one of the same nickname is in already.
    pub fn add_user(&mut self, user: User)
        requires
            old(self).wf(),
        ensures
            final(self).wf(),
            final(self)@ == (ChannelView {
                members: old(self)@.members.insert(user.identity()),
                ..old(self)@
            }),
    {
        let ghost row = identities(self.users@);
        match self.position(user.actual_nick()) {
            Some(i) => {
                assert(row.to_set().contains(row[i as int]));
                assert(row.to_set().insert(user.identity()) =~= row.to_set());
            },
            None => {
                proof {
                    lemma_push_distinct(row, user.identity());
                    assert(identities(self.users@.push(user)) =~= row.push(user.identity()));
                }
                self.users.push(user);
            },
        }
    }

    /// Takes the user of this nickname out, if it is in.
    pub fn remove_user(&mut self, user: &User)
        requires
            old(self).wf(),
        ensures
            final(self).wf(),
            final(self)@ == (ChannelView {
                members: old(self)@.members.remove(user.identity()),
                ..old(self)@
            }),
    {
        let ghost row = identities(self.users@);
        match self.position(user.actual_nick()) {
            Some(i) => {
                proof {
                    lemma_remove_distinct(row, i as int);
                    assert(identities(self.users@.remove(i as int)) =~= row.remove(i as int));
                }
                self.users.remove(i);
            },
            None => {
                assert(!row.to_set().contains(user.identity()));
                assert(row.to_set().remove(user.identity()) =~= row.to_set());
            },
        }
    }

    /// Takes the user out and puts one of the new nickname in.
    pub fn rename(&mut self, user: &User, new_nick: &[u8])
        requires
            old(self).wf(),
        ensures
            final(self).wf(),
            final(self)@ == (ChannelView {
                members: old(self)@.members.remove(user.identity()).insert(bare_nick(new_nick@)),
                ..old(self)@
            }),
    {
        self.remove_user(user);
        let mut nick: Vec<u8> = Vec::new();
        crate::bytes::append(&mut nick, new_nick);
        self.add_user(User::from_nick(nick));
    }

    pub fn is_user_present(&self, user: &User) -> (present: bool)
        ensures
            present == self@.members.contains(user.identity()),
    {
        self.position(user.actual_nick()).is_some()
    }

    pub fn set_topic(&mut self, topic: Vec<u8>)
        requires
            old(self).wf(),
        ensures
            final(self).wf(),
            final(self)@ == (ChannelView { topic: Some(topic@), ..old(self)@ }),
    {
        self.topic = Some(topic);
    }

    pub fn num_users(&self) -> (count: usize)
        requires
            self.wf(),
        ensures
            self@.members.finite(),
            count == self@.members.len(),
    {
        proof {
            identities(self.users@).unique_seq_to_set();
        }
        self.users.len()
    }
}

} // verus!
