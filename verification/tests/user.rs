use std::collections::HashSet;

use ircnvim::channel::Channel;
use ircnvim::user::User;

fn named(nick: &[u8]) -> User {
    User::from_nick(nick.to_vec())
}

#[test]
fn equality_ignores_status_marks() {
    assert!(named(b"@nick") == named(b"+nick"));
    assert!(named(b"+nick") == named(b"nick"));
    assert!(named(b"@nick") == named(b"nick"));
    assert!(named(b"@+@nick") == named(b"nick"));
    assert!(named(b"nick") != named(b"nock"));
    assert!(named(b"ni@ck") != named(b"nick"));
}

#[test]
fn equality_ignores_user_name_and_host() {
    let a = User::new(b"nick".to_vec(), Some(b"a".to_vec()), Some(b"x.example".to_vec()));
    let b = User::new(b"@nick".to_vec(), None, Some(b"y.example".to_vec()));
    assert!(a == b);
    assert!(b == a);
    assert!(a == a);
}

#[test]
fn equality_is_transitive_on_examples() {
    let a = named(b"@nick");
    let b = named(b"+nick");
    let c = named(b"nick");
    assert!(a == b && b == c && a == c);
}

#[test]
fn actual_nick_strips_the_leading_run_only() {
    assert_eq!(named(b"@+nick").actual_nick(), b"nick");
    assert_eq!(named(b"nick+").actual_nick(), b"nick+");
    assert_eq!(named(b"@@").actual_nick(), b"");
    assert_eq!(named(b"").actual_nick(), b"");
}

#[test]
fn user_in_full() {
    let user = User::new(b"@nick".to_vec(), Some(b"user".to_vec()), Some(b"host".to_vec()));
    assert_eq!(user.to_string(), b"nick!user@host".to_vec());
    assert_eq!(named(b"nick").to_string(), b"nick!@".to_vec());
    let copy = user.clone();
    assert_eq!(copy.nick, user.nick);
    assert_eq!(copy.username, user.username);
    assert_eq!(copy.host, user.host);
}

#[test]
fn channel_holds_each_user_once() {
    let mut channel = Channel::new(b"#chan");
    assert_eq!(channel.name(), b"#chan");
    assert_eq!(channel.topic(), None);
    assert_eq!(channel.num_users(), 0);
    channel.add_user(named(b"@alice"));
    channel.add_user(named(b"alice"));
    channel.add_user(named(b"+bob"));
    assert_eq!(channel.num_users(), 2);
    assert!(channel.is_user_present(&named(b"alice")));
    assert!(channel.is_user_present(&named(b"@bob")));
    assert!(!channel.is_user_present(&named(b"carol")));
    channel.rename(&named(b"alice"), b"carol");
    assert_eq!(channel.num_users(), 2);
    assert!(!channel.is_user_present(&named(b"alice")));
    assert!(channel.is_user_present(&named(b"carol")));
    channel.rename(&named(b"carol"), b"bob");
    assert_eq!(channel.num_users(), 1);
    channel.remove_user(&named(b"nobody"));
    assert_eq!(channel.num_users(), 1);
    channel.remove_user(&named(b"bob"));
    assert_eq!(channel.num_users(), 0);
    channel.set_topic(b"news".to_vec());
    assert_eq!(channel.topic(), Some(&b"news"[..]));
}

#[test]
fn equal_users_hash_alike() {
    let mut users = HashSet::new();
    assert!(users.insert(named(b"@nick")));
    assert!(!users.insert(named(b"+nick")));
    assert!(!users.insert(User::new(b"nick".to_vec(), Some(b"u".to_vec()), None)));
    assert!(users.insert(named(b"nock")));
    assert_eq!(users.len(), 2);
    assert!(users.contains(&named(b"nick")));
    assert!(users.remove(&named(b"@+nock")));
    assert_eq!(users.len(), 1);
}
