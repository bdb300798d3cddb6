use ircnvim::bytes::{
    bytes_eq, contains, decimal_bytes, eq_ignore_case, parse_number, split_words, trim, trim_end,
    trim_start,
};
use ircnvim::config::{AuthMethod, Config, ConfigError};

fn lines(text: &str) -> Vec<Vec<u8>> {
    text.lines().map(|line| line.as_bytes().to_vec()).collect()
}

fn load(text: &str, profile: Option<&str>) -> Result<Config, ConfigError> {
    Config::from_lines(&lines(text), b"/home/me/.ircnvim".to_vec(), profile.map(|p| p.as_bytes().to_vec()))
}

const TWO: &str = "# my profiles\n\nlibera\nnick me\nusername myself\nserver irc.libera.chat:6667\npassword secret\n\nwork\nnick worker\nusername w\nserver irc.example.com:6667\nauth none  \n";

#[test]
fn first_profile_by_default() {
    let config = load(TWO, None).unwrap();
    assert_eq!(config.nick, b"me".to_vec());
    assert_eq!(config.username, b"myself".to_vec());
    assert_eq!(config.password, Some(b"secret".to_vec()));
    assert_eq!(config.server, b"irc.libera.chat:6667".to_vec());
    assert_eq!(config.directory, b"/home/me/.ircnvim".to_vec());
    assert_eq!(config.auth, AuthMethod::SASL);
    let copy = config.clone();
    assert_eq!(copy.nick, config.nick);
    assert_eq!(copy.auth, config.auth);
}

#[test]
fn profile_by_name() {
    let config = load(TWO, Some("work")).unwrap();
    assert_eq!(config.nick, b"worker".to_vec());
    assert_eq!(config.password, None);
    assert_eq!(config.auth, AuthMethod::NoAuth);
    assert_eq!(load(TWO, Some("home")).unwrap_err(), ConfigError::UnknownProfile(b"home".to_vec()));
}

#[test]
fn ways_to_authenticate() {
    let base = "p\nnick n\nusername u\nserver s\n";
    assert_eq!(load(base, None).unwrap().auth, AuthMethod::NoAuth);
    let with = |more: &str| load(&format!("{}{}", base, more), None);
    assert_eq!(with("password x\n").unwrap().auth, AuthMethod::SASL);
    assert_eq!(with("password x\nauth NickServ\n").unwrap().auth, AuthMethod::NickServ);
    assert_eq!(with("password x\nauth SASL\n").unwrap().auth, AuthMethod::SASL);
    assert_eq!(with("password x\nauth none\n").unwrap().auth, AuthMethod::NoAuth);
    assert_eq!(with("auth sasl\n").unwrap_err(), ConfigError::PasswordMissing);
    assert_eq!(with("auth nickserv\n").unwrap_err(), ConfigError::PasswordMissing);
    assert_eq!(with("auth Kerberos\n").unwrap_err(), ConfigError::InvalidAuth(b"kerberos".to_vec()));
}

#[test]
fn what_a_profile_must_have() {
    assert_eq!(load("", None).unwrap_err(), ConfigError::NoProfiles);
    assert_eq!(load("# nothing\n\n", None).unwrap_err(), ConfigError::NoProfiles);
    assert_eq!(load("p\nusername u\nserver s\n", None).unwrap_err(), ConfigError::NickMissing);
    assert_eq!(load("p\nnick n\nserver s\n", None).unwrap_err(), ConfigError::UsernameMissing);
    assert_eq!(load("p\nnick n\nusername u\n", None).unwrap_err(), ConfigError::ServerMissing);
    assert_eq!(
        load("p\nnick n\nusername\n", None).unwrap_err(),
        ConfigError::InvalidOption(b"username".to_vec())
    );
    assert_eq!(
        load("p\nnick a b  \n", None).unwrap_err(),
        ConfigError::InvalidOption(b"nick a b".to_vec())
    );
    assert_eq!(
        load("p\nnick n\nusername u\nserver s\n\nq\nbroken\n", None).unwrap_err(),
        ConfigError::InvalidOption(b"broken".to_vec())
    );
}

#[test]
fn later_lines_win() {
    let config = load("p\nnick a\nusername u\nserver s\nnick b\n", None).unwrap();
    assert_eq!(config.nick, b"b".to_vec());
    let config = load("p\nnick a\nusername u\nserver s\n\np\nnick c\nusername u\nserver t\n", None)
        .unwrap();
    assert_eq!(config.nick, b"c".to_vec());
    assert_eq!(config.server, b"t".to_vec());
}

#[test]
fn errors_in_words() {
    assert_eq!(
        ConfigError::InvalidOption(b"x".to_vec()).describe(),
        b"invalid option in configuration file: x".to_vec()
    );
    assert_eq!(
        ConfigError::UnknownProfile(b"x".to_vec()).describe(),
        b"no profile named x defined in configuration file".to_vec()
    );
    assert_eq!(
        ConfigError::NoProfiles.describe(),
        b"no profiles defined in configuartion file".to_vec()
    );
    assert_eq!(ConfigError::NickMissing.describe(), b"nick is missing from profile".to_vec());
    assert_eq!(
        ConfigError::UsernameMissing.describe(),
        b"username is missing from profile".to_vec()
    );
    assert_eq!(ConfigError::ServerMissing.describe(), b"server is missing from profile".to_vec());
    assert_eq!(
        ConfigError::InvalidAuth(b"x".to_vec()).describe(),
        b"invalid authentication method: x".to_vec()
    );
    assert_eq!(
        ConfigError::PasswordMissing.describe(),
        b"an authentication method was specified but no password was provided".to_vec()
    );
}

#[test]
fn bytes_compared_and_searched() {
    assert!(bytes_eq(b"abc", b"abc"));
    assert!(!bytes_eq(b"abc", b"abd"));
    assert!(!bytes_eq(b"abc", b"ab"));
    assert!(bytes_eq(b"", b""));
    assert!(contains(b"hello world", b"o w"));
    assert!(contains(b"hello", b"hello"));
    assert!(contains(b"hello", b""));
    assert!(contains(b"", b""));
    assert!(!contains(b"hello", b"hello!"));
    assert!(!contains(b"hello", b"lol"));
    assert!(eq_ignore_case(b"JoIn", b"join"));
    assert!(!eq_ignore_case(b"join", b"joy"));
    assert!(!eq_ignore_case(b"[", b"{"));
}

#[test]
fn bytes_trimmed_and_split() {
    assert_eq!(trim(b"  a b \t\r\n"), b"a b");
    assert_eq!(trim_start(b" \t a "), b"a ");
    assert_eq!(trim_end(b" a \x0B\x0C"), b" a");
    assert_eq!(trim(b" \n "), b"");
    assert_eq!(trim(b""), b"");
    assert_eq!(split_words(b"  a bc\t d\n"), vec![b"a".to_vec(), b"bc".to_vec(), b"d".to_vec()]);
    assert_eq!(split_words(b"  "), Vec::<Vec<u8>>::new());
    assert_eq!(split_words(b"one"), vec![b"one".to_vec()]);
}

#[test]
fn numbers_written_and_read() {
    assert_eq!(decimal_bytes(0), b"0".to_vec());
    assert_eq!(decimal_bytes(7), b"7".to_vec());
    assert_eq!(decimal_bytes(1234567890), b"1234567890".to_vec());
    assert_eq!(parse_number(b"0", 100), Some(0));
    assert_eq!(parse_number(b"007", 100), Some(7));
    assert_eq!(parse_number(b"100", 100), Some(100));
    assert_eq!(parse_number(b"101", 100), None);
    assert_eq!(parse_number(b"99999999999999999999999999", 100), None);
    assert_eq!(parse_number(b"", 100), None);
    assert_eq!(parse_number(b"12a", 100), None);
    assert_eq!(parse_number(b"+1", 100), None);
}
