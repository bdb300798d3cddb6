//! What a session is set up with.
use vstd::prelude::*;
use vstd::slice::slice_to_vec;
use crate::bytes::{
    append, ascii, bytes_eq, find_first, first_of, lowered, trim_end, trimmed_end, SPACE,
};
use crate::user::{copy_option, option_view};

verus! {

/// How the session tells the server who it is.
#[derive(Debug, Clone, Copy, PartialEq, Eq, Structural)]
pub enum AuthMethod {
    NoAuth,
    NickServ,
    SASL,
}

#[derive(Debug)]
pub struct Config {
    pub nick: Vec<u8>,
    pub username: Vec<u8>,
    pub password: Option<Vec<u8>>,
    pub server: Vec<u8>,
    pub directory: Vec<u8>,
    pub auth: AuthMethod,
}

/// What a `Config` holds.
pub struct ConfigView {
    pub nick: Seq<u8>,
    pub username: Seq<u8>,
    pub password: Option<Seq<u8>>,
    pub server: Seq<u8>,
    pub directory: Seq<u8>,
    pub auth: AuthMethod,
}

impl View for Config {
    type V = ConfigView;

    open spec fn view(&self) -> ConfigView {
        ConfigView {
            nick: self.nick@,
            username: self.username@,
            password: option_view(self.password),
            server: self.server@,
            directory: self.directory@,
            auth: self.auth,
        }
    }
}

pub const HASH: u8 = 0x23;

/// Why a text sets up no session.
#[derive(Debug, PartialEq, Eq)]
pub enum ConfigError {
    /// A line of a profile is not a name, one space and a value.
    InvalidOption(Vec<u8>),
    /// The text has no profile of the name that was asked for.
    UnknownProfile(Vec<u8>),
    /// The text has no profile.
    NoProfiles,
    /// The profile lacks the nickname.
    NickMissing,
    /// The profile lacks the user name.
    UsernameMissing,
    /// The profile lacks the server.
    ServerMissing,
    /// The profile names a way to authenticate that is not known.
    InvalidAuth(Vec<u8>),
    /// The profile asks for authentication and has no password.
    PasswordMissing,
}

/// What a `ConfigError` holds.
pub enum ConfigFault {
    InvalidOption(Seq<u8>),
    UnknownProfile(Seq<u8>),
    NoProfiles,
    NickMissing,
    UsernameMissing,
    ServerMissing,
    InvalidAuth(Seq<u8>),
    PasswordMissing,
}

impl View for ConfigError {
    type V = ConfigFault;

    open spec fn view(&self) -> ConfigFault {
        match self {
            ConfigError::InvalidOption(line) => ConfigFault::InvalidOption(line@),
            ConfigError::UnknownProfile(name) => ConfigFault::UnknownProfile(name@),
            ConfigError::NoProfiles => ConfigFault::NoProfiles,
            ConfigError::NickMissing => ConfigFault::NickMissing,
            ConfigError::UsernameMissing => ConfigFault::UsernameMissing,
            ConfigError::ServerMissing => ConfigFault::ServerMissing,
            ConfigError::InvalidAuth(text) => ConfigFault::InvalidAuth(text@),
            ConfigError::PasswordMissing => ConfigFault::PasswordMissing,
        }
    }
}

/// The error in words.
pub open spec fn fault_text(fault: ConfigFault) -> Seq<u8> {
    match fault {
        ConfigFault::InvalidOption(line) => ascii("invalid option in configuration file: ") + line,
        ConfigFault::UnknownProfile(name) => ascii("no profile named ") + name + ascii(
            " defined in configuration file",
        ),
        ConfigFault::NoProfiles => ascii("no profiles defined in configuartion file"),
        ConfigFault::NickMissing => ascii("nick is missing from profile"),
        ConfigFault::UsernameMissing => ascii("username is missing from profile"),
        ConfigFault::ServerMissing => ascii("server is missing from profile"),
        ConfigFault::InvalidAuth(text) => ascii("invalid authentication method: ") + text,
        ConfigFault::PasswordMissing => ascii(
            "an authentication method was specified but no password was provided",
        ),
    }
}

impl ConfigError {
    /// The error in words.
    pub fn describe(&self) -> (words: Vec<u8>)
        ensures
            words@ == fault_text(self@),
    {
        let mut words: Vec<u8> = Vec::new();
        match self {
            ConfigError::InvalidOption(line) => {
                append(&mut words, "invalid option in configuration file: ".as_bytes());
                append(&mut words, line.as_slice());
            },
            ConfigError::UnknownProfile(name) => {
                append(&mut words, "no profile named ".as_bytes());
                append(&mut words, name.as_slice());
                append(&mut words, " defined in configuration file".as_bytes());
            },
            ConfigError::NoProfiles => {
                append(&mut words, "no profiles defined in configuartion file".as_bytes());
            },
            ConfigError::NickMissing => {
                append(&mut words, "nick is missing from profile".as_bytes());
            },
            ConfigError::UsernameMissing => {
                append(&mut words, "username is missing from profile".as_bytes());
            },
            ConfigError::ServerMissing => {
                append(&mut words, "server is missing from profile".as_bytes());
            },
            ConfigError::InvalidAuth(text) => {
                append(&mut words, "invalid authentication method: ".as_bytes());
                append(&mut words, text.as_slice());
            },
            ConfigError::PasswordMissing => {
                append(
                    &mut words,
                    "an authentication method was specified but no password was provided".as_bytes(),
                );
            },
        }
        words
    }
}

/// An option of a profile: a name and a value.
pub struct Setting {
    pub name: Seq<u8>,
    pub value: Seq<u8>,
}

/// A profile: a name and the options that stand under it, in order.
pub struct Profile {
    pub name: Seq<u8>,
    pub settings: Seq<Setting>,
}

/// The option that a line writes: a name, one space, a value. A line
/// with no space, or with more than one, writes none.
pub open spec fn setting_of(line: Seq<u8>) -> Option<Setting> {
    let space = first_of(line, 0, seq![SPACE].to_set());
    if space < line.len() && first_of(line, space + 1, seq![SPACE].to_set()) >= line.len() {
        Some(Setting { name: line.take(space), value: line.skip(space + 1) })
    } else {
        None
    }
}

/// What a run of lines from `at` on holds as options, and the place
/// behind it. The run ends with the line that holds nothing but blanks,
/// or with the text. Blanks at the end of a line do not count.
pub open spec fn settings_from(lines: Seq<Seq<u8>>, at: int) -> (
    Result<Seq<Setting>, ConfigFault>,
    int,
)
    decreases lines.len() - at,
{
    if at < 0 || at >= lines.len() {
        (Ok(seq![]), lines.len() as int)
    } else if trimmed_end(lines[at]).len() == 0 {
        (Ok(seq![]), at + 1)
    } else {
        match setting_of(trimmed_end(lines[at])) {
            None => (Err(ConfigFault::InvalidOption(trimmed_end(lines[at]))), at + 1),
            Some(setting) => {
                let rest = settings_from(lines, at + 1);
                match rest.0 {
                    Ok(settings) => (Ok(seq![setting] + settings), rest.1),
                    Err(fault) => (Err(fault), rest.1),
                }
            },
        }
    }
}

/// The run of options ends behind where it began, within the text.
pub proof fn lemma_settings_end(lines: Seq<Seq<u8>>, at: int)
    requires
        0 <= at <= lines.len(),
    ensures
        at <= settings_from(lines, at).1 <= lines.len(),
        at < lines.len() ==> at < settings_from(lines, at).1,
    decreases lines.len() - at,
{
    if at < lines.len() && trimmed_end(lines[at]).len() != 0 && setting_of(
        trimmed_end(lines[at]),
    ) is Some {
        lemma_settings_end(lines, at + 1);
    }
}

/// The profiles that a text holds from line `at` on. A profile begins
/// with a line that is not empty and does not begin with `#`: that line
/// is its name, and its options follow.
pub open spec fn profiles_from(lines: Seq<Seq<u8>>, at: int) -> Result<Seq<Profile>, ConfigFault>
    decreases lines.len() - at,
    via profiles_from_decreases
{
    if at < 0 || at >= lines.len() {
        Ok(seq![])
    } else if lines[at].len() == 0 || lines[at][0] == HASH {
        profiles_from(lines, at + 1)
    } else {
        let read = settings_from(lines, at + 1);
        match read.0 {
            Err(fault) => Err(fault),
            Ok(settings) => match profiles_from(lines, read.1) {
                Err(fault) => Err(fault),
                Ok(rest) => Ok(seq![Profile { name: lines[at], settings }] + rest),
            },
        }
    }
}

#[via_fn]
proof fn profiles_from_decreases(lines: Seq<Seq<u8>>, at: int) {
    if 0 <= at < lines.len() {
        lemma_settings_end(lines, at + 1);
    }
}

/// The last profile of that name among the first `upto`, or none.
pub open spec fn profile_named(profiles: Seq<Profile>, name: Seq<u8>, upto: int) -> Option<Profile>
    decreases upto,
{
    if upto <= 0 || upto > profiles.len() {
        None
    } else if profiles[upto - 1].name == name {
        Some(profiles[upto - 1])
    } else {
        profile_named(profiles, name, upto - 1)
    }
}

/// The value of the last option of that name among the first `upto`, or
/// none.
pub open spec fn setting_named(settings: Seq<Setting>, name: Seq<u8>, upto: int) -> Option<Seq<u8>>
    decreases upto,
{
    if upto <= 0 || upto > settings.len() {
        None
    } else if settings[upto - 1].name == name {
        Some(settings[upto - 1].value)
    } else {
        setting_named(settings, name, upto - 1)
    }
}

/// The way to authenticate that a profile asks for: the one that it
/// names, in small or capital letters; where it names none, with a
/// password if there is one.
pub open spec fn auth_of(named: Option<Seq<u8>>, has_password: bool) -> Result<
    AuthMethod,
    ConfigFault,
> {
    match named {
        None => if has_password {
            Ok(AuthMethod::SASL)
        } else {
            Ok(AuthMethod::NoAuth)
        },
        Some(text) => if lowered(text) == ascii("nickserv") {
            Ok(AuthMethod::NickServ)
        } else if lowered(text) == ascii("sasl") {
            Ok(AuthMethod::SASL)
        } else if lowered(text) == ascii("none") {
            Ok(AuthMethod::NoAuth)
        } else {
            Err(ConfigFault::InvalidAuth(lowered(text)))
        },
    }
}

/// What a profile sets up, or what it lacks. The nickname, the user name
/// and the server must be there; authentication wants a password.
pub open spec fn profile_config(settings: Seq<Setting>, directory: Seq<u8>) -> Result<
    ConfigView,
    ConfigFault,
> {
    let get = |name: Seq<u8>| setting_named(settings, name, settings.len() as int);
    if get(ascii("nick")) is None {
        Err(ConfigFault::NickMissing)
    } else if get(ascii("username")) is None {
        Err(ConfigFault::UsernameMissing)
    } else if get(ascii("server")) is None {
        Err(ConfigFault::ServerMissing)
    } else {
        match auth_of(get(ascii("auth")), get(ascii("password")) is Some) {
            Err(fault) => Err(fault),
            Ok(auth) => if auth != AuthMethod::NoAuth && get(ascii("password")) is None {
                Err(ConfigFault::PasswordMissing)
            } else {
                Ok(
                    ConfigView {
                        nick: get(ascii("nick"))->Some_0,
                        username: get(ascii("username"))->Some_0,
                        password: get(ascii("password")),
                        server: get(ascii("server"))->Some_0,
                        directory,
                        auth,
                    },
                )
            },
        }
    }
}

/// What the lines of a configuration set up for the profile that is
/// asked for, or for the first one where none is asked for.
pub open spec fn configured(
    lines: Seq<Seq<u8>>,
    directory: Seq<u8>,
    profile: Option<Seq<u8>>,
) -> Result<ConfigView, ConfigFault> {
    match profiles_from(lines, 0) {
        Err(fault) => Err(fault),
        Ok(profiles) => {
            let wanted = match profile {
                Some(name) => Some(name),
                None => if profiles.len() > 0 {
                    Some(profiles[0].name)
                } else {
                    None
                },
            };
            match wanted {
                None => Err(ConfigFault::NoProfiles),
                Some(name) => match profile_named(profiles, name, profiles.len() as int) {
                    None => Err(ConfigFault::UnknownProfile(name)),
                    Some(found) => profile_config(found.settings, directory),
                },
            }
        },
    }
}

/// What `from_lines` hands back, as a view.
pub open spec fn config_outcome(result: Result<Config, ConfigError>) -> Result<
    ConfigView,
    ConfigFault,
> {
    match result {
        Ok(config) => Ok(config@),
        Err(error) => Err(error@),
    }
}

/// An option as it is held while a text is read.
struct Entry {
    name: Vec<u8>,
    value: Vec<u8>,
}

impl View for Entry {
    type V = Setting;

    closed spec fn view(&self) -> Setting {
        Setting { name: self.name@, value: self.value@ }
    }
}

/// A profile as it is held while a text is read.
struct Section {
    name: Vec<u8>,
    entries: Vec<Entry>,
}

spec fn entry_views(entries: Seq<Entry>) -> Seq<Setting> {
    entries.map_values(|entry: Entry| entry@)
}

impl View for Section {
    type V = Profile;

    closed spec fn view(&self) -> Profile {
        Profile { name: self.name@, settings: entry_views(self.entries@) }
    }
}

spec fn section_views(sections: Seq<Section>) -> Seq<Profile> {
    sections.map_values(|section: Section| section@)
}

/// Reads the option that a line writes.
fn parse_setting(line: &[u8]) -> (entry: Option<Entry>)
    ensures
        match entry {
            Some(e) => setting_of(line@) == Some(e@),
            None => setting_of(line@) is None,
        },
{
    let stops = [SPACE];
    assert(stops@ =~= seq![SPACE]);
    let space = find_first(line, 0, &stops);
    if space < line.len() && find_first(line, space + 1, &stops) >= line.len() {
        let name = slice_to_vec(vstd::slice::slice_subrange(line, 0, space));
        let value = slice_to_vec(vstd::slice::slice_subrange(line, space + 1, line.len()));
        assert(name@ =~= line@.take(space as int));
        assert(value@ =~= line@.skip(space + 1));
        Some(Entry { name, value })
    } else {
        None
    }
}

/// Reads a run of options from line `at` on.
fn parse_settings(lines: &Vec<Vec<u8>>, at: usize) -> (read: (Result<Vec<Entry>, ConfigError>, usize))
    requires
        at <= lines.len(),
    ensures
        read.1 == settings_from(lines@.map_values(|line: Vec<u8>| line@), at as int).1,
        at <= read.1 <= lines.len(),
        at < lines.len() ==> at < read.1,
        match read.0 {
            Ok(entries) => settings_from(lines@.map_values(|line: Vec<u8>| line@), at as int).0
                == Ok::<Seq<Setting>, ConfigFault>(entry_views(entries@)),
            Err(error) => settings_from(lines@.map_values(|line: Vec<u8>| line@), at as int).0
                == Err::<Seq<Setting>, ConfigFault>(error@),
        },
    decreases lines.len() - at,
{
    let ghost texts = lines@.map_values(|line: Vec<u8>| line@);
    if at >= lines.len() {
        let entries: Vec<Entry> = Vec::new();
        assert(entry_views(entries@) =~= seq![]);
        return (Ok(entries), at);
    }
    assert(texts[at as int] == lines@[at as int]@);
    let line = trim_end(lines[at].as_slice());
    if line.len() == 0 {
        let entries: Vec<Entry> = Vec::new();
        assert(entry_views(entries@) =~= seq![]);
        return (Ok(entries), at + 1);
    }
    match parse_setting(line) {
        None => (Err(ConfigError::InvalidOption(slice_to_vec(line))), at + 1),
        Some(entry) => {
            let (rest, end) = parse_settings(lines, at + 1);
            match rest {
                Ok(mut entries) => {
                    let ghost tail = entry_views(entries@);
                    entries.insert(0, entry);
                    assert(entry_views(entries@) =~= seq![entry@] + tail);
                    (Ok(entries), end)
                },
                Err(error) => (Err(error), end),
            }
        },
    }
}

/// Reads the profiles of a text from line `at` on.
fn parse_profiles(lines: &Vec<Vec<u8>>, at: usize) -> (read: Result<Vec<Section>, ConfigError>)
    requires
        at <= lines.len(),
    ensures
        match read {
            Ok(sections) => profiles_from(lines@.map_values(|line: Vec<u8>| line@), at as int)
                == Ok::<Seq<Profile>, ConfigFault>(section_views(sections@)),
            Err(error) => profiles_from(lines@.map_values(|line: Vec<u8>| line@), at as int)
                == Err::<Seq<Profile>, ConfigFault>(error@),
        },
    decreases lines.len() - at,
{
    let ghost texts = lines@.map_values(|line: Vec<u8>| line@);
    if at >= lines.len() {
        let sections: Vec<Section> = Vec::new();
        assert(section_views(sections@) =~= seq![]);
        return Ok(sections);
    }
    assert(texts[at as int] == lines@[at as int]@);
    if lines[at].len() == 0 || lines[at][0] == HASH {
        return parse_profiles(lines, at + 1);
    }
    let (settings, end) = parse_settings(lines, at + 1);
    match settings {
        Err(error) => Err(error),
        Ok(entries) => match parse_profiles(lines, end) {
            Err(error) => Err(error),
            Ok(mut sections) => {
                let ghost tail = section_views(sections@);
                let section = Section { name: lines[at].clone(), entries };
                sections.insert(0, section);
                assert(section_views(sections@) =~= seq![section@] + tail);
                Ok(sections)
            },
        },
    }
}

/// The value of the last option of that name.
fn lookup(entries: &Vec<Entry>, name: &[u8]) -> (value: Option<Vec<u8>>)
    ensures
        option_view(value) == setting_named(entry_views(entries@), name@, entries.len() as int),
{
    let mut i: usize = entries.len();
    while i > 0
        invariant
            i <= entries.len(),
            setting_named(entry_views(entries@), name@, entries.len() as int) == setting_named(
                entry_views(entries@),
                name@,
                i as int,
            ),
        decreases i,
    {
        assert(entry_views(entries@)[i - 1] == entries@[i - 1]@);
        if bytes_eq(entries[i - 1].name.as_slice(), name) {
            return Some(entries[i - 1].value.clone());
        }
        i -= 1;
    }
    None
}

/// The place of the last profile of that name.
fn find_section(sections: &Vec<Section>, name: &[u8]) -> (place: Option<usize>)
    ensures
        match place {
            Some(i) => i < sections.len() && profile_named(
                section_views(sections@),
                name@,
                sections.len() as int,
            ) == Some(sections@[i as int]@),
            None => profile_named(section_views(sections@), name@, sections.len() as int) is None,
        },
{
    let mut i: usize = sections.len();
    while i > 0
        invariant
            i <= sections.len(),
            profile_named(section_views(sections@), name@, sections.len() as int) == profile_named(
                section_views(sections@),
                name@,
                i as int,
            ),
        decreases i,
    {
        assert(section_views(sections@)[i - 1] == sections@[i - 1]@);
        if bytes_eq(sections[i - 1].name.as_slice(), name) {
            return Some(i - 1);
        }
        i -= 1;
    }
    None
}

/// `text` with each capital letter of ASCII made small.
fn lower(text: &[u8]) -> (out: Vec<u8>)
    ensures
        out@ == lowered(text@),
{
    let mut out: Vec<u8> = Vec::new();
    let mut i: usize = 0;
    while i < text.len()
        invariant
            i <= text.len(),
            out@ == lowered(text@.take(i as int)),
        decreases text.len() - i,
    {
        let b = text[i];
        out.push(
            if 0x41 <= b && b <= 0x5A {
                b + 0x20
            } else {
                b
            },
        );
        assert(out@ =~= lowered(text@.take(i + 1)));
        i += 1;
    }
    assert(text@.take(i as int) =~= text@);
    out
}

/// Reads the way to authenticate off what a profile names.
fn resolve_auth(named: &Option<Vec<u8>>, has_password: bool) -> (auth: Result<
    AuthMethod,
    ConfigError,
>)
    ensures
        match auth {
            Ok(method) => auth_of(option_view(*named), has_password) == Ok::<
                AuthMethod,
                ConfigFault,
            >(method),
            Err(error) => auth_of(option_view(*named), has_password) == Err::<
                AuthMethod,
                ConfigFault,
            >(error@),
        },
{
    match named {
        None => if has_password {
            Ok(AuthMethod::SASL)
        } else {
            Ok(AuthMethod::NoAuth)
        },
        Some(text) => {
            let small = lower(text.as_slice());
            if bytes_eq(small.as_slice(), "nickserv".as_bytes()) {
                Ok(AuthMethod::NickServ)
            } else if bytes_eq(small.as_slice(), "sasl".as_bytes()) {
                Ok(AuthMethod::SASL)
            } else if bytes_eq(small.as_slice(), "none".as_bytes()) {
                Ok(AuthMethod::NoAuth)
            } else {
                Err(ConfigError::InvalidAuth(small))
            }
        },
    }
}

impl Config {
    /// What a profile sets up.
    fn from_entries(entries: &Vec<Entry>, directory: Vec<u8>) -> (result: Result<
        Config,
        ConfigError,
    >)
        ensures
            config_outcome(result) == profile_config(entry_views(entries@), directory@),
    {
        let nick = lookup(entries, "nick".as_bytes());
        let username = lookup(entries, "username".as_bytes());
        let password = lookup(entries, "password".as_bytes());
        let server = lookup(entries, "server".as_bytes());
        let named = lookup(entries, "auth".as_bytes());
        match (nick, username, server) {
            (None, _, _) => Err(ConfigError::NickMissing),
            (Some(_), None, _) => Err(ConfigError::UsernameMissing),
            (Some(_), Some(_), None) => Err(ConfigError::ServerMissing),
            (Some(nick), Some(username), Some(server)) => {
                match resolve_auth(&named, password.is_some()) {
                    Err(error) => Err(error),
                    Ok(auth) => {
                        if auth != AuthMethod::NoAuth && password.is_none() {
                            Err(ConfigError::PasswordMissing)
                        } else {
                            Ok(Config { nick, username, password, server, directory, auth })
                        }
                    },
                }
            },
        }
    }

    /// Reads a configuration off its lines, for the profile that is asked
    /// for, or for the first one where none is asked for.
    pub fn from_lines(lines: &Vec<Vec<u8>>, directory: Vec<u8>, profile: Option<Vec<u8>>) -> (result:
        Result<Config, ConfigError>)
        ensures
            config_outcome(result) == configured(
                lines@.map_values(|line: Vec<u8>| line@),
                directory@,
                option_view(profile),
            ),
    {
        let sections = match parse_profiles(lines, 0) {
            Err(error) => {
                return Err(error);
            },
            Ok(sections) => sections,
        };
        let ghost profiles = section_views(sections@);
        let wanted = match profile {
            Some(name) => name,
            None => {
                if sections.len() > 0 {
                    assert(profiles[0] == sections@[0]@);
                    sections[0].name.clone()
                } else {
                    return Err(ConfigError::NoProfiles);
                }
            },
        };
        match find_section(&sections, wanted.as_slice()) {
            None => Err(ConfigError::UnknownProfile(wanted)),
            Some(i) => Config::from_entries(&sections[i].entries, directory),
        }
    }
}

impl Clone for Config {
    fn clone(&self) -> (copy: Config)
        ensures
            copy@ == self@,
    {
        Config {
            nick: self.nick.clone(),
            username: self.username.clone(),
            password: copy_option(&self.password),
            server: self.server.clone(),
            directory: self.directory.clone(),
            auth: self.auth,
        }
    }
}

} // verus!
