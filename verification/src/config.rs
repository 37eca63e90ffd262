//! The user's configuration.
//!
//! What the configuration file leaves out falls back to defaults, so that a
//! fresh installation works without a file. A malformed file is an error.

use crate::paths;
use crate::text;
use vstd::prelude::*;
use vstd::string::StringExecFns;
use vstd::utf8;

verus! {

/// Where and under which name pins are saved.
#[derive(Debug, Clone, PartialEq, Eq)]
pub struct Config {
    /// The directory that pins are saved to. It is created on demand.
    pub save_dir: Vec<u8>,
    /// Template of the file name. `{timestamp}` stands for the local time.
    pub filename_template: String,
}

/// What a [`Config`] says.
#[verifier::ext_equal]
pub struct ConfigView {
    pub save_dir: Seq<u8>,
    pub filename_template: Seq<char>,
}

impl View for Config {
    type V = ConfigView;

    open spec fn view(&self) -> ConfigView {
        ConfigView { save_dir: self.save_dir@, filename_template: self.filename_template@ }
    }
}

/// What the configuration file holds.
#[derive(Debug, Clone, PartialEq, Eq)]
pub struct RawConfig {
    /// The directory that pins are saved to. A leading `~` stands for the home
    /// directory.
    pub save_dir: Option<String>,
    /// Template of the file name.
    pub filename_template: Option<String>,
}

/// What a [`RawConfig`] says.
pub struct RawConfigView {
    pub save_dir: Option<Seq<char>>,
    pub filename_template: Option<Seq<char>>,
}

/// The characters of an optional text.
pub open spec fn text_view(s: Option<String>) -> Option<Seq<char>> {
    match s {
        Some(s) => Some(s@),
        None => None,
    }
}

impl View for RawConfig {
    type V = RawConfigView;

    open spec fn view(&self) -> RawConfigView {
        RawConfigView {
            save_dir: text_view(self.save_dir),
            filename_template: text_view(self.filename_template),
        }
    }
}

/// Why a configuration file cannot be used.
#[derive(Debug, Clone, PartialEq, Eq)]
pub enum ConfigError {
    /// The file cannot be read.
    Read {
        /// The file.
        path: String,
        /// Why.
        message: String,
    },
    /// The file is malformed.
    Parse {
        /// The file.
        path: String,
        /// Why.
        message: String,
    },
}

impl ConfigError {
    /// The message for the operator.
    pub open spec fn text(self) -> Seq<char> {
        match self {
            ConfigError::Read { path, message } => "read "@ + path@ + ": "@ + message@,
            ConfigError::Parse { path, message } => "parse "@ + path@ + ": "@ + message@,
        }
    }

    /// The message for the operator.
    pub fn message(&self) -> (r: String)
        ensures
            r@ == self.text(),
    {
        match self {
            ConfigError::Read { path, message } => {
                let mut r = "read ".to_owned();
                r.append(path);
                r.append(": ");
                r.append(message);
                r
            },
            ConfigError::Parse { path, message } => {
                let mut r = "parse ".to_owned();
                r.append(path);
                r.append(": ");
                r.append(message);
                r
            },
        }
    }
}

/// The user's configuration directory, from `dirs::config_dir`. It depends on
/// the environment; nothing is claimed of it.
#[verifier::external_body]
fn config_dir() -> Option<Vec<u8>> {
    match dirs::config_dir() {
        Some(dir) => Some(dir.into_os_string().into_encoded_bytes()),
        None => None,
    }
}

/// The bytes of a directory, if there is one.
pub open spec fn dir_view(dir: Option<&Vec<u8>>) -> Option<Seq<u8>> {
    match dir {
        Some(dir) => Some(dir@),
        None => None,
    }
}

/// The bytes of a text.
pub open spec fn bytes_of(s: Seq<char>) -> Seq<u8> {
    utf8::encode_utf8(s)
}

/// The directory that pins are saved to, unless the user says otherwise: one in
/// the picture directory, or else in the home directory, or else in the current
/// one.
pub open spec fn default_save_dir_in(picture: Option<Seq<u8>>, home: Option<Seq<u8>>) -> Seq<u8> {
    match (picture, home) {
        (Some(dir), _) => paths::joined(dir, bytes_of("osnip"@)),
        (None, Some(dir)) => paths::joined(
            paths::joined(dir, bytes_of("Pictures"@)),
            bytes_of("osnip"@),
        ),
        (None, None) => bytes_of("./osnip"@),
    }
}

/// The configuration without a file.
pub open spec fn defaults_in(picture: Option<Seq<u8>>, home: Option<Seq<u8>>) -> ConfigView {
    ConfigView {
        save_dir: default_save_dir_in(picture, home),
        filename_template: "osnip-{timestamp}.png"@,
    }
}

/// The path that a text stands for. A leading `~` is the home directory, when
/// there is one.
pub open spec fn expanded(s: Seq<char>, home: Option<Seq<u8>>) -> Seq<u8> {
    match home {
        Some(dir) => if text::begins_with(s, "~/"@) {
            paths::joined(dir, bytes_of(s.skip(2)))
        } else if s == "~"@ {
            dir
        } else {
            bytes_of(s)
        },
        None => bytes_of(s),
    }
}

/// The configuration that a file comes to.
pub open spec fn resolved(
    raw: RawConfigView,
    picture: Option<Seq<u8>>,
    home: Option<Seq<u8>>,
) -> ConfigView {
    let defaults = defaults_in(picture, home);
    ConfigView {
        save_dir: match raw.save_dir {
            Some(dir) => expanded(dir, home),
            None => defaults.save_dir,
        },
        filename_template: match raw.filename_template {
            Some(template) => template,
            None => defaults.filename_template,
        },
    }
}

/// The path that a text stands for.
pub fn expand_tilde(s: &str, home: Option<&Vec<u8>>) -> (r: Vec<u8>)
    ensures
        r@ == expanded(s@, dir_view(home)),
{
    if let Some(dir) = home {
        if text::starts_with(s, "~/") {
            proof {
                reveal_strlit("~/");
            }
            let v = text::chars_of(s);
            let rest = text::string_between(&v, 2, v.len());
            assert(s@.subrange(2, s@.len() as int) =~= s@.skip(2));
            return paths::join(dir, rest.as_str().as_bytes());
        }
        if text::same(s, "~") {
            return dir.clone();
        }
    }
    bytes(s)
}

/// The place of the configuration file.
pub open spec fn config_path_in(config: Option<Seq<u8>>) -> Seq<u8> {
    match config {
        Some(dir) => paths::joined(
            paths::joined(dir, bytes_of("osnip"@)),
            bytes_of("config.toml"@),
        ),
        None => bytes_of("./osnip-config.toml"@),
    }
}

/// The bytes of a text.
fn bytes(s: &str) -> (r: Vec<u8>)
    ensures
        r@ == bytes_of(s@),
{
    let mut r: Vec<u8> = Vec::new();
    r.extend_from_slice(s.as_bytes());
    assert(r@ =~= bytes_of(s@));
    r
}

impl Config {
    /// The place of the configuration file, given the user's configuration
    /// directory.
    pub fn config_path_from(config: Option<&Vec<u8>>) -> (r: Vec<u8>)
        ensures
            r@ == config_path_in(dir_view(config)),
    {
        match config {
            Some(dir) => {
                let ours = paths::join(dir, "osnip".as_bytes());
                paths::join(&ours, "config.toml".as_bytes())
            },
            None => bytes("./osnip-config.toml"),
        }
    }

    /// The place of the configuration file.
    pub fn config_path() -> (r: Vec<u8>)
        ensures
            exists|config: Option<Seq<u8>>| r@ == #[trigger] config_path_in(config),
    {
        let config = config_dir();
        let ghost view = crate::ipc::path_view(config);
        let r = Config::config_path_from(config.as_ref());
        assert(r@ == config_path_in(view));
        r
    }

    /// The configuration without a file, given the user's picture directory and
    /// home directory.
    pub fn with_defaults(picture: Option<&Vec<u8>>, home: Option<&Vec<u8>>) -> (r: Config)
        ensures
            r@ == defaults_in(dir_view(picture), dir_view(home)),
    {
        let save_dir = match (picture, home) {
            (Some(dir), _) => paths::join(dir, "osnip".as_bytes()),
            (None, Some(dir)) => {
                let pictures = paths::join(dir, "Pictures".as_bytes());
                paths::join(&pictures, "osnip".as_bytes())
            },
            (None, None) => bytes("./osnip"),
        };
        Config { save_dir, filename_template: "osnip-{timestamp}.png".to_owned() }
    }

    /// The configuration that a file comes to.
    fn load_from(raw: RawConfig, picture: Option<&Vec<u8>>, home: Option<&Vec<u8>>) -> (r: Config)
        ensures
            r@ == resolved(raw@, dir_view(picture), dir_view(home)),
    {
        let defaults = Config::with_defaults(picture, home);
        let save_dir = match raw.save_dir {
            Some(dir) => expand_tilde(&dir, home),
            None => defaults.save_dir,
        };
        let filename_template = match raw.filename_template {
            Some(template) => template,
            None => defaults.filename_template,
        };
        Config { save_dir, filename_template }
    }

    /// The configuration, given what the file holds and the user's picture
    /// directory and home directory. Without a file it is that of the defaults.
    pub fn load(
        file: Option<Result<RawConfig, ConfigError>>,
        picture: Option<&Vec<u8>>,
        home: Option<&Vec<u8>>,
    ) -> (r: Result<Config, ConfigError>)
        ensures
            match file {
                None => r matches Ok(config) && config@ == defaults_in(
                    dir_view(picture),
                    dir_view(home),
                ),
                Some(Ok(raw)) => r matches Ok(config) && config@ == resolved(
                    raw@,
                    dir_view(picture),
                    dir_view(home),
                ),
                Some(Err(e)) => r == Err::<Config, ConfigError>(e),
            },
    {
        match file {
            None => Ok(Config::with_defaults(picture, home)),
            Some(Ok(raw)) => Ok(Config::load_from(raw, picture, home)),
            Some(Err(e)) => Err(e),
        }
    }
}

/// The default directory is never empty.
pub proof fn defaults_name_a_directory(picture: Option<Seq<u8>>, home: Option<Seq<u8>>)
    ensures
        default_save_dir_in(picture, home).len() > 0,
{
    reveal_strlit("osnip");
    reveal_strlit("./osnip");
    assert(utf8::is_ascii_chars("osnip"@));
    assert(utf8::is_ascii_chars("./osnip"@));
    utf8::is_ascii_chars_encode_utf8("osnip"@);
    utf8::is_ascii_chars_encode_utf8("./osnip"@);
}

/// What the file says wins, and what it leaves out is as without a file. A file
/// that says nothing changes nothing.
pub proof fn missing_fields_fall_back_to_defaults(
    raw: RawConfigView,
    picture: Option<Seq<u8>>,
    home: Option<Seq<u8>>,
)
    ensures
        raw.save_dir is None ==> resolved(raw, picture, home).save_dir == defaults_in(
            picture,
            home,
        ).save_dir,
        raw.filename_template is None ==> resolved(raw, picture, home).filename_template
            == defaults_in(picture, home).filename_template,
        raw.filename_template matches Some(template) ==> resolved(
            raw,
            picture,
            home,
        ).filename_template == template,
        raw.save_dir matches Some(dir) ==> resolved(raw, picture, home).save_dir == expanded(
            dir,
            home,
        ),
{
}

/// A path that does not begin with `~` is taken as it is.
pub proof fn paths_without_tilde_are_kept(s: Seq<char>, home: Option<Seq<u8>>)
    requires
        s.len() == 0 || s[0] != '~',
    ensures
        expanded(s, home) == bytes_of(s),
{
    reveal_strlit("~/");
    reveal_strlit("~");
    if text::begins_with(s, "~/"@) {
        assert(s.take(2)[0] == s[0]);
    }
}

/// Where pins are saved without a file: in `osnip` in the picture directory, or else in
/// `Pictures/osnip` in the home directory, or else in `osnip` in the current one; and
/// under which name.
pub proof fn pictures_come_before_home(picture: Option<Seq<u8>>, home: Option<Seq<u8>>)
    ensures
        defaults_in(picture, home).filename_template == "osnip-{timestamp}.png"@,
        picture is Some ==> defaults_in(picture, home).save_dir == paths::joined(
            picture->0,
            utf8::encode_utf8("osnip"@),
        ),
        picture is None && home is Some ==> defaults_in(picture, home).save_dir == paths::joined(
            paths::joined(home->0, utf8::encode_utf8("Pictures"@)),
            utf8::encode_utf8("osnip"@),
        ),
        picture is None && home is None ==> defaults_in(picture, home).save_dir
            == utf8::encode_utf8("./osnip"@),
{
}

/// A tilde stands for the home directory only in front of a slash or on its own, and
/// only where there is one.
pub proof fn a_tilde_is_the_home_directory(rest: Seq<char>, home: Seq<u8>, s: Seq<char>)
    ensures
        expanded("~/"@ + rest, Some(home)) == paths::joined(home, utf8::encode_utf8(rest)),
        expanded("~"@, Some(home)) == home,
        rest.len() > 0 && rest[0] != '/' ==> expanded("~"@ + rest, Some(home))
            == utf8::encode_utf8("~"@ + rest),
        expanded(s, None) == utf8::encode_utf8(s),
{
    reveal_strlit("~/");
    reveal_strlit("~");
    let slashed = "~/"@ + rest;
    assert(slashed.take(2) =~= "~/"@);
    assert(slashed.skip(2) =~= rest);
    if rest.len() > 0 && rest[0] != '/' {
        let other = "~"@ + rest;
        assert(other[1] == rest[0]);
        assert(other.len() >= 2);
        if other.take(2) == "~/"@ {
            assert(other.take(2)[1] == other[1]);
        }
    }
}

/// The file is `osnip/config.toml` in the configuration directory, or else
/// `osnip-config.toml` in the current one.
pub proof fn the_file_has_its_place(config: Option<Seq<u8>>)
    ensures
        config is Some ==> config_path_in(config) == paths::joined(
            paths::joined(config->0, utf8::encode_utf8("osnip"@)),
            utf8::encode_utf8("config.toml"@),
        ),
        config is None ==> config_path_in(config) == utf8::encode_utf8("./osnip-config.toml"@),
{
}

/// A configuration says what it holds.
pub proof fn configurations_say_what_they_hold(
    config: Config,
    raw: RawConfig,
    dir: Option<&Vec<u8>>,
)
    ensures
        config@.save_dir == config.save_dir@,
        config@.filename_template == config.filename_template@,
        raw.save_dir is None <==> raw@.save_dir is None,
        raw.save_dir matches Some(s) ==> raw@.save_dir == Some(s@),
        raw.filename_template is None <==> raw@.filename_template is None,
        raw.filename_template matches Some(s) ==> raw@.filename_template == Some(s@),
        dir is None <==> dir_view(dir) is None,
        dir matches Some(d) ==> dir_view(dir) == Some(d@),
{
}

/// What the operator is told of a file that cannot be used.
pub proof fn unusable_files_are_explained(path: String, message: String)
    ensures
        (ConfigError::Read { path, message }).text() == "read "@ + path@ + ": "@ + message@,
        (ConfigError::Parse { path, message }).text() == "parse "@ + path@ + ": "@ + message@,
{
}

} // verus!
