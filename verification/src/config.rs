//! The portal address, the credentials kept between runs, and what loading
//! them can end in.

use vstd::prelude::*;
use vstd::std_specs::convert::FromSpecImpl;
use vstd::string::*;

verus! {

/// Address of the authentication endpoint.
pub const BASE_URL: &'static str = "http://2.2.2.2/Auth.ashx";

/// Fixed settings of the client.
#[derive(Debug, Clone, Copy)]
pub struct Config {
    pub base_url: &'static str,
}

impl Default for Config {
    /// The campus portal's settings.
    fn default() -> (config: Self)
        ensures
            config.base_url@ == BASE_URL@,
    {
        Config { base_url: BASE_URL }
    }
}

/// Credentials and chosen package, as saved in the configuration file.
#[derive(Debug, Clone)]
pub struct StoredConfig {
    pub username: String,
    pub password: String,
    pub package: String,
}

/// Declares `std::io::Error`, carried as it is; Verus sees nothing inside it.
#[verifier::external_type_specification]
#[verifier::external_body]
pub struct ExIoError(std::io::Error);

/// Declares `serde_json::Error`, carried as it is; Verus sees nothing inside it.
#[verifier::external_type_specification]
#[verifier::external_body]
pub struct ExJsonError(serde_json::Error);

/// Why the configuration could not be loaded or saved.
#[derive(Debug)]
pub enum ConfigError {
    Io(std::io::Error),
    Invalid(serde_json::Error),
    ConfigDirUnavailable,
}

/// The text shown when no configuration directory can be determined.
pub const DIR_UNAVAILABLE_MESSAGE: &'static str = "无法确定配置文件目录";

/// Formats an I/O error with its `Display` impl. Nothing is claimed of the
/// text: it holds the operating system's own message.
#[verifier::external_body]
fn io_error_text(err: &std::io::Error) -> String {
    format!("{err}")
}

/// Whether a `serde_json::Error` wraps an I/O error: what its `is_io` method
/// returns (the `Category::Io` errors of a reader).
pub uninterp spec fn json_error_is_io(err: serde_json::Error) -> bool;

/// The text `serde_json::Error`'s `Display` writes for an error that does not
/// wrap an I/O error: the error code's message, followed by
/// ` at line L column C` when a position is known.
pub uninterp spec fn json_error_display(err: serde_json::Error) -> Seq<char>;

/// Calls `serde_json::Error::is_io`. Claimed: the result is
/// `json_error_is_io` of the error, a function of the error alone.
#[verifier::external_body]
fn json_error_wraps_io(err: &serde_json::Error) -> (io: bool)
    ensures
        io == json_error_is_io(*err),
{
    err.is_io()
}

/// Formats a `serde_json::Error` with its `Display` impl. Claimed: for an
/// error that does not wrap an I/O error the text depends on the error alone
/// (`json_error_display`). Nothing is claimed for one that wraps an I/O error,
/// whose text is the operating system's message.
#[verifier::external_body]
fn json_error_text(err: &serde_json::Error) -> (text: String)
    ensures
        !json_error_is_io(*err) ==> text@ == json_error_display(*err),
{
    format!("{err}")
}

impl ConfigError {
    /// Whether the failure came from reading or writing a file: an I/O error,
    /// or a JSON error that wraps one. When it did not, the message of an
    /// `Invalid` error is `json_error_display` of it (see `to_string`).
    pub fn is_io(&self) -> (io: bool)
        ensures
            io == match self {
                ConfigError::Io(_) => true,
                ConfigError::Invalid(e) => json_error_is_io(*e),
                ConfigError::ConfigDirUnavailable => false,
            },
    {
        match self {
            ConfigError::Io(_) => true,
            ConfigError::Invalid(err) => json_error_wraps_io(err),
            ConfigError::ConfigDirUnavailable => false,
        }
    }

    /// The message shown to the user: the underlying error's own text, or a
    /// fixed sentence when the configuration directory is unknown.
    pub fn to_string(&self) -> (text: String)
        ensures
            self is ConfigDirUnavailable ==> text@ == DIR_UNAVAILABLE_MESSAGE@,
            self matches ConfigError::Invalid(e) ==> (!json_error_is_io(*e) ==> text@
                == json_error_display(*e)),
    {
        match self {
            ConfigError::Io(err) => io_error_text(err),
            ConfigError::Invalid(err) => json_error_text(err),
            ConfigError::ConfigDirUnavailable => String::from_str(DIR_UNAVAILABLE_MESSAGE),
        }
    }
}

impl From<std::io::Error> for ConfigError {
    fn from(value: std::io::Error) -> (err: Self) {
        ConfigError::Io(value)
    }
}

impl FromSpecImpl<std::io::Error> for ConfigError {
    open spec fn obeys_from_spec() -> bool {
        true
    }

    open spec fn from_spec(v: std::io::Error) -> Self {
        ConfigError::Io(v)
    }
}

impl From<serde_json::Error> for ConfigError {
    fn from(value: serde_json::Error) -> (err: Self) {
        ConfigError::Invalid(value)
    }
}

impl FromSpecImpl<serde_json::Error> for ConfigError {
    open spec fn obeys_from_spec() -> bool {
        true
    }

    open spec fn from_spec(v: serde_json::Error) -> Self {
        ConfigError::Invalid(v)
    }
}

/// What looking for the configuration file found. Finding the directory,
/// testing the file's existence, reading it and parsing its JSON are done by
/// the caller; this records the first step that decided the outcome.
#[derive(Debug)]
pub enum ConfigFileState {
    /// No configuration directory could be determined for this user.
    DirUnavailable,
    /// The directory is known but holds no configuration file.
    Absent,
    /// The file exists but reading it failed.
    Unreadable(std::io::Error),
    /// The file was read but is not a valid configuration.
    Unparsable(serde_json::Error),
    /// The file was read and parsed.
    Parsed(StoredConfig),
}

/// The saved configuration, `None` when there is none yet, or the error that
/// stopped loading it.
pub fn load_config_if_exists(state: ConfigFileState) -> (loaded: Result<
    Option<StoredConfig>,
    ConfigError,
>)
    ensures
        match state {
            ConfigFileState::DirUnavailable => loaded matches Err(ConfigError::ConfigDirUnavailable),
            ConfigFileState::Absent => loaded matches Ok(None),
            ConfigFileState::Unreadable(e) => loaded == Err::<Option<StoredConfig>, ConfigError>(
                ConfigError::Io(e),
            ),
            ConfigFileState::Unparsable(e) => loaded == Err::<Option<StoredConfig>, ConfigError>(
                ConfigError::Invalid(e),
            ),
            ConfigFileState::Parsed(c) => loaded == Ok::<Option<StoredConfig>, ConfigError>(
                Some(c),
            ),
        },
{
    match state {
        ConfigFileState::DirUnavailable => Err(ConfigError::ConfigDirUnavailable),
        ConfigFileState::Absent => Ok(None),
        ConfigFileState::Unreadable(e) => Err(ConfigError::from(e)),
        ConfigFileState::Unparsable(e) => Err(ConfigError::from(e)),
        ConfigFileState::Parsed(c) => Ok(Some(c)),
    }
}

} // verus!
