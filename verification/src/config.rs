//! The client's settings and where their values come from: the command line
//! first, then the configuration file, then the built-in default.

use vstd::prelude::*;
use vstd::string::*;
use ini::Ini;

verus! {

/// `ini::Ini`: the sections and properties of a configuration file. Its
/// inside is not looked at; `ini_entries` stands for what it holds.
#[verifier::external_type_specification]
#[verifier::external_body]
pub struct ExIni(Ini);

/// What `Ini::get_from` finds in a configuration: for a section name (`None`
/// for the general section) and a key, the first value of that key in the
/// first section of that name.
pub uninterp spec fn ini_entries(conf: Ini) -> Map<(Option<Seq<char>>, Seq<char>), Seq<char>>;

/// `Ini::get_from` with a named section: the first value stored under `key`
/// in the first section called `section`, or `None` where there is no such
/// section or no such key in it. The contract says that this is the entry of
/// `ini_entries` for the section and the key, and nothing else.
#[verifier::external_body]
fn ini_get_from<'a>(conf: &'a Ini, section: &str, key: &str) -> (value: Option<&'a str>)
    ensures
        match value {
            Some(text) => ini_entries(*conf).contains_key((Some(section@), key@)) && ini_entries(
                *conf,
            )[(Some(section@), key@)] == text@,
            None => !ini_entries(*conf).contains_key((Some(section@), key@)),
        },
{
    conf.get_from(Some(section), key)
}

/// The section of the configuration file that holds the connection settings.
pub open spec fn connection_section() -> Seq<char> {
    "conn"@
}

/// The key of the server address in the connection section.
pub open spec fn server_key() -> Seq<char> {
    "server"@
}

/// The address that a client connects to unless it is told otherwise.
pub open spec fn default_server() -> Seq<char> {
    "localhost:45862"@
}

/// The value of a setting: the one from the command line if there is one,
/// else the one from the configuration file if there is one, else the
/// default.
pub open spec fn by_precedence(
    from_cli: Option<Seq<char>>,
    from_file: Option<Seq<char>>,
    default_value: Seq<char>,
) -> Seq<char> {
    match from_cli {
        Some(value) => value,
        None => match from_file {
            Some(value) => value,
            None => default_value,
        },
    }
}

/// What a configuration holds under a section and a key.
pub open spec fn file_value(conf: Ini, section: Seq<char>, key: Seq<char>) -> Option<Seq<char>> {
    if ini_entries(conf).contains_key((Some(section), key)) {
        Some(ini_entries(conf)[(Some(section), key)])
    } else {
        None
    }
}

/// The text of an optional string.
pub open spec fn text_of(value: Option<String>) -> Option<Seq<char>> {
    match value {
        Some(text) => Some(text@),
        None => None,
    }
}

/// The client's settings.
#[derive(Debug)]
pub struct Options {
    pub server: String,
}

impl Options {
    /// The built-in settings.
    pub fn new() -> (options: Options)
        ensures
            options.server@ == default_server(),
    {
        Options { server: String::from_str("localhost:45862") }
    }
}

impl Default for Options {
    fn default() -> (options: Self)
        ensures
            options.server@ == default_server(),
    {
        Self::new()
    }
}

/// What became of reading the configuration file.
#[derive(Debug)]
pub enum ConfigFile {
    /// The file was read and is well formed.
    Loaded { conf: Ini },
    /// The file could not be read, most often because there is none. That is
    /// no error: the file then contributes nothing.
    Unreadable,
    /// The file was read and is not well formed.
    Malformed { reason: String },
}

/// What a configuration file contributes under a section and a key.
pub open spec fn contribution(config: ConfigFile, section: Seq<char>, key: Seq<char>) -> Option<
    Seq<char>,
> {
    match config {
        ConfigFile::Loaded { conf } => file_value(conf, section, key),
        _ => None,
    }
}

/// The value of one setting: `value_cli` if it is there, else what
/// `conf_ini` holds under the section and the key, else `default_value`.
pub fn cli_then_conf_then_default_value(
    conf_ini: &Ini,
    ini_section: &str,
    ini_key: &str,
    value_cli: Option<String>,
    default_value: String,
) -> (value: String)
    ensures
        value@ == by_precedence(
            text_of(value_cli),
            file_value(*conf_ini, ini_section@, ini_key@),
            default_value@,
        ),
{
    match value_cli {
        Some(value) => value,
        None => match ini_get_from(conf_ini, ini_section, ini_key) {
            Some(text) => String::from_str(text),
            None => default_value,
        },
    }
}

/// Settles the server address from the command line, the configuration file
/// and the setting as it stands, in that order of precedence. A malformed
/// file is an error, returned with its reason, and leaves the settings as
/// they are; a file that could not be read is none.
pub fn reconcile_from_config_file(
    config: &ConfigFile,
    cli_server: Option<String>,
    options: &mut Options,
) -> (result: Result<(), String>)
    ensures
        match *config {
            ConfigFile::Malformed { reason } => {
                &&& result matches Err(why)
                &&& why@ == reason@
                &&& final(options).server@ == old(options).server@
            },
            _ => {
                &&& result is Ok
                &&& final(options).server@ == by_precedence(
                    text_of(cli_server),
                    contribution(*config, connection_section(), server_key()),
                    old(options).server@,
                )
            },
        },
{
    match config {
        ConfigFile::Loaded { conf } => {
            let standing = options.server.clone();
            options.server =
            cli_then_conf_then_default_value(conf, "conn", "server", cli_server, standing);
            Ok(())
        },
        ConfigFile::Unreadable => {
            match cli_server {
                Some(value) => {
                    options.server = value;
                },
                None => {},
            }
            Ok(())
        },
        ConfigFile::Malformed { reason } => Err(reason.clone()),
    }
}

} // verus!
