//! The configuration: run mode, debug flag, endpoint, board size, players.
//!
//! The configuration is written in TOML.  The `toml` crate parses the
//! document and hands out its values one lookup at a time; where to look,
//! and what is made of what is found, is decided here.

use vstd::prelude::*;
use crate::gameboard::MAX_SIDE;

verus! {

/// How the program runs.
#[derive(Clone, Copy, Debug, PartialEq, Eq, Structural, Hash)]
pub enum RunEnvironment {
    Client,
    Server,
    Singleplayer,
}

impl Default for RunEnvironment {
    fn default() -> (env: RunEnvironment)
        ensures
            env == RunEnvironment::Client,
    {
        RunEnvironment::Client
    }
}

/// What only a server needs to know.
#[derive(Clone, Copy, Debug, PartialEq, Eq, Structural, Hash)]
pub struct ServerConfig {
    pub max_players: u32,
}

impl Default for ServerConfig {
    fn default() -> (config: ServerConfig)
        ensures
            config.max_players == 0,
    {
        ServerConfig { max_players: 0 }
    }
}

/// What only a client needs to know.
#[derive(Clone, Debug)]
pub struct ClientConfig {
    pub username: String,
}

impl Default for ClientConfig {
    fn default() -> (config: ClientConfig)
        ensures
            config.username@ == Seq::<char>::empty(),
    {
        ClientConfig { username: String::new() }
    }
}

/// The size of the board.
#[derive(Clone, Copy, Debug, PartialEq, Eq, Structural, Hash)]
pub struct GameboardConfig {
    pub width: u32,
    pub height: u32,
}

impl Default for GameboardConfig {
    fn default() -> (config: GameboardConfig)
        ensures
            config == (GameboardConfig { width: 128, height: 128 }),
    {
        GameboardConfig { width: 128, height: 128 }
    }
}

/// The whole configuration.
#[derive(Clone, Debug)]
pub struct Config {
    pub env: RunEnvironment,
    pub debug: bool,
    pub connection_address: String,
    pub server_config: ServerConfig,
    pub client_config: ClientConfig,
    pub gameboard_config: GameboardConfig,
}

/// The values of the configuration that have no default.
#[derive(Clone, Copy, Debug, PartialEq, Eq, Structural, Hash)]
pub enum ConfigKey {
    ConnectionAddress,
    Width,
    Height,
    MaxPlayers,
    Username,
}

/// Why a configuration could not be made of a document.
#[derive(Clone, Copy, Debug, PartialEq, Eq, Structural, Hash)]
pub enum ConfigError {
    /// The document is not TOML.
    Syntax,
    /// The document lacks a value, or holds one of another type.
    Missing(ConfigKey),
    /// A side of the board is negative or larger than a board can be.
    OutOfRange(ConfigKey),
}

/// A value of a TOML document, as far as the configuration reads it.
pub enum TomlItem {
    /// A string.
    Text(Seq<char>),
    /// An integer.
    Integer(i64),
    /// A table: the values it holds, by key.
    Table(Map<Seq<char>, TomlItem>),
    /// Anything else: a float, a boolean, a date, an array.
    Other,
}

impl TomlItem {
    /// Whether the item is a table that holds `key`.
    pub open spec fn holds_key(self, key: Seq<char>) -> bool {
        self matches TomlItem::Table(entries) && entries.dom().contains(key)
    }

    /// What a table holds under `key`.
    pub open spec fn entry(self, key: Seq<char>) -> TomlItem {
        match self {
            TomlItem::Table(entries) => entries[key],
            _ => TomlItem::Other,
        }
    }

    /// What the item holds under `key`, if it is a table that holds the key.
    pub open spec fn lookup(self, key: Seq<char>) -> Option<TomlItem> {
        if self.holds_key(key) {
            Some(self.entry(key))
        } else {
            None
        }
    }

    /// The string that the item is, if it is one.
    pub open spec fn text(self) -> Option<Seq<char>> {
        match self {
            TomlItem::Text(t) => Some(t),
            _ => None,
        }
    }

    /// The integer that the item is, if it is one.
    pub open spec fn integer(self) -> Option<i64> {
        match self {
            TomlItem::Integer(n) => Some(n),
            _ => None,
        }
    }
}

/// A value of the `toml` crate.  Verus does not look inside; what it holds
/// is named by `toml_holds`.
#[verifier::external_type_specification]
#[verifier::external_body]
pub struct ExTomlValue(toml::Value);

/// What a value of the `toml` crate holds.
pub uninterp spec fn toml_holds(value: toml::Value) -> TomlItem;

/// The table that a text is as a TOML document; none if it is no document.
pub uninterp spec fn spec_toml_document(text: Seq<char>) -> Option<TomlItem>;

/// `str::parse::<toml::Table>`: the document that the text is, as a value;
/// nothing if the text does not parse.
#[verifier::external_body]
fn toml_parse(text: &str) -> (parsed: Option<toml::Value>)
    ensures
        parsed.is_some() == spec_toml_document(text@).is_some(),
        parsed matches Some(root) ==> Some(toml_holds(root)) == spec_toml_document(text@),
{
    match text.parse::<toml::Table>() {
        Ok(table) => Some(toml::Value::Table(table)),
        Err(_) => None,
    }
}

/// `Value::get` of toml with a string: what a table holds under `key`;
/// nothing for a table without the key and for a value that is no table.
#[verifier::external_body]
fn toml_get<'a>(value: &'a toml::Value, key: &str) -> (found: Option<&'a toml::Value>)
    ensures
        found.is_some() == toml_holds(*value).holds_key(key@),
        found matches Some(inner) ==> toml_holds(*inner) == toml_holds(*value).entry(key@),
{
    value.get(key)
}

/// `Value::as_str` of toml: the string that the value is; nothing for a
/// value that is no string.
#[verifier::external_body]
fn toml_as_str(value: &toml::Value) -> (found: Option<String>)
    ensures
        found.is_some() == toml_holds(*value).text().is_some(),
        found matches Some(s) ==> Some(s@) == toml_holds(*value).text(),
{
    value.as_str().map(String::from)
}

/// `Value::as_integer` of toml: the integer that the value is; nothing for
/// a value that is no integer.
#[verifier::external_body]
fn toml_as_integer(value: &toml::Value) -> (found: Option<i64>)
    ensures
        found == toml_holds(*value).integer(),
{
    value.as_integer()
}

/// Whether a text is a TOML document.
pub open spec fn spec_toml_valid(text: Seq<char>) -> bool {
    spec_toml_document(text).is_some()
}

/// What a document holds under `key` of table `section`: nothing if there is
/// no document, no such table, something else than a table under that name,
/// or no such key in the table.
pub open spec fn spec_toml_item(root: Option<TomlItem>, section: Seq<char>, key: Seq<char>) -> Option<
    TomlItem,
> {
    match root {
        Some(document) => match document.lookup(section) {
            Some(table) => table.lookup(key),
            None => None,
        },
        None => None,
    }
}

/// The string that a TOML document holds under `key` of table `section`;
/// nothing if what stands there is no string.
pub open spec fn spec_toml_string(text: Seq<char>, section: Seq<char>, key: Seq<char>) -> Option<
    Seq<char>,
> {
    match spec_toml_item(spec_toml_document(text), section, key) {
        Some(item) => item.text(),
        None => None,
    }
}

/// The integer that a TOML document holds under `key` of table `section`;
/// nothing if what stands there is no integer.
pub open spec fn spec_toml_integer(text: Seq<char>, section: Seq<char>, key: Seq<char>) -> Option<
    i64,
> {
    match spec_toml_item(spec_toml_document(text), section, key) {
        Some(item) => item.integer(),
        None => None,
    }
}

/// What a document holds under `key` of table `section`.
fn item_at<'a>(root: &'a Option<toml::Value>, section: &str, key: &str) -> (found: Option<
    &'a toml::Value,
>)
    ensures
        match (*root, found) {
            (Some(document), Some(value)) => spec_toml_item(
                Some(toml_holds(document)),
                section@,
                key@,
            ) == Some(toml_holds(*value)),
            (Some(document), None) => spec_toml_item(Some(toml_holds(document)), section@, key@).is_none(),
            (None, Some(_)) => false,
            (None, None) => true,
        },
{
    match root {
        Some(document) => match toml_get(document, section) {
            Some(table) => toml_get(table, key),
            None => None,
        },
        None => None,
    }
}

/// The string that a document holds under `key` of table `section`.
fn string_at(root: &Option<toml::Value>, section: &str, key: &str) -> (found: Option<String>)
    ensures
        spec_text(found) == (match spec_toml_item(
            match *root {
                Some(document) => Some(toml_holds(document)),
                None => None,
            },
            section@,
            key@,
        ) {
            Some(item) => item.text(),
            None => None,
        }),
{
    match item_at(root, section, key) {
        Some(value) => toml_as_str(value),
        None => None,
    }
}

/// The integer that a document holds under `key` of table `section`.
fn integer_at(root: &Option<toml::Value>, section: &str, key: &str) -> (found: Option<i64>)
    ensures
        found == (match spec_toml_item(
            match *root {
                Some(document) => Some(toml_holds(document)),
                None => None,
            },
            section@,
            key@,
        ) {
            Some(item) => item.integer(),
            None => None,
        }),
{
    match item_at(root, section, key) {
        Some(value) => toml_as_integer(value),
        None => None,
    }
}

impl RunEnvironment {
    /// The run mode that a name stands for.
    pub open spec fn spec_from_name(name: Seq<char>) -> Option<RunEnvironment> {
        if name == "client"@ {
            Some(RunEnvironment::Client)
        } else if name == "server"@ {
            Some(RunEnvironment::Server)
        } else if name == "singleplayer"@ {
            Some(RunEnvironment::Singleplayer)
        } else {
            None
        }
    }

    /// The run mode that a name stands for: `client`, `server` or `singleplayer`.
    pub fn from_name(name: &str) -> (env: Option<RunEnvironment>)
        ensures
            env == Self::spec_from_name(name@),
    {
        let owned = name.to_owned();
        if owned == "client".to_owned() {
            Some(RunEnvironment::Client)
        } else if owned == "server".to_owned() {
            Some(RunEnvironment::Server)
        } else if owned == "singleplayer".to_owned() {
            Some(RunEnvironment::Singleplayer)
        } else {
            None
        }
    }
}

impl ServerConfig {
    /// The number of players for a wish: the wish itself between two and
    /// four, two for a smaller wish and four for a larger one.
    pub open spec fn spec_players(wish: int) -> int {
        if wish > 4 {
            4
        } else if wish < 2 {
            2
        } else {
            wish
        }
    }

    /// A server configuration for a wished number of players.
    pub fn new(wish: i64) -> (config: ServerConfig)
        ensures
            config.max_players == Self::spec_players(wish as int),
            2 <= config.max_players <= 4,
    {
        let max_players: u32 = if wish > 4 {
            4
        } else if wish < 2 {
            2
        } else {
            wish as u32
        };
        ServerConfig { max_players }
    }
}

/// What a document says, value by value, before anything is made of it.
#[derive(Clone, Debug)]
pub struct ConfigValues {
    /// Whether the document is TOML at all.
    pub valid: bool,
    /// `configuration.environment`, if it is a string.
    pub environment: Option<String>,
    /// `configuration.debug`, if it is a string.
    pub debug: Option<String>,
    /// `configuration.connection_address`, if it is a string.
    pub connection_address: Option<String>,
    /// `gameboard.width`, if it is an integer.
    pub width: Option<i64>,
    /// `gameboard.height`, if it is an integer.
    pub height: Option<i64>,
    /// `server.max_players`, if it is an integer.
    pub max_players: Option<i64>,
    /// `client.username`, if it is a string.
    pub username: Option<String>,
}

/// What a document says, as a mathematical value.
pub struct ConfigFacts {
    pub valid: bool,
    pub environment: Option<Seq<char>>,
    pub debug: Option<Seq<char>>,
    pub connection_address: Option<Seq<char>>,
    pub width: Option<i64>,
    pub height: Option<i64>,
    pub max_players: Option<i64>,
    pub username: Option<Seq<char>>,
}

/// The text of a string that may be there.
pub open spec fn spec_text(word: Option<String>) -> Option<Seq<char>> {
    match word {
        Some(w) => Some(w@),
        None => None,
    }
}

impl View for ConfigValues {
    type V = ConfigFacts;

    open spec fn view(&self) -> ConfigFacts {
        ConfigFacts {
            valid: self.valid,
            environment: spec_text(self.environment),
            debug: spec_text(self.debug),
            connection_address: spec_text(self.connection_address),
            width: self.width,
            height: self.height,
            max_players: self.max_players,
            username: spec_text(self.username),
        }
    }
}

/// What a TOML document says, value by value.
pub open spec fn spec_toml_facts(text: Seq<char>) -> ConfigFacts {
    ConfigFacts {
        valid: spec_toml_valid(text),
        environment: spec_toml_string(text, "configuration"@, "environment"@),
        debug: spec_toml_string(text, "configuration"@, "debug"@),
        connection_address: spec_toml_string(text, "configuration"@, "connection_address"@),
        width: spec_toml_integer(text, "gameboard"@, "width"@),
        height: spec_toml_integer(text, "gameboard"@, "height"@),
        max_players: spec_toml_integer(text, "server"@, "max_players"@),
        username: spec_toml_string(text, "client"@, "username"@),
    }
}

/// The debug flag that a word stands for: `true` says so, and anything
/// else, or nothing, leaves the flag off.
pub open spec fn spec_debug_flag(word: Option<Seq<char>>) -> bool {
    word matches Some(w) && w == "true"@
}

/// The run mode that a word stands for; a word that names none, or no
/// word, leaves the program a client.
pub open spec fn spec_run_mode(word: Option<Seq<char>>) -> RunEnvironment {
    match word {
        Some(w) => match RunEnvironment::spec_from_name(w) {
            Some(env) => env,
            None => RunEnvironment::Client,
        },
        None => RunEnvironment::Client,
    }
}

/// One side of the board, as the document gives it.
pub open spec fn spec_side(found: Option<i64>, key: ConfigKey) -> Result<u32, ConfigError> {
    match found {
        Some(v) => if 0 <= v <= MAX_SIDE {
            Ok(v as u32)
        } else {
            Err(ConfigError::OutOfRange(key))
        },
        None => Err(ConfigError::Missing(key)),
    }
}

/// Whether a configuration is the one that a document describes.
///
/// The run mode and the debug flag have defaults.  The endpoint and the
/// sides of the board are taken as written.  A server's number of players is
/// brought between two and four; a client's name is taken as written; what
/// belongs to another run mode is left at its default.
pub open spec fn spec_describes(facts: ConfigFacts, config: Config) -> bool {
    let env = spec_run_mode(facts.environment);
    &&& config.env == env
    &&& config.debug == spec_debug_flag(facts.debug)
    &&& Some(config.connection_address@) == facts.connection_address
    &&& Ok::<u32, ConfigError>(config.gameboard_config.width) == spec_side(
        facts.width,
        ConfigKey::Width,
    )
    &&& Ok::<u32, ConfigError>(config.gameboard_config.height) == spec_side(
        facts.height,
        ConfigKey::Height,
    )
    &&& match env {
        RunEnvironment::Server => {
            &&& facts.max_players matches Some(wish)
            &&& config.server_config.max_players == ServerConfig::spec_players(wish as int)
            &&& config.client_config.username@ == Seq::<char>::empty()
        },
        RunEnvironment::Client => {
            &&& Some(config.client_config.username@) == facts.username
            &&& config.server_config.max_players == 0
        },
        RunEnvironment::Singleplayer => {
            &&& config.server_config.max_players == 0
            &&& config.client_config.username@ == Seq::<char>::empty()
        },
    }
}

/// The first reason, in the order in which a document is read, for which
/// no configuration can be made of it; none if one can.
pub open spec fn spec_fault(facts: ConfigFacts) -> Option<ConfigError> {
    let env = spec_run_mode(facts.environment);
    if !facts.valid {
        Some(ConfigError::Syntax)
    } else if facts.connection_address.is_none() {
        Some(ConfigError::Missing(ConfigKey::ConnectionAddress))
    } else if spec_side(facts.width, ConfigKey::Width) is Err {
        Some(spec_side(facts.width, ConfigKey::Width)->Err_0)
    } else if spec_side(facts.height, ConfigKey::Height) is Err {
        Some(spec_side(facts.height, ConfigKey::Height)->Err_0)
    } else if env == RunEnvironment::Server && facts.max_players.is_none() {
        Some(ConfigError::Missing(ConfigKey::MaxPlayers))
    } else if env == RunEnvironment::Client && facts.username.is_none() {
        Some(ConfigError::Missing(ConfigKey::Username))
    } else {
        None
    }
}

/// One side of the board, as the document gives it.
fn side(found: Option<i64>, key: ConfigKey) -> (made: Result<u32, ConfigError>)
    ensures
        made == spec_side(found, key),
{
    match found {
        Some(v) => if 0 <= v && v <= MAX_SIDE as i64 {
            Ok(v as u32)
        } else {
            Err(ConfigError::OutOfRange(key))
        },
        None => Err(ConfigError::Missing(key)),
    }
}

impl ConfigValues {
    /// Reads the values of a TOML document.
    pub fn read(text: &str) -> (values: ConfigValues)
        ensures
            values@ == spec_toml_facts(text@),
    {
        let root = toml_parse(text);
        ConfigValues {
            valid: root.is_some(),
            environment: string_at(&root, "configuration", "environment"),
            debug: string_at(&root, "configuration", "debug"),
            connection_address: string_at(&root, "configuration", "connection_address"),
            width: integer_at(&root, "gameboard", "width"),
            height: integer_at(&root, "gameboard", "height"),
            max_players: integer_at(&root, "server", "max_players"),
            username: string_at(&root, "client", "username"),
        }
    }
}

impl Config {
    /// The configuration with which a program runs that finds no document.
    pub fn new() -> (config: Config)
        ensures
            config.env == RunEnvironment::Client,
            !config.debug,
            config.connection_address@ == Seq::<char>::empty(),
            config.server_config.max_players == 0,
            config.client_config.username@ == Seq::<char>::empty(),
            config.gameboard_config == (GameboardConfig { width: 128, height: 128 }),
    {
        Config {
            env: RunEnvironment::Client,
            debug: false,
            connection_address: String::new(),
            server_config: ServerConfig { max_players: 0 },
            client_config: ClientConfig { username: String::new() },
            gameboard_config: GameboardConfig { width: 128, height: 128 },
        }
    }

    /// Makes the configuration that the values of a document describe, or
    /// says why none can be made of them.
    pub fn from_values(values: ConfigValues) -> (made: Result<Config, ConfigError>)
        ensures
            match made {
                Ok(config) => spec_fault(values@).is_none() && spec_describes(values@, config),
                Err(fault) => spec_fault(values@) == Some(fault),
            },
    {
        if !values.valid {
            return Err(ConfigError::Syntax);
        }
        let env = match &values.environment {
            Some(word) => match RunEnvironment::from_name(word.as_str()) {
                Some(env) => env,
                None => RunEnvironment::Client,
            },
            None => RunEnvironment::Client,
        };
        let debug = match &values.debug {
            Some(word) => *word == "true".to_owned(),
            None => false,
        };
        let width = side(values.width, ConfigKey::Width);
        let height = side(values.height, ConfigKey::Height);
        let connection_address = match values.connection_address {
            Some(address) => address,
            None => {
                return Err(ConfigError::Missing(ConfigKey::ConnectionAddress));
            },
        };
        let width = match width {
            Ok(width) => width,
            Err(fault) => {
                return Err(fault);
            },
        };
        let height = match height {
            Ok(height) => height,
            Err(fault) => {
                return Err(fault);
            },
        };
        let mut server_config = ServerConfig { max_players: 0 };
        let mut client_config = ClientConfig { username: String::new() };
        match env {
            RunEnvironment::Server => {
                match values.max_players {
                    Some(wish) => {
                        server_config = ServerConfig::new(wish);
                    },
                    None => {
                        return Err(ConfigError::Missing(ConfigKey::MaxPlayers));
                    },
                }
            },
            RunEnvironment::Client => {
                match values.username {
                    Some(username) => {
                        client_config = ClientConfig { username };
                    },
                    None => {
                        return Err(ConfigError::Missing(ConfigKey::Username));
                    },
                }
            },
            RunEnvironment::Singleplayer => {},
        }
        Ok(
            Config {
                env,
                debug,
                connection_address,
                server_config,
                client_config,
                gameboard_config: GameboardConfig { width, height },
            },
        )
    }

    /// Makes the configuration that a TOML document describes, or says why
    /// none can be made of it.
    pub fn from_toml(text: &str) -> (made: Result<Config, ConfigError>)
        ensures
            match made {
                Ok(config) => spec_fault(spec_toml_facts(text@)).is_none() && spec_describes(
                    spec_toml_facts(text@),
                    config,
                ),
                Err(fault) => spec_fault(spec_toml_facts(text@)) == Some(fault),
            },
    {
        Config::from_values(ConfigValues::read(text))
    }
}

impl Default for Config {
    fn default() -> (config: Config)
        ensures
            config.env == RunEnvironment::Client,
            !config.debug,
            config.connection_address@ == Seq::<char>::empty(),
            config.server_config.max_players == 0,
            config.client_config.username@ == Seq::<char>::empty(),
            config.gameboard_config == (GameboardConfig { width: 128, height: 128 }),
    {
        Config::new()
    }
}

} // verus!
