use project_calamity::config::{
    Config, ConfigError, ConfigKey, ConfigValues, GameboardConfig, RunEnvironment, ServerConfig,
};
use project_calamity::console::{
    command_of, command_with, parse_command_input, ConsoleCommand, ConsoleFault,
};

const SERVER: &str = r#"
[configuration]
environment = "server"
debug = "true"
connection_address = "127.0.0.1:6000"

[gameboard]
width = 64
height = 32
scale = 1.0

[server]
max_players = 7
"#;

const CLIENT: &str = r#"
[configuration]
environment = "client"
debug = "false"
connection_address = "example.org:6000"

[gameboard]
width = 128
height = 128
scale = 2.5

[client]
username = "ann"
"#;

fn with(text: &str, from: &str, to: &str) -> String {
    assert!(text.contains(from));
    text.replace(from, to)
}

#[test]
fn server_configuration() {
    let config = Config::from_toml(SERVER).unwrap();
    assert_eq!(config.env, RunEnvironment::Server);
    assert!(config.debug);
    assert_eq!(config.connection_address, "127.0.0.1:6000");
    assert_eq!(config.gameboard_config, GameboardConfig { width: 64, height: 32 });
    assert_eq!(config.server_config, ServerConfig { max_players: 4 });
    assert_eq!(config.client_config.username, "");
}

#[test]
fn client_configuration() {
    let config = Config::from_toml(CLIENT).unwrap();
    assert_eq!(config.env, RunEnvironment::Client);
    assert!(!config.debug);
    assert_eq!(config.connection_address, "example.org:6000");
    assert_eq!(config.gameboard_config, GameboardConfig { width: 128, height: 128 });
    assert_eq!(config.server_config.max_players, 0);
    assert_eq!(config.client_config.username, "ann");
}

#[test]
fn singleplayer_needs_neither_server_nor_client_table() {
    let text = with(SERVER, "\"server\"", "\"singleplayer\"");
    let config = Config::from_toml(&text).unwrap();
    assert_eq!(config.env, RunEnvironment::Singleplayer);
    assert_eq!(config.server_config.max_players, 0);
    assert_eq!(config.client_config.username, "");
}

#[test]
fn unknown_environment_and_debug_fall_back_to_defaults() {
    let text = with(CLIENT, "\"client\"", "\"spectator\"");
    let text = with(&text, "debug = \"false\"", "debug = true");
    let config = Config::from_toml(&text).unwrap();
    assert_eq!(config.env, RunEnvironment::Client);
    assert!(!config.debug);
    let text = with(CLIENT, "environment = \"client\"\n", "");
    assert_eq!(Config::from_toml(&text).unwrap().env, RunEnvironment::Client);
}

#[test]
fn max_players_is_brought_between_two_and_four() {
    for (wish, granted) in [(-5, 2), (0, 2), (1, 2), (2, 2), (3, 3), (4, 4), (5, 4), (1000, 4)] {
        assert_eq!(ServerConfig::new(wish).max_players, granted);
        let text = with(SERVER, "max_players = 7", &format!("max_players = {}", wish));
        assert_eq!(Config::from_toml(&text).unwrap().server_config.max_players, granted);
    }
    assert_eq!(ServerConfig::new(i64::MAX).max_players, 4);
    assert_eq!(ServerConfig::new(i64::MIN).max_players, 2);
}

#[test]
fn configuration_faults() {
    assert_eq!(Config::from_toml("this is = = not toml").unwrap_err(), ConfigError::Syntax);
    let text = with(SERVER, "connection_address = \"127.0.0.1:6000\"\n", "");
    assert_eq!(
        Config::from_toml(&text).unwrap_err(),
        ConfigError::Missing(ConfigKey::ConnectionAddress)
    );
    let text = with(SERVER, "width = 64\n", "");
    assert_eq!(Config::from_toml(&text).unwrap_err(), ConfigError::Missing(ConfigKey::Width));
    let text = with(SERVER, "height = 32", "height = \"tall\"");
    assert_eq!(Config::from_toml(&text).unwrap_err(), ConfigError::Missing(ConfigKey::Height));
    let text = with(SERVER, "width = 64", "width = -1");
    assert_eq!(Config::from_toml(&text).unwrap_err(), ConfigError::OutOfRange(ConfigKey::Width));
    let text = with(SERVER, "height = 32", "height = 2147483648");
    assert_eq!(Config::from_toml(&text).unwrap_err(), ConfigError::OutOfRange(ConfigKey::Height));
    let text = with(SERVER, "height = 32", "height = 2147483647");
    assert_eq!(Config::from_toml(&text).unwrap().gameboard_config.height, 2147483647);
    let text = with(SERVER, "max_players = 7", "players = 7");
    assert_eq!(
        Config::from_toml(&text).unwrap_err(),
        ConfigError::Missing(ConfigKey::MaxPlayers)
    );
    let text = with(CLIENT, "username = \"ann\"", "username = 5");
    assert_eq!(Config::from_toml(&text).unwrap_err(), ConfigError::Missing(ConfigKey::Username));
    assert_eq!(
        Config::from_toml("").unwrap_err(),
        ConfigError::Missing(ConfigKey::ConnectionAddress)
    );
}

#[test]
fn default_configuration() {
    let config = Config::new();
    assert_eq!(config.env, RunEnvironment::Client);
    assert!(!config.debug);
    assert_eq!(config.connection_address, "");
    assert_eq!(config.gameboard_config, GameboardConfig { width: 128, height: 128 });
    assert_eq!(GameboardConfig::default(), GameboardConfig { width: 128, height: 128 });
    assert_eq!(RunEnvironment::default(), RunEnvironment::Client);
}

#[test]
fn run_environment_names() {
    assert_eq!(RunEnvironment::from_name("client"), Some(RunEnvironment::Client));
    assert_eq!(RunEnvironment::from_name("server"), Some(RunEnvironment::Server));
    assert_eq!(RunEnvironment::from_name("singleplayer"), Some(RunEnvironment::Singleplayer));
    assert_eq!(RunEnvironment::from_name("Server"), None);
    assert_eq!(RunEnvironment::from_name(""), None);
}

#[test]
fn console_commands() {
    assert_eq!(parse_command_input("debug players\n"), Ok(ConsoleCommand::DebugPlayers));
    assert_eq!(parse_command_input("  debug   turn status \n"), Ok(ConsoleCommand::DebugTurnStatus));
    assert_eq!(parse_command_input("debug turn execute\n"), Ok(ConsoleCommand::DebugTurnExecute));
    assert_eq!(
        parse_command_input("debug turn execute now\n"),
        Ok(ConsoleCommand::DebugTurnExecute)
    );
    assert_eq!(
        parse_command_input("debug reveal 550e8400-e29b-41d4-a716-446655440000\n"),
        Ok(ConsoleCommand::DebugReveal(0x550e8400_e29b_41d4_a716_446655440000))
    );
    assert_eq!(
        parse_command_input("debug reveal a1a2a3a4b1b2c1c2d1d2d3d4d5d6d7d8\n"),
        Ok(ConsoleCommand::DebugReveal(0xa1a2a3a4b1b2c1c2d1d2d3d4d5d6d7d8))
    );
}

#[test]
fn console_faults() {
    assert_eq!(parse_command_input(""), Err(ConsoleFault::Empty));
    assert_eq!(parse_command_input(" \t\n"), Err(ConsoleFault::Empty));
    assert_eq!(parse_command_input("help\n"), Err(ConsoleFault::UnknownCommand));
    assert_eq!(parse_command_input("Debug players\n"), Err(ConsoleFault::UnknownCommand));
    assert_eq!(parse_command_input("debug\n"), Err(ConsoleFault::MissingSubcommand));
    assert_eq!(parse_command_input("debug fly\n"), Err(ConsoleFault::UnknownSubcommand));
    assert_eq!(parse_command_input("debug reveal\n"), Err(ConsoleFault::RevealNeedsUuid));
    assert_eq!(
        parse_command_input("debug reveal 550e8400-e29b-41d4-a716-446655440000 now\n"),
        Err(ConsoleFault::RevealNeedsUuid)
    );
    assert_eq!(parse_command_input("debug reveal nobody\n"), Err(ConsoleFault::NotAUuid));
    assert_eq!(parse_command_input("debug turn\n"), Err(ConsoleFault::TurnNeedsSubcommand));
    assert_eq!(parse_command_input("debug turn back\n"), Err(ConsoleFault::UnknownTurnSubcommand));
    assert_eq!(
        command_of(&vec!["debug".to_string(), "players".to_string()]),
        Ok(ConsoleCommand::DebugPlayers)
    );
    assert_eq!(command_of(&Vec::new()), Err(ConsoleFault::Empty));
}

fn values() -> ConfigValues {
    ConfigValues {
        valid: true,
        environment: Some("server".to_string()),
        debug: Some("true".to_string()),
        connection_address: Some("localhost:1".to_string()),
        width: Some(10),
        height: Some(20),
        max_players: Some(3),
        username: Some("ann".to_string()),
    }
}

#[test]
fn configuration_from_values() {
    let config = Config::from_values(values()).unwrap();
    assert_eq!(config.env, RunEnvironment::Server);
    assert!(config.debug);
    assert_eq!(config.connection_address, "localhost:1");
    assert_eq!(config.gameboard_config, GameboardConfig { width: 10, height: 20 });
    assert_eq!(config.server_config.max_players, 3);
    assert_eq!(config.client_config.username, "");

    let mut client = values();
    client.environment = None;
    client.debug = Some("yes".to_string());
    client.max_players = None;
    let config = Config::from_values(client).unwrap();
    assert_eq!(config.env, RunEnvironment::Client);
    assert!(!config.debug);
    assert_eq!(config.client_config.username, "ann");
    assert_eq!(config.server_config.max_players, 0);
}

#[test]
fn faults_are_reported_in_reading_order() {
    let mut all_wrong = values();
    all_wrong.valid = false;
    all_wrong.connection_address = None;
    all_wrong.width = None;
    assert_eq!(Config::from_values(all_wrong.clone()).unwrap_err(), ConfigError::Syntax);
    all_wrong.valid = true;
    assert_eq!(
        Config::from_values(all_wrong.clone()).unwrap_err(),
        ConfigError::Missing(ConfigKey::ConnectionAddress)
    );
    all_wrong.connection_address = Some(String::new());
    all_wrong.height = Some(-1);
    assert_eq!(
        Config::from_values(all_wrong.clone()).unwrap_err(),
        ConfigError::Missing(ConfigKey::Width)
    );
    all_wrong.width = Some(0);
    assert_eq!(
        Config::from_values(all_wrong.clone()).unwrap_err(),
        ConfigError::OutOfRange(ConfigKey::Height)
    );
    all_wrong.height = Some(0);
    all_wrong.max_players = None;
    assert_eq!(
        Config::from_values(all_wrong.clone()).unwrap_err(),
        ConfigError::Missing(ConfigKey::MaxPlayers)
    );
    all_wrong.environment = Some("client".to_string());
    all_wrong.username = None;
    assert_eq!(
        Config::from_values(all_wrong.clone()).unwrap_err(),
        ConfigError::Missing(ConfigKey::Username)
    );
    all_wrong.environment = Some("singleplayer".to_string());
    assert!(Config::from_values(all_wrong).is_ok());
}

#[test]
fn values_are_read_from_the_document() {
    let read = ConfigValues::read(SERVER);
    assert!(read.valid);
    assert_eq!(read.environment.as_deref(), Some("server"));
    assert_eq!(read.debug.as_deref(), Some("true"));
    assert_eq!(read.connection_address.as_deref(), Some("127.0.0.1:6000"));
    assert_eq!(read.width, Some(64));
    assert_eq!(read.height, Some(32));
    assert_eq!(read.max_players, Some(7));
    assert_eq!(read.username, None);
    let broken = ConfigValues::read("[configuration");
    assert!(!broken.valid);
    assert_eq!(broken.width, None);
    assert_eq!(broken.environment, None);
}

#[test]
fn command_for_given_words() {
    let words = |line: &str| line.split(' ').map(String::from).collect::<Vec<String>>();
    assert_eq!(
        command_with(&words("debug reveal someone"), Some(7)),
        Ok(ConsoleCommand::DebugReveal(7))
    );
    assert_eq!(
        command_with(&words("debug reveal someone"), None),
        Err(ConsoleFault::NotAUuid)
    );
    assert_eq!(
        command_with(&words("debug reveal"), Some(7)),
        Err(ConsoleFault::RevealNeedsUuid)
    );
    assert_eq!(command_with(&words("debug players x"), Some(7)), Ok(ConsoleCommand::DebugPlayers));
    assert_eq!(command_with(&words("debug turn status"), None), Ok(ConsoleCommand::DebugTurnStatus));
}

#[test]
fn a_value_is_found_only_under_a_table_and_only_of_its_type() {
    // the table is missing
    let read = ConfigValues::read("[configuration]\nenvironment = \"server\"\n");
    assert!(read.valid);
    assert_eq!(read.environment.as_deref(), Some("server"));
    assert_eq!(read.width, None);
    assert_eq!(read.max_players, None);
    // what stands under the table's name is no table
    let read = ConfigValues::read("gameboard = 3\nconfiguration = \"server\"\n");
    assert!(read.valid);
    assert_eq!(read.width, None);
    assert_eq!(read.environment, None);
    // the key is missing, or holds a value of another type
    let read = ConfigValues::read(
        "[gameboard]\nwidth = \"wide\"\nheight = 2.5\n[client]\nusername = 7\n[server]\nmax_players = [4]\n",
    );
    assert!(read.valid);
    assert_eq!(read.width, None);
    assert_eq!(read.height, None);
    assert_eq!(read.username, None);
    assert_eq!(read.max_players, None);
    // a table one level further down is not looked into
    let read = ConfigValues::read("[gameboard.width]\nwidth = 3\n");
    assert!(read.valid);
    assert_eq!(read.width, None);
    // inline tables are tables
    let read = ConfigValues::read("gameboard = { width = 5, height = 6 }\n");
    assert_eq!((read.width, read.height), (Some(5), Some(6)));
}

#[test]
fn default_is_the_configuration_without_a_document() {
    let config = Config::default();
    assert_eq!(config.env, RunEnvironment::Client);
    assert!(!config.debug);
    assert_eq!(config.connection_address, "");
    assert_eq!(config.server_config.max_players, 0);
    assert_eq!(config.client_config.username, "");
    assert_eq!(config.gameboard_config, GameboardConfig { width: 128, height: 128 });
}
