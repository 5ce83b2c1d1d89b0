use songbook::config::{AppConfig, ConfigError};

fn config() -> AppConfig {
    AppConfig {
        database_path: "catalog.sqlite3".to_string(),
        song_directory: "/tmp".to_string(),
        player_socket: "/tmp/player.sock".to_string(),
        window_title: "Songbook".to_string(),
        search_placeholder: None,
    }
}

#[test]
fn valid_configuration_passes() {
    assert!(config().validate().is_ok());
}

#[test]
fn empty_fields_are_reported_in_order() {
    let mut c = config();
    c.database_path = String::new();
    c.song_directory = String::new();
    assert!(matches!(c.validate(), Err(ConfigError::EmptyDatabasePath)));

    let mut c = config();
    c.song_directory = String::new();
    assert!(matches!(c.validate(), Err(ConfigError::EmptySongDirectory)));

    let mut c = config();
    c.player_socket = String::new();
    assert!(matches!(c.validate(), Err(ConfigError::EmptyPlayerSocket)));

    let mut c = config();
    c.window_title = String::new();
    assert!(matches!(c.validate(), Err(ConfigError::EmptyWindowTitle)));
}

#[test]
fn validate_outcome_decides_each_case() {
    let c = config();
    assert!(c.validate_outcome(true).is_ok());
    assert!(matches!(c.validate_outcome(false), Err(ConfigError::SongDirectoryMissing(p))
        if p == "/tmp"));

    let mut empty = config();
    empty.window_title = String::new();
    // An empty field decides before the probe's answer matters.
    assert!(matches!(empty.validate_outcome(true), Err(ConfigError::EmptyWindowTitle)));
    assert!(matches!(empty.validate_outcome(false), Err(ConfigError::EmptyWindowTitle)));
}

#[test]
fn missing_song_directory_is_reported_with_its_path() {
    let mut c = config();
    c.song_directory = "/tmp/songbook_no_such_directory".to_string();
    assert!(matches!(c.validate(), Err(ConfigError::SongDirectoryMissing(p))
        if p == "/tmp/songbook_no_such_directory"));
}
