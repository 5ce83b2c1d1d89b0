//! The application configuration as the library sees it: four required
//! strings and an optional placeholder, with the validation the
//! application runs before anything else is constructed.
//!
//! Reading and parsing the configuration file is the surrounding
//! application's job; the library only judges the values.

use vstd::prelude::*;

verus! {

/// The configuration values the application runs on.
pub struct AppConfig {
    /// Filesystem path of the catalog database.
    pub database_path: String,
    /// Media root against which entry file names are resolved.
    pub song_directory: String,
    /// Address of the player control socket.
    pub player_socket: String,
    /// Title of the application window.
    pub window_title: String,
    /// Placeholder text for the search box, if any.
    pub search_placeholder: Option<String>,
}

/// Why the configuration was rejected; fatal at startup.
#[derive(Debug)]
pub enum ConfigError {
    EmptyDatabasePath,
    EmptySongDirectory,
    EmptyPlayerSocket,
    EmptyWindowTitle,
    /// No directory on the filesystem at the configured media root
    /// (the payload).
    SongDirectoryMissing(String),
}

impl AppConfig {
    /// Whether the four required strings are all non-empty.
    pub open spec fn fields_filled(self) -> bool {
        self.database_path@.len() > 0 && self.song_directory@.len() > 0
            && self.player_socket@.len() > 0 && self.window_title@.len() > 0
    }

    /// The validation decision, given the media-root probe's answer:
    /// exactly the first failing check is reported, in a fixed order —
    /// the four emptiness checks, then the directory's presence — and
    /// validation succeeds precisely when none fails.
    pub fn validate_outcome(&self, dir_present: bool) -> (r: Result<(), ConfigError>)
        ensures
            (r matches Err(ConfigError::EmptyDatabasePath)) <==> self.database_path@.len() == 0,
            (r matches Err(ConfigError::EmptySongDirectory)) <==> (self.database_path@.len() > 0
                && self.song_directory@.len() == 0),
            (r matches Err(ConfigError::EmptyPlayerSocket)) <==> (self.database_path@.len() > 0
                && self.song_directory@.len() > 0 && self.player_socket@.len() == 0),
            (r matches Err(ConfigError::EmptyWindowTitle)) <==> (self.database_path@.len() > 0
                && self.song_directory@.len() > 0 && self.player_socket@.len() > 0
                && self.window_title@.len() == 0),
            (r matches Err(ConfigError::SongDirectoryMissing(p)) && p@ == self.song_directory@)
                <==> (self.fields_filled() && !dir_present),
            (r is Ok) <==> (self.fields_filled() && dir_present),
    {
        if self.database_path.as_str().is_empty() {
            return Err(ConfigError::EmptyDatabasePath);
        }
        if self.song_directory.as_str().is_empty() {
            return Err(ConfigError::EmptySongDirectory);
        }
        if self.player_socket.as_str().is_empty() {
            return Err(ConfigError::EmptyPlayerSocket);
        }
        if self.window_title.as_str().is_empty() {
            return Err(ConfigError::EmptyWindowTitle);
        }
        if !dir_present {
            return Err(ConfigError::SongDirectoryMissing(self.song_directory.clone()));
        }
        Ok(())
    }

    /// Probes the filesystem for the media root and decides as
    /// `validate_outcome` does for the answer: a missing media root is
    /// the only verdict that depends on the disk, and validation
    /// succeeds exactly when the four fields are non-empty and the
    /// probe found the directory.
    pub fn validate(&self) -> (r: Result<(), ConfigError>)
        ensures
            (r matches Err(ConfigError::EmptyDatabasePath)) <==> self.database_path@.len() == 0,
            (r matches Err(ConfigError::EmptySongDirectory)) <==> (self.database_path@.len() > 0
                && self.song_directory@.len() == 0),
            (r matches Err(ConfigError::EmptyPlayerSocket)) <==> (self.database_path@.len() > 0
                && self.song_directory@.len() > 0 && self.player_socket@.len() == 0),
            (r matches Err(ConfigError::EmptyWindowTitle)) <==> (self.database_path@.len() > 0
                && self.song_directory@.len() > 0 && self.player_socket@.len() > 0
                && self.window_title@.len() == 0),
            r is Ok ==> self.fields_filled(),
            r matches Err(ConfigError::SongDirectoryMissing(p)) ==> p@ == self.song_directory@
                && self.fields_filled(),
    {
        let dir_present = crate::probe::path_exists(self.song_directory.as_str());
        self.validate_outcome(dir_present)
    }
}

} // verus!
