//! Library for a small media-catalog application: searching a numbered,
//! titled list of media files held in a local SQLite store, keeping a
//! bounded results view in sync with the user's query, and validating a
//! playback request before an external player is launched.

pub mod config;
pub mod controller;
pub mod player;
pub mod probe;
pub mod search;
pub mod song;
pub mod store;
pub mod text;
