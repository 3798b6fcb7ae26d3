//! Local savegame backend for a game client: save files keyed by a numeric
//! id, a manifest that names them, and the session object the host drives.
pub mod paths;
pub mod config;
pub mod manifest;
pub mod listing;
pub mod types;
