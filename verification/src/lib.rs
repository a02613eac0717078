//! Keeps folders of music files mirrored as playlists on streaming providers.
//!
//! The library holds the rules of the synchronisation engine: the folder tree
//! fed by file-system events, the event queue and its collapsing, the naming of
//! remote playlists, track resolution, and the reconciliation of one playlist
//! with one provider. Reading files, talking to a provider and sleeping are
//! left to the caller.
pub mod api;
pub mod clock;
pub mod collapse;
pub mod config;
pub mod db;
pub mod debounce;
pub mod ingest;
pub mod json;
pub mod models;
pub mod names;
pub mod paths;
pub mod pattern;
pub mod playlist;
pub mod protocol;
pub mod reconcile;
pub mod resolver;
pub mod table;
pub mod text;
pub mod util;
pub mod watcher;
pub mod worker;
