//! A media library manager's core: series detection in file names, the
//! media index kept in SQLite, playlist queries, HTTP range streaming and
//! file-system change handling.
use vstd::prelude::*;

pub mod text;
pub mod series;
pub mod paths;
pub mod models;
pub mod ids;
pub mod scanner;
pub mod query;
pub mod statements;
pub mod db;
pub mod watcher;
pub mod media_server;
pub mod commands;
pub mod player;
pub mod launch;

verus! {
} // verus!
