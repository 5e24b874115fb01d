//! Progress tracking for locally stored anime episodes.
//!
//! The crate parses episode filenames into (title, episode) pairs, builds an
//! episode map over a directory listing, resolves a local series against a
//! remote catalog, owns the list-entry state machine (watch status, watched
//! count, rewatch count, start/end dates), and reconciles local and remote
//! state under an offline/online dichotomy with a per-entry dirty flag.
//!
//! All I/O (filesystem scans, HTTP, the terminal) lives in the embedding
//! application; the library works on plain values handed in by the caller.

pub mod config;
pub mod episodes;
pub mod err;
pub mod log;
pub mod options;
pub mod parser;
pub mod remote;
pub mod repository;
pub mod resolver;
pub mod score;
pub mod series;
pub mod text;
