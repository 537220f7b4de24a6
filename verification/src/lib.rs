//! Verified core of a bidirectional file-sync coordinator.
//!
//! The library keeps a filesystem project tree consistent with a live host
//! application while an external sync tool rewrites parts of the same tree.
//! It holds the decision logic of both sync directions: a change debouncer,
//! a pull cycle with conflict detection, backup naming, manifests and
//! retention, session-log rotation and formatting, and the routing rules of
//! the local log-ingestion endpoint. Process spawning, file I/O and sockets
//! live outside the library and hand it plain values.

pub mod digits;
pub mod backup;
pub mod config;
pub mod context_packs;
pub mod coordinator;
pub mod debounce;
pub mod events;
pub mod http;
pub mod json;
pub mod logging;
pub mod paths;
pub mod snapshot;
pub mod templates;
pub mod text;
pub mod update;
pub mod timefmt;
pub mod util;
pub mod version;
