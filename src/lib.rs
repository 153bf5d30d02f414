//! Workspace desktop shell core: parsing of version-control status, log and
//! branch listings, configuration normalisation, and the small decisions the
//! desktop commands make around their process, file and network I/O.

pub mod ai_cli;
pub mod config;
pub mod deep_link;
pub mod filesystem;
pub mod git;
pub mod greeting;
pub mod notifications;
pub mod number;
pub mod server;
pub mod text;
pub mod tray;
pub mod workspace;
