//! Core of a local Markdown preview server.
//!
//! The library holds the verified logic: URL routing, path-to-content
//! resolution, the Markdown rendering pipeline (heading anchors, optional
//! syntax highlighting), the fan-out hub that broadcasts filesystem change
//! notices, and the upgrade handshake that turns one HTTP connection into a
//! one-shot push channel.  All I/O (sockets, filesystem reads, the watcher,
//! page templates) lives outside the library and hands it plain values.

pub mod handshake;
pub mod hub;
pub mod render;
pub mod router;
pub mod resolve;
pub mod strutil;

pub use render::to_tag_anchor;
pub use resolve::mime_type;
pub use strutil::str_eq;
