//! A verified core for an IPv4 blocklist service.
//!
//! The library holds the logic of the service: the binary address codec and
//! the persisted record stream, the dotted-quad and feed-body parsers, the
//! in-memory membership store, and the refresh decision that installs a
//! fetched feed. The surrounding process (HTTP transport, file handles,
//! scheduling) lives outside the library and hands it plain values.

pub mod addr;
pub mod checker;
pub mod codec;
pub mod downloader;
pub mod persister;
