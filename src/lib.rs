//! Cross-seed reconciliation: decides whether a release found on another
//! indexer is a usable cross-seed of a locally held torrent, and which
//! download-client mutation starts seeding it.
pub mod codec;
pub mod config;
pub mod coordinator;
pub mod cross_seed;
pub mod torznab;
pub mod tracker;
pub mod unit;
