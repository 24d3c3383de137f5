//! Core of an ephemeral, content-addressed file drop: bounded ingest of an
//! uploaded byte stream, derivation of the stored name from the content,
//! confinement of requested names to the storage root, and the retention
//! decisions of the background sweeper.
pub mod config;
pub mod content_id;
pub mod naming;
pub mod resolve;
pub mod retention;
pub mod upload;
