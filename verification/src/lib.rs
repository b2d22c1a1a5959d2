//! Muco - Music Copier
//!
//! Muco keeps one or more storage devices in sync with a local music
//! library, transcoding files into a device-compatible container when
//! needed. This crate is the verified core: cataloging, manifest
//! bookkeeping, reconciliation planning and transfer accounting are all
//! pure functions with proved contracts. The surrounding binary performs
//! the actual filesystem walks, copies and encoder invocations and feeds
//! their outcomes back into this library.

pub mod catalog;
pub mod config;
pub mod device;
pub mod error;
pub mod executor;
pub mod library;
pub mod manifest;
pub mod media;
pub mod orchestrator;
pub mod paths;
pub mod plan;
