//! Core logic of a kiosk-style terminal video launcher: a scanned file tree
//! becomes a grouped, deterministically ordered catalog; a selection state
//! machine interprets key events into playback decisions; a queue builder
//! fixes the playback order; a playback policy decides continuation from
//! player exit codes; and a metadata resolver merges remote and probed
//! per-title records.

pub mod catalog;
pub mod fmt;
pub mod json;
pub mod metadata;
pub mod queue;
mod rng;
pub mod playback;
pub mod state;
