//! Core of a media post-processing pipeline: a queue-driven orchestrator
//! that sequences transformation passes over one artifact, the
//! size-shrinking re-encode pass, and the numeric and textual rules both
//! rely on.
//!
//! The library performs no I/O. Every step that needs a subprocess, the
//! file system or a database is described as a value the caller acts on,
//! and the outcome is handed back as a plain value.
//!
//! - `orchestrator`: the work queue, the registry and the history of a
//!   pipeline, as a state machine.
//! - `pp`: passes, and the re-encode pass as a state machine of its own.
//! - `probe`, `encoder`, `bitrate`: what the re-encode pass measures, aims
//!   for and asks the encoder to do.
//! - `object`, `sharex`: the records that travel through the pipeline and
//!   beyond it.
//! - `interaction`, `ytdlp`: presenting artifacts, reading what a user
//!   picked, and fetching new artifacts.
//! - `json`, `text`: reading JSON and decimal numbers, building command
//!   lines.

pub mod bitrate;
pub mod encoder;
pub mod interaction;
pub mod json;
pub mod object;
pub mod orchestrator;
pub mod pp;
pub mod probe;
pub mod sharex;
pub mod text;
pub mod ytdlp;
