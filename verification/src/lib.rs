//! The playback coordination core of a personal music manager.
//!
//! Short-lived command invocations and one long-running playback worker
//! share nothing but two durable stores: a single playback-state record and
//! a FIFO queue of song snapshots. This crate holds everything that
//! decides: the five-state playback machine and its transition table
//! ([`player`]), the worker's per-tick reconciliation of the audio sink
//! against the desired state ([`worker`]), the in-memory queue ([`queue`]),
//! the state record's document format with a proved read-back-what-you-
//! wrote law ([`codec`] on top of [`json`]), the song catalog
//! ([`music_library`]) and the tag-defaulting and path rules of the scanner
//! ([`metadata`]).
//!
//! Process plumbing stays outside: reading and writing the store files,
//! detaching the worker, driving the audio device and parsing the command
//! line are a thin shell around this crate.

pub mod cli;
pub mod codec;
pub mod json;
pub mod metadata;
pub mod music_library;
pub mod player;
pub mod queue;
pub mod worker;
