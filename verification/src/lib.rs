//! Streaming record pipeline for a language-partitioned web-text corpus.
//!
//! The corpus is stored as per-language files, each a sequence of framed,
//! serialized records. Every command of the tool set is a thin configuration
//! of one shared mechanism: decode records from a byte stream, run a
//! transform over each record, and re-serialize the survivors into
//! size-bounded output shards. The modules below hold that mechanism:
//!
//! - [`record`]: the in-memory `Record` value and its metadata,
//! - [`codec`]: the on-disk framing, with a proved encode/decode round trip,
//! - [`transform`]: the per-command record transforms,
//! - [`shard`]: the size- and count-bounded shard writer,
//! - [`unit`]: one unit of work end to end (stream -> transform -> shards),
//! - [`orchestrator`]: the per-unit state machine and the aggregate verdict,
//! - [`cli`]: the command set, each a configuration of the pipeline,
//! - [`error`]: the error taxonomy shared by all of the above.

pub mod cli;
pub mod codec;
pub mod error;
pub mod orchestrator;
pub mod record;
pub mod shard;
pub mod transform;
pub mod unit;
