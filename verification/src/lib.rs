//! Core of a stateful service node in a distributed messaging and presence
//! network: a single-threaded reentrant actor runtime whose handlers run over
//! scoped state accessors, with an identity-resolution cache backed by an
//! external authority, an idempotent event-ingestion pipeline with salted
//! obfuscation, a presence tracker, pre-dispatch admission, and periodic
//! maintenance run before each handler.

pub mod access_token;
pub mod admission;
pub mod c2c_undelete_messages;
pub mod dedup;
pub mod end_video_call;
pub mod ids;
pub mod kv;
pub mod mark_as_online;
pub mod obfuscate;
pub mod presence;
pub mod push_events;
pub mod resolve;
pub mod state;
