//! Concurrency core of a personal music library manager.
//!
//! Three cooperating services are modelled as verified state machines:
//! a download scheduler backed by a fixed worker pool, a playback engine
//! driven by a fixed-interval polling tick, and a search aggregator that
//! merges results from a local and a remote producer.  All decisions the
//! services make are verified here; the surrounding process plumbing
//! (audio device, storage, the external fetch tool) stays outside and
//! interacts with these state machines through plain values.

pub mod fetch;
pub mod parser;
pub mod playback;
pub mod scheduler;
pub mod search;
pub mod song;
pub mod utility;
