//! Core of a peer-to-peer group chat: a predicate-queryable record store,
//! a topic-oriented event bus with self-pruning observer registrations,
//! the domain entities and workflows built on both, the JSON wire codec
//! for chat messages, and the identity holder for the transport layer.
//!
//! Networking, terminal rendering and the interactive loop are host
//! concerns and live outside this library.

pub mod clock;
pub mod events;
pub mod ids;
pub mod keystore;
pub mod messaging;
pub mod network;
pub mod peer;
pub mod pubsub;
pub mod storage;
pub mod text;
pub mod ui;

pub use storage::memory_storage::MemoryStorage;
pub use ui::Notifications;
