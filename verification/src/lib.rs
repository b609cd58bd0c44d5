//! The core of an end-to-end encrypted file transfer relay: a rendezvous
//! between one sender and one recipient under a short opaque id, a registry
//! of pending transfers with at-most-one-claim semantics, the two session
//! state machines with recipient reconnection and byte-offset resumption,
//! and the exact text of every control message. Around it, two smaller
//! collaborators: chunk-to-disk staging manifests, and a local-share mode
//! that seals file chunks with a symmetric cipher.
//!
//! Everything here computes; sockets, files, timers and tasks belong to the
//! embedding program, which feeds events in and carries actions out.

pub mod fidelity;
pub mod handshake;
pub mod idgen;
pub mod manifest;
pub mod messages;
pub mod meta;
pub mod recipient;
pub mod registry;
pub mod relay;
pub mod sender;
pub mod share;
pub mod text;
