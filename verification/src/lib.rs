//! Peer-to-peer rollback-netcode session core.
//!
//! A deterministic simulation is advanced in lockstep by several
//! participants, some local and some remote.  Missing remote input is
//! predicted, the simulation runs ahead speculatively, and when the true
//! input later arrives and disagrees with the prediction the session rolls
//! back to a saved snapshot and resimulates with the corrected input.
//!
//! The crate covers the input-frame codec, the player registry, the
//! per-remote input synchronizer, the snapshot ring buffer and the session
//! state machine.  Transports, the host simulation and its save/load
//! callbacks are collaborators: the host drives the session and hands it
//! plain values (sampled inputs, received messages, state blobs).

pub mod input;
pub mod player;
pub mod snapshot;
pub mod session;
pub mod sync;
pub mod wire;
