//! Deterministic core of a two-player rollback platformer: the fixed-point
//! physics and collision engine that both peers replay tick for tick, the
//! input codec, the snapshot/restore model the rollback engine relies on,
//! and the rendezvous handshake state machine that bootstraps a session.

pub mod args;
pub mod collider;
pub mod components;
pub mod config;
pub mod connection;
pub mod detection;
pub mod input;
pub mod interactions;
pub mod lobby;
pub mod movement;
pub mod physics;
pub mod resources;
pub mod session;
pub mod snapshot;
pub mod solids;
pub mod world;
