//! Deterministic simulation core of a competitive, networked falling-block
//! puzzle game.
//!
//! The crate owns the rules that must be bit-identical across networked
//! instances: the board grid and its mutation operations, piece geometry and
//! rotation with wall kicks, T-spin classification, line clearing, garbage
//! rows, attack scoring, the per-field timers, and the event protocol that
//! keeps remote replicas of a board consistent. Rendering, input mapping and
//! the network transport live outside this crate and talk to it through plain
//! values.

pub mod block;
pub mod blocks;
pub mod event;
pub mod field;
pub mod local;
pub mod mino;
pub mod movement;
pub mod net;
pub mod next;
pub mod rooms;
pub mod scoring;
pub mod timer;
pub mod position;
pub mod rng;
pub mod shape;
pub mod state;
pub mod t_spin;
