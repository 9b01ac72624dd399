//! A tick-based prediction / reconciliation / interpolation core for
//! client-server simulations: an authoritative server advances a fixed-rate
//! simulation, clients run the same deterministic step function ahead of
//! confirmation to hide latency, and remote entities are rendered smoothly
//! from a delayed interpolation of confirmed snapshots.
//!
//! - [`clock`]: the monotonic fixed-rate tick counter, with bounded catch-up
//!   and fast-forward on stalls.
//! - [`sim`]: entity state, input commands, and the pure deterministic step
//!   function that prediction and rollback-replay rest on.
//! - [`commands`]: write-once, tick-stamped input, read as neutral where
//!   absent.
//! - [`snapshots`] and [`store`]: append-only, tick-ordered confirmed state,
//!   per entity; stale arrivals dropped, old entries evicted.
//! - [`predict`]: the client-side history of locally simulated, not yet
//!   confirmed ticks, contiguous from the last confirmed one.
//! - [`reconcile`]: divergence detection against authoritative snapshots,
//!   with tolerance, rollback-replay, and correction smoothing targets.
//! - [`interpolate`]: delayed interpolation of remote entities between two
//!   confirmed snapshots, holding the last state on underrun.
//! - [`replicate`]: the server-side send schedule per replication group —
//!   sync mode, visibility, channel.
//! - [`protocol`]: the wire vocabulary, and what receiving each message
//!   does.
//! - [`session`]: the per-connection context — ownership and latest input.
//! - [`config`]: the validated configuration surface.

pub mod clock;
pub mod commands;
pub mod config;
pub mod interpolate;
pub mod predict;
pub mod protocol;
pub mod reconcile;
pub mod replicate;
pub mod session;
pub mod sim;
pub mod snapshots;
pub mod store;
