//! Core of a desktop status hub: a shared state table fed by compositor,
//! mixer, power and timer listeners, an event dispatcher, and an
//! output-reconciliation arena. The surrounding process (socket I/O, the
//! presentation surface) lives outside this crate and only hands plain
//! values in and out.

pub mod event;
pub mod mixer;
pub mod opener;
pub mod outputs;
pub mod power;
pub mod snapshot;
pub mod state;
pub mod sway;
pub mod sysinfo;
pub mod text;
pub mod tree;
