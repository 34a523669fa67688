//! Verified core of the cast-away desktop caster: configuration, device
//! registry, IPC dispatch and the decisions of the application's event loop.
pub mod cast;
pub mod config;
pub mod device;
pub mod ipc;
pub mod launch;
pub mod routes;
pub mod state;
pub mod text;
