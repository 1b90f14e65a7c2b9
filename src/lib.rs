//! A caching gateway core: game/loader/version/build catalog types, the
//! provider registry and download orchestration, and the decision logic of a
//! disk-backed artifact cache with sliding time-to-live expiry.

pub mod cache;
pub mod config;
pub mod game;
pub mod minecraft;
pub mod models;
pub mod registry;
pub mod vanilla;
