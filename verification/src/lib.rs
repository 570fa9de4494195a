//! Blenny: a real-time web framework core. This crate holds the framework's
//! decision logic — configuration layering, transport encoders, the
//! transport hub's routing tables, authentication token extraction, intent
//! filtering and module attribute handling — with contracts proved by Verus.

pub mod auth;
pub mod builder;
pub mod conduit;
pub mod config;
pub mod encoder;
pub mod error;
pub mod keyed;
pub mod module_attrs;
pub mod modules;
pub mod static_assets;
pub mod text;
pub mod transport;
