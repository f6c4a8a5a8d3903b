//! A GATT server that shares one ATT channel per link with a native GATT client.
//!
//! The crate is split into the ATT codec, the attribute database with its
//! handle allocation, the per-connection routing and server state machine, the
//! outbound writer queue that keeps PDUs whole and in order, and the records
//! that the RPC layer hands in.
pub mod att;
pub mod database;
pub mod outbound;
pub mod rpc;
pub mod server;
