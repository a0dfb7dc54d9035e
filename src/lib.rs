//! Reconciliation engine for a mesh of WireGuard servers: the desired state
//! read from the database is rendered into WireGuard and DNS configuration,
//! compared with what the local interface holds, and turned into the commands
//! that make the two agree.
pub mod addr;
pub mod dispatch;
pub mod dns;
pub mod error;
pub mod inet;
pub mod interface;
pub mod parse;
pub mod schema;
pub mod text;
pub mod wireguard;
