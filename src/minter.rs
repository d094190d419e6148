//! The destination side of the bridge: mints or releases each migrated
//! asset, once for each migration of the source side.
pub mod contract;
pub mod error;
pub mod laws;
pub mod msg;
pub mod state;
