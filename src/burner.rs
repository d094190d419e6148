//! The source side of the bridge: escrows assets, keeps the queue of
//! pending migrations and settles each one once its outcome is known.
pub mod contract;
pub mod error;
pub mod laws;
pub mod msg;
pub mod reservations;
pub mod state;
pub mod types;
pub mod user_txs;
