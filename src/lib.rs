//! A two-sided asset-migration bridge: a source-side ledger that escrows
//! assets and tracks pending migrations, and a destination-side executor
//! that mints or releases each migrated asset exactly once.
pub mod order;
pub mod registry;
pub mod amount;
pub mod encode;
pub mod host;
pub mod burner;
pub mod minter;
