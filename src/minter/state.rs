//! What the destination side keeps.
use vstd::prelude::*;
use crate::minter::msg::{NftMigrationReq, TokenMigrationReq};

verus! {

#[derive(Debug, PartialEq)]
pub struct Config {
    pub owner: String,
    /// The last id handed to an executed migration; ids start at 1.
    pub tx_idx: u64,
}

/// One executed migration.
#[derive(Debug, PartialEq)]
pub struct Tx {
    pub id: u64,
    pub burner_id: u64,
    pub recipient: String,
    pub asset: String,
    pub token_req: Option<TokenMigrationReq>,
    pub nft_req: Option<NftMigrationReq>,
}

} // verus!
