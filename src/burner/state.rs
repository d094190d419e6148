//! What the source side keeps.
use vstd::prelude::*;

verus! {

#[derive(Debug, PartialEq)]
pub struct Config {
    pub owner: String,
    pub burn_contract: String,
    /// The last id handed to a migration; ids start at 1.
    pub tx_idx: u64,
    /// How many pending migrations a relayer poll returns by default.
    pub tx_limit: u8,
}

/// One migration, from its request to its settlement.
#[derive(Debug, PartialEq)]
pub struct Tx {
    pub id: u64,
    pub status: crate::burner::types::Status,
    /// The user on the source chain.
    pub from: String,
    /// The address on the destination chain.
    pub to: String,
    pub user_req_id: u32,
    pub token_addr: String,
    pub minter_token_addr: String,
    pub amount: u128,
    pub nft_id: String,
    pub msg: Option<String>,
    pub minter_id: Option<u64>,
    pub minter_tx_hash: Option<String>,
}

/// One call of a user that requested migrations, with how its migrations
/// stand.
#[derive(Debug, PartialEq)]
pub struct UserReqInfo {
    pub tx_ids: Vec<u64>,
    pub block_num: u64,
    pub timestamp: u64,
    pub success: u8,
    pub fail: u8,
    pub in_progress: u8,
}

} // verus!
