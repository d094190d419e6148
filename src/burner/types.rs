//! Kinds of tokens, states of a migration, and the messages the source
//! side sends to token contracts.
use vstd::prelude::*;
use vstd::string::*;

verus! {

/// A request of a user to move one asset to the destination chain.
#[derive(Debug, PartialEq)]
pub struct MigrationReq {
    pub asset: String,
    pub amount: Option<String>,
    pub nft_id: Option<String>,
    pub to: String,
}

#[derive(Clone, Copy, Debug, PartialEq, Eq, Structural)]
pub enum TokenType {
    Cw20,
    Cw721,
}

impl TokenType {
    pub open spec fn name(self) -> Seq<char> {
        match self {
            TokenType::Cw20 => "cw20"@,
            TokenType::Cw721 => "cw721"@,
        }
    }

    pub fn to_string(&self) -> (r: String)
        ensures
            r@ == self.name(),
    {
        match self {
            TokenType::Cw20 => String::from_str("cw20"),
            TokenType::Cw721 => String::from_str("cw721"),
        }
    }
}

/// Where a migration stands: created and queued, or settled one way.
#[derive(Clone, Copy, Debug, PartialEq, Eq, Structural)]
pub enum Status {
    Created,
    Swapped,
    PaidBack,
}

/// How the source side knows a supported asset: its address on the
/// destination chain and its kind.
#[derive(Debug, PartialEq)]
pub struct TokenInfo {
    pub addr: String,
    pub token_type: TokenType,
}

/// The result code that the relayer reports for a migration that went
/// through; every other code is a failure.
pub enum TxResultStatusCode {
    Success,
}

impl TxResultStatusCode {
    pub fn code(&self) -> (r: i16)
        ensures
            r == 0,
    {
        0
    }
}

/// A message to a token contract.
#[derive(Debug, PartialEq)]
pub enum TokenMsg {
    /// Moves `amount` of a fungible token from `owner` to `recipient`.
    Cw20TransferFrom { contract: String, owner: String, recipient: String, amount: u128 },
    /// Moves `amount` of a fungible token held by the sender to `recipient`.
    Cw20Transfer { contract: String, recipient: String, amount: u128 },
    /// Destroys `amount` of a fungible token held by the sender.
    Cw20Burn { contract: String, amount: u128 },
    /// Hands the non-fungible token `token_id` to `recipient`.
    Cw721TransferNft { contract: String, recipient: String, token_id: String },
}

} // verus!
