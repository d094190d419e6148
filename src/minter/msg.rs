//! What callers send to the destination side, what it answers, and the
//! messages it sends to token contracts and the bank.
use vstd::prelude::*;
use vstd::string::*;

verus! {

pub struct InstantiateMsg {
    pub owner: Option<String>,
    /// Keyed by the asset's address on the source chain.
    pub supported_tokens: Vec<SupportedToken>,
}

#[derive(Debug, PartialEq)]
pub struct SupportedToken {
    pub burner_token_addr: String,
    pub minter_token_addr: String,
    pub token_type: TokenType,
}

pub enum ExecuteMsg {
    UpdateMinter { asset: String, new_minter: String },
    ExecuteMigration(MigrationReq),
    AddToken { burner_token_addr: String, minter_token_addr: String, token_type: TokenType },
    RemoveToken { burner_token_addr: String },
    UpdateOwner { new_owner: String },
}

/// Upgrades take no arguments.
pub struct ContractMigrateMsg {}

/// A migration to execute, named by its id on the source side.
pub struct MigrationReq {
    pub burner_id: u64,
    pub asset: String,
    pub token_req: Option<TokenMigrationReq>,
    pub nft_req: Option<NftMigrationReq>,
    pub to: String,
}

#[derive(Debug, PartialEq)]
pub struct TokenMigrationReq {
    pub amount: u128,
}

#[derive(Debug, PartialEq)]
pub struct NftMigrationReq {
    pub id: String,
    pub uri: Option<String>,
    pub extension: Option<NftExtension>,
}

#[derive(Debug, PartialEq)]
pub struct NftExtension {
    pub image: Option<String>,
    pub image_data: Option<String>,
    pub external_url: Option<String>,
    pub description: Option<String>,
    pub name: Option<String>,
    pub attributes: Vec<NftExtensionDisplay>,
    pub background_color: Option<String>,
    pub animation_url: Option<String>,
    pub youtube_url: Option<String>,
}

#[derive(Debug, PartialEq)]
pub struct NftExtensionDisplay {
    pub display_type: Option<String>,
    pub trait_type: Option<String>,
    pub value: Option<String>,
}

#[allow(inconsistent_fields)]
pub enum QueryMsg {
    MigrationResult { burner_id: u64 },
    SupportedTokens { start_after: Option<String> },
}

#[derive(Debug, PartialEq)]
pub struct QueryResponse {
    pub migration_result: Option<MigrationResultResponse>,
}

#[derive(Debug, PartialEq)]
pub struct MigrationResultResponse {
    pub burner_id: u64,
    pub minter_id: u64,
}

/// The arguments of an upgrade: none.
pub struct MigrateMsg {}

#[derive(Clone, Copy, Debug, PartialEq, Eq, Structural)]
pub enum TokenType {
    Native,
    Cw20,
    Cw721,
}

impl TokenType {
    pub open spec fn name(self) -> Seq<char> {
        match self {
            TokenType::Native => "native"@,
            TokenType::Cw20 => "cw20"@,
            TokenType::Cw721 => "cw721"@,
        }
    }

    pub fn to_string(&self) -> (r: String)
        ensures
            r@ == self.name(),
    {
        match self {
            TokenType::Native => String::from_str("native"),
            TokenType::Cw20 => String::from_str("cw20"),
            TokenType::Cw721 => String::from_str("cw721"),
        }
    }
}

/// How the destination side knows a supported asset: the address of its
/// token contract (the native denomination for the native coin) and its
/// kind.
#[derive(Debug, PartialEq)]
pub struct TokenInfo {
    pub addr: String,
    pub token_type: TokenType,
}

/// The message by which a non-fungible token contract hands its minting
/// right to another address.
#[derive(Debug, PartialEq)]
pub enum CustomCw721ExecuteMsg {
    UpdateMinter { new_minter: String },
}

/// A message of the destination side to the bank or a token contract.
#[derive(Debug, PartialEq)]
pub enum MinterMsg {
    /// Sends `amount` of the native coin `denom` to `to_address`.
    BankSend { to_address: String, denom: String, amount: u128 },
    /// Mints `amount` of a fungible token to `recipient`.
    Cw20Mint { contract: String, recipient: String, amount: u128 },
    /// Mints the non-fungible token `token_id` to `owner`.
    Cw721Mint {
        contract: String,
        token_id: String,
        owner: String,
        token_uri: Option<String>,
        extension: Option<NftExtension>,
    },
    /// Hands the minting right of a fungible token to `new_minter`.
    Cw20UpdateMinter { contract: String, new_minter: String },
    /// Hands the minting right of a non-fungible token contract on.
    Cw721UpdateMinter { contract: String, msg: CustomCw721ExecuteMsg },
}

} // verus!
