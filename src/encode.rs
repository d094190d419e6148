//! The wire form of the messages that the bridge sends to cw20 and cw721
//! token contracts: the contract to call and the JSON of the call, as the
//! token crates define it.
use cosmwasm_std::{to_json_binary, StdError, Uint128};
use cw20::Cw20ExecuteMsg;
use cw721::Cw721ExecuteMsg;
use vstd::prelude::*;
use crate::burner::types::TokenMsg;
use crate::minter::msg::MinterMsg;
use crate::amount::decimal;

verus! {

/// The JSON of cw20's `transfer_from`.
pub uninterp spec fn cw20_transfer_from_json(owner: Seq<char>, recipient: Seq<char>, amount: u128) -> Seq<u8>;

/// The JSON of cw20's `transfer`.
pub uninterp spec fn cw20_transfer_json(recipient: Seq<char>, amount: u128) -> Seq<u8>;

/// The bytes of a text of ASCII characters.
pub open spec fn ascii_bytes(s: Seq<char>) -> Seq<u8> {
    s.map_values(|c: char| c as u8)
}

/// The JSON of cw20's `burn`: the amount is written as a decimal string.
pub open spec fn cw20_burn_json(amount: u128) -> Seq<u8> {
    ascii_bytes("{\"burn\":{\"amount\":\""@ + decimal(amount as nat) + "\"}}"@)
}

/// The JSON of cw20's `mint`.
pub uninterp spec fn cw20_mint_json(recipient: Seq<char>, amount: u128) -> Seq<u8>;

/// The JSON of cw20's `update_minter` naming a new minter.
pub uninterp spec fn cw20_update_minter_json(new_minter: Seq<char>) -> Seq<u8>;

/// The JSON of cw721's `transfer_nft`.
pub uninterp spec fn cw721_transfer_nft_json(recipient: Seq<char>, token_id: Seq<char>) -> Seq<u8>;

/// Relies on `cosmwasm_std::to_json_binary` of `cw20::Cw20ExecuteMsg::TransferFrom`:
/// the JSON encoding, which depends on the fields alone. Encoding cannot
/// fail: the message holds only strings and amounts written as strings.
#[verifier::external_body]
fn json_cw20_transfer_from(owner: &String, recipient: &String, amount: u128) -> (r: Result<Vec<u8>, StdError>)
    ensures
        r is Ok,
        r->Ok_0@ == cw20_transfer_from_json(owner@, recipient@, amount),
{
    let msg = Cw20ExecuteMsg::TransferFrom { owner: owner.clone(), recipient: recipient.clone(), amount: Uint128::new(amount) };
    match to_json_binary(&msg) {
        Ok(b) => Ok(b.0),
        Err(e) => Err(e),
    }
}

/// Relies on `cosmwasm_std::to_json_binary` of `cw20::Cw20ExecuteMsg::Transfer`:
/// the JSON encoding, which depends on the fields alone; it cannot fail.
#[verifier::external_body]
fn json_cw20_transfer(recipient: &String, amount: u128) -> (r: Result<Vec<u8>, StdError>)
    ensures
        r is Ok,
        r->Ok_0@ == cw20_transfer_json(recipient@, amount),
{
    let msg = Cw20ExecuteMsg::Transfer { recipient: recipient.clone(), amount: Uint128::new(amount) };
    match to_json_binary(&msg) {
        Ok(b) => Ok(b.0),
        Err(e) => Err(e),
    }
}

/// Relies on `cosmwasm_std::to_json_binary` of `cw20::Cw20ExecuteMsg::Burn`:
/// `{"burn":{"amount":"<amount>"}}`, with the amount in decimal. Encoding
/// cannot fail.
#[verifier::external_body]
fn json_cw20_burn(amount: u128) -> (r: Result<Vec<u8>, StdError>)
    ensures
        r is Ok,
        r->Ok_0@ == cw20_burn_json(amount),
{
    let msg = Cw20ExecuteMsg::Burn { amount: Uint128::new(amount) };
    match to_json_binary(&msg) {
        Ok(b) => Ok(b.0),
        Err(e) => Err(e),
    }
}

/// Relies on `cosmwasm_std::to_json_binary` of `cw20::Cw20ExecuteMsg::Mint`:
/// the JSON encoding, which depends on the fields alone; it cannot fail.
#[verifier::external_body]
fn json_cw20_mint(recipient: &String, amount: u128) -> (r: Result<Vec<u8>, StdError>)
    ensures
        r is Ok,
        r->Ok_0@ == cw20_mint_json(recipient@, amount),
{
    let msg = Cw20ExecuteMsg::Mint { recipient: recipient.clone(), amount: Uint128::new(amount) };
    match to_json_binary(&msg) {
        Ok(b) => Ok(b.0),
        Err(e) => Err(e),
    }
}

/// Relies on `cosmwasm_std::to_json_binary` of `cw20::Cw20ExecuteMsg::UpdateMinter`
/// with a minter named: the JSON encoding, which depends on the name alone;
/// it cannot fail.
#[verifier::external_body]
fn json_cw20_update_minter(new_minter: &String) -> (r: Result<Vec<u8>, StdError>)
    ensures
        r is Ok,
        r->Ok_0@ == cw20_update_minter_json(new_minter@),
{
    let msg = Cw20ExecuteMsg::UpdateMinter { new_minter: Some(new_minter.clone()) };
    match to_json_binary(&msg) {
        Ok(b) => Ok(b.0),
        Err(e) => Err(e),
    }
}

/// Relies on `cosmwasm_std::to_json_binary` of `cw721::Cw721ExecuteMsg::TransferNft`:
/// the JSON encoding, which depends on the fields alone; it cannot fail.
#[verifier::external_body]
fn json_cw721_transfer_nft(recipient: &String, token_id: &String) -> (r: Result<Vec<u8>, StdError>)
    ensures
        r is Ok,
        r->Ok_0@ == cw721_transfer_nft_json(recipient@, token_id@),
{
    let msg = Cw721ExecuteMsg::TransferNft { recipient: recipient.clone(), token_id: token_id.clone() };
    match to_json_binary(&msg) {
        Ok(b) => Ok(b.0),
        Err(e) => Err(e),
    }
}

/// A call of a contract: its address and the JSON message, with no funds.
#[derive(Debug, PartialEq)]
pub struct WasmExecute {
    pub contract_addr: String,
    pub msg: Vec<u8>,
}

/// A message could not be encoded.
#[derive(Debug, PartialEq)]
pub struct EncodeError;

fn frame(contract: &String, json: Result<Vec<u8>, StdError>) -> (r: Result<WasmExecute, EncodeError>)
    ensures
        r is Ok <==> json is Ok,
        r is Ok ==> r->Ok_0.contract_addr@ == contract@ && r->Ok_0.msg@ == json->Ok_0@,
{
    match json {
        Ok(msg) => Ok(WasmExecute { contract_addr: contract.clone(), msg }),
        Err(_) => Err(EncodeError),
    }
}

/// The wire form of a message of the source side: the token contract it
/// goes to and the cw20 or cw721 call it makes there.
pub fn encode_token_msg(m: &TokenMsg) -> (r: Result<WasmExecute, EncodeError>)
    ensures
        r is Ok,
        r is Ok ==> match *m {
            TokenMsg::Cw20TransferFrom { contract, owner, recipient, amount } => r->Ok_0.contract_addr@ == contract@
                && r->Ok_0.msg@ == cw20_transfer_from_json(owner@, recipient@, amount),
            TokenMsg::Cw20Transfer { contract, recipient, amount } => r->Ok_0.contract_addr@ == contract@
                && r->Ok_0.msg@ == cw20_transfer_json(recipient@, amount),
            TokenMsg::Cw20Burn { contract, amount } => r->Ok_0.contract_addr@ == contract@ && r->Ok_0.msg@
                == cw20_burn_json(amount),
            TokenMsg::Cw721TransferNft { contract, recipient, token_id } => r->Ok_0.contract_addr@ == contract@
                && r->Ok_0.msg@ == cw721_transfer_nft_json(recipient@, token_id@),
        },
{
    match m {
        TokenMsg::Cw20TransferFrom { contract, owner, recipient, amount } => frame(
            contract,
            json_cw20_transfer_from(owner, recipient, *amount),
        ),
        TokenMsg::Cw20Transfer { contract, recipient, amount } => frame(contract, json_cw20_transfer(recipient, *amount)),
        TokenMsg::Cw20Burn { contract, amount } => frame(contract, json_cw20_burn(*amount)),
        TokenMsg::Cw721TransferNft { contract, recipient, token_id } => frame(
            contract,
            json_cw721_transfer_nft(recipient, token_id),
        ),
    }
}

/// The wire form of a message of the destination side to a cw20
/// contract; `None` for the other messages.
pub fn encode_cw20_minter_msg(m: &MinterMsg) -> (r: Option<Result<WasmExecute, EncodeError>>)
    ensures
        r is Some <==> (m is Cw20Mint || m is Cw20UpdateMinter),
        r is Some ==> r->Some_0 is Ok,
        r matches Some(Ok(w)) ==> match *m {
            MinterMsg::Cw20Mint { contract, recipient, amount } => w.contract_addr@ == contract@ && w.msg@
                == cw20_mint_json(recipient@, amount),
            MinterMsg::Cw20UpdateMinter { contract, new_minter } => w.contract_addr@ == contract@ && w.msg@
                == cw20_update_minter_json(new_minter@),
            _ => false,
        },
{
    match m {
        MinterMsg::Cw20Mint { contract, recipient, amount } => Some(frame(contract, json_cw20_mint(recipient, *amount))),
        MinterMsg::Cw20UpdateMinter { contract, new_minter } => Some(
            frame(contract, json_cw20_update_minter(new_minter)),
        ),
        _ => None,
    }
}

} // verus!
