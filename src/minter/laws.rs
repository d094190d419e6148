//! Laws of the destination side that relate several calls.
use vstd::prelude::*;
use crate::minter::contract::{bad_request, is_owner, migration_outcome, ContractResult, Minter};
use crate::minter::msg::{NftMigrationReq, TokenMigrationReq};

verus! {

/// A migration of the source side is executed at most once: after one
/// execution for `burner_id` succeeded, every later request for the same
/// id fails, emits nothing and leaves the ledger as it is; from the owner,
/// for a supported asset, it fails as a bad request: the id already exists.
pub proof fn law_executed_once(
    m0: Minter,
    m1: Minter,
    m2: Minter,
    sender1: Seq<char>,
    sender2: Seq<char>,
    burner_id: u64,
    asset1: String,
    asset2: String,
    token_req1: Option<TokenMigrationReq>,
    token_req2: Option<TokenMigrationReq>,
    nft_req1: Option<NftMigrationReq>,
    nft_req2: Option<NftMigrationReq>,
    to1: String,
    to2: String,
    r1: ContractResult,
    r2: ContractResult,
)
    requires
        m0.wf(),
        migration_outcome(m0, m1, sender1, burner_id, asset1, token_req1, nft_req1, to1, r1),
        r1 is Ok,
        migration_outcome(m1, m2, sender2, burner_id, asset2, token_req2, nft_req2, to2, r2),
    ensures
        r2 is Err,
        m2 == m1,
        is_owner(m1, sender2) && m1.token_map().contains_key(asset2@) ==> bad_request(r2->Err_0, "burner_id already exists"@),
{
    assert(m1.burner_index().contains_key(burner_id));
}

} // verus!
