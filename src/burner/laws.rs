//! Laws of the source side that relate several calls.
use vstd::prelude::*;
use crate::burner::contract::{
    batch_accepted, count_status, lemma_count_update, is_owner, record_outcome, req_pair, req_rejection, request_applied, reserves, taken_before,
    tx_pair, Burner, ContractResult,
};
use crate::burner::types::{MigrationReq, Status, TokenMsg};
use crate::host::{Env, Response};

verus! {

/// Ids only grow: the migrations that two successive batches create have
/// strictly ascending ids, each above every id handed out before it, so
/// no id is ever used twice.
pub proof fn law_ids_ascend(
    b0: Burner,
    b1: Burner,
    b2: Burner,
    sender1: Seq<char>,
    sender2: Seq<char>,
    env1: Env,
    env2: Env,
    reqs1: Seq<MigrationReq>,
    reqs2: Seq<MigrationReq>,
    resp1: Response<TokenMsg>,
    resp2: Response<TokenMsg>,
)
    requires
        b0.wf(),
        b1.wf(),
        b2.wf(),
        request_applied(b0, b1, sender1, env1, reqs1, resp1),
        request_applied(b1, b2, sender2, env2, reqs2, resp2),
    ensures
        forall|i: int, j: int| 0 <= i < j < b2.txs().len() ==> (#[trigger] b2.txs()[i]).id < (#[trigger] b2.txs()[j]).id,
        forall|i: int, k: int|
            0 <= i < b0.txs().len() && 0 <= k < reqs1.len() ==> (#[trigger] b0.txs()[i]).id < (#[trigger] b1.txs()[b0.txs().len()
                + k]).id,
        forall|k: int, l: int|
            0 <= k < reqs1.len() && 0 <= l < reqs2.len() ==> (#[trigger] b2.txs()[b0.txs().len() + k]).id
                < (#[trigger] b2.txs()[b1.txs().len() + l]).id,
{
    b0.lemma_ids_are_positions();
    b1.lemma_ids_are_positions();
    b2.lemma_ids_are_positions();
    assert forall|i: int| 0 <= i < b0.txs().len() implies b1.txs()[i] == b0.txs()[i] by {
        assert(b1.txs().subrange(0, b0.txs().len() as int)[i] == b1.txs()[i]);
    }
}

/// A migration is settled at most once: once a report for it succeeded,
/// every later report for it fails, with a conflict when it comes from
/// the owner, and leaves the ledger as it is.
pub proof fn law_settled_once(
    b0: Burner,
    b1: Burner,
    b2: Burner,
    sender1: Seq<char>,
    sender2: Seq<char>,
    id: u64,
    status1: i16,
    status2: i16,
    minter_id1: Option<u64>,
    minter_id2: Option<u64>,
    hash1: Option<String>,
    hash2: Option<String>,
    message1: Option<String>,
    message2: Option<String>,
    r1: ContractResult,
    r2: ContractResult,
)
    requires
        b0.wf(),
        record_outcome(b0, b1, sender1, id, status1, minter_id1, hash1, message1, r1),
        r1 is Ok,
        record_outcome(b1, b2, sender2, id, status2, minter_id2, hash2, message2, r2),
    ensures
        r2 is Err,
        b2 == b1,
        is_owner(b1, sender2) ==> r2->Err_0 is CustomError && r2->Err_0->CustomError_status == 409,
{
    assert(b1.txs()[id - 1].status != Status::Created);
}

/// While a migration of a non-fungible token is pending, no batch that
/// asks to migrate the same token again is accepted.
pub proof fn law_nft_in_flight_refused(b: Burner, reqs: Seq<MigrationReq>, k: int, i: int)
    requires
        b.wf(),
        0 <= k < reqs.len(),
        reqs[k].nft_id is Some,
        0 <= i < b.txs().len(),
        reserves(b.token_map(), b.txs()[i]),
        tx_pair(b.txs()[i]) == req_pair(reqs[k]),
    ensures
        !batch_accepted(b, reqs),
{
    b.lemma_nft_exclusive();
    assert(b.reserved().contains(req_pair(reqs[k])));
    assert(taken_before(b, reqs, k).contains(req_pair(reqs[k])));
    assert(req_rejection(b, reqs, k) is Some);
}

/// Settling a migration moves one count in the audit record of the call
/// that requested it: one fewer pending, and one more that went through
/// (status 0) or failed; the record's migrations stay the same.
pub proof fn law_settlement_counts(
    b0: Burner,
    b1: Burner,
    sender: Seq<char>,
    id: u64,
    status: i16,
    minter_id: Option<u64>,
    hash: Option<String>,
    message: Option<String>,
    r: ContractResult,
)
    requires
        b0.wf(),
        record_outcome(b0, b1, sender, id, status, minter_id, hash, message, r),
        r is Ok,
    ensures
        ({
            let tx = b0.txs()[id - 1];
            let key = (tx.from@, tx.user_req_id);
            let ids = b0.user_reqs()[key].0;
            &&& b0.user_reqs().contains_key(key)
            &&& b1.user_reqs() == b0.user_reqs()
            &&& count_status(b1.txs(), ids, Status::Created) == count_status(b0.txs(), ids, Status::Created) - 1
            &&& count_status(b1.txs(), ids, Status::Swapped) == count_status(b0.txs(), ids, Status::Swapped) + if status
                == 0 {
                1int
            } else {
                0int
            }
            &&& count_status(b1.txs(), ids, Status::PaidBack) == count_status(b0.txs(), ids, Status::PaidBack) + if status
                == 0 {
                0int
            } else {
                1int
            }
        }),
{
    b0.lemma_audit_link();
    let i = id - 1;
    let tx = b0.txs()[i];
    let key = (tx.from@, tx.user_req_id);
    let ids = b0.user_reqs()[key].0;
    assert(b0.user_reqs().contains_key(key));
    assert(ids.contains(tx.id));
    let j = choose|j: int| 0 <= j < ids.len() && ids[j] == tx.id;
    assert(ids[j] == i + 1);
    let x = crate::burner::contract::settled(tx, status == 0, minter_id, hash, message);
    lemma_count_update(b0.txs(), ids, i, x, Status::Created);
    lemma_count_update(b0.txs(), ids, i, x, Status::Swapped);
    lemma_count_update(b0.txs(), ids, i, x, Status::PaidBack);
}

} // verus!
