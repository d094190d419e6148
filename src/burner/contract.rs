//! The source-side ledger: every operation of the source side, each
//! either applied whole or refused with the ledger left as it was.
use vstd::prelude::*;
use vstd::string::*;
use crate::amount::{amount_literal_value, amount_to_string, decimal, is_amount_literal, parse_amount};
use crate::burner::error::{conflict_status, ContractError};
use crate::burner::msg::{
    InstantiateMsg, NftInfo, SupportedToken, TxResponse, UnprocessedMigrationRequestResponse,
    UserMigrationResponse, UserMigrationsItem, UserMigrationsResponse,
};
use crate::burner::reservations::Reservations;
use crate::burner::state::{Config, Tx, UserReqInfo};
use crate::burner::types::{MigrationReq, Status, TokenInfo, TokenMsg, TokenType};
use crate::burner::user_txs::{ids_of, is_page, ReqRecord, UserReq, UserTxs};
use crate::host::{attr, text, Attribute, Env, MessageInfo, Response};
use crate::order::{page_after, IdSet};
use crate::registry::{count_not_after, Registry};

verus! {

pub const RELAYER_TX_HANDLE_LIMIT_DEFAULT: u8 = 10;

pub const RELAYER_TX_HANDLE_LIMIT_MAX: u8 = 20;

/// The most migrations one call may request, and the most records of the
/// audit trail one query returns.
pub const USER_INFO_LIMIT: u8 = 20;

pub type ContractResult = Result<Response<TokenMsg>, ContractError>;

/// The source-side ledger.
pub struct Burner {
    config: Config,
    tokens: Registry<TokenInfo>,
    txs: Vec<Tx>,
    unprocessed: IdSet,
    nfts: Reservations,
    user_txs: UserTxs,
}

/// A pending migration of a non-fungible token holds its (asset, id) pair.
pub open spec fn reserves(tokens: Map<Seq<char>, TokenInfo>, tx: Tx) -> bool {
    &&& tx.status == Status::Created
    &&& tokens.contains_key(tx.token_addr@)
    &&& tokens[tx.token_addr@].token_type == TokenType::Cw721
}

pub open spec fn tx_pair(tx: Tx) -> (Seq<char>, Seq<char>) {
    (tx.token_addr@, tx.nft_id@)
}

/// How many of the migrations `ids` have status `st`.
pub open spec fn count_status(txs: Seq<Tx>, ids: Seq<u64>, st: Status) -> nat
    decreases ids.len(),
{
    if ids.len() == 0 {
        0
    } else {
        count_status(txs, ids.drop_last(), st) + if 1 <= ids.last() <= txs.len() && txs[ids.last()
            - 1].status == st {
            1nat
        } else {
            0nat
        }
    }
}

/// Changing the migration at index `i` changes the counts over `ids` only
/// when its id is among them, and then by that one migration.
pub proof fn lemma_count_update(txs: Seq<Tx>, ids: Seq<u64>, i: int, x: Tx, st: Status)
    requires
        0 <= i < txs.len(),
        ids.no_duplicates(),
    ensures
        count_status(txs.update(i, x), ids, st) as int == if exists|j: int| 0 <= j < ids.len() && ids[j] == i + 1 {
            count_status(txs, ids, st) as int - (if txs[i].status == st {
                1int
            } else {
                0int
            }) + (if x.status == st {
                1int
            } else {
                0int
            })
        } else {
            count_status(txs, ids, st) as int
        },
    decreases ids.len(),
{
    if ids.len() > 0 {
        let d = ids.drop_last();
        assert forall|a: int, b: int| 0 <= a < d.len() && 0 <= b < d.len() && a != b implies d[a] != d[b] by {
            assert(d[a] == ids[a] && d[b] == ids[b]);
        }
        lemma_count_update(txs, d, i, x, st);
        let in_d = exists|j: int| 0 <= j < d.len() && d[j] == i + 1;
        let in_ids = exists|j: int| 0 <= j < ids.len() && ids[j] == i + 1;
        if in_d {
            let j = choose|j: int| 0 <= j < d.len() && d[j] == i + 1;
            assert(ids[j] == i + 1);
            assert(ids.last() != i + 1);
        }
        if in_ids && !in_d {
            let j = choose|j: int| 0 <= j < ids.len() && ids[j] == i + 1;
            if j < ids.len() - 1 {
                assert(d[j] == i + 1);
            }
            assert(ids.last() == i + 1);
        }
        if !in_ids {
            assert(ids.last() != i + 1);
        }
    }
}

pub open spec fn is_last_req_id(m: Map<(Seq<char>, u32), ReqRecord>, user: Seq<char>, r: u32) -> bool {
    &&& forall|id: u32| ids_of(m, user).contains(id) ==> id <= r
    &&& r != 0 ==> ids_of(m, user).contains(r)
}

/// The highest request id of `user`, 0 when there is none.
pub open spec fn last_req_id_of(m: Map<(Seq<char>, u32), ReqRecord>, user: Seq<char>) -> u32 {
    choose|r: u32| is_last_req_id(m, user, r)
}

pub proof fn lemma_last_req_id(m: Map<(Seq<char>, u32), ReqRecord>, user: Seq<char>, r: u32)
    requires
        is_last_req_id(m, user, r),
    ensures
        last_req_id_of(m, user) == r,
{
    let q = last_req_id_of(m, user);
    assert(is_last_req_id(m, user, q));
    if q != 0 {
        assert(ids_of(m, user).contains(q));
    }
    if r != 0 {
        assert(ids_of(m, user).contains(r));
    }
}

/// The response to a query of one migration.
pub open spec fn tx_response_of(r: TxResponse, tx: Tx) -> bool {
    &&& r.id == tx.id
    &&& r.status == tx.status
    &&& r.msg == tx.msg
    &&& r.from@ == tx.from@
    &&& r.to@ == tx.to@
    &&& r.user_req_id == tx.user_req_id
    &&& r.token_addr@ == tx.token_addr@
    &&& (if tx.amount == 0 {
        r.amount is None
    } else {
        r.amount is Some && r.amount->Some_0@ == decimal(tx.amount as nat)
    })
    &&& (if tx.nft_id@.len() == 0 {
        r.nft_info is None
    } else {
        &&& r.nft_info is Some
        &&& r.nft_info->Some_0.id@ == tx.nft_id@
        &&& r.nft_info->Some_0.uri is None
        &&& r.nft_info->Some_0.extension is None
    })
    &&& r.minter_id == tx.minter_id
    &&& r.minter_tx_hash == tx.minter_tx_hash
}

/// The summary of one call of a user, with how its migrations stand now.
pub open spec fn user_item_of(r: UserMigrationsItem, req_id: u32, rec: ReqRecord, txs: Seq<Tx>) -> bool {
    &&& r.req_id == req_id
    &&& r.block_num == rec.1
    &&& r.timestamp == rec.2
    &&& r.success == count_status(txs, rec.0, Status::Swapped)
    &&& r.fail == count_status(txs, rec.0, Status::PaidBack)
    &&& r.in_progress == count_status(txs, rec.0, Status::Created)
}

pub open spec fn bad_request(e: ContractError, message: Seq<char>) -> bool {
    e is BadRequest && e->BadRequest_message@ == message
}

pub open spec fn not_found(e: ContractError, kind: Seq<char>) -> bool {
    e is NotFound && e->NotFound_kind@ == kind
}

/// The registry that a list of supported tokens describes; a later entry
/// for the same asset replaces an earlier one.
pub open spec fn registry_of(tokens: Seq<SupportedToken>) -> Map<Seq<char>, TokenInfo>
    decreases tokens.len(),
{
    if tokens.len() == 0 {
        Map::empty()
    } else {
        registry_of(tokens.drop_last()).insert(
            tokens.last().burner_token_addr@,
            TokenInfo { addr: tokens.last().minter_token_addr, token_type: tokens.last().token_type },
        )
    }
}

impl Burner {
    pub closed spec fn config(&self) -> Config {
        self.config
    }

    /// The supported assets, keyed by source-chain address.
    pub closed spec fn token_map(&self) -> Map<Seq<char>, TokenInfo> {
        self.tokens.map()
    }

    /// The supported assets' addresses, ascending.
    pub closed spec fn token_keys(&self) -> Seq<Seq<char>> {
        self.tokens.keys()
    }

    /// Every migration ever requested; the one with id `i` is at `i - 1`.
    pub closed spec fn txs(&self) -> Seq<Tx> {
        self.txs@
    }

    /// The ids of the pending migrations, ascending.
    pub closed spec fn queue(&self) -> Seq<u64> {
        self.unprocessed@
    }

    /// The (asset, token id) pairs held by pending migrations.
    pub closed spec fn reserved(&self) -> Set<(Seq<char>, Seq<char>)> {
        self.nfts@
    }

    /// The audit trail: for each (user, request id), the migrations and
    /// the block of that call.
    pub closed spec fn user_reqs(&self) -> Map<(Seq<char>, u32), ReqRecord> {
        self.user_txs.map()
    }

    pub closed spec fn wf(&self) -> bool {
        &&& self.tokens.wf()
        &&& self.unprocessed.wf()
        &&& self.nfts.wf()
        &&& self.user_txs.wf()
        &&& self.txs@.len() == self.config.tx_idx
        &&& forall|i: int| 0 <= i < self.txs@.len() ==> (#[trigger] self.txs@[i]).id == i + 1
        &&& forall|id: u64|
            self.unprocessed@.contains(id) <==> (1 <= id <= self.txs@.len() && self.txs@[id - 1].status
                == Status::Created)
        &&& forall|i: int|
            0 <= i < self.txs@.len() && (#[trigger] self.txs@[i]).status == Status::Created
                ==> self.tokens.map().contains_key(self.txs@[i].token_addr@)
        &&& forall|p: (Seq<char>, Seq<char>)|
            self.nfts@.contains(p) <==> exists|i: int|
                0 <= i < self.txs@.len() && reserves(self.tokens.map(), #[trigger] self.txs@[i])
                    && tx_pair(self.txs@[i]) == p
        &&& forall|i: int, j: int|
            0 <= i < self.txs@.len() && 0 <= j < self.txs@.len() && reserves(
                self.tokens.map(),
                #[trigger] self.txs@[i],
            ) && reserves(self.tokens.map(), #[trigger] self.txs@[j]) && tx_pair(self.txs@[i])
                == tx_pair(self.txs@[j]) ==> i == j
        &&& forall|k: (Seq<char>, u32)|
            #[trigger] self.user_txs.map().contains_key(k) ==> self.user_txs.map()[k].0.len()
                <= USER_INFO_LIMIT && self.user_txs.map()[k].0.no_duplicates() && forall|j: int|
                0 <= j < self.user_txs.map()[k].0.len() ==> 1 <= #[trigger] self.user_txs.map()[k].0[j]
                    <= self.txs@.len()
        &&& forall|i: int|
            0 <= i < self.txs@.len() ==> self.user_txs.map().contains_key(
                ((#[trigger] self.txs@[i]).from@, self.txs@[i].user_req_id),
            ) && self.user_txs.map()[(self.txs@[i].from@, self.txs@[i].user_req_id)].0.contains(self.txs@[i].id)
    }

    /// Whether a pending migration moves `asset`.
    pub fn in_flight(&self, asset: &String) -> (r: bool)
        ensures
            r == asset_in_flight(*self, asset@),
    {
        let mut i: usize = 0;
        while i < self.txs.len()
            invariant
                0 <= i <= self.txs@.len(),
                forall|j: int|
                    0 <= j < i ==> !((#[trigger] self.txs@[j]).status == Status::Created && self.txs@[j].token_addr@
                        == asset@),
            decreases self.txs@.len() - i,
        {
            if self.txs[i].status == Status::Created && self.txs[i].token_addr == *asset {
                assert(self.txs()[i as int].status == Status::Created);
                return true;
            }
            i = i + 1;
        }
        false
    }

    /// The configuration.
    pub fn get_config(&self) -> (r: &Config)
        ensures
            *r == self.config(),
    {
        &self.config
    }
}

/// Sets up the ledger with its owner (the sender unless one is named),
/// its supported assets, the default page size of relayer polls and the
/// address that receives migrated non-fungible tokens.
pub fn instantiate(info: MessageInfo, msg: InstantiateMsg) -> (r: Result<(Burner, Response<TokenMsg>), ContractError>)
    ensures
        r is Ok <==> (forall|i: int|
            0 <= i < msg.supported_tokens@.len() ==> (#[trigger] msg.supported_tokens@[i]).minter_token_addr@.len()
                > 0) && (msg.tx_limit is None || msg.tx_limit->Some_0 <= RELAYER_TX_HANDLE_LIMIT_MAX),
        r is Err ==> (if exists|i: int|
            0 <= i < msg.supported_tokens@.len() && (#[trigger] msg.supported_tokens@[i]).minter_token_addr@.len()
                == 0 {
            bad_request(r->Err_0, "minter_token is empty"@)
        } else {
            bad_request(r->Err_0, "Max Tx Limit is 20"@)
        }),
        r matches Ok((b, resp)) ==> {
            &&& b.wf()
            &&& b.config().owner@ == (match msg.owner {
                Some(o) => o@,
                None => info.sender@,
            })
            &&& b.config().burn_contract == msg.burn_contract
            &&& b.config().tx_idx == 0
            &&& b.config().tx_limit == (match msg.tx_limit {
                Some(l) => l,
                None => RELAYER_TX_HANDLE_LIMIT_DEFAULT,
            })
            &&& b.token_map() == registry_of(msg.supported_tokens@)
            &&& b.txs().len() == 0
            &&& b.queue().len() == 0
            &&& b.reserved().is_empty()
            &&& b.user_reqs().is_empty()
            &&& resp.messages@.len() == 0
            &&& resp.attributes@.len() == 2 + 2 * msg.supported_tokens@.len()
        },
{
    let supported_tokens = &msg.supported_tokens;
    let mut tokens: Registry<TokenInfo> = Registry::new();
    let mut token_attrs: Vec<Attribute> = Vec::new();
    let mut i: usize = 0;
    while i < supported_tokens.len()
        invariant
            tokens.wf(),
            supported_tokens@ == msg.supported_tokens@,
            0 <= i <= supported_tokens@.len(),
            tokens.map() == registry_of(supported_tokens@.subrange(0, i as int)),
            token_attrs@.len() == 2 * i,
            forall|j: int| 0 <= j < i ==> (#[trigger] supported_tokens@[j]).minter_token_addr@.len() > 0,
        decreases supported_tokens@.len() - i,
    {
        let token = &supported_tokens[i];
        if token.minter_token_addr.as_str().is_empty() {
            assert(supported_tokens@[i as int].minter_token_addr@.len() == 0);
            return Err(ContractError::BadRequest { message: text("minter_token is empty") });
        }
        tokens.remove(&token.burner_token_addr);
        let ghost before = tokens.map();
        tokens.insert_new(
            token.burner_token_addr.clone(),
            TokenInfo { addr: token.minter_token_addr.clone(), token_type: token.token_type },
        );
        token_attrs.push(attr("burner_token", token.burner_token_addr.clone()));
        token_attrs.push(attr("token_type", token.token_type.to_string()));
        proof {
            let s = supported_tokens@.subrange(0, i + 1);
            assert(s.drop_last() =~= supported_tokens@.subrange(0, i as int));
            assert(tokens.map() =~= registry_of(s));
        }
        i = i + 1;
    }
    assert(supported_tokens@.subrange(0, i as int) =~= supported_tokens@);
    let InstantiateMsg { owner, supported_tokens: _, tx_limit, burn_contract } = msg;
    let tx_limit = match tx_limit {
        Some(l) => l,
        None => RELAYER_TX_HANDLE_LIMIT_DEFAULT,
    };
    if tx_limit > RELAYER_TX_HANDLE_LIMIT_MAX {
        return Err(ContractError::BadRequest { message: text("Max Tx Limit is 20") });
    }
    let owner = match owner {
        Some(o) => o,
        None => info.sender,
    };
    let mut attributes: Vec<Attribute> = Vec::new();
    attributes.push(attr("action", text("instantiate")));
    attributes.push(attr("owner", owner.clone()));
    attributes.append(&mut token_attrs);
    let b = Burner {
        config: Config { owner, burn_contract, tx_idx: 0, tx_limit },
        tokens,
        txs: Vec::new(),
        unprocessed: IdSet::new(),
        nfts: Reservations::new(),
        user_txs: UserTxs::new(),
    };
    assert(b.user_reqs() =~= Map::empty());
    Ok((b, Response { messages: Vec::new(), attributes }))
}

/// The sender is the configured owner.
pub open spec fn is_owner(b: Burner, sender: Seq<char>) -> bool {
    b.config().owner@ == sender
}

/// Some pending migration moves `asset`.
pub open spec fn asset_in_flight(b: Burner, asset: Seq<char>) -> bool {
    exists|i: int|
        0 <= i < b.txs().len() && (#[trigger] b.txs()[i]).status == Status::Created && b.txs()[i].token_addr@
            == asset
}

/// Registers a new supported asset. Only the owner may; the destination
/// address must not be empty and the asset must not be registered yet.
pub fn execute_add_token(
    ledger: &mut Burner,
    info: MessageInfo,
    burner_token_addr: String,
    minter_token_addr: String,
    token_type: TokenType,
) -> (r: ContractResult)
    requires
        old(ledger).wf(),
    ensures
        final(ledger).wf(),
        r is Ok <==> is_owner(*old(ledger), info.sender@) && minter_token_addr@.len() > 0
            && !old(ledger).token_map().contains_key(burner_token_addr@),
        r is Err ==> *final(ledger) == *old(ledger),
        r is Err ==> (if !is_owner(*old(ledger), info.sender@) {
            r->Err_0 is Unauthorized
        } else if minter_token_addr@.len() == 0 {
            bad_request(r->Err_0, "minter_token_addr is empty"@)
        } else {
            bad_request(r->Err_0, "already exist"@)
        }),
        r is Ok ==> {
            &&& final(ledger).token_map() == old(ledger).token_map().insert(
                burner_token_addr@,
                TokenInfo { addr: minter_token_addr, token_type },
            )
            &&& final(ledger).config() == old(ledger).config()
            &&& final(ledger).txs() == old(ledger).txs()
            &&& final(ledger).queue() == old(ledger).queue()
            &&& final(ledger).reserved() == old(ledger).reserved()
            &&& final(ledger).user_reqs() == old(ledger).user_reqs()
            &&& r->Ok_0.messages@.len() == 0
            &&& r->Ok_0.attributes@.len() == 4
        },
{
    if ledger.config.owner != info.sender {
        return Err(ContractError::Unauthorized);
    }
    if minter_token_addr.as_str().is_empty() {
        return Err(ContractError::BadRequest { message: text("minter_token_addr is empty") });
    }
    if ledger.tokens.contains_key(&burner_token_addr) {
        return Err(ContractError::BadRequest { message: text("already exist") });
    }
    let ghost old_tokens = ledger.tokens.map();
    let mut attributes: Vec<Attribute> = Vec::new();
    attributes.push(attr("action", text("add_token")));
    attributes.push(attr("burner_token", burner_token_addr.clone()));
    attributes.push(attr("minter_token", minter_token_addr.clone()));
    attributes.push(attr("token_type", token_type.to_string()));
    ledger.tokens.insert_new(burner_token_addr, TokenInfo { addr: minter_token_addr, token_type });
    proof {
        let b = *ledger;
        assert forall|i: int| 0 <= i < b.txs@.len() && (#[trigger] b.txs@[i]).status == Status::Created implies old_tokens.contains_key(
            b.txs@[i].token_addr@,
        ) by {}
        assert forall|i: int| 0 <= i < b.txs@.len() implies reserves(b.tokens.map(), #[trigger] b.txs@[i])
            == reserves(old_tokens, b.txs@[i]) by {
            if b.txs@[i].status == Status::Created {
                assert(old_tokens.contains_key(b.txs@[i].token_addr@));
            }
        }
    }
    Ok(Response { messages: Vec::new(), attributes })
}

/// Withdraws support for an asset. Only the owner may, and not while a
/// pending migration moves that asset.
pub fn execute_remove_token(ledger: &mut Burner, info: MessageInfo, burner_token_addr: String) -> (r: ContractResult)
    requires
        old(ledger).wf(),
    ensures
        final(ledger).wf(),
        r is Ok <==> is_owner(*old(ledger), info.sender@) && !asset_in_flight(*old(ledger), burner_token_addr@),
        r is Err ==> *final(ledger) == *old(ledger),
        r is Err ==> (if !is_owner(*old(ledger), info.sender@) {
            r->Err_0 is Unauthorized
        } else {
            bad_request(r->Err_0, "there are unprocessed txs"@)
        }),
        r is Ok ==> {
            &&& final(ledger).token_map() == old(ledger).token_map().remove(burner_token_addr@)
            &&& final(ledger).config() == old(ledger).config()
            &&& final(ledger).txs() == old(ledger).txs()
            &&& final(ledger).queue() == old(ledger).queue()
            &&& final(ledger).reserved() == old(ledger).reserved()
            &&& final(ledger).user_reqs() == old(ledger).user_reqs()
            &&& r->Ok_0.messages@.len() == 0
            &&& r->Ok_0.attributes@.len() == 2
        },
{
    if ledger.config.owner != info.sender {
        return Err(ContractError::Unauthorized);
    }
    if ledger.in_flight(&burner_token_addr) {
        return Err(ContractError::BadRequest { message: text("there are unprocessed txs") });
    }
    let ghost old_tokens = ledger.tokens.map();
    ledger.tokens.remove(&burner_token_addr);
    proof {
        let b = *ledger;
        assert forall|i: int| 0 <= i < b.txs@.len() implies reserves(b.tokens.map(), #[trigger] b.txs@[i])
            == reserves(old_tokens, b.txs@[i]) by {}
    }
    let mut attributes: Vec<Attribute> = Vec::new();
    attributes.push(attr("action", text("remove_token")));
    attributes.push(attr("burner_token", burner_token_addr));
    Ok(Response { messages: Vec::new(), attributes })
}

/// Sets how many pending migrations a relayer poll returns by default:
/// from 1 to the maximum. Only the owner may.
pub fn execute_update_tx_limit(ledger: &mut Burner, info: MessageInfo, tx_limit: u8) -> (r: ContractResult)
    requires
        old(ledger).wf(),
    ensures
        final(ledger).wf(),
        r is Ok <==> is_owner(*old(ledger), info.sender@) && 0 < tx_limit <= RELAYER_TX_HANDLE_LIMIT_MAX,
        r is Err ==> *final(ledger) == *old(ledger),
        r is Err ==> (if !is_owner(*old(ledger), info.sender@) {
            r->Err_0 is Unauthorized
        } else {
            bad_request(r->Err_0, "tx_limit must be 0 < tx_limit ≤ 20"@)
        }),
        r is Ok ==> {
            &&& final(ledger).config() == (Config { tx_limit, ..old(ledger).config() })
            &&& final(ledger).token_map() == old(ledger).token_map()
            &&& final(ledger).txs() == old(ledger).txs()
            &&& final(ledger).queue() == old(ledger).queue()
            &&& final(ledger).reserved() == old(ledger).reserved()
            &&& final(ledger).user_reqs() == old(ledger).user_reqs()
            &&& r->Ok_0.attributes@.len() == 2
            &&& r->Ok_0.attributes@[1].value@ == decimal(tx_limit as nat)
        },
{
    if ledger.config.owner != info.sender {
        return Err(ContractError::Unauthorized);
    }
    if tx_limit > RELAYER_TX_HANDLE_LIMIT_MAX || tx_limit == 0 {
        return Err(ContractError::BadRequest { message: text("tx_limit must be 0 < tx_limit ≤ 20") });
    }
    ledger.config.tx_limit = tx_limit;
    let mut attributes: Vec<Attribute> = Vec::new();
    attributes.push(attr("action", text("update_tx_limit")));
    attributes.push(attr("tx_limit", amount_to_string(tx_limit as u128)));
    Ok(Response { messages: Vec::new(), attributes })
}

/// Hands the ledger to a new owner. Only the owner may.
pub fn execute_update_owner(ledger: &mut Burner, info: MessageInfo, new_owner: String) -> (r: ContractResult)
    requires
        old(ledger).wf(),
    ensures
        final(ledger).wf(),
        r is Ok <==> is_owner(*old(ledger), info.sender@),
        r is Err ==> *final(ledger) == *old(ledger) && r->Err_0 is Unauthorized,
        r is Ok ==> {
            &&& final(ledger).config() == (Config { owner: new_owner, ..old(ledger).config() })
            &&& final(ledger).token_map() == old(ledger).token_map()
            &&& final(ledger).txs() == old(ledger).txs()
            &&& final(ledger).queue() == old(ledger).queue()
            &&& final(ledger).reserved() == old(ledger).reserved()
            &&& final(ledger).user_reqs() == old(ledger).user_reqs()
            &&& r->Ok_0.attributes@.len() == 2
        },
{
    if ledger.config.owner != info.sender {
        return Err(ContractError::Unauthorized);
    }
    let mut attributes: Vec<Attribute> = Vec::new();
    attributes.push(attr("action", text("update_owner")));
    attributes.push(attr("owner", new_owner.clone()));
    ledger.config.owner = new_owner;
    Ok(Response { messages: Vec::new(), attributes })
}

/// The highest request id that `user_addr` has used, 0 before the first.
pub fn get_user_last_req_id(ledger: &Burner, user_addr: &String) -> (r: u32)
    requires
        ledger.wf(),
    ensures
        r == last_req_id_of(ledger.user_reqs(), user_addr@),
        is_last_req_id(ledger.user_reqs(), user_addr@, r),
{
    let r = ledger.user_txs.last_req_id(user_addr);
    proof {
        lemma_last_req_id(ledger.user_reqs(), user_addr@, r);
    }
    r
}

pub fn get_cw20_transfer_from_msg(token_addr: String, owner: String, recipient: String, amount: u128) -> (r: TokenMsg)
    ensures
        r == (TokenMsg::Cw20TransferFrom { contract: token_addr, owner, recipient, amount }),
{
    TokenMsg::Cw20TransferFrom { contract: token_addr, owner, recipient, amount }
}

pub fn get_cw20_transfer_msg(token_addr: String, recipient: String, amount: u128) -> (r: TokenMsg)
    ensures
        r == (TokenMsg::Cw20Transfer { contract: token_addr, recipient, amount }),
{
    TokenMsg::Cw20Transfer { contract: token_addr, recipient, amount }
}

pub fn get_cw20_burn_msg(token_addr: String, amount: u128) -> (r: TokenMsg)
    ensures
        r == (TokenMsg::Cw20Burn { contract: token_addr, amount }),
{
    TokenMsg::Cw20Burn { contract: token_addr, amount }
}

pub fn get_cw721_transfer_msg(token_addr: String, recipient: String, token_id: String) -> (r: TokenMsg)
    ensures
        r == (TokenMsg::Cw721TransferNft { contract: token_addr, recipient, token_id }),
{
    TokenMsg::Cw721TransferNft { contract: token_addr, recipient, token_id }
}

/// Why a request to migrate is refused.
pub enum Rejection {
    UnknownAsset,
    NftIdRequired,
    NftIdInUse,
    AmountRequired,
    ToRequired,
    AmountInvalid,
}

/// The (asset, token id) pair that a request names.
pub open spec fn req_pair(req: MigrationReq) -> (Seq<char>, Seq<char>) {
    (req.asset@, req.nft_id->Some_0@)
}

/// The request moves a non-fungible token.
pub open spec fn is_nft_req(tokens: Map<Seq<char>, TokenInfo>, req: MigrationReq) -> bool {
    &&& tokens.contains_key(req.asset@)
    &&& tokens[req.asset@].token_type == TokenType::Cw721
    &&& req.nft_id is Some
}

/// The pairs named by the first `n` requests that move non-fungible tokens.
pub open spec fn batch_pairs(tokens: Map<Seq<char>, TokenInfo>, reqs: Seq<MigrationReq>, n: int) -> Set<
    (Seq<char>, Seq<char>),
> {
    Set::new(
        |p: (Seq<char>, Seq<char>)|
            exists|j: int| 0 <= j < n && is_nft_req(tokens, #[trigger] reqs[j]) && req_pair(reqs[j]) == p,
    )
}

/// Why `req` is refused, given the supported assets and the pairs already
/// taken; `None` when it is accepted.
pub open spec fn rejection(tokens: Map<Seq<char>, TokenInfo>, taken: Set<(Seq<char>, Seq<char>)>, req: MigrationReq) -> Option<Rejection> {
    if !tokens.contains_key(req.asset@) {
        Some(Rejection::UnknownAsset)
    } else if tokens[req.asset@].token_type == TokenType::Cw721 {
        if req.nft_id is None || req.nft_id->Some_0@.len() == 0 {
            Some(Rejection::NftIdRequired)
        } else if taken.contains(req_pair(req)) {
            Some(Rejection::NftIdInUse)
        } else if req.to@.len() == 0 {
            Some(Rejection::ToRequired)
        } else {
            None
        }
    } else {
        if req.amount is None || (is_amount_literal(req.amount->Some_0@) && amount_literal_value(
            req.amount->Some_0@,
        ) == 0) {
            Some(Rejection::AmountRequired)
        } else if req.to@.len() == 0 {
            Some(Rejection::ToRequired)
        } else if !is_amount_literal(req.amount->Some_0@) {
            Some(Rejection::AmountInvalid)
        } else {
            None
        }
    }
}

/// The error by which a request is refused for `why`.
pub open spec fn rejected_with(e: ContractError, why: Rejection, req: MigrationReq) -> bool {
    match why {
        Rejection::UnknownAsset => not_found(e, "burner::types::TokenInfo"@),
        Rejection::NftIdRequired => bad_request(e, "nft_id is required for Cw721 token"@),
        Rejection::NftIdInUse => bad_request(e, "nft_id "@ + req.nft_id->Some_0@ + " is already in use"@),
        Rejection::AmountRequired => bad_request(e, "amount is required for cw20 token"@),
        Rejection::ToRequired => bad_request(e, "to is required"@),
        Rejection::AmountInvalid => e is InvalidAmount && e->InvalidAmount_value@ == req.amount->Some_0@,
    }
}

/// The pairs taken when the request at `i` of a batch is checked: those of
/// pending migrations and those of the earlier requests of the batch.
pub open spec fn taken_before(b: Burner, reqs: Seq<MigrationReq>, i: int) -> Set<(Seq<char>, Seq<char>)> {
    b.reserved().union(batch_pairs(b.token_map(), reqs, i))
}

pub open spec fn req_rejection(b: Burner, reqs: Seq<MigrationReq>, i: int) -> Option<Rejection> {
    rejection(b.token_map(), taken_before(b, reqs, i), reqs[i])
}

pub open spec fn batch_accepted(b: Burner, reqs: Seq<MigrationReq>) -> bool {
    forall|i: int| 0 <= i < reqs.len() ==> (#[trigger] req_rejection(b, reqs, i)) is None
}

/// What a migration of `req` escrows of a fungible token (0 for others).
pub open spec fn escrowed_amount(ti: TokenInfo, req: MigrationReq) -> u128 {
    if ti.token_type == TokenType::Cw20 {
        amount_literal_value(req.amount->Some_0@) as u128
    } else {
        0
    }
}

/// The migration that an accepted request creates.
pub open spec fn is_new_tx(tx: Tx, id: u64, req: MigrationReq, ti: TokenInfo, sender: Seq<char>, rid: u32) -> bool {
    &&& tx.id == id
    &&& tx.status == Status::Created
    &&& tx.from@ == sender
    &&& tx.to@ == req.to@
    &&& tx.user_req_id == rid
    &&& tx.token_addr@ == req.asset@
    &&& tx.minter_token_addr@ == ti.addr@
    &&& tx.amount == escrowed_amount(ti, req)
    &&& tx.nft_id@ == (match req.nft_id {
        Some(n) => n@,
        None => Seq::<char>::empty(),
    })
    &&& tx.msg is None
    &&& tx.minter_id is None
    &&& tx.minter_tx_hash is None
}

/// The message that moves the asset of an accepted request from its
/// sender into the contract's escrow.
pub open spec fn is_escrow_msg(m: TokenMsg, req: MigrationReq, ti: TokenInfo, sender: Seq<char>, contract: Seq<char>) -> bool {
    match ti.token_type {
        TokenType::Cw20 => {
            &&& m is Cw20TransferFrom
            &&& m->Cw20TransferFrom_contract@ == req.asset@
            &&& m->Cw20TransferFrom_owner@ == sender
            &&& m->Cw20TransferFrom_recipient@ == contract
            &&& m->Cw20TransferFrom_amount == escrowed_amount(ti, req)
        },
        TokenType::Cw721 => {
            &&& m is Cw721TransferNft
            &&& m->Cw721TransferNft_contract@ == req.asset@
            &&& m->Cw721TransferNft_recipient@ == contract
            &&& m->Cw721TransferNft_token_id@ == req.nft_id->Some_0@
        },
    }
}

/// The ids `first + 1` to `first + n`.
pub open spec fn id_range(first: u64, n: nat) -> Seq<u64> {
    Seq::new(n, |k: int| (first + k + 1) as u64)
}

/// The ledger `new` is `old` after it accepted the batch `reqs` of `sender`.
pub open spec fn request_applied(
    old: Burner,
    new: Burner,
    sender: Seq<char>,
    env: Env,
    reqs: Seq<MigrationReq>,
    resp: Response<TokenMsg>,
) -> bool {
    let n = reqs.len();
    let first = old.config().tx_idx;
    let rid = (last_req_id_of(old.user_reqs(), sender) + 1) as u32;
    let ids = id_range(first, n);
    &&& new.config() == (Config { tx_idx: (first + n) as u64, ..old.config() })
    &&& new.token_map() == old.token_map()
    &&& new.txs().len() == old.txs().len() + n
    &&& new.txs().subrange(0, old.txs().len() as int) == old.txs()
    &&& forall|k: int|
        0 <= k < n ==> is_new_tx(
            #[trigger] new.txs()[old.txs().len() + k],
            ids[k],
            reqs[k],
            old.token_map()[reqs[k].asset@],
            sender,
            rid,
        )
    &&& new.queue() == old.queue() + ids
    &&& new.queue().to_set() == old.queue().to_set().union(ids.to_set())
    &&& new.reserved() == old.reserved().union(batch_pairs(old.token_map(), reqs, n as int))
    &&& new.user_reqs() == old.user_reqs().insert(
        (sender, rid),
        (ids, env.block_height, env.block_time_nanos / 1_000_000),
    )
    &&& resp.messages@.len() == n
    &&& forall|k: int|
        0 <= k < n ==> is_escrow_msg(
            #[trigger] resp.messages@[k],
            reqs[k],
            old.token_map()[reqs[k].asset@],
            sender,
            env.contract_address@,
        )
    &&& resp.attributes@.len() == 1
}

impl Burner {
    /// Checks one request of a batch against the ledger and the pairs that
    /// earlier requests of the batch took; builds its migration and escrow
    /// message, and tells whether it takes a pair.
    fn check_request(
        &self,
        pending: &Reservations,
        req: &MigrationReq,
        id: u64,
        sender: &String,
        contract: &String,
        rid: u32,
    ) -> (r: Result<(Tx, TokenMsg, bool), ContractError>)
        requires
            self.wf(),
        ensures
            match rejection(self.token_map(), self.reserved().union(pending@), *req) {
                Some(why) => r is Err && rejected_with(r->Err_0, why, *req),
                None => r matches Ok((tx, m, takes)) && is_new_tx(
                    tx,
                    id,
                    *req,
                    self.token_map()[req.asset@],
                    sender@,
                    rid,
                ) && is_escrow_msg(m, *req, self.token_map()[req.asset@], sender@, contract@) && takes
                    == is_nft_req(self.token_map(), *req),
            },
    {
        let ti = match self.tokens.get(&req.asset) {
            None => {
                return Err(ContractError::NotFound { kind: text("burner::types::TokenInfo") });
            },
            Some(ti) => ti,
        };
        match ti.token_type {
            TokenType::Cw721 => {
                let nft_id = match &req.nft_id {
                    None => {
                        return Err(ContractError::BadRequest { message: text("nft_id is required for Cw721 token") });
                    },
                    Some(n) => n,
                };
                if nft_id.as_str().is_empty() {
                    return Err(ContractError::BadRequest { message: text("nft_id is required for Cw721 token") });
                }
                if self.nfts.contains(&req.asset, nft_id) || pending.contains(&req.asset, nft_id) {
                    let message = text("nft_id ").concat(nft_id.as_str()).concat(" is already in use");
                    return Err(ContractError::BadRequest { message });
                }
                if req.to.as_str().is_empty() {
                    return Err(ContractError::BadRequest { message: text("to is required") });
                }
                let tx = Tx {
                    id,
                    status: Status::Created,
                    from: sender.clone(),
                    to: req.to.clone(),
                    user_req_id: rid,
                    token_addr: req.asset.clone(),
                    minter_token_addr: ti.addr.clone(),
                    amount: 0,
                    nft_id: nft_id.clone(),
                    msg: None,
                    minter_id: None,
                    minter_tx_hash: None,
                };
                let m = get_cw721_transfer_msg(req.asset.clone(), contract.clone(), nft_id.clone());
                Ok((tx, m, true))
            },
            TokenType::Cw20 => {
                let amount = match &req.amount {
                    None => {
                        return Err(ContractError::BadRequest { message: text("amount is required for cw20 token") });
                    },
                    Some(a) => a,
                };
                let parsed = parse_amount(amount.as_str());
                let is_zero = match parsed {
                    Some(v) => v == 0,
                    None => false,
                };
                if is_zero {
                    return Err(ContractError::BadRequest { message: text("amount is required for cw20 token") });
                }
                if req.to.as_str().is_empty() {
                    return Err(ContractError::BadRequest { message: text("to is required") });
                }
                let value = match parsed {
                    None => {
                        return Err(ContractError::InvalidAmount { value: amount.clone() });
                    },
                    Some(v) => v,
                };
                let nft_id = match &req.nft_id {
                    Some(n) => n.clone(),
                    None => String::new(),
                };
                let tx = Tx {
                    id,
                    status: Status::Created,
                    from: sender.clone(),
                    to: req.to.clone(),
                    user_req_id: rid,
                    token_addr: req.asset.clone(),
                    minter_token_addr: ti.addr.clone(),
                    amount: value,
                    nft_id,
                    msg: None,
                    minter_id: None,
                    minter_tx_hash: None,
                };
                let m = get_cw20_transfer_from_msg(req.asset.clone(), sender.clone(), contract.clone(), value);
                Ok((tx, m, false))
            },
        }
    }
}

/// The ledger after a batch was accepted is well formed.
proof fn lemma_request_wf(old: Burner, new: Burner, reqs: Seq<MigrationReq>, sender: Seq<char>, rid: u32)
    requires
        old.wf(),
        batch_accepted(old, reqs),
        reqs.len() <= USER_INFO_LIMIT,
        new.tokens == old.tokens,
        new.config.tx_idx == old.config.tx_idx + reqs.len(),
        new.txs@.len() == old.txs@.len() + reqs.len(),
        new.txs@.subrange(0, old.txs@.len() as int) == old.txs@,
        forall|k: int|
            0 <= k < reqs.len() ==> is_new_tx(
                #[trigger] new.txs@[old.txs@.len() + k],
                (old.config.tx_idx + k + 1) as u64,
                reqs[k],
                old.token_map()[reqs[k].asset@],
                sender,
                rid,
            ),
        new.unprocessed.wf(),
        new.unprocessed@.to_set() == old.unprocessed@.to_set().union(
            id_range(old.config.tx_idx, reqs.len()).to_set(),
        ),
        new.nfts.wf(),
        new.nfts@ == old.nfts@.union(batch_pairs(old.token_map(), reqs, reqs.len() as int)),
        new.user_txs.wf(),
        !old.user_txs.map().contains_key((sender, rid)),
        new.user_txs.map() == old.user_txs.map().insert(
            (sender, rid),
            (id_range(old.config.tx_idx, reqs.len()), new.user_txs.map()[(sender, rid)].1, new.user_txs.map()[(sender, rid)].2),
        ),
    ensures
        new.wf(),
{
    let n = reqs.len() as int;
    let l = old.txs@.len() as int;
    let tokens = old.token_map();
    assert forall|i: int| 0 <= i < l implies new.txs@[i] == old.txs@[i] by {
        assert(new.txs@.subrange(0, l)[i] == new.txs@[i]);
    }
    assert forall|k: int|
        0 <= k < n && tokens.contains_key((#[trigger] reqs[k]).asset@) && tokens[reqs[k].asset@].token_type
            == TokenType::Cw721 implies reqs[k].nft_id is Some by {
        assert(req_rejection(old, reqs, k) is None);
    }
    assert forall|i: int| 0 <= i < new.txs@.len() implies (#[trigger] new.txs@[i]).id == i + 1 by {
        if i >= l {
            assert(is_new_tx(new.txs@[l + (i - l)], (old.config.tx_idx + (i - l) + 1) as u64, reqs[i - l], tokens[reqs[i - l].asset@], sender, rid));
        }
    }
    assert forall|id: u64|
        new.unprocessed@.contains(id) <==> (1 <= id <= new.txs@.len() && new.txs@[id - 1].status == Status::Created) by {
        assert(new.unprocessed@.to_set().contains(id) == new.unprocessed@.contains(id));
        assert(old.unprocessed@.to_set().contains(id) == old.unprocessed@.contains(id));
        let ids = id_range(old.config.tx_idx, reqs.len());
        if l < id <= l + n {
            let k = id - l - 1;
            assert(ids[k] == id);
            assert(is_new_tx(new.txs@[l + k], (old.config.tx_idx + k + 1) as u64, reqs[k], tokens[reqs[k].asset@], sender, rid));
        }
        if ids.to_set().contains(id) {
            let k = choose|k: int| 0 <= k < ids.len() && ids[k] == id;
        }
    }
    assert forall|i: int|
        0 <= i < new.txs@.len() && (#[trigger] new.txs@[i]).status == Status::Created implies new.tokens.map().contains_key(
        new.txs@[i].token_addr@,
    ) by {
        if i >= l {
            let k = i - l;
            assert(is_new_tx(new.txs@[l + k], (old.config.tx_idx + k + 1) as u64, reqs[k], tokens[reqs[k].asset@], sender, rid));
            assert(req_rejection(old, reqs, k) is None);
        }
    }
    assert forall|p: (Seq<char>, Seq<char>)|
        new.nfts@.contains(p) <==> exists|i: int|
            0 <= i < new.txs@.len() && reserves(new.tokens.map(), #[trigger] new.txs@[i]) && tx_pair(new.txs@[i]) == p by {
        if old.nfts@.contains(p) {
            let i = choose|i: int| 0 <= i < old.txs@.len() && reserves(old.tokens.map(), #[trigger] old.txs@[i]) && tx_pair(old.txs@[i]) == p;
            assert(new.txs@[i] == old.txs@[i]);
        }
        if batch_pairs(tokens, reqs, n).contains(p) {
            let k = choose|k: int| 0 <= k < n && is_nft_req(tokens, #[trigger] reqs[k]) && req_pair(reqs[k]) == p;
            assert(is_new_tx(new.txs@[l + k], (old.config.tx_idx + k + 1) as u64, reqs[k], tokens[reqs[k].asset@], sender, rid));
            assert(reserves(new.tokens.map(), new.txs@[l + k]));
        }
        if exists|i: int| 0 <= i < new.txs@.len() && reserves(new.tokens.map(), #[trigger] new.txs@[i]) && tx_pair(new.txs@[i]) == p {
            let i = choose|i: int| 0 <= i < new.txs@.len() && reserves(new.tokens.map(), #[trigger] new.txs@[i]) && tx_pair(new.txs@[i]) == p;
            if i < l {
                assert(new.txs@[i] == old.txs@[i]);
                assert(old.nfts@.contains(p));
            } else {
                let k = i - l;
                assert(is_new_tx(new.txs@[l + k], (old.config.tx_idx + k + 1) as u64, reqs[k], tokens[reqs[k].asset@], sender, rid));
                assert(is_nft_req(tokens, reqs[k]));
                assert(batch_pairs(tokens, reqs, n).contains(p));
            }
        }
    }
    assert forall|i: int, j: int|
        0 <= i < new.txs@.len() && 0 <= j < new.txs@.len() && reserves(new.tokens.map(), #[trigger] new.txs@[i])
            && reserves(new.tokens.map(), #[trigger] new.txs@[j]) && tx_pair(new.txs@[i]) == tx_pair(new.txs@[j]) implies i == j by {
        if i < l && j < l {
            assert(new.txs@[i] == old.txs@[i]);
            assert(new.txs@[j] == old.txs@[j]);
        } else if i < l || j < l {
            let (o, q) = if i < l { (i, j) } else { (j, i) };
            let k = q - l;
            assert(new.txs@[o] == old.txs@[o]);
            assert(is_new_tx(new.txs@[l + k], (old.config.tx_idx + k + 1) as u64, reqs[k], tokens[reqs[k].asset@], sender, rid));
            assert(old.nfts@.contains(tx_pair(old.txs@[o])));
            assert(req_rejection(old, reqs, k) is None);
            assert(taken_before(old, reqs, k).contains(req_pair(reqs[k])));
        } else {
            let (a, b) = if i < j { (i - l, j - l) } else { (j - l, i - l) };
            if a != b {
                assert(is_new_tx(new.txs@[l + a], (old.config.tx_idx + a + 1) as u64, reqs[a], tokens[reqs[a].asset@], sender, rid));
                assert(is_new_tx(new.txs@[l + b], (old.config.tx_idx + b + 1) as u64, reqs[b], tokens[reqs[b].asset@], sender, rid));
                assert(req_rejection(old, reqs, b) is None);
                assert(batch_pairs(tokens, reqs, b).contains(req_pair(reqs[a])));
                assert(taken_before(old, reqs, b).contains(req_pair(reqs[b])));
            }
        }
    }
    let ids = id_range(old.config.tx_idx, reqs.len());
    assert forall|a: int, c: int| 0 <= a < ids.len() && 0 <= c < ids.len() && a != c implies ids[a] != ids[c] by {}
    assert forall|i: int|
        0 <= i < new.txs@.len() implies new.user_txs.map().contains_key(
        ((#[trigger] new.txs@[i]).from@, new.txs@[i].user_req_id),
    ) && new.user_txs.map()[(new.txs@[i].from@, new.txs@[i].user_req_id)].0.contains(new.txs@[i].id) by {
        if i < l {
            assert(new.txs@[i] == old.txs@[i]);
            assert(old.user_txs.map().contains_key((old.txs@[i].from@, old.txs@[i].user_req_id)));
        } else {
            let k = i - l;
            assert(is_new_tx(new.txs@[l + k], (old.config.tx_idx + k + 1) as u64, reqs[k], tokens[reqs[k].asset@], sender, rid));
            assert(ids[k] == new.txs@[i].id);
        }
    }
    assert forall|k: (Seq<char>, u32)| #[trigger] new.user_txs.map().contains_key(k) implies new.user_txs.map()[k].0.len()
        <= USER_INFO_LIMIT && new.user_txs.map()[k].0.no_duplicates() && forall|j: int|
            0 <= j < new.user_txs.map()[k].0.len() ==> 1 <= #[trigger] new.user_txs.map()[k].0[j]
                <= new.txs@.len() by {
        if k != (sender, rid) {
            assert(old.user_txs.map().contains_key(k));
        }
    }
}

/// Escrows the assets of a batch of requests and queues one migration for
/// each, with fresh ascending ids, recorded together as the next request
/// of the sender. The batch is refused whole when it is too large or when
/// any request is: the first refused request gives the error.
#[verifier::loop_isolation(false)]
pub fn execute_request_migrations(ledger: &mut Burner, info: MessageInfo, env: Env, reqs: Vec<MigrationReq>) -> (r: ContractResult)
    requires
        old(ledger).wf(),
    ensures
        final(ledger).wf(),
        r is Ok <==> reqs@.len() <= USER_INFO_LIMIT && last_req_id_of(old(ledger).user_reqs(), info.sender@)
            < u32::MAX && old(ledger).config().tx_idx + reqs@.len() <= u64::MAX && batch_accepted(
            *old(ledger),
            reqs@,
        ),
        r is Err ==> *final(ledger) == *old(ledger),
        r is Err ==> (if reqs@.len() > USER_INFO_LIMIT {
            bad_request(r->Err_0, "too many requests, tx limit is20"@)
        } else if last_req_id_of(old(ledger).user_reqs(), info.sender@) == u32::MAX
            || old(ledger).config().tx_idx + reqs@.len() > u64::MAX {
            r->Err_0 is InternalServerError
        } else {
            exists|i: int|
                0 <= i < reqs@.len() && (forall|j: int| 0 <= j < i ==> (#[trigger] req_rejection(*old(ledger), reqs@, j)) is None)
                    && req_rejection(*old(ledger), reqs@, i) is Some && rejected_with(
                    r->Err_0,
                    req_rejection(*old(ledger), reqs@, i)->Some_0,
                    reqs@[i],
                )
        }),
        r is Ok ==> request_applied(*old(ledger), *final(ledger), info.sender@, env, reqs@, r->Ok_0),
{
    if reqs.len() > USER_INFO_LIMIT as usize {
        return Err(ContractError::BadRequest { message: text("too many requests, tx limit is20") });
    }
    let last = get_user_last_req_id(ledger, &info.sender);
    if last == u32::MAX {
        return Err(ContractError::InternalServerError { message: text("user_req_id overflow") });
    }
    let n = reqs.len();
    if ledger.config.tx_idx > u64::MAX - n as u64 {
        return Err(ContractError::InternalServerError { message: text("tx_idx overflow") });
    }
    let rid = last + 1;
    let first = ledger.config.tx_idx;
    let ghost tokens = ledger.token_map();
    let mut new_txs: Vec<Tx> = Vec::new();
    let mut msgs: Vec<TokenMsg> = Vec::new();
    let mut ids: Vec<u64> = Vec::new();
    let mut pending = Reservations::new();
    let mut i: usize = 0;
    while i < n
        invariant
            ledger.wf(),
            *ledger == *old(ledger),
            tokens == ledger.token_map(),
            n == reqs@.len(),
            first == ledger.config.tx_idx,
            first + n <= u64::MAX,
            0 <= i <= n,
            new_txs@.len() == i,
            msgs@.len() == i,
            ids@ == id_range(first, i as nat),
            pending.wf(),
            pending@ == batch_pairs(tokens, reqs@, i as int),
            forall|j: int| 0 <= j < i ==> (#[trigger] req_rejection(*ledger, reqs@, j)) is None,
            forall|j: int|
                0 <= j < i ==> is_new_tx(
                    #[trigger] new_txs@[j],
                    (first + j + 1) as u64,
                    reqs@[j],
                    tokens[reqs@[j].asset@],
                    info.sender@,
                    rid,
                ),
            forall|j: int|
                0 <= j < i ==> is_escrow_msg(
                    #[trigger] msgs@[j],
                    reqs@[j],
                    tokens[reqs@[j].asset@],
                    info.sender@,
                    env.contract_address@,
                ),
        decreases n - i,
    {
        let id = first + i as u64 + 1;
        match ledger.check_request(&pending, &reqs[i], id, &info.sender, &env.contract_address, rid) {
            Err(e) => {
                proof {
                    assert(taken_before(*ledger, reqs@, i as int) == ledger.reserved().union(pending@));
                    assert(req_rejection(*ledger, reqs@, i as int) is Some);
                }
                return Err(e);
            },
            Ok((tx, m, takes)) => {
                proof {
                    assert(taken_before(*ledger, reqs@, i as int) == ledger.reserved().union(pending@));
                    assert(req_rejection(*ledger, reqs@, i as int) is None);
                }
                if takes {
                    let req = &reqs[i];
                    pending.insert(req.asset.clone(), req.nft_id.as_ref().unwrap().clone());
                }
                proof {
                    let next = batch_pairs(tokens, reqs@, i + 1);
                    assert forall|p| next.contains(p) <==> pending@.contains(p) by {
                        if next.contains(p) {
                            let j = choose|j: int|
                                0 <= j < i + 1 && is_nft_req(tokens, #[trigger] reqs@[j]) && req_pair(reqs@[j]) == p;
                            if j < i {
                                assert(batch_pairs(tokens, reqs@, i as int).contains(p));
                            }
                        }
                        if pending@.contains(p) && p != req_pair(reqs@[i as int]) {
                            let j = choose|j: int|
                                0 <= j < i && is_nft_req(tokens, #[trigger] reqs@[j]) && req_pair(reqs@[j]) == p;
                            assert(0 <= j < i + 1);
                        }
                    }
                    assert(pending@ =~= next);
                }
                new_txs.push(tx);
                msgs.push(m);
                ids.push(id);
                proof {
                    assert(ids@ =~= id_range(first, (i + 1) as nat));
                }
            },
        }
        i = i + 1;
    }
    let ghost old_ledger = *ledger;
    let ghost added = new_txs@;
    ledger.txs.append(&mut new_txs);
    let ghost mid = *ledger;
    proof {
        assert forall|j: int| 0 <= j < old_ledger.unprocessed@.len() implies old_ledger.unprocessed@[j] <= first by {
            assert(old_ledger.unprocessed@.contains(old_ledger.unprocessed@[j]));
        }
        assert(old_ledger.unprocessed@ + id_range(first, 0) =~= old_ledger.unprocessed@);
    }
    let mut k: usize = 0;
    while k < n
        invariant
            ledger.unprocessed.wf(),
            ledger.tokens == mid.tokens,
            ledger.txs == mid.txs,
            ledger.nfts == mid.nfts,
            ledger.user_txs == mid.user_txs,
            ledger.config == mid.config,
            0 <= k <= n,
            first + n <= u64::MAX,
            ledger.unprocessed@.to_set() == old_ledger.unprocessed@.to_set().union(id_range(first, k as nat).to_set()),
            ledger.unprocessed@ == old_ledger.unprocessed@ + id_range(first, k as nat),
            forall|j: int| 0 <= j < old_ledger.unprocessed@.len() ==> old_ledger.unprocessed@[j] <= first,
        decreases n - k,
    {
        let ghost q = ledger.unprocessed@;
        proof {
            assert forall|j: int| 0 <= j < q.len() implies q[j] < first + k + 1 by {
                if j >= old_ledger.unprocessed@.len() {
                    assert(q[j] == id_range(first, k as nat)[j - old_ledger.unprocessed@.len()]);
                }
            }
        }
        ledger.unprocessed.insert_new(first + k as u64 + 1);
        proof {
            assert(ledger.unprocessed@ =~= old_ledger.unprocessed@ + id_range(first, (k + 1) as nat));
            assert(id_range(first, (k + 1) as nat).to_set() =~= id_range(first, k as nat).to_set().insert(
                (first + k + 1) as u64,
            )) by {
                let a = id_range(first, (k + 1) as nat);
                let b = id_range(first, k as nat);
                assert forall|x: u64| a.to_set().contains(x) implies b.to_set().insert((first + k + 1) as u64).contains(x) by {
                    let j = choose|j: int| 0 <= j < a.len() && a[j] == x;
                    if j < k {
                        assert(b[j] == x);
                    }
                }
                assert forall|x: u64| b.to_set().insert((first + k + 1) as u64).contains(x) implies a.to_set().contains(x) by {
                    if x == (first + k + 1) as u64 {
                        assert(a[k as int] == x);
                    } else {
                        let j = choose|j: int| 0 <= j < b.len() && b[j] == x;
                        assert(a[j] == x);
                    }
                }
            }
        }
        k = k + 1;
    }
    proof {
        assert forall|p| old_ledger.nfts@.contains(p) implies !pending@.contains(p) by {
            if pending@.contains(p) {
                let j = choose|j: int| 0 <= j < n && is_nft_req(tokens, #[trigger] reqs@[j]) && req_pair(reqs@[j]) == p;
                assert(req_rejection(old_ledger, reqs@, j) is None);
                assert(taken_before(old_ledger, reqs@, j).contains(p));
            }
        }
    }
    ledger.nfts.absorb(pending);
    proof {
        assert(mid.txs@ =~= old_ledger.txs@ + added);
        assert(mid.txs@.subrange(0, old_ledger.txs@.len() as int) =~= old_ledger.txs@);
        assert forall|k: int| 0 <= k < n implies #[trigger] mid.txs@[old_ledger.txs@.len() + k] == added[k] by {}
    }
    let ghost old_user_reqs = ledger.user_txs.map();
    proof {
        assert(old_user_reqs == old(ledger).user_reqs());
        if old_user_reqs.contains_key((info.sender@, rid)) {
            assert(ids_of(old_user_reqs, info.sender@).contains(rid));
        }
    }
    let ghost ids_view = ids@;
    let inserted = ledger.user_txs.insert_new(
        UserReq {
            user: info.sender.clone(),
            req_id: rid,
            tx_ids: ids,
            block_num: env.block_height,
            timestamp: env.block_time_nanos / 1_000_000,
        },
    );
    assert(inserted);
    assert(ids_view == id_range(first, n as nat));
    ledger.config.tx_idx = first + n as u64;
    let mut attributes: Vec<Attribute> = Vec::new();
    attributes.push(attr("action", text("request_migrations")));
    proof {
        lemma_request_wf(old_ledger, *ledger, reqs@, info.sender@, rid);
        let b = *ledger;
        let o = *old(ledger);
        assert(last_req_id_of(o.user_reqs(), info.sender@) == last);
        assert(b.config() == (Config { tx_idx: (first + n) as u64, ..o.config() }));
        assert(b.token_map() == o.token_map());
        assert(b.txs().subrange(0, o.txs().len() as int) == o.txs());
        assert(b.queue().to_set() == o.queue().to_set().union(id_range(first, n as nat).to_set()));
        assert(b.queue() == o.queue() + id_range(first, n as nat));
        assert(b.reserved() == o.reserved().union(batch_pairs(o.token_map(), reqs@, n as int)));
        assert(b.user_reqs() == o.user_reqs().insert(
            (info.sender@, rid),
            (id_range(first, n as nat), env.block_height, env.block_time_nanos / 1_000_000),
        ));
    }
    Ok(Response { messages: msgs, attributes })
}

/// The one message that settles a migration: a fungible token that went
/// through is burnt and one that did not is refunded to its sender; a
/// non-fungible token that went through goes to the burn contract and one
/// that did not goes back to its sender.
pub open spec fn is_settlement_msg(m: TokenMsg, tx: Tx, kind: TokenType, success: bool, burn_contract: Seq<char>) -> bool {
    match kind {
        TokenType::Cw20 => if success {
            &&& m is Cw20Burn
            &&& m->Cw20Burn_contract@ == tx.token_addr@
            &&& m->Cw20Burn_amount == tx.amount
        } else {
            &&& m is Cw20Transfer
            &&& m->Cw20Transfer_contract@ == tx.token_addr@
            &&& m->Cw20Transfer_recipient@ == tx.from@
            &&& m->Cw20Transfer_amount == tx.amount
        },
        TokenType::Cw721 => {
            &&& m is Cw721TransferNft
            &&& m->Cw721TransferNft_contract@ == tx.token_addr@
            &&& m->Cw721TransferNft_recipient@ == if success {
                burn_contract
            } else {
                tx.from@
            }
            &&& m->Cw721TransferNft_token_id@ == tx.nft_id@
        },
    }
}

/// The migration `tx` once settled with the relayer's report.
pub open spec fn settled(tx: Tx, success: bool, minter_id: Option<u64>, minter_tx_hash: Option<String>, message: Option<String>) -> Tx {
    Tx {
        status: if success {
            Status::Swapped
        } else {
            Status::PaidBack
        },
        msg: message,
        minter_id,
        minter_tx_hash,
        ..tx
    }
}

/// The id names a migration of the ledger.
pub open spec fn has_tx(b: Burner, id: u64) -> bool {
    1 <= id <= b.txs().len()
}

/// What `execute_record_migration_result` does: `new` and `r` are what a
/// call on `old` leaves and returns.
pub open spec fn record_outcome(
    old: Burner,
    new: Burner,
    sender: Seq<char>,
    tx_id: u64,
    status: i16,
    minter_id: Option<u64>,
    minter_tx_hash: Option<String>,
    message: Option<String>,
    r: ContractResult,
) -> bool {
    &&& r is Ok <==> is_owner(old, sender) && has_tx(old, tx_id)
        && old.txs()[tx_id - 1].status == Status::Created
    &&& r is Err ==> new == old
    &&& r is Err ==> (if !is_owner(old, sender) {
        r->Err_0 is Unauthorized
    } else if !has_tx(old, tx_id) {
        not_found(r->Err_0, "burner::state::Tx"@)
    } else {
        &&& r->Err_0 is CustomError
        &&& r->Err_0->CustomError_status == 409
        &&& r->Err_0->CustomError_message@ == "tx already processed"@
    })
    &&& r is Ok ==> {
        let tx = old.txs()[tx_id - 1];
        let kind = old.token_map()[tx.token_addr@].token_type;
        &&& new.txs() == old.txs().update(
            tx_id - 1,
            settled(tx, status == 0, minter_id, minter_tx_hash, message),
        )
        &&& new.queue().to_set() == old.queue().to_set().remove(tx_id)
        &&& new.reserved() == if kind == TokenType::Cw721 {
            old.reserved().remove(tx_pair(tx))
        } else {
            old.reserved()
        }
        &&& new.config() == old.config()
        &&& new.token_map() == old.token_map()
        &&& new.user_reqs() == old.user_reqs()
        &&& r->Ok_0.messages@.len() == 1
        &&& is_settlement_msg(r->Ok_0.messages@[0], tx, kind, status == 0, old.config().burn_contract@)
        &&& r->Ok_0.attributes@.len() == 1
    }
}

/// Settles a pending migration with the outcome that the relayer reports
/// (status 0 is success, any other a failure): records it, takes the id
/// off the queue, frees the token pair of a non-fungible token, and emits
/// the one message that burns, forwards or returns the escrowed asset.
/// Only the owner may, and a migration is settled at most once.
pub fn execute_record_migration_result(
    ledger: &mut Burner,
    info: MessageInfo,
    tx_id: u64,
    status: i16,
    minter_id: Option<u64>,
    minter_tx_hash: Option<String>,
    message: Option<String>,
) -> (r: ContractResult)
    requires
        old(ledger).wf(),
    ensures
        final(ledger).wf(),
        record_outcome(
            *old(ledger),
            *final(ledger),
            info.sender@,
            tx_id,
            status,
            minter_id,
            minter_tx_hash,
            message,
            r,
        ),
{
    if ledger.config.owner != info.sender {
        return Err(ContractError::Unauthorized);
    }
    if tx_id == 0 || tx_id > ledger.txs.len() as u64 {
        return Err(ContractError::NotFound { kind: text("burner::state::Tx") });
    }
    let i = (tx_id - 1) as usize;
    if ledger.txs[i].status != Status::Created {
        return Err(ContractError::CustomError { status: conflict_status(), message: text("tx already processed") });
    }
    let kind = match ledger.tokens.get(&ledger.txs[i].token_addr) {
        Some(ti) => ti.token_type,
        None => {
            return Err(ContractError::InternalServerError { message: text("token of a pending tx is not supported") });
        },
    };
    let success = status == crate::burner::types::TxResultStatusCode::Success.code();
    let tx = &ledger.txs[i];
    let m = match kind {
        TokenType::Cw20 => if success {
            get_cw20_burn_msg(tx.token_addr.clone(), tx.amount)
        } else {
            get_cw20_transfer_msg(tx.token_addr.clone(), tx.from.clone(), tx.amount)
        },
        TokenType::Cw721 => if success {
            get_cw721_transfer_msg(tx.token_addr.clone(), ledger.config.burn_contract.clone(), tx.nft_id.clone())
        } else {
            get_cw721_transfer_msg(tx.token_addr.clone(), tx.from.clone(), tx.nft_id.clone())
        },
    };
    let asset = tx.token_addr.clone();
    let nft_id = tx.nft_id.clone();
    let ghost before = *ledger;
    ledger.txs[i].status = if success {
        Status::Swapped
    } else {
        Status::PaidBack
    };
    ledger.txs[i].minter_id = minter_id;
    ledger.txs[i].minter_tx_hash = minter_tx_hash;
    ledger.txs[i].msg = message;
    ledger.unprocessed.remove(tx_id);
    if kind == TokenType::Cw721 {
        ledger.nfts.remove(&asset, &nft_id);
    }
    proof {
        let b = *ledger;
        let t = before.txs@[i as int];
        assert(b.txs@ =~= before.txs@.update(i as int, settled(t, success, minter_id, minter_tx_hash, message)));
        assert(reserves(before.tokens.map(), t) == (kind == TokenType::Cw721));
        assert forall|id: u64|
            b.unprocessed@.contains(id) <==> (1 <= id <= b.txs@.len() && b.txs@[id - 1].status == Status::Created) by {
            assert(b.unprocessed@.to_set().contains(id) == b.unprocessed@.contains(id));
            assert(before.unprocessed@.to_set().contains(id) == before.unprocessed@.contains(id));
        }
        assert forall|p: (Seq<char>, Seq<char>)|
            b.nfts@.contains(p) <==> exists|j: int|
                0 <= j < b.txs@.len() && reserves(b.tokens.map(), #[trigger] b.txs@[j]) && tx_pair(b.txs@[j]) == p by {
            if b.nfts@.contains(p) {
                let j = choose|j: int|
                    0 <= j < before.txs@.len() && reserves(before.tokens.map(), #[trigger] before.txs@[j]) && tx_pair(before.txs@[j]) == p;
                if j == i {
                    assert(kind == TokenType::Cw721);
                    assert(false);
                }
                assert(b.txs@[j] == before.txs@[j]);
            }
            if exists|j: int| 0 <= j < b.txs@.len() && reserves(b.tokens.map(), #[trigger] b.txs@[j]) && tx_pair(b.txs@[j]) == p {
                let j = choose|j: int| 0 <= j < b.txs@.len() && reserves(b.tokens.map(), #[trigger] b.txs@[j]) && tx_pair(b.txs@[j]) == p;
                assert(j != i);
                assert(b.txs@[j] == before.txs@[j]);
                assert(before.nfts@.contains(p));
                if kind == TokenType::Cw721 {
                    assert(p != tx_pair(t));
                }
            }
        }
        assert forall|a: int, c: int|
            0 <= a < b.txs@.len() && 0 <= c < b.txs@.len() && reserves(b.tokens.map(), #[trigger] b.txs@[a])
                && reserves(b.tokens.map(), #[trigger] b.txs@[c]) && tx_pair(b.txs@[a]) == tx_pair(b.txs@[c]) implies a == c by {
            assert(b.txs@[a] == before.txs@[a]);
            assert(b.txs@[c] == before.txs@[c]);
        }
        assert forall|j: int|
            0 <= j < b.txs@.len() && (#[trigger] b.txs@[j]).status == Status::Created implies b.tokens.map().contains_key(
            b.txs@[j].token_addr@,
        ) by {
            assert(b.txs@[j] == before.txs@[j]);
        }
        assert forall|j: int| 0 <= j < b.txs@.len() implies (#[trigger] b.txs@[j]).id == j + 1 by {
            assert(b.txs@[j].id == before.txs@[j].id);
        }
        assert forall|j: int|
            0 <= j < b.txs@.len() implies b.user_txs.map().contains_key(
            ((#[trigger] b.txs@[j]).from@, b.txs@[j].user_req_id),
        ) && b.user_txs.map()[(b.txs@[j].from@, b.txs@[j].user_req_id)].0.contains(b.txs@[j].id) by {
            assert(before.user_txs.map().contains_key((before.txs@[j].from@, before.txs@[j].user_req_id)));
        }
    }
    let mut messages: Vec<TokenMsg> = Vec::new();
    messages.push(m);
    let mut attributes: Vec<Attribute> = Vec::new();
    attributes.push(attr("action", text("record_migration_result")));
    Ok(Response { messages, attributes })
}

fn clone_text(o: &Option<String>) -> (r: Option<String>)
    ensures
        r == *o,
{
    match o {
        Some(s) => Some(s.clone()),
        None => None,
    }
}

fn tx_response(tx: &Tx) -> (r: TxResponse)
    ensures
        tx_response_of(r, *tx),
{
    TxResponse {
        id: tx.id,
        status: tx.status,
        msg: clone_text(&tx.msg),
        from: tx.from.clone(),
        to: tx.to.clone(),
        user_req_id: tx.user_req_id,
        token_addr: tx.token_addr.clone(),
        amount: if tx.amount == 0 {
            None
        } else {
            Some(amount_to_string(tx.amount))
        },
        nft_info: if tx.nft_id.as_str().is_empty() {
            None
        } else {
            Some(NftInfo { id: tx.nft_id.clone(), uri: None, extension: None })
        },
        minter_id: tx.minter_id,
        minter_tx_hash: clone_text(&tx.minter_tx_hash),
    }
}

/// The migration with id `id`.
pub fn query_tx_response(ledger: &Burner, id: u64) -> (r: Result<TxResponse, ContractError>)
    requires
        ledger.wf(),
    ensures
        r is Ok <==> has_tx(*ledger, id),
        r is Err ==> not_found(r->Err_0, "burner::state::Tx"@),
        r is Ok ==> tx_response_of(r->Ok_0, ledger.txs()[id - 1]),
{
    if id == 0 || id > ledger.txs.len() as u64 {
        return Err(ContractError::NotFound { kind: text("burner::state::Tx") });
    }
    Ok(tx_response(&ledger.txs[(id - 1) as usize]))
}

/// How many pending migrations a relayer poll returns: the number asked
/// for, at most the maximum, and the configured default when it asks for
/// none.
pub fn unprocessed_limit(ledger: &Burner, items_per_req: Option<u8>) -> (r: u8)
    ensures
        r == match items_per_req {
            Some(n) if n > RELAYER_TX_HANDLE_LIMIT_MAX => RELAYER_TX_HANDLE_LIMIT_MAX,
            Some(n) if n > 0 => n,
            _ => ledger.config().tx_limit,
        },
{
    let limit = match items_per_req {
        Some(n) => n,
        None => 0,
    };
    if limit > RELAYER_TX_HANDLE_LIMIT_MAX {
        RELAYER_TX_HANDLE_LIMIT_MAX
    } else if limit == 0 {
        ledger.config.tx_limit
    } else {
        limit
    }
}

/// The pending migrations after the exclusive cursor `start_after`, by
/// ascending id, at most `items_per_request` of them.
pub fn query_unprocessed_migration_requests(ledger: &Burner, items_per_request: u8, start_after: u64) -> (r:
    UnprocessedMigrationRequestResponse)
    requires
        ledger.wf(),
    ensures
        r.items@.len() == page_after(ledger.queue(), start_after, items_per_request as nat).len(),
        forall|k: int|
            0 <= k < r.items@.len() ==> {
                let id = page_after(ledger.queue(), start_after, items_per_request as nat)[k];
                &&& has_tx(*ledger, id)
                &&& tx_response_of(#[trigger] r.items@[k], ledger.txs()[id - 1])
                &&& r.items@[k].id == id
            },
{
    let ids = ledger.unprocessed.page(start_after, items_per_request as usize);
    let ghost q = ledger.unprocessed@;
    proof {
        let k0 = crate::order::count_at_most(q, start_after) as int;
        crate::order::lemma_count_at_most_bound(q, start_after);
        assert forall|k: int| 0 <= k < ids@.len() implies q.contains(#[trigger] ids@[k]) by {
            assert(ids@[k] == q[k0 + k]);
        }
    }
    let mut items: Vec<TxResponse> = Vec::new();
    let mut k: usize = 0;
    while k < ids.len()
        invariant
            ledger.wf(),
            q == ledger.unprocessed@,
            ids@ == page_after(ledger.queue(), start_after, items_per_request as nat),
            forall|j: int| 0 <= j < ids@.len() ==> q.contains(#[trigger] ids@[j]),
            0 <= k <= ids@.len(),
            items@.len() == k,
            forall|j: int|
                0 <= j < k ==> has_tx(*ledger, ids@[j]) && tx_response_of(#[trigger] items@[j], ledger.txs()[ids@[j] - 1])
                    && items@[j].id == ids@[j],
        decreases ids@.len() - k,
    {
        let id = ids[k];
        assert(q.contains(ids@[k as int]));
        assert(ledger.txs@[id - 1].id == id);
        assert(1 <= id <= ledger.txs@.len());
        let len = ledger.txs.len();
        assert(id - 1 < len);
        let item = tx_response(&ledger.txs[(id - 1) as usize]);
        items.push(item);
        assert(items@[k as int] == item);
        k = k + 1;
    }
    UnprocessedMigrationRequestResponse { items }
}

impl Burner {
    /// How many of the migrations `ids` stand in each state: (swapped,
    /// paid back, created).
    fn count_statuses(&self, ids: &Vec<u64>) -> (r: (u8, u8, u8))
        requires
            ids@.len() <= USER_INFO_LIMIT,
        ensures
            r.0 == count_status(self.txs@, ids@, Status::Swapped),
            r.1 == count_status(self.txs@, ids@, Status::PaidBack),
            r.2 == count_status(self.txs@, ids@, Status::Created),
    {
        let mut swapped: u8 = 0;
        let mut paid_back: u8 = 0;
        let mut created: u8 = 0;
        let mut i: usize = 0;
        while i < ids.len()
            invariant
                ids@.len() <= USER_INFO_LIMIT,
                0 <= i <= ids@.len(),
                swapped == count_status(self.txs@, ids@.subrange(0, i as int), Status::Swapped),
                paid_back == count_status(self.txs@, ids@.subrange(0, i as int), Status::PaidBack),
                created == count_status(self.txs@, ids@.subrange(0, i as int), Status::Created),
                swapped <= i && paid_back <= i && created <= i,
            decreases ids@.len() - i,
        {
            let id = ids[i];
            proof {
                let s = ids@.subrange(0, i + 1);
                assert(s.drop_last() =~= ids@.subrange(0, i as int));
                assert(s.last() == id);
            }
            if 1 <= id && id <= self.txs.len() as u64 {
                let st = self.txs[(id - 1) as usize].status;
                if st == Status::Swapped {
                    swapped = swapped + 1;
                } else if st == Status::PaidBack {
                    paid_back = paid_back + 1;
                } else {
                    created = created + 1;
                }
            }
            i = i + 1;
        }
        assert(ids@.subrange(0, i as int) =~= ids@);
        (swapped, paid_back, created)
    }
}

/// The call `req_id` of `user`: its migrations, its block, and how many of
/// them went through, failed, or are pending now.
pub fn get_user_req_info(ledger: &Burner, user: &String, req_id: u32) -> (r: Option<UserReqInfo>)
    requires
        ledger.wf(),
    ensures
        r is Some <==> ledger.user_reqs().contains_key((user@, req_id)),
        r matches Some(info) ==> {
            let rec = ledger.user_reqs()[(user@, req_id)];
            &&& info.tx_ids@ == rec.0
            &&& info.block_num == rec.1
            &&& info.timestamp == rec.2
            &&& info.success == count_status(ledger.txs(), rec.0, Status::Swapped)
            &&& info.fail == count_status(ledger.txs(), rec.0, Status::PaidBack)
            &&& info.in_progress == count_status(ledger.txs(), rec.0, Status::Created)
        },
{
    match ledger.user_txs.get(user, req_id) {
        None => None,
        Some(rec) => {
            let (success, fail, in_progress) = ledger.count_statuses(&rec.tx_ids);
            let mut tx_ids: Vec<u64> = Vec::new();
            let mut i: usize = 0;
            while i < rec.tx_ids.len()
                invariant
                    0 <= i <= rec.tx_ids@.len(),
                    tx_ids@ == rec.tx_ids@.subrange(0, i as int),
                decreases rec.tx_ids@.len() - i,
            {
                tx_ids.push(rec.tx_ids[i]);
                i = i + 1;
                assert(tx_ids@ =~= rec.tx_ids@.subrange(0, i as int));
            }
            assert(tx_ids@ =~= rec.tx_ids@);
            Some(UserReqInfo { tx_ids, block_num: rec.block_num, timestamp: rec.timestamp, success, fail, in_progress })
        },
    }
}

/// Summaries of the calls of `target_addr` whose request ids lie beyond
/// the exclusive cursor `start_after`, ascending or descending, at most
/// `USER_INFO_LIMIT` of them, each with how its migrations stand now.
pub fn query_user_migrations(ledger: &Burner, target_addr: String, start_after: u32, descending: bool) -> (r:
    UserMigrationsResponse)
    requires
        ledger.wf(),
    ensures
        is_page(
            r.migrations@.map_values(|it: UserMigrationsItem| it.req_id),
            ids_of(ledger.user_reqs(), target_addr@),
            start_after,
            descending,
            USER_INFO_LIMIT as nat,
        ),
        forall|k: int|
            0 <= k < r.migrations@.len() ==> user_item_of(
                #[trigger] r.migrations@[k],
                r.migrations@[k].req_id,
                ledger.user_reqs()[(target_addr@, r.migrations@[k].req_id)],
                ledger.txs(),
            ),
{
    let ids = ledger.user_txs.page(&target_addr, start_after, descending, USER_INFO_LIMIT as usize);
    let mut migrations: Vec<UserMigrationsItem> = Vec::new();
    let mut k: usize = 0;
    while k < ids.len()
        invariant
            ledger.wf(),
            is_page(ids@, ids_of(ledger.user_reqs(), target_addr@), start_after, descending, USER_INFO_LIMIT as nat),
            0 <= k <= ids@.len(),
            migrations@.len() == k,
            forall|j: int| 0 <= j < k ==> (#[trigger] migrations@[j]).req_id == ids@[j],
            forall|j: int|
                0 <= j < k ==> user_item_of(
                    #[trigger] migrations@[j],
                    ids@[j],
                    ledger.user_reqs()[(target_addr@, ids@[j])],
                    ledger.txs(),
                ),
        decreases ids@.len() - k,
    {
        let req_id = ids[k];
        assert(ids_of(ledger.user_reqs(), target_addr@).contains(ids@[k as int]));
        let info = get_user_req_info(ledger, &target_addr, req_id).unwrap();
        migrations.push(
            UserMigrationsItem {
                req_id,
                block_num: info.block_num,
                timestamp: info.timestamp,
                success: info.success,
                fail: info.fail,
                in_progress: info.in_progress,
            },
        );
        k = k + 1;
    }
    assert(migrations@.map_values(|it: UserMigrationsItem| it.req_id) =~= ids@);
    UserMigrationsResponse { migrations }
}

/// The migrations that the call `req_id` of `target_addr` requested.
pub fn query_user_migration(ledger: &Burner, target_addr: String, req_id: u32) -> (r: Result<
    UserMigrationResponse,
    ContractError,
>)
    requires
        ledger.wf(),
    ensures
        r is Ok <==> ledger.user_reqs().contains_key((target_addr@, req_id)),
        r is Err ==> not_found(r->Err_0, "burner::state::UserReqInfo"@),
        r is Ok ==> {
            let ids = ledger.user_reqs()[(target_addr@, req_id)].0;
            &&& r->Ok_0.txs@.len() == ids.len()
            &&& forall|k: int|
                0 <= k < ids.len() ==> has_tx(*ledger, ids[k]) && tx_response_of(
                    #[trigger] r->Ok_0.txs@[k],
                    ledger.txs()[ids[k] - 1],
                )
        },
{
    let rec = match ledger.user_txs.get(&target_addr, req_id) {
        None => {
            return Err(ContractError::NotFound { kind: text("burner::state::UserReqInfo") });
        },
        Some(rec) => rec,
    };
    let ghost ids = rec.tx_ids@;
    let mut txs: Vec<TxResponse> = Vec::new();
    let mut k: usize = 0;
    while k < rec.tx_ids.len()
        invariant
            ledger.wf(),
            ledger.user_reqs().contains_key((target_addr@, req_id)),
            ids == rec.tx_ids@,
            ids == ledger.user_reqs()[(target_addr@, req_id)].0,
            0 <= k <= ids.len(),
            txs@.len() == k,
            forall|j: int|
                0 <= j < k ==> has_tx(*ledger, ids[j]) && tx_response_of(#[trigger] txs@[j], ledger.txs()[ids[j] - 1]),
        decreases ids.len() - k,
    {
        let id = rec.tx_ids[k];
        assert(1 <= ids[k as int] <= ledger.txs@.len());
        let len = ledger.txs.len();
        assert(id - 1 < len);
        let item = tx_response(&ledger.txs[(id - 1) as usize]);
        txs.push(item);
        assert(txs@[k as int] == item);
        k = k + 1;
    }
    Ok(UserMigrationResponse { txs })
}

/// The supported assets whose address comes after the exclusive cursor
/// `start_after` (all of them without one), in ascending order.
pub fn query_supported_tokens(ledger: &Burner, start_after: Option<String>) -> (r: Vec<SupportedToken>)
    requires
        ledger.wf(),
    ensures
        ({
            let k0 = match start_after {
                Some(a) => count_not_after(ledger.token_keys(), a@) as int,
                None => 0,
            };
            &&& r@.len() == ledger.token_keys().len() - k0
            &&& forall|j: int|
                0 <= j < r@.len() ==> {
                    let key = ledger.token_keys()[k0 + j];
                    &&& (#[trigger] r@[j]).burner_token_addr@ == key
                    &&& r@[j].minter_token_addr@ == ledger.token_map()[key].addr@
                    &&& r@[j].token_type == ledger.token_map()[key].token_type
                }
        }),
{
    let k0 = match &start_after {
        Some(a) => ledger.tokens.first_after(Some(a.as_str())),
        None => ledger.tokens.first_after(None),
    };
    let mut out: Vec<SupportedToken> = Vec::new();
    let mut k: usize = k0;
    while k < ledger.tokens.len()
        invariant
            ledger.wf(),
            k0 <= k <= ledger.token_keys().len(),
            k0 == match start_after {
                Some(a) => count_not_after(ledger.token_keys(), a@) as int,
                None => 0,
            },
            out@.len() == k - k0,
            forall|j: int|
                0 <= j < out@.len() ==> {
                    let key = ledger.token_keys()[k0 + j];
                    &&& (#[trigger] out@[j]).burner_token_addr@ == key
                    &&& out@[j].minter_token_addr@ == ledger.token_map()[key].addr@
                    &&& out@[j].token_type == ledger.token_map()[key].token_type
                },
        decreases ledger.token_keys().len() - k,
    {
        let info = ledger.tokens.value_at(k);
        out.push(
            SupportedToken {
                burner_token_addr: ledger.tokens.key_at(k).clone(),
                minter_token_addr: info.addr.clone(),
                token_type: info.token_type,
            },
        );
        k = k + 1;
    }
    out
}

impl Burner {
    /// Ids are positions: the migration at index `i` has id `i + 1`, and the
    /// last id handed out is the number of migrations.
    pub proof fn lemma_ids_are_positions(&self)
        requires
            self.wf(),
        ensures
            self.txs().len() == self.config().tx_idx,
            forall|i: int| 0 <= i < self.txs().len() ==> (#[trigger] self.txs()[i]).id == i + 1,
    {
    }

    /// An id is queued exactly when its migration is still pending, and
    /// the queue lists its ids once each, ascending.
    pub proof fn lemma_queue_matches_status(&self)
        requires
            self.wf(),
        ensures
            forall|id: u64|
                self.queue().contains(id) <==> has_tx(*self, id) && self.txs()[id - 1].status == Status::Created,
            crate::order::ascending(self.queue()),
            self.queue().no_duplicates(),
    {
        self.unprocessed.lemma_ascending();
    }

    /// The supported assets' addresses are listed once each, ascending,
    /// and are exactly the keys of the registry.
    pub proof fn lemma_token_keys(&self)
        requires
            self.wf(),
        ensures
            crate::registry::keys_ascending(self.token_keys()),
            self.token_keys().no_duplicates(),
            forall|k: Seq<char>| self.token_map().contains_key(k) <==> self.token_keys().contains(k),
            self.token_keys().len() == self.token_map().dom().len(),
    {
        self.tokens.lemma_keys();
    }

    /// Every migration is listed, once, in the audit record of the call
    /// that requested it.
    pub proof fn lemma_audit_link(&self)
        requires
            self.wf(),
        ensures
            forall|i: int|
                0 <= i < self.txs().len() ==> self.user_reqs().contains_key(
                    ((#[trigger] self.txs()[i]).from@, self.txs()[i].user_req_id),
                ) && self.user_reqs()[(self.txs()[i].from@, self.txs()[i].user_req_id)].0.contains(self.txs()[i].id),
            forall|k: (Seq<char>, u32)|
                #[trigger] self.user_reqs().contains_key(k) ==> self.user_reqs()[k].0.no_duplicates(),
            self.txs().len() == self.config().tx_idx,
            forall|i: int| 0 <= i < self.txs().len() ==> (#[trigger] self.txs()[i]).id == i + 1,
    {
    }

    /// A pair is held exactly when a pending migration of a non-fungible
    /// token names it, and no two pending migrations name the same pair.
    pub proof fn lemma_nft_exclusive(&self)
        requires
            self.wf(),
        ensures
            forall|p: (Seq<char>, Seq<char>)|
                self.reserved().contains(p) <==> exists|i: int|
                    0 <= i < self.txs().len() && reserves(self.token_map(), #[trigger] self.txs()[i])
                        && tx_pair(self.txs()[i]) == p,
            forall|i: int, j: int|
                0 <= i < self.txs().len() && 0 <= j < self.txs().len() && reserves(
                    self.token_map(),
                    #[trigger] self.txs()[i],
                ) && reserves(self.token_map(), #[trigger] self.txs()[j]) && tx_pair(self.txs()[i])
                    == tx_pair(self.txs()[j]) ==> i == j,
    {
    }
}

} // verus!
