//! The destination-side ledger: executes each migration of the source side
//! at most once, keyed by the source side's id, and keeps the registry of
//! the assets it can mint or release.
use vstd::prelude::*;
use crate::host::{attr, text, Attribute, MessageInfo, Response};
use crate::amount::{amount_to_string, decimal};
use crate::minter::error::ContractError;
use crate::minter::msg::{
    CustomCw721ExecuteMsg, InstantiateMsg, MigrationResultResponse, MinterMsg, NftExtension,
    NftExtensionDisplay, NftMigrationReq, QueryResponse, SupportedToken, TokenInfo, TokenMigrationReq,
    TokenType,
};
use crate::minter::state::{Config, Tx};
use crate::order::IdMap;
use crate::registry::{count_not_after, Registry};

verus! {

/// The denomination of the chain's native coin.
pub const NATIVE_TOKEN: &'static str = "axpla";

pub type ContractResult = Result<Response<MinterMsg>, ContractError>;

/// The destination-side ledger.
pub struct Minter {
    config: Config,
    tokens: Registry<TokenInfo>,
    burner_minter_idx: IdMap,
    txs: Vec<Tx>,
}

pub open spec fn native_denom() -> Seq<char> {
    "axpla"@
}

pub open spec fn bad_request(e: ContractError, msg: Seq<char>) -> bool {
    e is BadRequest && e->BadRequest_msg@ == msg
}

pub open spec fn not_found(e: ContractError, kind: Seq<char>) -> bool {
    e is NotFound && e->NotFound_kind@ == kind
}

/// A registry entry that is consistent: the native coin is known by its
/// denomination.
pub open spec fn token_ok(ti: TokenInfo) -> bool {
    ti.token_type == TokenType::Native ==> ti.addr@ == native_denom()
}

impl Minter {
    pub closed spec fn config(&self) -> Config {
        self.config
    }

    /// The supported assets, keyed by source-chain address.
    pub closed spec fn token_map(&self) -> Map<Seq<char>, TokenInfo> {
        self.tokens.map()
    }

    /// The supported assets' addresses, ascending.
    pub closed spec fn token_keys(&self) -> Seq<Seq<char>> {
        self.tokens.keys()
    }

    /// For each migration of the source side executed here, the id it got.
    pub closed spec fn burner_index(&self) -> Map<u64, u64> {
        self.burner_minter_idx@
    }

    /// The executed migrations; the one with id `i` is at `i - 1`.
    pub closed spec fn txs(&self) -> Seq<Tx> {
        self.txs@
    }

    pub closed spec fn wf(&self) -> bool {
        &&& self.tokens.wf()
        &&& self.burner_minter_idx.wf()
        &&& self.txs@.len() == self.config.tx_idx
        &&& forall|i: int| 0 <= i < self.txs@.len() ==> (#[trigger] self.txs@[i]).id == i + 1
        &&& forall|i: int|
            0 <= i < self.txs@.len() ==> self.burner_minter_idx@.contains_key((#[trigger] self.txs@[i]).burner_id)
                && self.burner_minter_idx@[self.txs@[i].burner_id] == i + 1
        &&& forall|b: u64|
            #[trigger] self.burner_minter_idx@.contains_key(b) ==> 1 <= self.burner_minter_idx@[b] <= self.txs@.len()
                && self.txs@[self.burner_minter_idx@[b] - 1].burner_id == b
        &&& forall|k: Seq<char>| #[trigger] self.tokens.map().contains_key(k) ==> token_ok(self.tokens.map()[k])
    }

    /// The registry is consistent: every native coin is known by its
    /// denomination.
    pub proof fn lemma_tokens_ok(&self)
        requires
            self.wf(),
        ensures
            forall|k: Seq<char>| #[trigger] self.token_map().contains_key(k) ==> token_ok(self.token_map()[k]),
    {
    }

    /// Each executed migration is listed under its source-side id, and
    /// each listed id names the migration executed for it.
    pub proof fn lemma_index(&self)
        requires
            self.wf(),
        ensures
            forall|i: int|
                0 <= i < self.txs().len() ==> self.burner_index().contains_key((#[trigger] self.txs()[i]).burner_id)
                    && self.burner_index()[self.txs()[i].burner_id] == i + 1,
            forall|b: u64|
                #[trigger] self.burner_index().contains_key(b) ==> 1 <= self.burner_index()[b] <= self.txs().len()
                    && self.txs()[self.burner_index()[b] - 1].burner_id == b,
            self.txs().len() == self.config().tx_idx,
    {
    }

    /// The supported assets' addresses are listed once each, ascending,
    /// and are exactly the keys of the registry.
    pub proof fn lemma_token_keys(&self)
        requires
            self.wf(),
        ensures
            crate::registry::keys_ascending(self.token_keys()),
            self.token_keys().no_duplicates(),
            forall|k: Seq<char>| self.token_map().contains_key(k) <==> self.token_keys().contains(k),
            self.token_keys().len() == self.token_map().dom().len(),
    {
        self.tokens.lemma_keys();
    }

    pub fn get_config(&self) -> (r: &Config)
        ensures
            *r == self.config(),
    {
        &self.config
    }
}

/// The registry that a list of supported tokens describes; a later entry
/// for the same asset replaces an earlier one.
pub open spec fn registry_of(tokens: Seq<SupportedToken>) -> Map<Seq<char>, TokenInfo>
    decreases tokens.len(),
{
    if tokens.len() == 0 {
        Map::empty()
    } else {
        registry_of(tokens.drop_last()).insert(
            tokens.last().burner_token_addr@,
            TokenInfo { addr: tokens.last().minter_token_addr, token_type: tokens.last().token_type },
        )
    }
}

/// Why a listed token is refused at set-up, if it is.
pub open spec fn listed_token_error(t: SupportedToken) -> Option<Seq<char>> {
    if t.burner_token_addr@.len() == 0 {
        Some("burner_token_addr is required"@)
    } else if t.minter_token_addr@ == native_denom() && t.token_type != TokenType::Native {
        Some("token_type is not native token"@)
    } else if t.token_type == TokenType::Native && t.minter_token_addr@ != native_denom() {
        Some("minter_token_addr is not native token"@)
    } else {
        None
    }
}

/// Sets up the ledger with its owner (the sender unless one is named) and
/// its supported assets.
pub fn instantiate(info: MessageInfo, msg: InstantiateMsg) -> (r: Result<(Minter, Response<MinterMsg>), ContractError>)
    ensures
        r is Ok <==> forall|i: int|
            0 <= i < msg.supported_tokens@.len() ==> listed_token_error(#[trigger] msg.supported_tokens@[i]) is None,
        r is Err ==> exists|i: int|
            0 <= i < msg.supported_tokens@.len() && (forall|j: int|
                0 <= j < i ==> listed_token_error(#[trigger] msg.supported_tokens@[j]) is None)
                && listed_token_error(msg.supported_tokens@[i]) is Some && bad_request(
                r->Err_0,
                listed_token_error(msg.supported_tokens@[i])->Some_0,
            ),
        r matches Ok((m, resp)) ==> {
            &&& m.wf()
            &&& m.config().owner@ == (match msg.owner {
                Some(o) => o@,
                None => info.sender@,
            })
            &&& m.config().tx_idx == 0
            &&& m.token_map() == registry_of(msg.supported_tokens@)
            &&& m.txs().len() == 0
            &&& m.burner_index().is_empty()
            &&& resp.messages@.len() == 0
            &&& resp.attributes@.len() == 2 + 2 * msg.supported_tokens@.len()
        },
{
    let supported_tokens = &msg.supported_tokens;
    let mut tokens: Registry<TokenInfo> = Registry::new();
    let mut token_attrs: Vec<Attribute> = Vec::new();
    let native = text(NATIVE_TOKEN);
    proof {
        reveal_strlit("axpla");
    }
    let mut i: usize = 0;
    while i < supported_tokens.len()
        invariant
            tokens.wf(),
            native@ == native_denom(),
            supported_tokens@ == msg.supported_tokens@,
            0 <= i <= supported_tokens@.len(),
            tokens.map() == registry_of(supported_tokens@.subrange(0, i as int)),
            forall|k: Seq<char>| #[trigger] tokens.map().contains_key(k) ==> token_ok(tokens.map()[k]),
            token_attrs@.len() == 2 * i,
            forall|j: int| 0 <= j < i ==> listed_token_error(#[trigger] supported_tokens@[j]) is None,
        decreases supported_tokens@.len() - i,
    {
        let token = &supported_tokens[i];
        if token.burner_token_addr.as_str().is_empty() {
            return Err(ContractError::BadRequest { msg: text("burner_token_addr is required") });
        }
        let is_native_denom = token.minter_token_addr == native;
        if is_native_denom && token.token_type != TokenType::Native {
            return Err(ContractError::BadRequest { msg: text("token_type is not native token") });
        }
        if !is_native_denom && token.token_type == TokenType::Native {
            return Err(ContractError::BadRequest { msg: text("minter_token_addr is not native token") });
        }
        tokens.remove(&token.burner_token_addr);
        tokens.insert_new(
            token.burner_token_addr.clone(),
            TokenInfo { addr: token.minter_token_addr.clone(), token_type: token.token_type },
        );
        token_attrs.push(attr("minter_token", token.minter_token_addr.clone()));
        token_attrs.push(attr("token_type", token.token_type.to_string()));
        proof {
            let s = supported_tokens@.subrange(0, i + 1);
            assert(s.drop_last() =~= supported_tokens@.subrange(0, i as int));
            assert(tokens.map() =~= registry_of(s));
        }
        i = i + 1;
    }
    assert(supported_tokens@.subrange(0, i as int) =~= supported_tokens@);
    let InstantiateMsg { owner, supported_tokens: _ } = msg;
    let owner = match owner {
        Some(o) => o,
        None => info.sender,
    };
    let mut attributes: Vec<Attribute> = Vec::new();
    attributes.push(attr("action", text("instantiate")));
    attributes.push(attr("owner", owner.clone()));
    attributes.append(&mut token_attrs);
    let m = Minter { config: Config { owner, tx_idx: 0 }, tokens, burner_minter_idx: IdMap::new(), txs: Vec::new() };
    assert(m.burner_index() =~= Map::empty());
    Ok((m, Response { messages: Vec::new(), attributes }))
}

fn copy_text(o: &Option<String>) -> (r: Option<String>)
    ensures
        r == *o,
{
    match o {
        Some(s) => Some(s.clone()),
        None => None,
    }
}

fn copy_display(d: &NftExtensionDisplay) -> (r: NftExtensionDisplay)
    ensures
        r == *d,
{
    NftExtensionDisplay {
        display_type: copy_text(&d.display_type),
        trait_type: copy_text(&d.trait_type),
        value: copy_text(&d.value),
    }
}

/// Two extensions hold the same metadata.
pub open spec fn same_metadata(a: NftExtension, b: NftExtension) -> bool {
    &&& a.image == b.image
    &&& a.image_data == b.image_data
    &&& a.external_url == b.external_url
    &&& a.description == b.description
    &&& a.name == b.name
    &&& a.attributes@ == b.attributes@
    &&& a.background_color == b.background_color
    &&& a.animation_url == b.animation_url
    &&& a.youtube_url == b.youtube_url
}

pub open spec fn same_extension(a: Option<NftExtension>, b: Option<NftExtension>) -> bool {
    match (a, b) {
        (Some(x), Some(y)) => same_metadata(x, y),
        (None, None) => true,
        _ => false,
    }
}

fn copy_extension(e: &NftExtension) -> (r: NftExtension)
    ensures
        same_metadata(r, *e),
{
    let mut attributes: Vec<NftExtensionDisplay> = Vec::new();
    let mut i: usize = 0;
    while i < e.attributes.len()
        invariant
            0 <= i <= e.attributes@.len(),
            attributes@ == e.attributes@.subrange(0, i as int),
        decreases e.attributes@.len() - i,
    {
        attributes.push(copy_display(&e.attributes[i]));
        i = i + 1;
        assert(attributes@ =~= e.attributes@.subrange(0, i as int));
    }
    assert(attributes@ =~= e.attributes@);
    NftExtension {
        image: copy_text(&e.image),
        image_data: copy_text(&e.image_data),
        external_url: copy_text(&e.external_url),
        description: copy_text(&e.description),
        name: copy_text(&e.name),
        attributes,
        background_color: copy_text(&e.background_color),
        animation_url: copy_text(&e.animation_url),
        youtube_url: copy_text(&e.youtube_url),
    }
}

fn copy_nft_req(n: &NftMigrationReq) -> (r: NftMigrationReq)
    ensures
        r.id == n.id,
        r.uri == n.uri,
        same_extension(r.extension, n.extension),
{
    NftMigrationReq {
        id: n.id.clone(),
        uri: copy_text(&n.uri),
        extension: match &n.extension {
            Some(e) => Some(copy_extension(e)),
            None => None,
        },
    }
}

/// The sender is the configured owner.
pub open spec fn is_owner(m: Minter, sender: Seq<char>) -> bool {
    m.config().owner@ == sender
}

/// The request carries what the kind of its asset needs: an amount for a
/// fungible token or the native coin, a token for a non-fungible one.
pub open spec fn carries_request(kind: TokenType, token_req: Option<TokenMigrationReq>, nft_req: Option<NftMigrationReq>) -> bool {
    match kind {
        TokenType::Cw721 => nft_req is Some,
        _ => token_req is Some,
    }
}

/// The one message that delivers a migrated asset to `recipient`: the
/// native coin is sent by the bank, a fungible token is minted, and a
/// non-fungible token is minted with the id, uri and metadata requested.
pub open spec fn is_delivery_msg(
    m: MinterMsg,
    ti: TokenInfo,
    recipient: Seq<char>,
    token_req: Option<TokenMigrationReq>,
    nft_req: Option<NftMigrationReq>,
) -> bool {
    match ti.token_type {
        TokenType::Native => {
            &&& m is BankSend
            &&& m->BankSend_to_address@ == recipient
            &&& m->BankSend_denom@ == ti.addr@
            &&& m->BankSend_amount == token_req->Some_0.amount
        },
        TokenType::Cw20 => {
            &&& m is Cw20Mint
            &&& m->Cw20Mint_contract@ == ti.addr@
            &&& m->Cw20Mint_recipient@ == recipient
            &&& m->Cw20Mint_amount == token_req->Some_0.amount
        },
        TokenType::Cw721 => {
            &&& m is Cw721Mint
            &&& m->Cw721Mint_contract@ == ti.addr@
            &&& m->Cw721Mint_token_id@ == nft_req->Some_0.id@
            &&& m->Cw721Mint_owner@ == recipient
            &&& m->Cw721Mint_token_uri == nft_req->Some_0.uri
            &&& same_extension(m->Cw721Mint_extension, nft_req->Some_0.extension)
        },
    }
}

/// What `execute_migration` does: `new` and `r` are what a call on `old`
/// leaves and returns.
pub open spec fn migration_outcome(
    old: Minter,
    new: Minter,
    sender: Seq<char>,
    burner_id: u64,
    asset: String,
    token_req: Option<TokenMigrationReq>,
    nft_req: Option<NftMigrationReq>,
    to: String,
    r: ContractResult,
) -> bool {
    let known = old.token_map().contains_key(asset@);
    let ti = old.token_map()[asset@];
    &&& r is Ok <==> is_owner(old, sender) && known && old.config().tx_idx < u64::MAX
        && !old.burner_index().contains_key(burner_id) && carries_request(ti.token_type, token_req, nft_req)
    &&& r is Err ==> new == old
    &&& r is Err ==> (if !is_owner(old, sender) {
        r->Err_0 is Unauthorized
    } else if !known {
        not_found(r->Err_0, "minter::msg::TokenInfo"@)
    } else if old.burner_index().contains_key(burner_id) {
        bad_request(r->Err_0, "burner_id already exists"@)
    } else if old.config().tx_idx == u64::MAX {
        r->Err_0 is CustomError
    } else if ti.token_type == TokenType::Cw721 {
        bad_request(r->Err_0, "nft_req is required"@)
    } else {
        bad_request(r->Err_0, "token_req is required"@)
    })
    &&& r is Ok ==> {
        let id = (old.config().tx_idx + 1) as u64;
        &&& new.config() == (Config { tx_idx: id, ..old.config() })
        &&& new.burner_index() == old.burner_index().insert(burner_id, id)
        &&& new.txs() == old.txs().push(Tx { id, burner_id, recipient: to, asset, token_req, nft_req })
        &&& new.token_map() == old.token_map()
        &&& r->Ok_0.messages@.len() == 1
        &&& is_delivery_msg(r->Ok_0.messages@[0], ti, to@, token_req, nft_req)
        &&& r->Ok_0.attributes@.len() == 5
        &&& r->Ok_0.attributes@[1].value@ == decimal(id as nat)
    }
}

/// Executes a migration of the source side, at most once for each of its
/// ids: mints or releases the asset to `to` and records the migration
/// under a new local id. Only the owner may.
pub fn execute_migration(
    ledger: &mut Minter,
    info: MessageInfo,
    burner_id: u64,
    asset: String,
    token_req: Option<TokenMigrationReq>,
    nft_req: Option<NftMigrationReq>,
    to: String,
) -> (r: ContractResult)
    requires
        old(ledger).wf(),
    ensures
        final(ledger).wf(),
        migration_outcome(*old(ledger), *final(ledger), info.sender@, burner_id, asset, token_req, nft_req, to, r),
{
    if ledger.config.owner != info.sender {
        return Err(ContractError::Unauthorized);
    }
    let ti = match ledger.tokens.get(&asset) {
        None => {
            return Err(ContractError::NotFound { kind: text("minter::msg::TokenInfo") });
        },
        Some(ti) => ti,
    };
    if ledger.burner_minter_idx.get(burner_id).is_some() {
        return Err(ContractError::BadRequest { msg: text("burner_id already exists") });
    }
    if ledger.config.tx_idx == u64::MAX {
        return Err(ContractError::CustomError { val: text("tx_idx overflow") });
    }
    let kind = ti.token_type;
    let token_addr = ti.addr.clone();
    let m = match kind {
        TokenType::Native => match &token_req {
            None => {
                return Err(ContractError::BadRequest { msg: text("token_req is required") });
            },
            Some(req) => MinterMsg::BankSend { to_address: to.clone(), denom: token_addr.clone(), amount: req.amount },
        },
        TokenType::Cw20 => match &token_req {
            None => {
                return Err(ContractError::BadRequest { msg: text("token_req is required") });
            },
            Some(req) => MinterMsg::Cw20Mint { contract: token_addr.clone(), recipient: to.clone(), amount: req.amount },
        },
        TokenType::Cw721 => match &nft_req {
            None => {
                return Err(ContractError::BadRequest { msg: text("nft_req is required") });
            },
            Some(req) => {
                let req = copy_nft_req(req);
                MinterMsg::Cw721Mint {
                    contract: token_addr.clone(),
                    token_id: req.id,
                    owner: to.clone(),
                    token_uri: req.uri,
                    extension: req.extension,
                }
            },
        },
    };
    let id = ledger.config.tx_idx + 1;
    let ghost before = *ledger;
    ledger.config.tx_idx = id;
    ledger.burner_minter_idx.insert_new(burner_id, id);
    let mut attributes: Vec<Attribute> = Vec::new();
    attributes.push(attr("action", text("execute_migration")));
    attributes.push(attr("tx_id", amount_to_string(id as u128)));
    attributes.push(attr("burner_tx_id", amount_to_string(burner_id as u128)));
    attributes.push(attr("token", token_addr));
    attributes.push(attr("token_type", kind.to_string()));
    ledger.txs.push(Tx { id, burner_id, recipient: to, asset, token_req, nft_req });
    proof {
        let b = *ledger;
        assert forall|i: int| 0 <= i < b.txs@.len() implies b.burner_minter_idx@.contains_key(
            (#[trigger] b.txs@[i]).burner_id,
        ) && b.burner_minter_idx@[b.txs@[i].burner_id] == i + 1 by {
            if i < before.txs@.len() {
                assert(b.txs@[i] == before.txs@[i]);
                assert(before.burner_minter_idx@.contains_key(before.txs@[i].burner_id));
            }
        }
        assert forall|x: u64| #[trigger] b.burner_minter_idx@.contains_key(x) implies 1 <= b.burner_minter_idx@[x]
            <= b.txs@.len() && b.txs@[b.burner_minter_idx@[x] - 1].burner_id == x by {
            if x != burner_id {
                assert(before.burner_minter_idx@.contains_key(x));
            }
        }
    }
    let mut messages: Vec<MinterMsg> = Vec::new();
    messages.push(m);
    Ok(Response { messages, attributes })
}

/// Hands the minting right of a fungible or non-fungible asset to
/// `new_minter`; the native coin has no minter. Only the owner may.
pub fn execute_update_minter(ledger: &Minter, info: MessageInfo, asset: String, new_minter: String) -> (r: ContractResult)
    requires
        ledger.wf(),
    ensures
        r is Ok <==> is_owner(*ledger, info.sender@) && ledger.token_map().contains_key(asset@)
            && ledger.token_map()[asset@].token_type != TokenType::Native,
        r is Err ==> (if !is_owner(*ledger, info.sender@) {
            r->Err_0 is Unauthorized
        } else if !ledger.token_map().contains_key(asset@) {
            not_found(r->Err_0, "minter::msg::TokenInfo"@)
        } else {
            bad_request(r->Err_0, "cannot update native token minter"@)
        }),
        r is Ok ==> {
            let ti = ledger.token_map()[asset@];
            &&& r->Ok_0.messages@.len() == 1
            &&& (match r->Ok_0.messages@[0] {
                MinterMsg::Cw20UpdateMinter { contract, new_minter: to } => ti.token_type == TokenType::Cw20
                    && contract@ == ti.addr@ && to@ == new_minter@,
                MinterMsg::Cw721UpdateMinter { contract, msg: CustomCw721ExecuteMsg::UpdateMinter { new_minter: to } } =>
                    ti.token_type == TokenType::Cw721 && contract@ == ti.addr@ && to@ == new_minter@,
                _ => false,
            })
            &&& r->Ok_0.attributes@.len() == 3
        },
{
    if ledger.config.owner != info.sender {
        return Err(ContractError::Unauthorized);
    }
    let ti = match ledger.tokens.get(&asset) {
        None => {
            return Err(ContractError::NotFound { kind: text("minter::msg::TokenInfo") });
        },
        Some(ti) => ti,
    };
    let m = match ti.token_type {
        TokenType::Native => {
            return Err(ContractError::BadRequest { msg: text("cannot update native token minter") });
        },
        TokenType::Cw20 => MinterMsg::Cw20UpdateMinter { contract: ti.addr.clone(), new_minter: new_minter.clone() },
        TokenType::Cw721 => MinterMsg::Cw721UpdateMinter {
            contract: ti.addr.clone(),
            msg: CustomCw721ExecuteMsg::UpdateMinter { new_minter: new_minter.clone() },
        },
    };
    let mut messages: Vec<MinterMsg> = Vec::new();
    messages.push(m);
    let mut attributes: Vec<Attribute> = Vec::new();
    attributes.push(attr("action", text("update_minter")));
    attributes.push(attr("token", ti.addr.clone()));
    attributes.push(attr("minter", new_minter));
    Ok(Response { messages, attributes })
}

/// Why a new asset is refused by an owner's request, if it is.
pub open spec fn add_token_error(m: Minter, burner_token_addr: Seq<char>, minter_token_addr: Seq<char>, token_type: TokenType) -> Option<Seq<char>> {
    if burner_token_addr.len() == 0 {
        Some("burner_token_addr is empty"@)
    } else if token_type == TokenType::Native && minter_token_addr != native_denom() {
        Some("minter_token_addr is not native token"@)
    } else if m.token_map().contains_key(burner_token_addr) {
        Some("already exist"@)
    } else {
        None
    }
}

/// Registers a new supported asset; the native coin must be named by its
/// denomination. Only the owner may.
pub fn execute_add_token(
    ledger: &mut Minter,
    info: MessageInfo,
    burner_token_addr: String,
    minter_token_addr: String,
    token_type: TokenType,
) -> (r: ContractResult)
    requires
        old(ledger).wf(),
    ensures
        final(ledger).wf(),
        r is Ok <==> is_owner(*old(ledger), info.sender@) && add_token_error(
            *old(ledger),
            burner_token_addr@,
            minter_token_addr@,
            token_type,
        ) is None,
        r is Err ==> *final(ledger) == *old(ledger),
        r is Err ==> (if !is_owner(*old(ledger), info.sender@) {
            r->Err_0 is Unauthorized
        } else {
            bad_request(
                r->Err_0,
                add_token_error(*old(ledger), burner_token_addr@, minter_token_addr@, token_type)->Some_0,
            )
        }),
        r is Ok ==> {
            &&& final(ledger).token_map() == old(ledger).token_map().insert(
                burner_token_addr@,
                TokenInfo { addr: minter_token_addr, token_type },
            )
            &&& final(ledger).config() == old(ledger).config()
            &&& final(ledger).txs() == old(ledger).txs()
            &&& final(ledger).burner_index() == old(ledger).burner_index()
            &&& r->Ok_0.attributes@.len() == 4
        },
{
    if ledger.config.owner != info.sender {
        return Err(ContractError::Unauthorized);
    }
    if burner_token_addr.as_str().is_empty() {
        return Err(ContractError::BadRequest { msg: text("burner_token_addr is empty") });
    }
    let native = text(NATIVE_TOKEN);
    proof {
        reveal_strlit("axpla");
    }
    if token_type == TokenType::Native && minter_token_addr != native {
        return Err(ContractError::BadRequest { msg: text("minter_token_addr is not native token") });
    }
    if ledger.tokens.contains_key(&burner_token_addr) {
        return Err(ContractError::BadRequest { msg: text("already exist") });
    }
    let mut attributes: Vec<Attribute> = Vec::new();
    attributes.push(attr("action", text("add_token")));
    attributes.push(attr("burner_token", burner_token_addr.clone()));
    attributes.push(attr("minter_token", minter_token_addr.clone()));
    attributes.push(attr("token_type", token_type.to_string()));
    ledger.tokens.insert_new(burner_token_addr, TokenInfo { addr: minter_token_addr, token_type });
    Ok(Response { messages: Vec::new(), attributes })
}

/// Withdraws support for an asset. Only the owner may.
pub fn execute_remove_token(ledger: &mut Minter, info: MessageInfo, burner_token_addr: String) -> (r: ContractResult)
    requires
        old(ledger).wf(),
    ensures
        final(ledger).wf(),
        r is Ok <==> is_owner(*old(ledger), info.sender@) && burner_token_addr@.len() > 0,
        r is Err ==> *final(ledger) == *old(ledger),
        r is Err ==> (if !is_owner(*old(ledger), info.sender@) {
            r->Err_0 is Unauthorized
        } else {
            bad_request(r->Err_0, "burner_token_addr is empty"@)
        }),
        r is Ok ==> {
            &&& final(ledger).token_map() == old(ledger).token_map().remove(burner_token_addr@)
            &&& final(ledger).config() == old(ledger).config()
            &&& final(ledger).txs() == old(ledger).txs()
            &&& final(ledger).burner_index() == old(ledger).burner_index()
            &&& r->Ok_0.attributes@.len() == 2
        },
{
    if ledger.config.owner != info.sender {
        return Err(ContractError::Unauthorized);
    }
    if burner_token_addr.as_str().is_empty() {
        return Err(ContractError::BadRequest { msg: text("burner_token_addr is empty") });
    }
    ledger.tokens.remove(&burner_token_addr);
    let mut attributes: Vec<Attribute> = Vec::new();
    attributes.push(attr("action", text("remove_token")));
    attributes.push(attr("burner_token", burner_token_addr));
    Ok(Response { messages: Vec::new(), attributes })
}

/// Hands the ledger to a new owner. Only the owner may.
pub fn execute_update_owner(ledger: &mut Minter, info: MessageInfo, new_owner: String) -> (r: ContractResult)
    requires
        old(ledger).wf(),
    ensures
        final(ledger).wf(),
        r is Ok <==> is_owner(*old(ledger), info.sender@),
        r is Err ==> *final(ledger) == *old(ledger) && r->Err_0 is Unauthorized,
        r is Ok ==> {
            &&& final(ledger).config() == (Config { owner: new_owner, ..old(ledger).config() })
            &&& final(ledger).token_map() == old(ledger).token_map()
            &&& final(ledger).txs() == old(ledger).txs()
            &&& final(ledger).burner_index() == old(ledger).burner_index()
            &&& r->Ok_0.attributes@.len() == 2
        },
{
    if ledger.config.owner != info.sender {
        return Err(ContractError::Unauthorized);
    }
    let mut attributes: Vec<Attribute> = Vec::new();
    attributes.push(attr("action", text("update_owner")));
    attributes.push(attr("owner", new_owner.clone()));
    ledger.config.owner = new_owner;
    Ok(Response { messages: Vec::new(), attributes })
}

/// The local id of the migration executed for the source side's
/// `burner_id`.
pub fn query_migration_result(ledger: &Minter, burner_id: u64) -> (r: Result<QueryResponse, ContractError>)
    requires
        ledger.wf(),
    ensures
        r is Ok <==> ledger.burner_index().contains_key(burner_id),
        r is Err ==> not_found(r->Err_0, "u64"@),
        r is Ok ==> r->Ok_0.migration_result == Some(
            MigrationResultResponse { burner_id, minter_id: ledger.burner_index()[burner_id] },
        ),
{
    match ledger.burner_minter_idx.get(burner_id) {
        None => Err(ContractError::NotFound { kind: text("u64") }),
        Some(minter_id) => Ok(
            QueryResponse { migration_result: Some(MigrationResultResponse { burner_id, minter_id }) },
        ),
    }
}

/// The supported assets whose address comes after the exclusive cursor
/// `start_after` (all of them when there is none or it is empty), in
/// ascending order.
pub fn query_supported_tokens(ledger: &Minter, start_after: Option<String>) -> (r: Vec<SupportedToken>)
    requires
        ledger.wf(),
    ensures
        ({
            let k0 = match start_after {
                Some(a) => if a@.len() == 0 {
                    0
                } else {
                    count_not_after(ledger.token_keys(), a@) as int
                },
                None => 0,
            };
            &&& r@.len() == ledger.token_keys().len() - k0
            &&& forall|j: int|
                0 <= j < r@.len() ==> {
                    let key = ledger.token_keys()[k0 + j];
                    &&& (#[trigger] r@[j]).burner_token_addr@ == key
                    &&& r@[j].minter_token_addr@ == ledger.token_map()[key].addr@
                    &&& r@[j].token_type == ledger.token_map()[key].token_type
                }
        }),
{
    let k0 = match &start_after {
        Some(a) => if a.as_str().is_empty() {
            ledger.tokens.first_after(None)
        } else {
            ledger.tokens.first_after(Some(a.as_str()))
        },
        None => ledger.tokens.first_after(None),
    };
    let mut out: Vec<SupportedToken> = Vec::new();
    let mut k: usize = k0;
    while k < ledger.tokens.len()
        invariant
            ledger.wf(),
            k0 <= k <= ledger.token_keys().len(),
            k0 == match start_after {
                Some(a) => if a@.len() == 0 {
                    0
                } else {
                    count_not_after(ledger.token_keys(), a@) as int
                },
                None => 0,
            },
            out@.len() == k - k0,
            forall|j: int|
                0 <= j < out@.len() ==> {
                    let key = ledger.token_keys()[k0 + j];
                    &&& (#[trigger] out@[j]).burner_token_addr@ == key
                    &&& out@[j].minter_token_addr@ == ledger.token_map()[key].addr@
                    &&& out@[j].token_type == ledger.token_map()[key].token_type
                },
        decreases ledger.token_keys().len() - k,
    {
        let info = ledger.tokens.value_at(k);
        out.push(
            SupportedToken {
                burner_token_addr: ledger.tokens.key_at(k).clone(),
                minter_token_addr: info.addr.clone(),
                token_type: info.token_type,
            },
        );
        k = k + 1;
    }
    out
}

} // verus!
