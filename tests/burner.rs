use bridge::burner::contract::{
    execute_add_token, execute_record_migration_result, execute_remove_token, execute_request_migrations,
    execute_update_owner, execute_update_tx_limit, get_user_last_req_id, get_user_req_info, instantiate, query_supported_tokens,
    query_tx_response, query_unprocessed_migration_requests, query_user_migration, query_user_migrations,
    unprocessed_limit, Burner, RELAYER_TX_HANDLE_LIMIT_DEFAULT,
};
use bridge::burner::error::ContractError;
use bridge::burner::msg::{InstantiateMsg, SupportedToken};
use bridge::burner::types::{MigrationReq, Status, TokenMsg, TokenType, TxResultStatusCode};
use bridge::burner::user_txs::{UserReq, UserTxs};
use bridge::host::{Env, MessageInfo};

const USER: &str = "xpla1user0000000000000000000000000000000";
const CONTRACT: &str = "xpla1burner00000000000000000000000000000";
const BURN: &str = "xpla1burn000000000000000000000000000000";

fn info(sender: &str) -> MessageInfo {
    MessageInfo { sender: sender.to_string() }
}

fn env() -> Env {
    Env { block_height: 12_345, block_time_nanos: 1_571_797_419_879_305_533, contract_address: CONTRACT.to_string() }
}

fn token(burner: &str, minter: &str, token_type: TokenType) -> SupportedToken {
    SupportedToken { burner_token_addr: burner.to_string(), minter_token_addr: minter.to_string(), token_type }
}

/// Three fungible and two non-fungible assets, sorted by address.
fn tokens() -> Vec<SupportedToken> {
    vec![
        token("asset_a", "dest_a", TokenType::Cw20),
        token("asset_b", "dest_b", TokenType::Cw721),
        token("asset_c", "dest_c", TokenType::Cw20),
        token("asset_d", "dest_d", TokenType::Cw721),
        token("asset_e", "dest_e", TokenType::Cw20),
    ]
}

fn setup_with(tokens: Vec<SupportedToken>) -> Burner {
    let n = tokens.len();
    let msg = InstantiateMsg { owner: None, supported_tokens: tokens, tx_limit: Some(10), burn_contract: BURN.to_string() };
    let (b, res) = instantiate(info(USER), msg).unwrap();
    assert_eq!(res.attributes.len(), 2 + n * 2);
    b
}

fn setup_test() -> Burner {
    setup_with(tokens())
}

fn cw20_req(asset: &str, amount: &str, to: &str) -> MigrationReq {
    MigrationReq { asset: asset.to_string(), amount: Some(amount.to_string()), nft_id: None, to: to.to_string() }
}

fn nft_req(asset: &str, id: &str, to: &str) -> MigrationReq {
    MigrationReq { asset: asset.to_string(), amount: None, nft_id: Some(id.to_string()), to: to.to_string() }
}

/// A batch over every given asset, `round` making the token ids distinct.
fn gen_requests(tokens: &[SupportedToken], round: u32) -> Vec<MigrationReq> {
    tokens
        .iter()
        .map(|t| match t.token_type {
            TokenType::Cw20 => cw20_req(&t.burner_token_addr, &format!("{}", 1000 + round), USER),
            TokenType::Cw721 => nft_req(&t.burner_token_addr, &format!("nft{}", round), USER),
        })
        .collect()
}

#[test]
fn test_instantiate() {
    let b = setup_test();
    let expected = tokens();
    let listed = query_supported_tokens(&b, None);
    assert_eq!(listed.len(), expected.len());
    assert_eq!(listed[0].burner_token_addr, expected[0].burner_token_addr);
    assert_eq!(listed[0].minter_token_addr, expected[0].minter_token_addr);
    let listed = query_supported_tokens(&b, Some(listed.last().unwrap().burner_token_addr.to_string()));
    assert_eq!(listed.len(), 0);
}

#[test]
fn test_user_txs() {
    let user = USER.to_string();
    let target_id = 10u32;
    let mut store = UserTxs::new();
    for i in 0..=target_id {
        let fresh = UserReq { user: user.clone(), req_id: i, tx_ids: vec![1, 2, 3], block_num: 12_345, timestamp: 1_571_797_419_000 };
        assert!(store.insert_new(fresh));
    }
    let last_id = store.last_req_id(&user);
    let again = UserReq { user: user.clone(), req_id: target_id, tx_ids: vec![1, 2, 3], block_num: 12_345, timestamp: 1_571_797_419_000 };
    assert!(!store.insert_new(again));
    assert_eq!(last_id, target_id);
    store.remove(&user, last_id);
    let new_last = store.last_req_id(&user);
    assert_eq!(last_id - 1, new_last);
}

#[test]
fn test_requests_migrations() {
    let mut b = setup_test();
    let toks = tokens();
    let reqs = gen_requests(&toks, 0);
    let expected_len = reqs.len();
    let res = execute_request_migrations(&mut b, info(USER), env(), reqs);
    assert!(res.is_ok());

    let txs = query_unprocessed_migration_requests(&b, RELAYER_TX_HANDLE_LIMIT_DEFAULT, 0);
    assert_eq!(txs.items.len(), expected_len);

    for round in 1..=6 {
        execute_request_migrations(&mut b, info(USER), env(), gen_requests(&toks, round)).unwrap();
    }

    let user_migrations = query_user_migrations(&b, USER.to_string(), 0, false);
    assert_eq!(user_migrations.migrations.len(), 7);
    let user_migrations = query_user_migrations(&b, USER.to_string(), 6, false);
    assert_eq!(user_migrations.migrations.len(), 1);
    let user_migrations = query_user_migrations(&b, USER.to_string(), 5, true);
    assert_eq!(user_migrations.migrations.len(), 4);

    let migrations = query_user_migration(&b, USER.to_string(), 1).unwrap();
    assert_eq!(migrations.txs.len(), expected_len);
}

#[test]
fn test_record_migration() {
    let mut b = setup_test();
    let reqs = gen_requests(&tokens(), 0);
    let reqs_len = reqs.len();
    assert!(execute_request_migrations(&mut b, info(USER), env(), reqs).is_ok());

    let txs = query_unprocessed_migration_requests(&b, RELAYER_TX_HANDLE_LIMIT_DEFAULT, 0);
    let target = &txs.items[2];
    let success = TxResultStatusCode::Success.code();

    execute_record_migration_result(
        &mut b,
        info(USER),
        target.id,
        success,
        Some(1),
        Some("0xabc".to_string()),
        Some("Success".to_string()),
    )
    .unwrap();

    assert_eq!(
        execute_record_migration_result(
            &mut b,
            info(USER),
            target.id,
            success,
            Some(1),
            Some("0xdef".to_string()),
            Some("Success".to_string()),
        )
        .unwrap_err(),
        ContractError::CustomError { status: 409, message: "tx already processed".to_string() }
    );

    let migrations = query_user_migration(&b, USER.to_string(), 1).unwrap();
    assert_eq!(migrations.txs.len(), reqs_len);
    let mut target_it = migrations.txs.iter().filter(|it| it.id == target.id);
    assert_eq!(target_it.next().unwrap().status, Status::Swapped);
}

#[test]
fn test_execute_remove_token() {
    let mut b = setup_test();
    let mut toks = tokens();
    let target_token = toks.remove(1);
    let response = execute_remove_token(&mut b, info(USER), target_token.burner_token_addr.to_string());
    assert!(response.is_ok());
    assert_eq!(response.unwrap().attributes.len(), 2);

    let supported_tokens = query_supported_tokens(&b, None);
    let mut filtered = supported_tokens.iter().filter(|t| t.burner_token_addr == target_token.burner_token_addr);
    assert_eq!(toks.len(), supported_tokens.len());
    assert_eq!(filtered.next(), None);

    let reqs = gen_requests(&toks, 0);
    let req_len = reqs.len();
    execute_request_migrations(&mut b, info(USER), env(), reqs).unwrap();
    let migrations = query_user_migration(&b, USER.to_string(), 1).unwrap();
    assert_eq!(migrations.txs.len(), req_len);

    let response = execute_remove_token(&mut b, info(USER), toks.last().unwrap().burner_token_addr.to_string());
    assert_eq!(response.unwrap_err(), ContractError::BadRequest { message: "there are unprocessed txs".to_string() });
}

fn nft_setup() -> Burner {
    setup_with(vec![token("asset_a", "dest_a", TokenType::Cw721), token("asset_t", "dest_t", TokenType::Cw20)])
}

#[test]
fn nft_migration_success_is_forwarded_to_burn_contract() {
    let mut b = nft_setup();
    let res = execute_request_migrations(&mut b, info(USER), env(), vec![nft_req("asset_a", "42", "dst1")]).unwrap();
    assert_eq!(
        res.messages,
        vec![TokenMsg::Cw721TransferNft {
            contract: "asset_a".to_string(),
            recipient: CONTRACT.to_string(),
            token_id: "42".to_string()
        }]
    );
    let tx = query_tx_response(&b, 1).unwrap();
    assert_eq!(tx.id, 1);
    assert_eq!(tx.status, Status::Created);
    assert_eq!(tx.nft_info.as_ref().unwrap().id, "42");
    let again = execute_request_migrations(&mut b, info(USER), env(), vec![nft_req("asset_a", "42", "dst2")]);
    assert_eq!(again.unwrap_err(), ContractError::BadRequest { message: "nft_id 42 is already in use".to_string() });

    let res = execute_record_migration_result(&mut b, info(USER), 1, 0, Some(7), Some("hash".to_string()), None).unwrap();
    assert_eq!(
        res.messages,
        vec![TokenMsg::Cw721TransferNft {
            contract: "asset_a".to_string(),
            recipient: BURN.to_string(),
            token_id: "42".to_string()
        }]
    );
    let tx = query_tx_response(&b, 1).unwrap();
    assert_eq!(tx.status, Status::Swapped);
    assert_eq!(tx.minter_id, Some(7));
    assert_eq!(query_unprocessed_migration_requests(&b, 10, 0).items.len(), 0);
    // the pair is free again
    assert!(execute_request_migrations(&mut b, info(USER), env(), vec![nft_req("asset_a", "42", "dst1")]).is_ok());
}

#[test]
fn nft_migration_failure_is_returned_to_sender() {
    let mut b = nft_setup();
    execute_request_migrations(&mut b, info(USER), env(), vec![nft_req("asset_a", "42", "dst1")]).unwrap();
    let res = execute_record_migration_result(&mut b, info(USER), 1, 1, None, None, Some("failed".to_string())).unwrap();
    assert_eq!(
        res.messages,
        vec![TokenMsg::Cw721TransferNft {
            contract: "asset_a".to_string(),
            recipient: USER.to_string(),
            token_id: "42".to_string()
        }]
    );
    assert_eq!(query_tx_response(&b, 1).unwrap().status, Status::PaidBack);
}

#[test]
fn remove_token_refused_while_pending() {
    let mut b = nft_setup();
    execute_request_migrations(&mut b, info(USER), env(), vec![nft_req("asset_a", "42", "dst1")]).unwrap();
    assert_eq!(
        execute_remove_token(&mut b, info(USER), "asset_a".to_string()).unwrap_err(),
        ContractError::BadRequest { message: "there are unprocessed txs".to_string() }
    );
    // an asset without pending migrations can go
    assert!(execute_remove_token(&mut b, info(USER), "asset_t".to_string()).is_ok());
}

#[test]
fn cw20_settlement_burns_or_refunds() {
    let mut b = nft_setup();
    let res = execute_request_migrations(
        &mut b,
        info(USER),
        env(),
        vec![cw20_req("asset_t", "+0500", "dst1"), cw20_req("asset_t", "70", "dst1")],
    )
    .unwrap();
    assert_eq!(
        res.messages[0],
        TokenMsg::Cw20TransferFrom {
            contract: "asset_t".to_string(),
            owner: USER.to_string(),
            recipient: CONTRACT.to_string(),
            amount: 500
        }
    );
    assert_eq!(query_tx_response(&b, 1).unwrap().amount, Some("500".to_string()));
    let burn = execute_record_migration_result(&mut b, info(USER), 1, 0, None, None, None).unwrap();
    assert_eq!(burn.messages, vec![TokenMsg::Cw20Burn { contract: "asset_t".to_string(), amount: 500 }]);
    let refund = execute_record_migration_result(&mut b, info(USER), 2, -3, None, None, None).unwrap();
    assert_eq!(
        refund.messages,
        vec![TokenMsg::Cw20Transfer { contract: "asset_t".to_string(), recipient: USER.to_string(), amount: 70 }]
    );
    let summary = query_user_migrations(&b, USER.to_string(), 0, false);
    assert_eq!(summary.migrations[0].success, 1);
    assert_eq!(summary.migrations[0].fail, 1);
    assert_eq!(summary.migrations[0].in_progress, 0);
}

#[test]
fn ids_ascend_across_calls() {
    let mut b = setup_test();
    execute_request_migrations(&mut b, info(USER), env(), gen_requests(&tokens(), 0)).unwrap();
    execute_request_migrations(&mut b, info("xpla1other"), env(), gen_requests(&tokens(), 1)).unwrap();
    let items = query_unprocessed_migration_requests(&b, 20, 0).items;
    let ids: Vec<u64> = items.iter().map(|t| t.id).collect();
    assert_eq!(ids, (1..=10).collect::<Vec<u64>>());
    assert_eq!(b.get_config().tx_idx, 10);
    assert_eq!(get_user_last_req_id(&b, &USER.to_string()), 1);
    assert_eq!(get_user_last_req_id(&b, &"xpla1other".to_string()), 1);
    // the cursor pages through the queue
    let page = query_unprocessed_migration_requests(&b, 3, 4).items;
    assert_eq!(page.iter().map(|t| t.id).collect::<Vec<u64>>(), vec![5, 6, 7]);
}

#[test]
fn refused_batch_leaves_ledger_unchanged() {
    let mut b = nft_setup();
    let bad = vec![cw20_req("asset_t", "5", "dst1"), cw20_req("asset_t", "0", "dst1")];
    assert_eq!(
        execute_request_migrations(&mut b, info(USER), env(), bad).unwrap_err(),
        ContractError::BadRequest { message: "amount is required for cw20 token".to_string() }
    );
    assert_eq!(b.get_config().tx_idx, 0);
    assert_eq!(query_unprocessed_migration_requests(&b, 10, 0).items.len(), 0);
    assert_eq!(get_user_last_req_id(&b, &USER.to_string()), 0);
}

#[test]
fn request_errors() {
    let mut b = nft_setup();
    let too_many: Vec<MigrationReq> = (0..21).map(|_| cw20_req("asset_t", "1", "d")).collect();
    assert_eq!(
        execute_request_migrations(&mut b, info(USER), env(), too_many).unwrap_err(),
        ContractError::BadRequest { message: "too many requests, tx limit is20".to_string() }
    );
    assert_eq!(
        execute_request_migrations(&mut b, info(USER), env(), vec![cw20_req("nope", "1", "d")]).unwrap_err(),
        ContractError::NotFound { kind: "burner::types::TokenInfo".to_string() }
    );
    assert_eq!(
        execute_request_migrations(&mut b, info(USER), env(), vec![cw20_req("asset_t", "1", "")]).unwrap_err(),
        ContractError::BadRequest { message: "to is required".to_string() }
    );
    assert_eq!(
        execute_request_migrations(&mut b, info(USER), env(), vec![cw20_req("asset_t", "12x", "d")]).unwrap_err(),
        ContractError::InvalidAmount { value: "12x".to_string() }
    );
    assert_eq!(
        execute_request_migrations(&mut b, info(USER), env(), vec![nft_req("asset_a", "", "d")]).unwrap_err(),
        ContractError::BadRequest { message: "nft_id is required for Cw721 token".to_string() }
    );
    assert_eq!(
        execute_request_migrations(&mut b, info(USER), env(), vec![nft_req("asset_a", "9", "d"), nft_req("asset_a", "9", "e")])
            .unwrap_err(),
        ContractError::BadRequest { message: "nft_id 9 is already in use".to_string() }
    );
}

#[test]
fn owner_only_operations() {
    let mut b = nft_setup();
    let stranger = info("xpla1stranger");
    assert_eq!(
        execute_add_token(&mut b, info("xpla1stranger"), "x".to_string(), "y".to_string(), TokenType::Cw20).unwrap_err(),
        ContractError::Unauthorized
    );
    assert_eq!(execute_update_tx_limit(&mut b, stranger, 5).unwrap_err(), ContractError::Unauthorized);
    assert_eq!(
        execute_record_migration_result(&mut b, info("xpla1stranger"), 1, 0, None, None, None).unwrap_err(),
        ContractError::Unauthorized
    );
    assert_eq!(
        execute_record_migration_result(&mut b, info(USER), 1, 0, None, None, None).unwrap_err(),
        ContractError::NotFound { kind: "burner::state::Tx".to_string() }
    );
    assert_eq!(
        execute_add_token(&mut b, info(USER), "asset_a".to_string(), "y".to_string(), TokenType::Cw20).unwrap_err(),
        ContractError::BadRequest { message: "already exist".to_string() }
    );
    assert_eq!(
        execute_add_token(&mut b, info(USER), "asset_z".to_string(), "".to_string(), TokenType::Cw20).unwrap_err(),
        ContractError::BadRequest { message: "minter_token_addr is empty".to_string() }
    );
    assert_eq!(execute_add_token(&mut b, info(USER), "asset_0".to_string(), "d0".to_string(), TokenType::Cw20).unwrap().attributes.len(), 4);
    assert_eq!(query_supported_tokens(&b, None)[0].burner_token_addr, "asset_0");
    assert_eq!(query_supported_tokens(&b, Some("asset_a".to_string())).len(), 1);
    let res = execute_update_tx_limit(&mut b, info(USER), 15).unwrap();
    assert_eq!(res.attributes[1].value, "15");
    assert_eq!(unprocessed_limit(&b, None), 15);
    assert_eq!(unprocessed_limit(&b, Some(0)), 15);
    assert_eq!(unprocessed_limit(&b, Some(3)), 3);
    assert_eq!(unprocessed_limit(&b, Some(50)), 20);
    assert_eq!(
        execute_update_tx_limit(&mut b, info(USER), 21).unwrap_err(),
        ContractError::BadRequest { message: "tx_limit must be 0 < tx_limit ≤ 20".to_string() }
    );
    execute_update_owner(&mut b, info(USER), "xpla1new".to_string()).unwrap();
    assert_eq!(b.get_config().owner, "xpla1new");
    assert_eq!(execute_update_owner(&mut b, info(USER), "x".to_string()).unwrap_err(), ContractError::Unauthorized);
}

#[test]
fn instantiate_errors() {
    let msg = InstantiateMsg {
        owner: Some("xpla1owner".to_string()),
        supported_tokens: vec![token("a", "", TokenType::Cw20)],
        tx_limit: None,
        burn_contract: BURN.to_string(),
    };
    assert_eq!(
        instantiate(info(USER), msg).err().unwrap(),
        ContractError::BadRequest { message: "minter_token is empty".to_string() }
    );
    let msg = InstantiateMsg { owner: None, supported_tokens: vec![], tx_limit: Some(21), burn_contract: BURN.to_string() };
    assert_eq!(
        instantiate(info(USER), msg).err().unwrap(),
        ContractError::BadRequest { message: "Max Tx Limit is 20".to_string() }
    );
    let msg = InstantiateMsg { owner: Some("xpla1owner".to_string()), supported_tokens: vec![], tx_limit: None, burn_contract: BURN.to_string() };
    let (b, _) = instantiate(info(USER), msg).unwrap();
    assert_eq!(b.get_config().owner, "xpla1owner");
    assert_eq!(b.get_config().tx_limit, 10);
    assert!(query_tx_response(&b, 1).is_err());
    assert_eq!(
        query_user_migration(&b, USER.to_string(), 1).unwrap_err(),
        ContractError::NotFound { kind: "burner::state::UserReqInfo".to_string() }
    );
}

#[test]
fn user_request_counters_follow_settlements() {
    let mut b = nft_setup();
    let reqs = vec![cw20_req("asset_t", "1", "d"), cw20_req("asset_t", "2", "d"), nft_req("asset_a", "5", "d")];
    execute_request_migrations(&mut b, info(USER), env(), reqs).unwrap();
    let user = USER.to_string();
    let before = get_user_req_info(&b, &user, 1).unwrap();
    assert_eq!(before.tx_ids, vec![1, 2, 3]);
    assert_eq!(before.block_num, 12_345);
    assert_eq!(before.timestamp, 1_571_797_419_879);
    assert_eq!((before.success, before.fail, before.in_progress), (0, 0, 3));
    execute_record_migration_result(&mut b, info(USER), 3, 0, Some(1), None, None).unwrap();
    execute_record_migration_result(&mut b, info(USER), 1, 2, None, None, None).unwrap();
    let after = get_user_req_info(&b, &user, 1).unwrap();
    assert_eq!((after.success, after.fail, after.in_progress), (1, 1, 1));
    assert!(get_user_req_info(&b, &user, 2).is_none());
}

#[test]
fn zero_amount_in_any_writing_is_refused() {
    let mut b = nft_setup();
    for zero in ["0", "00", "+0", "+000"] {
        assert_eq!(
            execute_request_migrations(&mut b, info(USER), env(), vec![cw20_req("asset_t", zero, "d")]).unwrap_err(),
            ContractError::BadRequest { message: "amount is required for cw20 token".to_string() }
        );
    }
    // a zero amount is refused before a missing recipient
    assert_eq!(
        execute_request_migrations(&mut b, info(USER), env(), vec![cw20_req("asset_t", "00", "")]).unwrap_err(),
        ContractError::BadRequest { message: "amount is required for cw20 token".to_string() }
    );
    assert_eq!(b.get_config().tx_idx, 0);
    assert!(execute_request_migrations(&mut b, info(USER), env(), vec![cw20_req("asset_t", "010", "d")]).is_ok());
    assert_eq!(query_tx_response(&b, 1).unwrap().amount, Some("10".to_string()));
}
