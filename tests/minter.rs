use bridge::host::MessageInfo;
use bridge::minter::contract::{
    execute_add_token, execute_migration, execute_remove_token, execute_update_minter, execute_update_owner,
    instantiate, query_migration_result, query_supported_tokens, Minter,
};
use bridge::minter::error::ContractError;
use bridge::minter::msg::{
    CustomCw721ExecuteMsg, InstantiateMsg, MigrationResultResponse, MinterMsg, NftExtension, NftExtensionDisplay,
    NftMigrationReq, QueryResponse, SupportedToken, TokenMigrationReq, TokenType,
};

const USER: &str = "xpla11x46rqay4d3cssq8gxxvqz8xt6nwlz4td20k38v";

fn info(sender: &str) -> MessageInfo {
    MessageInfo { sender: sender.to_string() }
}

fn token(burner: &str, minter: &str, token_type: TokenType) -> SupportedToken {
    SupportedToken { burner_token_addr: burner.to_string(), minter_token_addr: minter.to_string(), token_type }
}

fn tokens() -> Vec<SupportedToken> {
    vec![
        token("burner_a", "minter_a", TokenType::Cw20),
        token("burner_b", "axpla", TokenType::Native),
        token("burner_c", "minter_c", TokenType::Cw721),
        token("burner_d", "minter_d", TokenType::Cw20),
    ]
}

fn setup(tokens: Vec<SupportedToken>) -> Minter {
    let n = tokens.len();
    let msg = InstantiateMsg { owner: Some(USER.to_string()), supported_tokens: tokens };
    let (m, res) = instantiate(info("xpla1deployer"), msg).unwrap();
    assert_eq!(res.attributes.len(), 2 + 2 * n);
    m
}

fn nft(id: &str) -> NftMigrationReq {
    NftMigrationReq { id: id.to_string(), uri: Some("ipfs://meta".to_string()), extension: None }
}

#[test]
fn test_contracts() {
    let toks = tokens();
    let mut m = setup(tokens());
    let last_address = &toks.last().unwrap().burner_token_addr;
    assert_eq!(query_supported_tokens(&m, Some(last_address.to_string())).len(), 0);
    let idx = 1;
    assert_eq!(query_supported_tokens(&m, Some(toks[idx].burner_token_addr.to_string())).len(), toks.len() - 1 - idx);

    let amount = || Some(TokenMigrationReq { amount: 102030 });
    assert!(execute_migration(&mut m, info(USER), 32, toks[idx].burner_token_addr.clone(), amount(), None, USER.to_string())
        .is_ok());

    assert_eq!(
        execute_migration(&mut m, info(USER), 32, toks[idx].burner_token_addr.clone(), amount(), None, USER.to_string())
            .unwrap_err(),
        ContractError::BadRequest { msg: "burner_id already exists".to_string() }
    );

    execute_remove_token(&mut m, info(USER), toks[idx].burner_token_addr.to_string()).unwrap();
    assert_eq!(
        execute_migration(&mut m, info(USER), 10, toks[idx].burner_token_addr.clone(), amount(), None, USER.to_string())
            .unwrap_err(),
        ContractError::NotFound { kind: "minter::msg::TokenInfo".to_string() }
    );
}

#[test]
fn nft_migration_executes_once() {
    let mut m = setup(vec![token("asset_a", "nft_contract", TokenType::Cw721)]);
    let res = execute_migration(&mut m, info(USER), 1, "asset_a".to_string(), None, Some(nft("42")), "dst1".to_string())
        .unwrap();
    assert_eq!(
        res.messages,
        vec![MinterMsg::Cw721Mint {
            contract: "nft_contract".to_string(),
            token_id: "42".to_string(),
            owner: "dst1".to_string(),
            token_uri: Some("ipfs://meta".to_string()),
            extension: None,
        }]
    );
    assert_eq!(res.attributes[1].value, "1");
    assert_eq!(res.attributes[2].value, "1");
    let replay = execute_migration(&mut m, info(USER), 1, "asset_a".to_string(), None, Some(nft("42")), "dst1".to_string());
    assert_eq!(replay.unwrap_err(), ContractError::BadRequest { msg: "burner_id already exists".to_string() });
    assert_eq!(
        query_migration_result(&m, 1).unwrap(),
        QueryResponse { migration_result: Some(MigrationResultResponse { burner_id: 1, minter_id: 1 }) }
    );
    assert_eq!(m.get_config().tx_idx, 1);
    assert_eq!(query_migration_result(&m, 2).unwrap_err(), ContractError::NotFound { kind: "u64".to_string() });
}

#[test]
fn delivery_messages_by_kind() {
    let mut m = setup(tokens());
    let amount = || Some(TokenMigrationReq { amount: 7 });
    let bank = execute_migration(&mut m, info(USER), 5, "burner_b".to_string(), amount(), None, "dst".to_string()).unwrap();
    assert_eq!(
        bank.messages,
        vec![MinterMsg::BankSend { to_address: "dst".to_string(), denom: "axpla".to_string(), amount: 7 }]
    );
    let mint = execute_migration(&mut m, info(USER), 9, "burner_a".to_string(), amount(), None, "dst".to_string()).unwrap();
    assert_eq!(
        mint.messages,
        vec![MinterMsg::Cw20Mint { contract: "minter_a".to_string(), recipient: "dst".to_string(), amount: 7 }]
    );
    assert_eq!(mint.attributes[1].value, "2");
    assert_eq!(mint.attributes[2].value, "9");
    let extension = || NftExtension {
        image: Some("img".to_string()),
        image_data: None,
        external_url: None,
        description: Some("a token".to_string()),
        name: Some("T".to_string()),
        attributes: vec![NftExtensionDisplay { display_type: None, trait_type: Some("kind".to_string()), value: Some("rare".to_string()) }],
        background_color: None,
        animation_url: None,
        youtube_url: None,
    };
    let req = NftMigrationReq { id: "7".to_string(), uri: None, extension: Some(extension()) };
    let minted = execute_migration(&mut m, info(USER), 11, "burner_c".to_string(), None, Some(req), "dst".to_string()).unwrap();
    assert_eq!(
        minted.messages,
        vec![MinterMsg::Cw721Mint {
            contract: "minter_c".to_string(),
            token_id: "7".to_string(),
            owner: "dst".to_string(),
            token_uri: None,
            extension: Some(extension()),
        }]
    );
    assert_eq!(
        execute_migration(&mut m, info(USER), 12, "burner_c".to_string(), Some(TokenMigrationReq { amount: 1 }), None, "dst".to_string())
            .unwrap_err(),
        ContractError::BadRequest { msg: "nft_req is required".to_string() }
    );
    assert_eq!(
        execute_migration(&mut m, info(USER), 12, "burner_a".to_string(), None, None, "dst".to_string()).unwrap_err(),
        ContractError::BadRequest { msg: "token_req is required".to_string() }
    );
    assert_eq!(
        execute_migration(&mut m, info("xpla1stranger"), 12, "burner_a".to_string(), None, None, "dst".to_string()).unwrap_err(),
        ContractError::Unauthorized
    );
    // a refused request takes no id
    assert_eq!(m.get_config().tx_idx, 3);
    assert!(query_migration_result(&m, 12).is_err());
}

#[test]
fn minter_updates() {
    let mut m = setup(tokens());
    let res = execute_update_minter(&m, info(USER), "burner_a".to_string(), "xpla1next".to_string()).unwrap();
    assert_eq!(
        res.messages,
        vec![MinterMsg::Cw20UpdateMinter { contract: "minter_a".to_string(), new_minter: "xpla1next".to_string() }]
    );
    let res = execute_update_minter(&m, info(USER), "burner_c".to_string(), "xpla1next".to_string()).unwrap();
    assert_eq!(
        res.messages,
        vec![MinterMsg::Cw721UpdateMinter {
            contract: "minter_c".to_string(),
            msg: CustomCw721ExecuteMsg::UpdateMinter { new_minter: "xpla1next".to_string() }
        }]
    );
    assert_eq!(
        execute_update_minter(&m, info(USER), "burner_b".to_string(), "xpla1next".to_string()).unwrap_err(),
        ContractError::BadRequest { msg: "cannot update native token minter".to_string() }
    );
    assert_eq!(
        execute_update_minter(&m, info(USER), "burner_z".to_string(), "xpla1next".to_string()).unwrap_err(),
        ContractError::NotFound { kind: "minter::msg::TokenInfo".to_string() }
    );
    execute_update_owner(&mut m, info(USER), "xpla1new".to_string()).unwrap();
    assert_eq!(
        execute_update_minter(&m, info(USER), "burner_a".to_string(), "xpla1next".to_string()).unwrap_err(),
        ContractError::Unauthorized
    );
}

#[test]
fn minter_registry_rules() {
    let mut m = setup(tokens());
    assert_eq!(
        execute_add_token(&mut m, info(USER), "burner_x".to_string(), "not_axpla".to_string(), TokenType::Native).unwrap_err(),
        ContractError::BadRequest { msg: "minter_token_addr is not native token".to_string() }
    );
    assert_eq!(
        execute_add_token(&mut m, info(USER), "".to_string(), "m".to_string(), TokenType::Cw20).unwrap_err(),
        ContractError::BadRequest { msg: "burner_token_addr is empty".to_string() }
    );
    assert_eq!(
        execute_add_token(&mut m, info(USER), "burner_a".to_string(), "m".to_string(), TokenType::Cw20).unwrap_err(),
        ContractError::BadRequest { msg: "already exist".to_string() }
    );
    assert_eq!(execute_add_token(&mut m, info(USER), "burner_0".to_string(), "m0".to_string(), TokenType::Cw20).unwrap().attributes.len(), 4);
    assert_eq!(query_supported_tokens(&m, Some("".to_string())).len(), 5);
    assert_eq!(query_supported_tokens(&m, None)[0].burner_token_addr, "burner_0");
    assert_eq!(
        execute_remove_token(&mut m, info(USER), "".to_string()).unwrap_err(),
        ContractError::BadRequest { msg: "burner_token_addr is empty".to_string() }
    );
    let bad = InstantiateMsg { owner: None, supported_tokens: vec![token("a", "axpla", TokenType::Cw20)] };
    assert_eq!(
        instantiate(info(USER), bad).err().unwrap(),
        ContractError::BadRequest { msg: "token_type is not native token".to_string() }
    );
    let bad = InstantiateMsg { owner: None, supported_tokens: vec![token("", "m", TokenType::Cw20)] };
    assert_eq!(
        instantiate(info(USER), bad).err().unwrap(),
        ContractError::BadRequest { msg: "burner_token_addr is required".to_string() }
    );
}
