use bridge::amount::{amount_to_string, parse_amount};
use bridge::burner::types::{TokenMsg, TokenType};
use bridge::encode::{encode_cw20_minter_msg, encode_token_msg};
use bridge::minter::msg::MinterMsg;
use bridge::minter::msg::TokenType as MinterTokenType;

#[test]
fn test_display() {
    assert_eq!(TokenType::Cw20.to_string(), "cw20");
    assert_eq!(TokenType::Cw721.to_string(), "cw721");
}

#[test]
fn minter_token_type_names() {
    assert_eq!(MinterTokenType::Native.to_string(), "native");
    assert_eq!(MinterTokenType::Cw20.to_string(), "cw20");
    assert_eq!(MinterTokenType::Cw721.to_string(), "cw721");
}

#[test]
fn amounts_parse_as_decimal() {
    assert_eq!(parse_amount("1000"), Some(1000));
    assert_eq!(parse_amount("+0042"), Some(42));
    assert_eq!(parse_amount("340282366920938463463374607431768211455"), Some(u128::MAX));
    assert_eq!(parse_amount("340282366920938463463374607431768211456"), None);
    assert_eq!(parse_amount(""), None);
    assert_eq!(parse_amount("+"), None);
    assert_eq!(parse_amount("-1"), None);
    assert_eq!(parse_amount(" 1"), None);
}

#[test]
fn amounts_print_in_decimal() {
    assert_eq!(amount_to_string(0), "0");
    assert_eq!(amount_to_string(1_234_567), "1234567");
    assert_eq!(amount_to_string(u128::MAX), "340282366920938463463374607431768211455");
}

#[test]
fn token_messages_encode_as_cw20_and_cw721_json() {
    let burn = encode_token_msg(&TokenMsg::Cw20Burn { contract: "tok".to_string(), amount: 5 }).unwrap();
    assert_eq!(burn.contract_addr, "tok");
    assert_eq!(burn.msg, br#"{"burn":{"amount":"5"}}"#.to_vec());
    let nft = encode_token_msg(&TokenMsg::Cw721TransferNft {
        contract: "nft".to_string(),
        recipient: "bob".to_string(),
        token_id: "42".to_string(),
    })
    .unwrap();
    assert_eq!(nft.msg, br#"{"transfer_nft":{"recipient":"bob","token_id":"42"}}"#.to_vec());
    let refund = encode_token_msg(&TokenMsg::Cw20Transfer { contract: "tok".to_string(), recipient: "al".to_string(), amount: 9 })
        .unwrap();
    assert_eq!(refund.msg, br#"{"transfer":{"recipient":"al","amount":"9"}}"#.to_vec());
}

#[test]
fn minter_cw20_messages_encode() {
    let mint = encode_cw20_minter_msg(&MinterMsg::Cw20Mint { contract: "t".to_string(), recipient: "r".to_string(), amount: 3 })
        .unwrap()
        .unwrap();
    assert_eq!(mint.msg, br#"{"mint":{"recipient":"r","amount":"3"}}"#.to_vec());
    assert!(encode_cw20_minter_msg(&MinterMsg::BankSend { to_address: "r".to_string(), denom: "axpla".to_string(), amount: 1 })
        .is_none());
}
