use stomata::portfolio::AccountType;
use stomata::rpc::{
    account_type_from_code, chain_info_from_hex, parse_hex_u128, parse_hex_u64, rpc_outcome,
    EVMProvider, HexError, RpcError,
};

#[test]
fn hex_quantities_parse() {
    assert_eq!(parse_hex_u128("0x1f"), Ok(31));
    assert_eq!(parse_hex_u128("0x0"), Ok(0));
    assert_eq!(parse_hex_u128("ff"), Ok(255));
    assert_eq!(parse_hex_u128("0xDEADbeef"), Ok(0xdead_beef));
    assert_eq!(parse_hex_u128("+10"), Ok(16));
    assert_eq!(parse_hex_u128("0x0x10"), Ok(16));
    assert_eq!(parse_hex_u128("0xde0b6b3a7640000"), Ok(1_000_000_000_000_000_000));
}

#[test]
fn hex_quantities_reject_bad_input() {
    assert_eq!(parse_hex_u128(""), Err(HexError));
    assert_eq!(parse_hex_u128("0x"), Err(HexError));
    assert_eq!(parse_hex_u128("0xzz"), Err(HexError));
    assert_eq!(parse_hex_u128("-1"), Err(HexError));
    assert_eq!(parse_hex_u128("0x 1"), Err(HexError));
}

#[test]
fn hex_quantities_respect_width() {
    assert_eq!(parse_hex_u128("0xffffffffffffffffffffffffffffffff"), Ok(u128::MAX));
    assert_eq!(parse_hex_u128("0x100000000000000000000000000000000"), Err(HexError));
    assert_eq!(parse_hex_u64("0xffffffffffffffff"), Ok(u64::MAX));
    assert_eq!(parse_hex_u64("0x10000000000000000"), Err(HexError));
}

#[test]
fn chain_id_from_hex() {
    assert_eq!(chain_info_from_hex("0x1").unwrap().chain_id, 1);
    assert_eq!(chain_info_from_hex("0x89").unwrap().chain_id, 137);
    assert!(chain_info_from_hex("mainnet").is_err());
}

#[test]
fn account_type_by_code() {
    assert_eq!(account_type_from_code(""), AccountType::EOA);
    assert_eq!(account_type_from_code("0x6080"), AccountType::CONTRACT);
}

#[test]
fn rpc_error_object_surfaces_as_error() {
    let r = rpc_outcome(
        Some(("-32000".to_string(), "header not found".to_string())),
        Some("0x1".to_string()),
    );
    assert_eq!(
        r,
        Err(RpcError::Rpc {
            code: "-32000".to_string(),
            message: "header not found".to_string()
        })
    );
    assert_eq!(rpc_outcome(None, None), Err(RpcError::MissingResult));
    assert_eq!(rpc_outcome(None, Some("0x2a".to_string())), Ok("0x2a".to_string()));
}

#[test]
fn provider_keeps_address_and_url() {
    let p = EVMProvider::new("0xabc".to_string(), "http://localhost:8545".to_string());
    assert_eq!(p.address, "0xabc");
    assert_eq!(p.rpc_url, "http://localhost:8545");
}
