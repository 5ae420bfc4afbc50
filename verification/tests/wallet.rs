use autoblur::errors::BlurInitError;
use autoblur::json::Json;
use autoblur::wallet::{bids_wallet, init_wallet, sign_order, signed_in_selector};

const KEY: &str = "4c0883a69102937d6231471b5dbb6204fe5129617082792ae468d01a3f362318";

#[test]
fn keys_give_their_address() {
    let addr = init_wallet(&KEY.to_string()).unwrap();
    assert_eq!(addr[0], 0x2c);
    assert_eq!(addr[19], 0x23);
    let upper = init_wallet(&format!("0X{KEY}")).unwrap();
    assert_eq!(upper, addr);
    assert_eq!(init_wallet(&format!("0x{KEY}")).unwrap(), addr);
    assert_eq!(init_wallet(&KEY[..62].to_string()), Err(BlurInitError::InvalidKey));
    assert_eq!(init_wallet(&"nope".to_string()), Err(BlurInitError::InvalidKey));
}

#[test]
fn the_signed_in_avatar_shows_the_checksummed_address() {
    let addr = init_wallet(&KEY.to_string()).unwrap();
    assert_eq!(signed_in_selector(&addr), "img[alt=\"0x2c7536E3605D9C16a7a3D7b1898e529396a65c23\"]");
}

#[test]
fn the_default_wallet_is_our_address_as_displayed() {
    let addr = init_wallet(&KEY.to_string()).unwrap();
    assert_eq!(bids_wallet(None, &addr), "0x2c75\u{2026}5c23");
    assert_eq!(bids_wallet(Some("0xother".to_string()), &addr), "0xother");
}

fn obj(entries: Vec<(&str, Json)>) -> Json {
    Json::Object(entries.into_iter().map(|(k, v)| (k.to_string(), v)).collect())
}

fn order_parts(price: &str) -> (Json, Json, Vec<(String, Json)>) {
    let domain = obj(vec![
        ("name", Json::Str("Test".to_string())),
        ("version", Json::Str("1".to_string())),
        ("chainId", Json::Number("1".to_string())),
    ]);
    let field = obj(vec![("name", Json::Str("price".to_string())), ("type", Json::Str("uint256".to_string()))]);
    let types = obj(vec![("Order", Json::Array(vec![field]))]);
    let message = vec![("price".to_string(), Json::Str(price.to_string()))];
    (domain, types, message)
}

#[test]
fn orders_are_signed_deterministically() {
    let (domain, types, message) = order_parts("0x1");
    let sig = sign_order(&KEY.to_string(), &domain, &types, &message).unwrap();
    assert_eq!(sig.len(), 130);
    assert!(sig.chars().all(|c| c.is_ascii_hexdigit()));
    assert_eq!(sign_order(&KEY.to_string(), &domain, &types, &message).unwrap(), sig);
    let (domain2, types2, message2) = order_parts("0x2");
    assert_ne!(sign_order(&KEY.to_string(), &domain2, &types2, &message2).unwrap(), sig);
    assert!(sign_order(&"nope".to_string(), &domain, &types, &message).is_none());
    assert!(sign_order(&KEY.to_string(), &Json::Null, &types, &message).is_none());
}
