use autoblur::amount::Amount;
use autoblur::amount_order::{amount_eq, amount_lt, amount_min};
use autoblur::api::{cancel_request, parse_balance_wei, wei_to_eth};
use autoblur::client::bid_to_place;
use autoblur::time::{is_later, Timestamp};
use autoblur::types::Bid;

fn dec(m: i128, s: u32) -> Amount {
    Amount::new(m, s).unwrap()
}

fn printed(a: Amount) -> String {
    let r = cancel_request("0x1", &Bid { value: a, size: 1, timeout: None });
    let body: serde_json::Value = serde_json::from_str(r.body().as_ref().unwrap()).unwrap();
    body["prices"][0].as_str().unwrap().to_string()
}

fn now_secs() -> i64 {
    std::time::SystemTime::now().duration_since(std::time::UNIX_EPOCH).unwrap().as_secs() as i64
}

#[test]
fn amount_new_checks_bounds() {
    assert!(Amount::new(1, 28).is_some());
    assert!(Amount::new(1, 29).is_none());
    assert!(Amount::new(79228162514264337593543950335, 0).is_some());
    assert!(Amount::new(79228162514264337593543950336, 0).is_none());
    assert!(Amount::new(-79228162514264337593543950336, 0).is_none());
    let a = dec(-15, 1);
    assert_eq!(a.mantissa(), -15);
    assert_eq!(a.scale(), 1);
    let b = Amount::from_u64(42);
    assert_eq!((b.mantissa(), b.scale()), (42, 0));
}

#[test]
fn amount_display_matches_decimal() {
    assert_eq!(printed(dec(15, 1)), "1.5");
    assert_eq!(printed(dec(100, 2)), "1.00");
    assert_eq!(printed(dec(-5, 3)), "-0.005");
    assert_eq!(printed(dec(7, 0)), "7");
    assert_eq!(printed(dec(0, 2)), "0.00");
    let negative_zero = Amount::with_sign(0, 1, true).unwrap();
    assert!(negative_zero.is_sign_negative());
    assert_eq!(printed(negative_zero), "-0.0");
    assert!(amount_eq(&negative_zero, &dec(0, 0)));
    assert!(Amount::with_sign(5, 0, true).is_none());
    assert!(Amount::with_sign(-5, 0, false).is_none());
    assert!(!dec(0, 1).is_sign_negative());
    assert!(dec(-1, 1).is_sign_negative());
}

#[test]
fn amount_order_by_value() {
    assert!(amount_eq(&dec(15, 1), &dec(150, 2)));
    assert!(amount_lt(&dec(1, 0), &dec(15, 1)));
    assert!(!amount_lt(&dec(2, 0), &dec(15, 1)));
    assert!(!amount_eq(&dec(2, 0), &dec(15, 1)));
    assert!(amount_eq(&dec(1, 0), &dec(1000, 3)));
    assert!(amount_lt(&dec(-1, 0), &dec(0, 0)));
    let m = amount_min(dec(3, 0), dec(25, 1));
    assert_eq!((m.mantissa(), m.scale()), (25, 1));
    let m = amount_min(dec(2, 0), dec(20, 1));
    assert_eq!((m.mantissa(), m.scale()), (2, 0));
}

#[test]
fn balance_text_reads_as_wei_then_eth() {
    let wei = parse_balance_wei("0x0de0b6b3a7640000").unwrap();
    assert!(amount_eq(&wei, &Amount::from_u64(1_000_000_000_000_000_000)));
    let eth = wei_to_eth(&wei).unwrap();
    assert!(amount_eq(&eth, &Amount::from_u64(1)));
    let half = parse_balance_wei("0x6f05b59d3b20000").unwrap();
    let eth = wei_to_eth(&half).unwrap();
    assert!(amount_eq(&eth, &dec(5, 1)));
    let small = parse_balance_wei("0x0000ff").unwrap();
    assert!(amount_eq(&small, &Amount::from_u64(255)));
    // Every digit of a zero balance is trimmed away, and an empty text is no number.
    assert!(parse_balance_wei("0x0").is_none());
    assert!(parse_balance_wei("0xzz").is_none());
}

#[test]
fn timestamps_compare() {
    let a = Timestamp { secs: 10, nanos: 5 };
    let b = Timestamp { secs: 10, nanos: 4 };
    assert!(is_later(a, b));
    assert!(!is_later(b, a));
    assert!(!is_later(a, a));
    assert!(is_later(Timestamp { secs: 11, nanos: 0 }, a));
}

#[test]
fn placed_bids_last_thirty_minutes() {
    let before = now_secs();
    let b = bid_to_place(dec(15, 1)).unwrap();
    let after = now_secs();
    let t = b.timeout.unwrap();
    assert!(t.secs >= before + 1800 && t.secs <= after + 1800);
    assert_eq!(b.size, 1);
    assert!(amount_eq(&b.value, &dec(15, 1)));
}
