use autoblur::amount::Amount;
use autoblur::api::{
    address_selector, answer_json, common_answer, intercept_script, next_sale, bids_request, cancel_request, cancel_response, check_cancel, check_common,
    check_format, check_submit, collection_info_request, collections_items, collections_request,
    element_search_step, fix_hex, format_request, format_would_panic,
    is_sale_notification, marketplace_data, next_cursor, nonce_would_panic, notifications_list,
    notifications_request, remaining_wait_ms, remove_leading_zeros, submit_request,
    wallet_bids_request, with_default_timeout, ElementSearch, TypedField,
};
use autoblur::errors::{ApiError, BlurError, BlurInitError};
use autoblur::http::{Headers, Request, RequestBuilder, RequestMethod, Response};
use autoblur::json::{as_array, as_bool, as_str, get_field, Json};
use serde_json::Value;
use autoblur::time::Timestamp;
use autoblur::types::{Bid, CollectionInfo, Price};

fn resp(status: u32, body: Option<&str>) -> Response {
    Response { status, body: body.map(|b| b.to_string()), headers: Headers::new() }
}

fn json_of(v: &Value) -> Json {
    match v {
        Value::Null => Json::Null,
        Value::Bool(b) => Json::Bool(*b),
        Value::Number(n) => Json::Number(n.to_string()),
        Value::String(s) => Json::Str(s.clone()),
        Value::Array(a) => Json::Array(a.iter().map(json_of).collect()),
        Value::Object(o) => Json::Object(o.iter().map(|(k, x)| (k.clone(), json_of(x))).collect()),
    }
}

fn value_of(j: &Json) -> Value {
    match j {
        Json::Null => Value::Null,
        Json::Bool(b) => Value::Bool(*b),
        Json::Number(t) => serde_json::from_str(t).unwrap(),
        Json::Str(s) => Value::String(s.clone()),
        Json::Array(a) => Value::Array(a.iter().map(value_of).collect()),
        Json::Object(o) => Value::Object(o.iter().map(|(k, x)| (k.clone(), value_of(x))).collect()),
    }
}

fn json(text: &str) -> Json {
    json_of(&serde_json::from_str::<Value>(text).unwrap())
}

fn to_json_text(j: &Json) -> String {
    value_of(j).to_string()
}

fn field_str(j: &Json, key: &str) -> String {
    as_str(get_field(j, key).unwrap()).unwrap().clone()
}

fn bid(m: i128, s: u32, size: u32, timeout: Option<Timestamp>) -> Bid {
    Bid { value: Amount::new(m, s).unwrap(), size, timeout }
}

#[test]
fn headers_insert_and_get() {
    let mut h = Headers::new();
    assert!(h.get("A").is_none());
    h.insert("A".to_string(), "1".to_string());
    h.insert("B".to_string(), "2".to_string());
    h.insert("A".to_string(), "3".to_string());
    assert_eq!(h.get("A").unwrap(), "3");
    assert_eq!(h.get("B").unwrap(), "2");
    assert_eq!(h.entries().len(), 2);
    let h2 = h.with_entry("C".to_string(), "4".to_string());
    assert_eq!(h2.get("C").unwrap(), "4");
}

#[test]
fn builder_sets_each_part() {
    let r: Request = RequestBuilder::new("https://x")
        .with_header("K", "V")
        .with_body("hello".to_string())
        .with_method(RequestMethod::Post)
        .build();
    assert_eq!(r.url(), "https://x");
    assert_eq!(r.method(), RequestMethod::Post);
    assert_eq!(r.body().as_deref(), Some("hello"));
    assert_eq!(r.headers().get("K").unwrap(), "V");
    let g = Request::builder("u").with_method(RequestMethod::Get).build();
    assert_eq!(g.url(), "u");
    assert!(g.body().is_none());
    assert!(g.headers().entries().is_empty());
}

#[test]
fn plain_requests_have_their_urls() {
    let r = collection_info_request("azuki");
    assert_eq!(r.url(), "https://core-api.prod.blur.io/v1/collections/azuki");
    assert_eq!(r.method(), RequestMethod::Get);
    let r = bids_request("azuki");
    assert_eq!(r.url(), "https://core-api.prod.blur.io/v1/collections/azuki/executable-bids?filters=%7B%7D");
    let r = wallet_bids_request("0xabc", "0xme");
    assert_eq!(
        r.url(),
        "https://core-api.prod.blur.io/v1/collection-bids/user/0xme?filters=%7B%22contractAddress%22%3A%220xabc%22%7D"
    );
    let r = notifications_request();
    assert_eq!(r.url(), "https://core-api.prod.blur.io/v1/user/notifications/feed");
    assert!(r.body().is_none());
}

#[test]
fn cancel_request_names_the_price() {
    let r = cancel_request("0xabc", &bid(15, 1, 1, None));
    assert_eq!(r.url(), "https://core-api.prod.blur.io/v1/collection-bids/cancel");
    assert_eq!(r.method(), RequestMethod::Post);
    assert_eq!(r.headers().get("Content-Type").unwrap(), "application/json");
    let body = json(r.body().as_ref().unwrap());
    assert_eq!(field_str(&body, "contractAddress"), "0xabc");
    let prices = as_array(get_field(&body, "prices").unwrap()).unwrap();
    assert_eq!(prices.len(), 1);
    assert_eq!(as_str(&prices[0]).unwrap(), "1.5");
}

#[test]
fn common_answers_are_checked() {
    let ok = check_common(200, Some(json(r#"{"success":true,"collection":{"a":1}}"#)), "collection").unwrap();
    assert_eq!(to_json_text(&ok), r#"{"a":1}"#);
    assert_eq!(check_common(400, Some(json("{}")), "collection").unwrap_err(), BlurError::CollectionNotFound);
    assert_eq!(check_common(500, Some(json("{}")), "collection").unwrap_err(), BlurError::GeneralError);
    assert_eq!(check_common(200, Some(json(r#"{"success":true}"#)), "collection").unwrap_err(), BlurError::ParsingError);
    assert_eq!(check_common(200, Some(json("[1]")), "collection").unwrap_err(), BlurError::ParsingError);
    assert_eq!(check_common(200, None, "collection").unwrap_err(), BlurError::ParsingError);
    assert_eq!(common_answer(resp(200, None), "x").unwrap_err().error, BlurError::NoResponse);
    assert_eq!(common_answer(resp(200, Some("not json")), "x").unwrap_err().error, BlurError::ParsingError);
    let v = common_answer(resp(200, Some(r#"{"success":false,"x":"y"}"#)), "x").unwrap();
    assert_eq!(as_str(&v).unwrap(), "y");
}

#[test]
fn cancel_answers_are_checked() {
    assert_eq!(cancel_response(resp(201, Some(r#"{"success":true}"#))), Ok(()));
    assert_eq!(
        cancel_response(resp(201, Some(r#"{"success":false,"message":"No bids found"}"#))),
        Err(ApiError::Blur(BlurError::BidNotExists))
    );
    assert_eq!(
        cancel_response(resp(400, Some(r#"{"success":true,"message":"Nope"}"#))),
        Err(ApiError::Blur(BlurError::GeneralError))
    );
    assert_eq!(cancel_response(resp(201, Some("{}"))), Err(ApiError::Blur(BlurError::GeneralError)));
    assert_eq!(cancel_response(resp(201, Some("oops"))), Err(ApiError::InvalidJson));
    assert_eq!(cancel_response(resp(201, None)), Err(ApiError::Blur(BlurError::NoResponse)));
    assert_eq!(check_cancel(201, &json(r#"{"success":"yes"}"#)), Err(BlurError::ParsingError));
}

#[test]
fn listing_requests_and_answers() {
    let r = collections_request(&None);
    let prefix = "https://core-api.prod.blur.io/v1/collections/?filters=";
    assert!(r.url().starts_with(prefix));
    let filters = json(&r.url()[prefix.len()..]);
    assert_eq!(field_str(&filters, "sort"), "VOLUME_ONE_DAY");
    assert_eq!(field_str(&filters, "order"), "DESC");
    assert!(get_field(&filters, "cursor").is_none());
    let r = collections_request(&Some(("0xabc".to_string(), Amount::new(125, 2).unwrap())));
    let filters = json(&r.url()[prefix.len()..]);
    let cursor = get_field(&filters, "cursor").unwrap();
    assert_eq!(field_str(cursor, "contractAddress"), "0xabc");
    assert_eq!(field_str(cursor, "volumeOneDay"), "1.25");

    let items = collections_items(resp(200, Some(r#"{"success":true,"collections":[{"a":1},{"b":2}]}"#))).unwrap();
    assert_eq!(items.len(), 2);
    let f = collections_items(resp(200, Some(r#"{"success":true,"collections":5}"#))).unwrap_err();
    assert_eq!(f.error, BlurError::NoResponse);
    assert!(f.note.is_none());
    let f = collections_items(resp(200, Some(r#"{"success":true}"#))).unwrap_err();
    assert_eq!(f.error, BlurError::ParsingError);
    assert_eq!(f.note.as_deref(), Some("Can't get key collections"));
    assert_eq!(next_cursor(&Vec::new()).unwrap_err(), BlurError::GeneralError);
    let info = CollectionInfo {
        contract_address: "0xc".to_string(),
        name: "C".to_string(),
        collection_slug: "c".to_string(),
        image_url: None,
        floor_price: None,
        floor_price_day: None,
        floor_price_week: None,
        volume_fifteen_minutes: None,
        volume_day: Some(Price { amount: Amount::new(3, 0).unwrap(), unit: "ETH".to_string() }),
        volume_week: None,
    };
    let (addr, vol) = next_cursor(&vec![info]).unwrap();
    assert_eq!(addr, "0xc");
    assert_eq!((vol.mantissa(), vol.scale()), (3, 0));
}

#[test]
fn bid_placing_requests() {
    let b = bid(15, 1, 2, Some(Timestamp { secs: 0, nanos: 0 }));
    assert_eq!(with_default_timeout(b).unwrap().timeout, b.timeout);
    let before = std::time::SystemTime::now().duration_since(std::time::UNIX_EPOCH).unwrap().as_secs() as i64;
    let untimed = with_default_timeout(bid(15, 1, 2, None)).unwrap();
    let after = std::time::SystemTime::now().duration_since(std::time::UNIX_EPOCH).unwrap().as_secs() as i64;
    let t = untimed.timeout.unwrap();
    assert!(t.secs >= before + 3600 && t.secs <= after + 3600);
    assert!(t.nanos < 1_000_000_000);
    assert_eq!(untimed.size, 2);

    let r = format_request("0xabc", &b).unwrap();
    assert_eq!(r.url(), "https://core-api.prod.blur.io/v1/collection-bids/format");
    assert_eq!(r.method(), RequestMethod::Post);
    let body = json(r.body().as_ref().unwrap());
    assert_eq!(field_str(&body, "contractAddress"), "0xabc");
    assert_eq!(field_str(&body, "expirationTime"), "1970-01-01T00:00:00+00:00");
    let price = get_field(&body, "price").unwrap();
    assert_eq!(field_str(price, "amount"), "1.5");
    assert_eq!(field_str(price, "unit"), "BETH");
    assert_eq!(to_json_text(get_field(&body, "quantity").unwrap()), "2");

    let r = submit_request("abcd", "mk");
    assert_eq!(r.url(), "https://core-api.prod.blur.io/v1/collection-bids/submit");
    let body = json(r.body().as_ref().unwrap());
    assert_eq!(field_str(&body, "signature"), "0xabcd");
    assert_eq!(field_str(&body, "marketplaceData"), "mk");
    assert_eq!(check_submit(201), Ok(()));
    assert_eq!(check_submit(200), Err(BlurError::GeneralError));
}

#[test]
fn format_answers_are_checked() {
    let refused = json(r#"{"message":"Insufficient funds"}"#);
    assert!(!format_would_panic(400, &refused));
    assert_eq!(check_format(400, &refused).err(), Some(BlurError::NotEnoughBalance));
    assert_eq!(check_format(400, &json(r#"{"message":"x"}"#)).err(), Some(BlurError::GeneralError));
    assert_eq!(check_format(400, &json("{}")).err(), Some(BlurError::ParsingError));
    assert!(format_would_panic(400, &json(r#"{"message":3}"#)));
    assert!(format_would_panic(201, &json(r#"{"signatures":[]}"#)));
    assert_eq!(check_format(201, &json(r#"{"other":1}"#)).err(), Some(BlurError::ParsingError));

    let accepted = json(
        r#"{"signatures":[{"marketplaceData":"mk","signData":{"domain":{"name":"d"},"types":{"Order":[]},"value":{"nonce":1}}}]}"#,
    );
    let parts = check_format(201, &accepted).ok().unwrap();
    assert_eq!(to_json_text(parts.domain.as_ref().unwrap()), r#"{"name":"d"}"#);
    assert_eq!(to_json_text(parts.types.as_ref().unwrap()), r#"{"Order":[]}"#);
    assert_eq!(to_json_text(parts.value.as_ref().unwrap()), r#"{"nonce":1}"#);
    assert_eq!(marketplace_data(&accepted).unwrap(), "mk");
    assert_eq!(marketplace_data(&json("{}")).unwrap_err(), BlurError::ParsingError);
}

#[test]
fn notifications_are_read() {
    let list = notifications_list(json(
        r#"{"success":true,"notifications":[{"notificationType":"sale"},{"notificationType":"bid"}]}"#,
    ))
    .unwrap();
    assert_eq!(list.len(), 2);
    assert_eq!(is_sale_notification(&list[0]), Ok(true));
    assert_eq!(is_sale_notification(&list[1]), Ok(false));
    assert_eq!(is_sale_notification(&json("{}")), Err(BlurError::GeneralError));
    assert_eq!(notifications_list(json(r#"{"notifications":[]}"#)).unwrap_err(), BlurError::ParsingError);
    assert_eq!(notifications_list(json(r#"{"success":true}"#)).unwrap_err(), BlurError::ParsingError);
}

#[test]
fn hex_numbers_lose_leading_zeros() {
    assert_eq!(fix_hex("0x000a1"), "0xa1");
    assert_eq!(fix_hex("0x0000"), "0x0");
    assert_eq!(fix_hex("0x"), "0x0");
    assert_eq!(fix_hex("123"), "123");
    assert_eq!(fix_hex("0xff"), "0xff");
    assert_eq!(fix_hex(&fix_hex("0x00ff")), fix_hex("0x00ff"));
    assert_eq!(fix_hex("0x00zz"), "0xzz");
    assert_eq!(fix_hex(&fix_hex("0x00zz")), "0xzz");
    assert_eq!(fix_hex("0x100xx"), "0x10x");
    assert_eq!(fix_hex("0x10x"), "0x1");
}

#[test]
fn order_message_is_normalised() {
    let types = vec![(
        "Order".to_string(),
        vec![
            TypedField { name: "price".to_string(), kind: "uint256".to_string() },
            TypedField { name: "trader".to_string(), kind: "address".to_string() },
        ],
    )];
    let mut message = vec![
        ("nonce".to_string(), json(r#"{"hex":"0x00ff"}"#)),
        ("price".to_string(), Json::Str("0x0001".to_string())),
        ("trader".to_string(), Json::Str("0x00ab".to_string())),
    ];
    assert!(!nonce_would_panic(&message));
    remove_leading_zeros(&types, &mut message);
    assert_eq!(to_json_text(&message[0].1), r#""0xff""#);
    assert_eq!(to_json_text(&message[1].1), r#""0x1""#);
    assert_eq!(to_json_text(&message[2].1), r#""0x00ab""#);
    let bad = vec![("nonce".to_string(), json(r#"{"hex":5}"#))];
    assert!(nonce_would_panic(&bad));
}

#[test]
fn waiting_and_searching() {
    assert_eq!(remaining_wait_ms(3000, 8000), Some(5000));
    assert_eq!(remaining_wait_ms(8000, 8000), None);
    assert_eq!(remaining_wait_ms(9000, 8000), None);
    assert_eq!(element_search_step(3, true), ElementSearch::Found);
    assert_eq!(element_search_step(3, false), ElementSearch::Retry);
    assert_eq!(element_search_step(10, false), ElementSearch::GiveUp);
    assert_eq!(address_selector("0xAb"), "img[alt=\"0xAb\"]");
}

#[test]
fn error_messages() {
    assert_eq!(BlurError::GeneralError.to_string(), "General Failure");
    assert_eq!(BlurError::NotEnoughBalance.to_string(), "Not enough balance");
    assert_eq!(BlurError::NoResponse.to_string(), "No Response");
    assert_eq!(BlurError::ParsingError.to_string(), "Parsing error");
    assert_eq!(BlurError::CollectionNotFound.to_string(), "Can not find collection");
    assert_eq!(BlurError::BidNotExists.to_string(), "Bid does not exist");
    assert_eq!(BlurInitError::General.to_string(), "General Failure");
    assert_eq!(BlurInitError::BrowserFail.to_string(), "Browser Failure");
    assert_eq!(BlurInitError::AllEthNodesOffline.to_string(), "Can't connect to any of ethereum json rpc nodes");
    assert_eq!(BlurInitError::AuthNotVerified.to_string(), "Can't verify blur authenthication");
    assert_eq!(BlurInitError::InvalidKey.to_string(), "Can't parse key");
    assert_eq!(BlurInitError::InvalidSelector.to_string(), "Invalid page selector");
}

#[test]
fn json_helpers() {
    let j = json(r#"{"a":true,"b":[1,2],"c":"x"}"#);
    assert_eq!(as_bool(get_field(&j, "a").unwrap()), Some(true));
    assert_eq!(as_array(get_field(&j, "b").unwrap()).unwrap().len(), 2);
    assert_eq!(field_str(&j, "c"), "x");
    assert!(get_field(&j, "d").is_none());
    assert_eq!(answer_json(resp(200, Some("{"))).unwrap_err(), ApiError::InvalidJson);
    assert_eq!(answer_json(resp(200, None)).unwrap_err(), ApiError::Blur(BlurError::NoResponse));
    let j = answer_json(resp(200, Some(r#"{"n":12}"#))).unwrap();
    assert_eq!(to_json_text(get_field(&j, "n").unwrap()), "12");
}

#[test]
fn the_wallet_script_gets_the_key() {
    assert_eq!(intercept_script("const k = '{pk}'; use({pk});", "abc"), "const k = 'abc'; use(abc);");
    assert_eq!(intercept_script("no key", "abc"), "no key");
}

#[test]
fn normalising_twice_changes_nothing() {
    let types = vec![
        ("Order".to_string(), vec![TypedField { name: "price".to_string(), kind: "uint256".to_string() }]),
        ("Fee".to_string(), vec![TypedField { name: "price".to_string(), kind: "uint16".to_string() }]),
    ];
    let mut message = vec![
        ("price".to_string(), Json::Str("0x000f".to_string())),
        ("side".to_string(), Json::Str("0x0001".to_string())),
    ];
    assert!(!nonce_would_panic(&message));
    remove_leading_zeros(&types, &mut message);
    let once = to_json_text(&Json::Object(message.iter().map(|(k, v)| (k.clone(), json(&to_json_text(v)))).collect()));
    assert_eq!(once, r#"{"price":"0xf","side":"0x0001"}"#);
    remove_leading_zeros(&types, &mut message);
    let twice = to_json_text(&Json::Object(message.iter().map(|(k, v)| (k.clone(), json(&to_json_text(v)))).collect()));
    assert_eq!(once, twice);
}

#[test]
fn failures_carry_their_note() {
    let f = common_answer(resp(200, Some("not json")), "collection").unwrap_err();
    assert_eq!(f.error, BlurError::ParsingError);
    assert_eq!(f.note.as_deref(), Some("Response is not a json"));
    let f = common_answer(resp(200, Some(r#"{"success":true}"#)), "collection").unwrap_err();
    assert_eq!(f.error, BlurError::ParsingError);
    assert_eq!(f.note.as_deref(), Some("Can't get key collection"));
    let f = common_answer(resp(400, Some("{}")), "collection").unwrap_err();
    assert_eq!(f.error, BlurError::CollectionNotFound);
    assert!(f.note.is_none());
    let f = common_answer(resp(200, Some("[1]")), "collection").unwrap_err();
    assert_eq!(f.error, BlurError::ParsingError);
    assert!(f.note.is_none());
    let f = common_answer(resp(200, None), "collection").unwrap_err();
    assert_eq!(f.error, BlurError::NoResponse);
    let v = common_answer(resp(200, Some(r#"{"success":1,"collection":"c"}"#)), "collection").unwrap();
    assert_eq!(to_json_text(&v), r#""c""#);
}

#[test]
fn the_scan_finds_sales_in_order_and_stops_at_the_first_bad_one() {
    let list = vec![
        json(r#"{"notificationType":"bid"}"#),
        json(r#"{"notificationType":"sale","n":1}"#),
        json(r#"{"notificationType":"sale","n":2}"#),
        json(r#"{"notificationType":3}"#),
        json(r#"{"notificationType":"sale","n":3}"#),
    ];
    assert_eq!(next_sale(&list, 0), Ok(Some(1)));
    assert_eq!(next_sale(&list, 2), Ok(Some(2)));
    assert_eq!(next_sale(&list, 3), Err(BlurError::GeneralError));
    assert_eq!(next_sale(&list, 4), Ok(Some(4)));
    assert_eq!(next_sale(&list, 5), Ok(None));
    assert_eq!(next_sale(&list, 9), Ok(None));
    assert_eq!(next_sale(&vec![json(r#"{"notificationType":"bid"}"#)], 0), Ok(None));
}
