//! The marketplace API: the requests the client sends and what it reads
//! from the answers. The sending itself happens in the signed-in browser
//! page; everything decided around it is here.

use vstd::prelude::*;
use vstd::string::*;
use crate::amount::{Amount, amount_text, amount_to_string};
use crate::errors::{ApiError, BlurError};
use crate::http::{Request, RequestBuilder, RequestMethod, Response};
use crate::json::{
    Json, JsonView, as_str, as_bool, as_array, field, get_field, is_object, is_object_exec, json_parse,
    json_text, lemma_view_entries, lemma_view_items, parse_json, str_of, bool_of, items_of, take_field,
    to_json_text, view_entries, view_items, json_clone,
};
use crate::types::Bid;

verus! {

/// The base address of the marketplace API.
pub const BLUR_API_BASE: &'static str = "https://core-api.prod.blur.io/v1";

/// A JSON string.
pub fn json_string(s: &str) -> (r: Json)
    ensures
        r@ == JsonView::Str(s@),
{
    Json::Str(String::from_str(s))
}

/// An object entry.
pub fn json_entry(key: &str, value: Json) -> (r: (String, Json))
    ensures
        r.0@ == key@,
        r.1 == value,
{
    (String::from_str(key), value)
}

/// A JSON object with two entries, in this order.
pub fn json_object2(a: (String, Json), b: (String, Json)) -> (r: Json)
    ensures
        r@ == JsonView::Object(seq![(a.0@, a.1@), (b.0@, b.1@)]),
{
    let mut es: Vec<(String, Json)> = Vec::new();
    es.push(a);
    es.push(b);
    proof {
        lemma_view_entries(es@);
        assert(view_entries(es@) =~= seq![(a.0@, a.1@), (b.0@, b.1@)]);
    }
    Json::Object(es)
}

/// A JSON object with three entries, in this order.
pub fn json_object3(a: (String, Json), b: (String, Json), c: (String, Json)) -> (r: Json)
    ensures
        r@ == JsonView::Object(seq![(a.0@, a.1@), (b.0@, b.1@), (c.0@, c.1@)]),
{
    let mut es: Vec<(String, Json)> = Vec::new();
    es.push(a);
    es.push(b);
    es.push(c);
    proof {
        lemma_view_entries(es@);
        assert(view_entries(es@) =~= seq![(a.0@, a.1@), (b.0@, b.1@), (c.0@, c.1@)]);
    }
    Json::Object(es)
}

/// A JSON object with four entries, in this order.
pub fn json_object4(a: (String, Json), b: (String, Json), c: (String, Json), d: (String, Json)) -> (r: Json)
    ensures
        r@ == JsonView::Object(seq![(a.0@, a.1@), (b.0@, b.1@), (c.0@, c.1@), (d.0@, d.1@)]),
{
    let mut es: Vec<(String, Json)> = Vec::new();
    es.push(a);
    es.push(b);
    es.push(c);
    es.push(d);
    proof {
        lemma_view_entries(es@);
        assert(view_entries(es@) =~= seq![(a.0@, a.1@), (b.0@, b.1@), (c.0@, c.1@), (d.0@, d.1@)]);
    }
    Json::Object(es)
}

/// A GET request to `url`.
fn get_request(url: &str) -> (r: Request)
    ensures
        r.url_text() == url@,
        r.method_value() == RequestMethod::Get,
        r.body_text() is None,
        r.header_map() == Map::<Seq<char>, Seq<char>>::empty(),
{
    Request::builder(url).with_method(RequestMethod::Get).build()
}

/// A POST request to `url` carrying the JSON text `body`.
fn post_json_request(url: &str, body: String) -> (r: Request)
    ensures
        r.url_text() == url@,
        r.method_value() == RequestMethod::Post,
        r.body_text() == Some(body@),
        r.header_map() == Map::<Seq<char>, Seq<char>>::empty().insert("Content-Type"@, "application/json"@),
{
    Request::builder(url)
        .with_method(RequestMethod::Post)
        .with_header("Content-Type", "application/json")
        .with_body(body)
        .build()
}

/// The request for what the marketplace knows of the collection `slug`.
pub fn collection_info_request(slug: &str) -> (r: Request)
    ensures
        r.url_text() == BLUR_API_BASE@ + "/collections/"@ + slug@,
        r.method_value() == RequestMethod::Get,
        r.body_text() is None,
        r.header_map() == Map::<Seq<char>, Seq<char>>::empty(),
{
    let url = String::from_str(BLUR_API_BASE).concat("/collections/").concat(slug);
    get_request(url.as_str())
}

/// The request for the executable bid levels of the collection `slug`.
pub fn bids_request(slug: &str) -> (r: Request)
    ensures
        r.url_text() == BLUR_API_BASE@ + "/collections/"@ + slug@ + "/executable-bids?filters=%7B%7D"@,
        r.method_value() == RequestMethod::Get,
        r.body_text() is None,
        r.header_map() == Map::<Seq<char>, Seq<char>>::empty(),
{
    let url = String::from_str(BLUR_API_BASE)
        .concat("/collections/")
        .concat(slug)
        .concat("/executable-bids?filters=%7B%7D");
    get_request(url.as_str())
}

/// The request for the bids that `wallet` holds on the collection at `contract_addr`.
pub fn wallet_bids_request(contract_addr: &str, wallet: &str) -> (r: Request)
    ensures
        r.url_text() == BLUR_API_BASE@ + "/collection-bids/user/"@ + wallet@
            + "?filters=%7B%22contractAddress%22%3A%22"@ + contract_addr@ + "%22%7D"@,
        r.method_value() == RequestMethod::Get,
        r.body_text() is None,
        r.header_map() == Map::<Seq<char>, Seq<char>>::empty(),
{
    let url = String::from_str(BLUR_API_BASE)
        .concat("/collection-bids/user/")
        .concat(wallet)
        .concat("?filters=%7B%22contractAddress%22%3A%22")
        .concat(contract_addr)
        .concat("%22%7D");
    get_request(url.as_str())
}

/// The request for the user's notification feed.
pub fn notifications_request() -> (r: Request)
    ensures
        r.url_text() == BLUR_API_BASE@ + "/user/notifications/feed"@,
        r.method_value() == RequestMethod::Get,
        r.body_text() is None,
        r.header_map() == Map::<Seq<char>, Seq<char>>::empty(),
{
    let url = String::from_str(BLUR_API_BASE).concat("/user/notifications/feed");
    get_request(url.as_str())
}

/// The body that cancels our bid at `value` on the collection at `contract_addr`.
pub open spec fn cancel_body(contract_addr: Seq<char>, value: Amount) -> JsonView {
    JsonView::Object(seq![
        ("contractAddress"@, JsonView::Str(contract_addr)),
        ("prices"@, JsonView::Array(seq![JsonView::Str(amount_text(value))])),
    ])
}

/// The request that cancels our bid `bid` on the collection at `contract_addr`.
pub fn cancel_request(contract_addr: &str, bid: &Bid) -> (r: Request)
    ensures
        r.url_text() == BLUR_API_BASE@ + "/collection-bids/cancel"@,
        r.method_value() == RequestMethod::Post,
        r.body_text() == Some(json_text(cancel_body(contract_addr@, bid.value))),
        r.header_map() == Map::<Seq<char>, Seq<char>>::empty().insert("Content-Type"@, "application/json"@),
{
    proof {
        use_type_invariant(&bid.value);
    }
    let price = Json::Str(amount_to_string(&bid.value));
    let mut prices: Vec<Json> = Vec::new();
    prices.push(price);
    proof {
        lemma_view_items(prices@);
        assert(view_items(prices@) =~= seq![JsonView::Str(amount_text(bid.value))]);
    }
    let body = json_object2(json_entry("contractAddress", json_string(contract_addr)), json_entry("prices", Json::Array(prices)));
    let url = String::from_str(BLUR_API_BASE).concat("/collection-bids/cancel");
    post_json_request(url.as_str(), to_json_text(&body))
}

} // verus!

verus! {

/// The view of an optional JSON value.
pub open spec fn opt_view(o: Option<Json>) -> Option<JsonView> {
    match o {
        Some(j) => Some(j@),
        None => None,
    }
}

/// What a plain API call makes of the parsed answer (`None`: the body is no
/// JSON): the value under `key`, provided the answer is an object that
/// reports `success`; an answer without `success` is a missing collection
/// for status 400, a general failure otherwise.
pub open spec fn common_outcome(status: u32, parsed: Option<JsonView>, key: Seq<char>) -> Result<JsonView, BlurError> {
    match parsed {
        None => Err(BlurError::ParsingError),
        Some(j) => if !is_object(j) {
            Err(BlurError::ParsingError)
        } else if field(j, "success"@) is None {
            Err(if status == 400 { BlurError::CollectionNotFound } else { BlurError::GeneralError })
        } else {
            match field(j, key) {
                Some(v) => Ok(v),
                None => Err(BlurError::ParsingError),
            }
        },
    }
}

/// Reads the value under `key` from the parsed answer of a plain API call.
pub fn check_common(status: u32, parsed: Option<Json>, key: &str) -> (r: Result<Json, BlurError>)
    ensures
        match r {
            Ok(v) => common_outcome(status, opt_view(parsed), key@) == Ok::<JsonView, BlurError>(v@),
            Err(e) => common_outcome(status, opt_view(parsed), key@) == Err::<JsonView, BlurError>(e),
        },
{
    let j = match parsed {
        Some(j) => j,
        None => return Err(BlurError::ParsingError),
    };
    if !is_object_exec(&j) {
        return Err(BlurError::ParsingError);
    }
    if get_field(&j, "success").is_none() {
        return Err(if status == 400 { BlurError::CollectionNotFound } else { BlurError::GeneralError });
    }
    match take_field(j, key) {
        Some(v) => Ok(v),
        None => Err(BlurError::ParsingError),
    }
}

/// The JSON of an answer: no body is no response, and a body that is no
/// JSON is an error of its own.
pub fn answer_json(resp: Response) -> (r: Result<Json, ApiError>)
    ensures
        resp.body is None ==> r == Err::<Json, ApiError>(ApiError::Blur(BlurError::NoResponse)),
        resp.body matches Some(b) ==> (json_parse(b@) is None <==> r == Err::<Json, ApiError>(ApiError::InvalidJson)),
        resp.body matches Some(b) ==> (json_parse(b@) matches Some(j) ==> (r matches Ok(x) && x@ == j)),
{
    match resp.body {
        None => Err(ApiError::Blur(BlurError::NoResponse)),
        Some(b) => match parse_json(b.as_str()) {
            None => Err(ApiError::InvalidJson),
            Some(j) => Ok(j),
        },
    }
}

/// The note an answer's failure carries: "Response is not a json" for a
/// body that is no JSON, "Can't get key <key>" for an answer that reports
/// `success` but lacks `key`; none otherwise.
pub open spec fn common_note(parsed: Option<JsonView>, key: Seq<char>) -> Option<Seq<char>> {
    match parsed {
        None => Some("Response is not a json"@),
        Some(j) => if is_object(j) && field(j, "success"@) is Some && field(j, key) is None {
            Some("Can't get key "@ + key)
        } else {
            None
        },
    }
}

/// The text of an optional note.
pub open spec fn note_view(n: Option<String>) -> Option<Seq<char>> {
    match n {
        Some(s) => Some(s@),
        None => None,
    }
}

/// Why a plain API call failed, with the note that goes with it.
#[derive(Debug)]
pub struct CommonFailure {
    pub error: BlurError,
    pub note: Option<String>,
}

/// Reads the value under `key` from the answer of a plain API call: no body
/// is no response; otherwise the body is parsed and checked as
/// `common_outcome` says, and a failure gets its note.
pub fn common_answer(resp: Response, key: &str) -> (r: Result<Json, CommonFailure>)
    ensures
        resp.body is None ==> (r matches Err(f) && f.error == BlurError::NoResponse && f.note is None),
        resp.body matches Some(b) ==> match r {
            Ok(v) => common_outcome(resp.status, json_parse(b@), key@) == Ok::<JsonView, BlurError>(v@),
            Err(f) => common_outcome(resp.status, json_parse(b@), key@) == Err::<JsonView, BlurError>(f.error)
                && note_view(f.note) == common_note(json_parse(b@), key@),
        },
{
    let status = resp.status;
    match resp.body {
        None => Err(CommonFailure { error: BlurError::NoResponse, note: None }),
        Some(b) => match parse_json(b.as_str()) {
            None => {
                proof {
                    reveal_strlit("Response is not a json");
                }
                Err(CommonFailure { error: BlurError::ParsingError, note: Some(String::from_str("Response is not a json")) })
            },
            Some(j) => {
                let missing = is_object_exec(&j) && get_field(&j, "success").is_some() && get_field(&j, key).is_none();
                match check_common(status, Some(j), key) {
                    Ok(v) => Ok(v),
                    Err(e) => {
                        let note = if missing {
                            Some(String::from_str("Can't get key ").concat(key))
                        } else {
                            None
                        };
                        Err(CommonFailure { error: e, note })
                    },
                }
            },
        },
    }
}

/// What the answer to a cancellation means: success when the status is 201
/// and `success` is true (a `success` that is no boolean is unreadable);
/// otherwise a "No bids found" message means the bid does not exist, and
/// anything else is a general failure.
pub open spec fn cancel_outcome(status: u32, j: JsonView) -> Result<(), BlurError> {
    if status == 201 && field(j, "success"@) is Some && bool_of(field(j, "success"@).unwrap()) is None {
        Err(BlurError::ParsingError)
    } else if status == 201 && field(j, "success"@) is Some && bool_of(field(j, "success"@).unwrap()) == Some(true) {
        Ok(())
    } else {
        match field(j, "message"@) {
            Some(JsonView::Str(m)) => Err(if m == "No bids found"@ { BlurError::BidNotExists } else { BlurError::GeneralError }),
            _ => Err(BlurError::GeneralError),
        }
    }
}

/// Reads the parsed answer to a cancellation.
pub fn check_cancel(status: u32, j: &Json) -> (r: Result<(), BlurError>)
    ensures
        r == cancel_outcome(status, j@),
{
    if status == 201 {
        match get_field(j, "success") {
            Some(s) => match as_bool(s) {
                None => return Err(BlurError::ParsingError),
                Some(true) => return Ok(()),
                Some(false) => {},
            },
            None => {},
        }
    }
    match get_field(j, "message") {
        Some(m) => match as_str(m) {
            Some(text) => {
                if crate::json::str_eq(text.as_str(), "No bids found") {
                    Err(BlurError::BidNotExists)
                } else {
                    Err(BlurError::GeneralError)
                }
            },
            None => Err(BlurError::GeneralError),
        },
        None => Err(BlurError::GeneralError),
    }
}

/// Reads the answer to a cancellation: no body is no response, a body that
/// is no JSON is an error of its own, the rest as `cancel_outcome` says.
pub fn cancel_response(resp: Response) -> (r: Result<(), ApiError>)
    ensures
        resp.body is None ==> r == Err::<(), ApiError>(ApiError::Blur(BlurError::NoResponse)),
        resp.body matches Some(b) ==> json_parse(b@) is None ==> r == Err::<(), ApiError>(ApiError::InvalidJson),
        resp.body matches Some(b) ==> json_parse(b@) matches Some(j) ==> r == match cancel_outcome(resp.status, j) {
            Ok(()) => Ok::<(), ApiError>(()),
            Err(e) => Err(ApiError::Blur(e)),
        },
{
    let status = resp.status;
    match resp.body {
        None => Err(ApiError::Blur(BlurError::NoResponse)),
        Some(b) => match parse_json(b.as_str()) {
            None => Err(ApiError::InvalidJson),
            Some(j) => match check_cancel(status, &j) {
                Ok(()) => Ok(()),
                Err(e) => Err(ApiError::Blur(e)),
            },
        },
    }
}

} // verus!

verus! {

/// The filters of the collection listing: by one-day volume, descending,
/// from `cursor` (a contract address and its one-day volume) when given.
pub open spec fn collections_filters(cursor: Option<(Seq<char>, Amount)>) -> JsonView {
    match cursor {
        Some(c) => JsonView::Object(seq![
            ("cursor"@, JsonView::Object(seq![
                ("contractAddress"@, JsonView::Str(c.0)),
                ("volumeOneDay"@, JsonView::Str(amount_text(c.1))),
            ])),
            ("sort"@, JsonView::Str("VOLUME_ONE_DAY"@)),
            ("order"@, JsonView::Str("DESC"@)),
        ]),
        None => JsonView::Object(seq![
            ("sort"@, JsonView::Str("VOLUME_ONE_DAY"@)),
            ("order"@, JsonView::Str("DESC"@)),
        ]),
    }
}

/// The cursor's view.
pub open spec fn cursor_view(cursor: Option<(String, Amount)>) -> Option<(Seq<char>, Amount)> {
    match cursor {
        Some(c) => Some((c.0@, c.1)),
        None => None,
    }
}

/// The request for a page of the collection listing.
pub fn collections_request(cursor: &Option<(String, Amount)>) -> (r: Request)
    ensures
        r.url_text() == "https://core-api.prod.blur.io/v1/collections/?filters="@
            + json_text(collections_filters(cursor_view(*cursor))),
        r.method_value() == RequestMethod::Get,
        r.body_text() is None,
        r.header_map() == Map::<Seq<char>, Seq<char>>::empty(),
{
    let filters = match cursor {
        Some(c) => {
            proof {
                use_type_invariant(&c.1);
            }
            let inner = json_object2(
                json_entry("contractAddress", Json::Str(c.0.clone())),
                json_entry("volumeOneDay", Json::Str(amount_to_string(&c.1))),
            );
            json_object3(
                json_entry("cursor", inner),
                json_entry("sort", json_string("VOLUME_ONE_DAY")),
                json_entry("order", json_string("DESC")),
            )
        },
        None => json_object2(
            json_entry("sort", json_string("VOLUME_ONE_DAY")),
            json_entry("order", json_string("DESC")),
        ),
    };
    let url = String::from_str("https://core-api.prod.blur.io/v1/collections/?filters=").concat(to_json_text(&filters).as_str());
    get_request(url.as_str())
}

/// The items of the collection listing's answer (its `collections` array);
/// an answer that holds no array there is no response.
pub fn collections_items(resp: Response) -> (r: Result<Vec<Json>, CommonFailure>)
    ensures
        resp.body is None ==> (r matches Err(f) && f.error == BlurError::NoResponse && f.note is None),
        resp.body matches Some(b) ==> match common_outcome(resp.status, json_parse(b@), "collections"@) {
            Err(e) => (r matches Err(f) && f.error == e && note_view(f.note) == common_note(json_parse(b@), "collections"@)),
            Ok(v) => match items_of(v) {
                None => (r matches Err(f) && f.error == BlurError::NoResponse && f.note is None),
                Some(items) => (r matches Ok(a) && view_items(a@) == items),
            },
        },
{
    let v = match common_answer(resp, "collections") {
        Ok(v) => v,
        Err(f) => return Err(f),
    };
    match v {
        Json::Array(items) => Ok(items),
        _ => Err(CommonFailure { error: BlurError::NoResponse, note: None }),
    }
}

/// The cursor after a page of the listing: the last collection's contract
/// address and one-day volume; an empty page is a general failure. (The
/// last collection must report its one-day volume.)
pub fn next_cursor(page: &Vec<crate::types::CollectionInfo>) -> (r: Result<(String, Amount), BlurError>)
    requires
        page@.len() > 0 ==> page@.last().volume_day is Some,
    ensures
        page@.len() == 0 ==> r == Err::<(String, Amount), BlurError>(BlurError::GeneralError),
        page@.len() > 0 ==> (r matches Ok(c) && c.0@ == page@.last().contract_address@
            && c.1 == page@.last().volume_day.unwrap().amount),
{
    if page.len() == 0 {
        return Err(BlurError::GeneralError);
    }
    let last = &page[page.len() - 1];
    let amount = match &last.volume_day {
        Some(p) => p.amount,
        None => return Err(BlurError::GeneralError),
    };
    Ok((last.contract_address.clone(), amount))
}

} // verus!

verus! {

/// How long a bid placed without a timeout stays valid, in minutes.
pub const DEFAULT_BID_LIFETIME_MINUTES: i64 = 60;

/// The bid to place: as given when it has a timeout, otherwise valid for
/// an hour from now (`None` where that instant is out of chrono's range).
pub fn with_default_timeout(bid: Bid) -> (r: Option<Bid>)
    ensures
        bid.timeout is Some ==> r == Some(bid),
        bid.timeout is None ==> exists|now: crate::time::Timestamp| {
            &&& now.secs >= 0
            &&& now.nanos < 1_000_000_000
            &&& match #[trigger] crate::time::instant_plus_minutes(now, DEFAULT_BID_LIFETIME_MINUTES) {
                None => r is None,
                Some(t) => r == Some(Bid { timeout: Some(t), ..bid }),
            }
            &&& (now.secs + 60 * DEFAULT_BID_LIFETIME_MINUTES <= crate::time::EXACT_SECS_LIMIT ==> r == Some(Bid {
                timeout: Some(crate::time::Timestamp {
                    secs: (now.secs + 60 * DEFAULT_BID_LIFETIME_MINUTES) as i64,
                    nanos: now.nanos,
                }),
                ..bid
            }))
        },
{
    match bid.timeout {
        Some(_) => Some(bid),
        None => {
            let now = crate::time::utc_now();
            match crate::time::add_minutes(now, DEFAULT_BID_LIFETIME_MINUTES) {
                Some(t) => Some(Bid { timeout: Some(t), ..bid }),
                None => None,
            }
        },
    }
}

/// The body asking the marketplace for the order to sign for a bid.
pub open spec fn format_body(contract_addr: Seq<char>, expiration: Seq<char>, bid: Bid) -> JsonView {
    JsonView::Object(seq![
        ("contractAddress"@, JsonView::Str(contract_addr)),
        ("expirationTime"@, JsonView::Str(expiration)),
        ("price"@, JsonView::Object(seq![
            ("amount"@, JsonView::Str(amount_text(bid.value))),
            ("unit"@, JsonView::Str("BETH"@)),
        ])),
        ("quantity"@, JsonView::Number(crate::text::decimal_text(bid.size as nat))),
    ])
}

/// The request for the order to sign for `bid` (which must carry its
/// timeout) on the collection at `contract_addr`; `None` where the timeout
/// is no valid instant.
pub fn format_request(contract_addr: &str, bid: &Bid) -> (r: Option<Request>)
    requires
        bid.timeout is Some,
    ensures
        r is None <==> crate::time::rfc3339_text(bid.timeout.unwrap()) is None,
        r matches Some(req) ==> {
            &&& req.url_text() == BLUR_API_BASE@ + "/collection-bids/format"@
            &&& req.method_value() == RequestMethod::Post
            &&& req.body_text() == Some(json_text(format_body(contract_addr@,
                    crate::time::rfc3339_text(bid.timeout.unwrap()).unwrap(), *bid)))
            &&& req.header_map() == Map::<Seq<char>, Seq<char>>::empty().insert("Content-Type"@, "application/json"@)
        },
{
    proof {
        use_type_invariant(&bid.value);
    }
    let expiration = match bid.timeout {
        Some(t) => match crate::time::to_rfc3339(t) {
            Some(s) => s,
            None => return None,
        },
        None => return None,
    };
    let price = json_object2(
        json_entry("amount", Json::Str(amount_to_string(&bid.value))),
        json_entry("unit", json_string("BETH")),
    );
    let quantity = Json::Number(crate::text::string_of(&crate::text::u64_text(bid.size as u64)));
    let body = json_object4(
        json_entry("contractAddress", json_string(contract_addr)),
        json_entry("expirationTime", Json::Str(expiration)),
        json_entry("price", price),
        json_entry("quantity", quantity),
    );
    let url = String::from_str(BLUR_API_BASE).concat("/collection-bids/format");
    Some(post_json_request(url.as_str(), to_json_text(&body)))
}

/// The first entry of the answer's `signatures`: `Err` where the answer is
/// no object, lacks `signatures`, or `signatures` is no array.
pub open spec fn first_signature(j: JsonView) -> Result<JsonView, BlurError> {
    if !is_object(j) {
        Err(BlurError::ParsingError)
    } else {
        match field(j, "signatures"@) {
            Some(JsonView::Array(a)) => if a.len() > 0 {
                Ok(a[0])
            } else {
                Err(BlurError::GeneralError)
            },
            _ => Err(BlurError::ParsingError),
        }
    }
}

/// The answer's `signatures` is an empty array: reading its first entry
/// panics.
pub open spec fn signatures_empty(j: JsonView) -> bool {
    is_object(j) && (field(j, "signatures"@) matches Some(JsonView::Array(a)) && a.len() == 0)
}

/// The order to sign: the `signData` object of the first signature.
pub open spec fn sign_data(j: JsonView) -> Result<JsonView, BlurError> {
    match first_signature(j) {
        Err(e) => Err(e),
        Ok(s) => if !is_object(s) {
            Err(BlurError::ParsingError)
        } else {
            match field(s, "signData"@) {
                Some(d) => if is_object(d) {
                    Ok(d)
                } else {
                    Err(BlurError::ParsingError)
                },
                None => Err(BlurError::ParsingError),
            }
        },
    }
}

/// The marketplace data of the first signature, which goes back with the signature.
pub open spec fn marketplace_data_of(j: JsonView) -> Result<Seq<char>, BlurError> {
    match first_signature(j) {
        Err(e) => Err(e),
        Ok(s) => if !is_object(s) {
            Err(BlurError::ParsingError)
        } else {
            match field(s, "marketplaceData"@) {
                Some(JsonView::Str(m)) => Ok(m),
                _ => Err(BlurError::ParsingError),
            }
        },
    }
}

fn first_signature_exec(j: &Json) -> (r: Result<&Json, BlurError>)
    requires
        !signatures_empty(j@),
    ensures
        match r {
            Ok(s) => first_signature(j@) == Ok::<JsonView, BlurError>(s@),
            Err(e) => first_signature(j@) == Err::<JsonView, BlurError>(e),
        },
{
    if !is_object_exec(j) {
        return Err(BlurError::ParsingError);
    }
    match get_field(j, "signatures") {
        Some(s) => match s {
            Json::Array(a) => {
                proof {
                    lemma_view_items(a@);
                }
                if a.len() > 0 {
                    Ok(&a[0])
                } else {
                    Err(BlurError::GeneralError)
                }
            },
            _ => Err(BlurError::ParsingError),
        },
        None => Err(BlurError::ParsingError),
    }
}

/// The marketplace data of the first signature.
pub fn marketplace_data(j: &Json) -> (r: Result<String, BlurError>)
    requires
        !signatures_empty(j@),
    ensures
        match r {
            Ok(m) => marketplace_data_of(j@) == Ok::<Seq<char>, BlurError>(m@),
            Err(e) => marketplace_data_of(j@) == Err::<Seq<char>, BlurError>(e),
        },
{
    let s = match first_signature_exec(j) {
        Ok(s) => s,
        Err(e) => return Err(e),
    };
    if !is_object_exec(s) {
        return Err(BlurError::ParsingError);
    }
    match get_field(s, "marketplaceData") {
        Some(m) => match m {
            Json::Str(t) => Ok(t.clone()),
            _ => Err(BlurError::ParsingError),
        },
        None => Err(BlurError::ParsingError),
    }
}

/// The three parts of the order to sign, as the marketplace gives them;
/// `None` for a part it left out.
pub struct SignParts {
    pub domain: Option<Json>,
    pub types: Option<Json>,
    pub value: Option<Json>,
}

/// Reading the answer to a format request panics: a refusal whose
/// `message` is no string, or an acceptance with an empty `signatures`.
pub open spec fn format_panics(status: u32, j: JsonView) -> bool {
    ||| (status != 201 && is_object(j) && field(j, "message"@) is Some && str_of(field(j, "message"@).unwrap()) is None)
    ||| (status == 201 && signatures_empty(j))
}

/// Whether reading the answer to a format request would panic.
pub fn format_would_panic(status: u32, j: &Json) -> (r: bool)
    ensures
        r == format_panics(status, j@),
{
    if status != 201 {
        if !is_object_exec(j) {
            return false;
        }
        match get_field(j, "message") {
            Some(m) => as_str(m).is_none(),
            None => false,
        }
    } else {
        if !is_object_exec(j) {
            return false;
        }
        match get_field(j, "signatures") {
            Some(s) => match s {
                Json::Array(a) => {
                    proof {
                        lemma_view_items(a@);
                    }
                    a.len() == 0
                },
                _ => false,
            },
            None => false,
        }
    }
}

/// What the answer to a format request means: a refusal (status other than
/// 201) is "not enough balance" for the message "Insufficient funds" and a
/// general failure otherwise; an acceptance gives the order to sign.
pub open spec fn format_outcome(status: u32, j: JsonView) -> Result<JsonView, BlurError> {
    if status != 201 {
        if !is_object(j) || field(j, "message"@) is None {
            Err(BlurError::ParsingError)
        } else if str_of(field(j, "message"@).unwrap()) == Some("Insufficient funds"@) {
            Err(BlurError::NotEnoughBalance)
        } else {
            Err(BlurError::GeneralError)
        }
    } else {
        sign_data(j)
    }
}

/// Reads the parsed answer to a format request: the parts of the order to sign.
pub fn check_format(status: u32, j: &Json) -> (r: Result<SignParts, BlurError>)
    requires
        !format_panics(status, j@),
    ensures
        match format_outcome(status, j@) {
            Err(e) => r == Err::<SignParts, BlurError>(e),
            Ok(d) => (r matches Ok(p) && opt_view(p.domain) == field(d, "domain"@)
                && opt_view(p.types) == field(d, "types"@) && opt_view(p.value) == field(d, "value"@)),
        },
{
    if status != 201 {
        if !is_object_exec(j) {
            return Err(BlurError::ParsingError);
        }
        return match get_field(j, "message") {
            Some(m) => match as_str(m) {
                Some(text) => if crate::json::str_eq(text.as_str(), "Insufficient funds") {
                    Err(BlurError::NotEnoughBalance)
                } else {
                    Err(BlurError::GeneralError)
                },
                None => Err(BlurError::GeneralError),
            },
            None => Err(BlurError::ParsingError),
        };
    }
    let s = match first_signature_exec(j) {
        Ok(s) => s,
        Err(e) => return Err(e),
    };
    if !is_object_exec(s) {
        return Err(BlurError::ParsingError);
    }
    let d = match get_field(s, "signData") {
        Some(d) => d,
        None => return Err(BlurError::ParsingError),
    };
    if !is_object_exec(d) {
        return Err(BlurError::ParsingError);
    }
    let domain = match get_field(d, "domain") {
        Some(x) => Some(json_clone(x)),
        None => None,
    };
    let types = match get_field(d, "types") {
        Some(x) => Some(json_clone(x)),
        None => None,
    };
    let value = match get_field(d, "value") {
        Some(x) => Some(json_clone(x)),
        None => None,
    };
    Ok(SignParts { domain, types, value })
}

/// The body that submits a signature (hex digits, without the `0x`
/// prefix) with the marketplace data of its order.
pub open spec fn submit_body(signature: Seq<char>, marketplace: Seq<char>) -> JsonView {
    JsonView::Object(seq![
        ("signature"@, JsonView::Str("0x"@ + signature)),
        ("marketplaceData"@, JsonView::Str(marketplace)),
    ])
}

/// The request that submits the signed order.
pub fn submit_request(signature: &str, marketplace: &str) -> (r: Request)
    ensures
        r.url_text() == BLUR_API_BASE@ + "/collection-bids/submit"@,
        r.method_value() == RequestMethod::Post,
        r.body_text() == Some(json_text(submit_body(signature@, marketplace@))),
        r.header_map() == Map::<Seq<char>, Seq<char>>::empty().insert("Content-Type"@, "application/json"@),
{
    let sig = String::from_str("0x").concat(signature);
    let body = json_object2(json_entry("signature", Json::Str(sig)), json_entry("marketplaceData", json_string(marketplace)));
    let url = String::from_str(BLUR_API_BASE).concat("/collection-bids/submit");
    post_json_request(url.as_str(), to_json_text(&body))
}

/// Whether the marketplace accepted the signed order (status 201); a
/// refusal is a general failure.
pub fn check_submit(status: u32) -> (r: Result<(), BlurError>)
    ensures
        r == (if status == 201 { Ok::<(), BlurError>(()) } else { Err(BlurError::GeneralError) }),
{
    if status == 201 {
        Ok(())
    } else {
        Err(BlurError::GeneralError)
    }
}

/// The notifications of the feed's parsed answer: the answer must be an
/// object whose `success` is a boolean and whose `notifications` is an array.
pub open spec fn notifications_outcome(j: JsonView) -> Result<Seq<JsonView>, BlurError> {
    if !is_object(j) {
        Err(BlurError::ParsingError)
    } else if field(j, "success"@) is None || bool_of(field(j, "success"@).unwrap()) is None {
        Err(BlurError::ParsingError)
    } else {
        match field(j, "notifications"@) {
            Some(JsonView::Array(a)) => Ok(a),
            _ => Err(BlurError::ParsingError),
        }
    }
}

/// Reads the notifications out of the feed's parsed answer.
pub fn notifications_list(j: Json) -> (r: Result<Vec<Json>, BlurError>)
    ensures
        match notifications_outcome(j@) {
            Err(e) => r == Err::<Vec<Json>, BlurError>(e),
            Ok(a) => (r matches Ok(v) && view_items(v@) == a),
        },
{
    if !is_object_exec(&j) {
        return Err(BlurError::ParsingError);
    }
    match get_field(&j, "success") {
        Some(s) => if as_bool(s).is_none() {
            return Err(BlurError::ParsingError);
        },
        None => return Err(BlurError::ParsingError),
    }
    match take_field(j, "notifications") {
        Some(Json::Array(a)) => Ok(a),
        _ => Err(BlurError::ParsingError),
    }
}

/// Whether a notification is a sale: it must be an object whose
/// `notificationType` is a string, else the feed is a general failure.
pub open spec fn notification_is_sale(n: JsonView) -> Result<bool, BlurError> {
    if !is_object(n) {
        Err(BlurError::GeneralError)
    } else {
        match field(n, "notificationType"@) {
            Some(JsonView::Str(t)) => Ok(t == "sale"@),
            _ => Err(BlurError::GeneralError),
        }
    }
}

/// Whether a notification is a sale.
pub fn is_sale_notification(n: &Json) -> (r: Result<bool, BlurError>)
    ensures
        r == notification_is_sale(n@),
{
    if !is_object_exec(n) {
        return Err(BlurError::GeneralError);
    }
    match get_field(n, "notificationType") {
        Some(t) => match as_str(t) {
            Some(text) => Ok(crate::json::str_eq(text.as_str(), "sale")),
            None => Err(BlurError::GeneralError),
        },
        None => Err(BlurError::GeneralError),
    }
}

/// Scanning the notifications from index `from`: the index of the first
/// sale, all before it being other notifications; the error of the first
/// malformed notification met before any sale; `None` when only other
/// notifications remain.
pub open spec fn next_sale_from(ns: Seq<JsonView>, from: int) -> Result<Option<int>, BlurError>
    decreases ns.len() - from,
{
    if from >= ns.len() || from < 0 {
        Ok(None)
    } else {
        match notification_is_sale(ns[from]) {
            Err(e) => Err(e),
            Ok(true) => Ok(Some(from)),
            Ok(false) => next_sale_from(ns, from + 1),
        }
    }
}

/// The next sale among the notifications, scanning from index `from`.
pub fn next_sale(ns: &Vec<Json>, from: usize) -> (r: Result<Option<usize>, BlurError>)
    ensures
        match r {
            Ok(Some(j)) => next_sale_from(view_items(ns@), from as int) == Ok::<Option<int>, BlurError>(Some(j as int)),
            Ok(None) => next_sale_from(view_items(ns@), from as int) == Ok::<Option<int>, BlurError>(None),
            Err(e) => next_sale_from(view_items(ns@), from as int) == Err::<Option<int>, BlurError>(e),
        },
{
    proof {
        lemma_view_items(ns@);
    }
    let ghost v = view_items(ns@);
    let n = ns.len();
    let mut i: usize = from;
    while i < n
        invariant
            n == ns@.len(),
            v == view_items(ns@),
            v.len() == n,
            forall|k: int| 0 <= k < n ==> #[trigger] v[k] == ns@[k]@,
            from <= i,
            next_sale_from(v, from as int) == next_sale_from(v, i as int),
        decreases n - i,
    {
        match is_sale_notification(&ns[i]) {
            Err(e) => return Err(e),
            Ok(true) => return Ok(Some(i)),
            Ok(false) => {},
        }
        i = i + 1;
    }
    Ok(None)
}

} // verus!

verus! {

/// How the marketplace's hexadecimal numbers are normalised before signing:
/// a text starting with "0x" loses every "0x" and its leading zeros, then
/// gets "0x" back ("0x0" when nothing is left); other texts stay.
pub open spec fn fixed_hex(s: Seq<char>) -> Seq<char> {
    if crate::text::starts_with(s, "0x"@) {
        let w = crate::text::trim_start(crate::text::replace_all(s, "0x"@, Seq::<char>::empty()), '0');
        "0x"@ + (if w.len() == 0 { seq!['0'] } else { w })
    } else {
        s
    }
}

/// Normalises a hexadecimal number text.
pub fn fix_hex(s: &str) -> (r: String)
    ensures
        r@ == fixed_hex(s@),
{
    let v = crate::text::chars_of(s);
    let prefix = crate::text::chars_of("0x");
    proof {
        reveal_strlit("0x");
    }
    if !crate::text::starts_with_exec(&v, &prefix) {
        return String::from_str(s);
    }
    let empty: Vec<char> = Vec::new();
    let stripped = crate::text::replace_all_exec(&v, &prefix, &empty);
    proof {
        assert(empty@ =~= Seq::<char>::empty());
    }
    let w = crate::text::trim_start_exec(&stripped, '0');
    let body = if w.len() == 0 {
        let mut z: Vec<char> = Vec::new();
        z.push('0');
        z
    } else {
        w
    };
    String::from_str("0x").concat(crate::text::string_of(&body).as_str())
}

proof fn lemma_leading_count_stop(s: Seq<char>, c: char)
    ensures
        crate::text::leading_count(s, c) <= s.len(),
        crate::text::leading_count(s, c) < s.len() ==> s[crate::text::leading_count(s, c) as int] != c,
    decreases s.len(),
{
    if s.len() > 0 && s[0] == c {
        lemma_leading_count_stop(s.skip(1), c);
        let k = crate::text::leading_count(s.skip(1), c);
        if k < s.len() - 1 {
            assert(s.skip(1)[k as int] == s[(k + 1) as int]);
        }
    }
}

proof fn lemma_replace_without_x(t: Seq<char>)
    requires
        forall|i: int| 0 <= i < t.len() ==> t[i] != 'x',
    ensures
        crate::text::replace_all(t, "0x"@, Seq::<char>::empty()) == t,
    decreases t.len(),
{
    reveal_strlit("0x");
    if t.len() >= 2 {
        assert(t.take(2)[1] == t[1]);
        assert(t.take(2) != "0x"@);
        lemma_replace_without_x(t.skip(1));
        assert(seq![t[0]] + t.skip(1) =~= t);
    }
}

proof fn lemma_replace_prefixed(h: Seq<char>)
    requires
        forall|i: int| 0 <= i < h.len() ==> h[i] != 'x',
    ensures
        crate::text::starts_with("0x"@ + h, "0x"@),
        crate::text::replace_all("0x"@ + h, "0x"@, Seq::<char>::empty()) == h,
{
    reveal_strlit("0x");
    let t = "0x"@ + h;
    assert(t.subrange(0, 2) =~= "0x"@);
    assert(t.take(2) =~= "0x"@);
    assert(t.skip(2) =~= h);
    lemma_replace_without_x(h);
    assert(Seq::<char>::empty() + h =~= h);
}

/// On "0x" followed by a text with no 'x' (hexadecimal digits, say), the
/// normalisation keeps the prefix and drops the leading zeros of the text
/// (all but one when it is all zeros); normalising the result again
/// changes nothing. (A text with an 'x' after the prefix, such as
/// "0x100xx", can change again.)
pub proof fn law_fixed_hex_canonical(h: Seq<char>)
    requires
        forall|i: int| 0 <= i < h.len() ==> #[trigger] h[i] != 'x',
    ensures
        fixed_hex("0x"@ + h) == "0x"@ + (if crate::text::trim_start(h, '0').len() == 0 {
            seq!['0']
        } else {
            crate::text::trim_start(h, '0')
        }),
        fixed_hex(fixed_hex("0x"@ + h)) == fixed_hex("0x"@ + h),
{
    lemma_replace_prefixed(h);
    let w = crate::text::trim_start(h, '0');
    let body = if w.len() == 0 { seq!['0'] } else { w };
    lemma_leading_count_stop(h, '0');
    assert forall|i: int| 0 <= i < body.len() implies body[i] != 'x' by {
        if w.len() > 0 {
            assert(w[i] == h[i + crate::text::leading_count(h, '0')]);
        }
    }
    lemma_replace_prefixed(body);
    if w.len() == 0 {
        assert(crate::text::leading_count(body, '0') == 1 + crate::text::leading_count(body.skip(1), '0'));
        assert(body.skip(1).len() == 0);
        assert(crate::text::trim_start(body, '0').len() == 0);
    } else {
        assert(w[0] == h[crate::text::leading_count(h, '0') as int]);
        assert(crate::text::leading_count(body, '0') == 0);
        assert(crate::text::trim_start(body, '0') =~= body);
    }
}

/// A field of a signed type: its name and its type's name.
#[derive(Debug, Clone)]
pub struct TypedField {
    pub name: String,
    pub kind: String,
}

/// The fields of the signed types, type by type.
pub open spec fn types_view(types: Seq<(String, Vec<TypedField>)>) -> Seq<Seq<(Seq<char>, Seq<char>)>> {
    types.map_values(|t: (String, Vec<TypedField>)| t.1@.map_values(|f: TypedField| (f.name@, f.kind@)))
}

/// The message has a `nonce` that is no object with a string `hex`:
/// normalising it panics.
pub open spec fn nonce_panics(m: Seq<(Seq<char>, JsonView)>) -> bool {
    exists|i: int| crate::json::first_key_index(m, "nonce"@, i) && !(field(m[i].1, "hex"@) matches Some(JsonView::Str(_)))
}

/// The message with its `nonce` (an object with a hexadecimal `hex`)
/// replaced by the normalised `hex` text.
pub open spec fn fix_nonce(m: Seq<(Seq<char>, JsonView)>) -> Seq<(Seq<char>, JsonView)> {
    if exists|i: int| crate::json::first_key_index(m, "nonce"@, i) {
        let i = choose|i: int| crate::json::first_key_index(m, "nonce"@, i);
        m.update(i, (m[i].0, JsonView::Str(fixed_hex(str_of(field(m[i].1, "hex"@).unwrap()).unwrap()))))
    } else {
        m
    }
}

/// The message with the field `f` (name, type) normalised, when its type is
/// an unsigned integer type and its value a string.
pub open spec fn fix_field(m: Seq<(Seq<char>, JsonView)>, f: (Seq<char>, Seq<char>)) -> Seq<(Seq<char>, JsonView)> {
    if exists|i: int| crate::json::first_key_index(m, f.0, i) {
        let i = choose|i: int| crate::json::first_key_index(m, f.0, i);
        if crate::text::starts_with(f.1, "uint"@) && m[i].1 is Str {
            m.update(i, (m[i].0, JsonView::Str(fixed_hex(m[i].1->Str_0))))
        } else {
            m
        }
    } else {
        m
    }
}

/// The fields `fs` normalised in turn.
pub open spec fn fix_fields(m: Seq<(Seq<char>, JsonView)>, fs: Seq<(Seq<char>, Seq<char>)>) -> Seq<(Seq<char>, JsonView)>
    decreases fs.len(),
{
    if fs.len() == 0 {
        m
    } else {
        fix_field(fix_fields(m, fs.drop_last()), fs.last())
    }
}

/// The fields of every type normalised in turn.
pub open spec fn fix_all(m: Seq<(Seq<char>, JsonView)>, ts: Seq<Seq<(Seq<char>, Seq<char>)>>) -> Seq<(Seq<char>, JsonView)>
    decreases ts.len(),
{
    if ts.len() == 0 {
        m
    } else {
        fix_fields(fix_all(m, ts.drop_last()), ts.last())
    }
}

proof fn lemma_set_entry(es: Seq<(String, Json)>, i: int, k: String, v: Json)
    requires
        0 <= i < es.len(),
    ensures
        view_entries(es.update(i, (k, v))) == view_entries(es).update(i, (k@, v@)),
{
    lemma_view_entries(es);
    lemma_view_entries(es.update(i, (k, v)));
    assert(view_entries(es.update(i, (k, v))) =~= view_entries(es).update(i, (k@, v@)));
}

/// The field list names `k` with an unsigned integer type.
pub open spec fn names_uint(fs: Seq<(Seq<char>, Seq<char>)>, k: Seq<char>) -> bool {
    exists|q: int| 0 <= q < fs.len() && (#[trigger] fs[q]).0 == k && crate::text::starts_with(fs[q].1, "uint"@)
}

/// The fields of all the types, type by type.
pub open spec fn all_fields(ts: Seq<Seq<(Seq<char>, Seq<char>)>>) -> Seq<(Seq<char>, Seq<char>)>
    decreases ts.len(),
{
    if ts.len() == 0 {
        Seq::empty()
    } else {
        all_fields(ts.drop_last()) + ts.last()
    }
}

/// Entry `i` is the first of `m` with its key.
pub open spec fn first_of_key(m: Seq<(Seq<char>, JsonView)>, i: int) -> bool {
    forall|j: int| 0 <= j < i ==> (#[trigger] m[j]).0 != m[i].0
}

proof fn lemma_fix_field_frame(m: Seq<(Seq<char>, JsonView)>, f: (Seq<char>, Seq<char>))
    ensures
        fix_field(m, f).len() == m.len(),
        forall|i: int| 0 <= i < m.len() ==> (#[trigger] fix_field(m, f)[i]).0 == m[i].0,
        forall|i: int| 0 <= i < m.len() && fix_field(m, f)[i].1 != m[i].1 ==> {
            &&& m[i].0 == f.0
            &&& crate::text::starts_with(f.1, "uint"@)
            &&& crate::json::first_key_index(m, f.0, i)
            &&& m[i].1 is Str
            &&& (#[trigger] fix_field(m, f)[i]).1 == JsonView::Str(fixed_hex(m[i].1->Str_0))
        },
{
    if exists|i: int| crate::json::first_key_index(m, f.0, i) {
        let i0 = choose|i: int| crate::json::first_key_index(m, f.0, i);
        assert(crate::json::first_key_index(m, f.0, i0));
    }
}

proof fn lemma_fix_fields_frame(m: Seq<(Seq<char>, JsonView)>, fs: Seq<(Seq<char>, Seq<char>)>)
    ensures
        fix_fields(m, fs).len() == m.len(),
        forall|i: int| 0 <= i < m.len() ==> (#[trigger] fix_fields(m, fs)[i]).0 == m[i].0,
        forall|i: int| 0 <= i < m.len() && !names_uint(fs, m[i].0) ==> (#[trigger] fix_fields(m, fs)[i]).1 == m[i].1,
    decreases fs.len(),
{
    if fs.len() > 0 {
        let t = fs.drop_last();
        lemma_fix_fields_frame(m, t);
        let cur = fix_fields(m, t);
        lemma_fix_field_frame(cur, fs.last());
        assert forall|i: int| 0 <= i < m.len() && !names_uint(fs, m[i].0) implies (#[trigger] fix_fields(m, fs)[i]).1 == m[i].1 by {
            if names_uint(t, m[i].0) {
                let q = choose|q: int| 0 <= q < t.len() && (#[trigger] t[q]).0 == m[i].0 && crate::text::starts_with(t[q].1, "uint"@);
                assert(fs[q] == t[q]);
            }
            if fix_fields(m, fs)[i].1 != cur[i].1 {
                assert(fs[fs.len() - 1] == fs.last());
            }
        }
    }
}

proof fn lemma_names_uint_concat(a: Seq<(Seq<char>, Seq<char>)>, b: Seq<(Seq<char>, Seq<char>)>, k: Seq<char>)
    ensures
        names_uint(a + b, k) == (names_uint(a, k) || names_uint(b, k)),
{
    if names_uint(a, k) {
        let q = choose|q: int| 0 <= q < a.len() && (#[trigger] a[q]).0 == k && crate::text::starts_with(a[q].1, "uint"@);
        assert((a + b)[q] == a[q]);
    }
    if names_uint(b, k) {
        let q = choose|q: int| 0 <= q < b.len() && (#[trigger] b[q]).0 == k && crate::text::starts_with(b[q].1, "uint"@);
        assert((a + b)[a.len() + q] == b[q]);
    }
    if names_uint(a + b, k) {
        let q = choose|q: int| 0 <= q < (a + b).len() && (#[trigger] (a + b)[q]).0 == k && crate::text::starts_with((a + b)[q].1, "uint"@);
        if q < a.len() {
            assert(a[q] == (a + b)[q]);
        } else {
            assert(b[q - a.len()] == (a + b)[q]);
        }
    }
}

proof fn lemma_fix_all_frame(m: Seq<(Seq<char>, JsonView)>, ts: Seq<Seq<(Seq<char>, Seq<char>)>>)
    ensures
        fix_all(m, ts).len() == m.len(),
        forall|i: int| 0 <= i < m.len() ==> (#[trigger] fix_all(m, ts)[i]).0 == m[i].0,
        forall|i: int| 0 <= i < m.len() && !names_uint(all_fields(ts), m[i].0) ==> (#[trigger] fix_all(m, ts)[i]).1 == m[i].1,
    decreases ts.len(),
{
    if ts.len() > 0 {
        let t = ts.drop_last();
        lemma_fix_all_frame(m, t);
        let cur = fix_all(m, t);
        lemma_fix_fields_frame(cur, ts.last());
        assert forall|i: int| 0 <= i < m.len() && !names_uint(all_fields(ts), m[i].0) implies (#[trigger] fix_all(m, ts)[i]).1 == m[i].1 by {
            lemma_names_uint_concat(all_fields(t), ts.last(), m[i].0);
        }
    }
}

/// Normalising an order message keeps its entries and their keys, and
/// leaves the value of every entry alone whose key is neither "nonce" nor
/// the name of a field typed as an unsigned integer.
pub proof fn law_normalise_keeps_keys(m: Seq<(Seq<char>, JsonView)>, ts: Seq<Seq<(Seq<char>, Seq<char>)>>)
    ensures
        fix_all(fix_nonce(m), ts).len() == m.len(),
        forall|i: int| 0 <= i < m.len() ==> (#[trigger] fix_all(fix_nonce(m), ts)[i]).0 == m[i].0,
        forall|i: int| 0 <= i < m.len() && m[i].0 != "nonce"@ && !names_uint(all_fields(ts), m[i].0)
            ==> (#[trigger] fix_all(fix_nonce(m), ts)[i]).1 == m[i].1,
{
    let n = fix_nonce(m);
    if exists|i: int| crate::json::first_key_index(m, "nonce"@, i) {
        let i0 = choose|i: int| crate::json::first_key_index(m, "nonce"@, i);
        assert(crate::json::first_key_index(m, "nonce"@, i0));
        assert(forall|i: int| 0 <= i < m.len() && i != i0 ==> #[trigger] n[i] == m[i]);
    } else {
        assert(n == m);
    }
    lemma_fix_all_frame(n, ts);
}

/// How many fields of `fs` name `k` with an unsigned integer type.
pub open spec fn uint_count(fs: Seq<(Seq<char>, Seq<char>)>, k: Seq<char>) -> nat
    decreases fs.len(),
{
    if fs.len() == 0 {
        0
    } else {
        uint_count(fs.drop_last(), k) + (if fs.last().0 == k && crate::text::starts_with(fs.last().1, "uint"@) {
            1nat
        } else {
            0nat
        })
    }
}

/// `x` normalised `n` times over.
pub open spec fn fixed_hex_times(x: Seq<char>, n: nat) -> Seq<char>
    decreases n,
{
    if n == 0 {
        x
    } else {
        fixed_hex(fixed_hex_times(x, (n - 1) as nat))
    }
}

/// Entry `i` of the message once the fields `fs` are normalised in turn: a
/// string that comes first under its key is normalised once for each field
/// of `fs` that types its key as an unsigned integer; anything else stays.
pub open spec fn normalised_at(m: Seq<(Seq<char>, JsonView)>, fs: Seq<(Seq<char>, Seq<char>)>, i: int) -> (Seq<char>, JsonView) {
    if first_of_key(m, i) && m[i].1 is Str {
        (m[i].0, JsonView::Str(fixed_hex_times(m[i].1->Str_0, uint_count(fs, m[i].0))))
    } else {
        m[i]
    }
}

/// The message once the fields `fs` are normalised, entry by entry.
pub open spec fn normalised(m: Seq<(Seq<char>, JsonView)>, fs: Seq<(Seq<char>, Seq<char>)>) -> Seq<(Seq<char>, JsonView)> {
    Seq::new(m.len(), |i: int| normalised_at(m, fs, i))
}

proof fn lemma_uint_count_concat(a: Seq<(Seq<char>, Seq<char>)>, b: Seq<(Seq<char>, Seq<char>)>, k: Seq<char>)
    ensures
        uint_count(a + b, k) == uint_count(a, k) + uint_count(b, k),
    decreases b.len(),
{
    if b.len() == 0 {
        assert(a + b =~= a);
    } else {
        assert((a + b).drop_last() =~= a + b.drop_last());
        assert((a + b).last() == b.last());
        lemma_uint_count_concat(a, b.drop_last(), k);
    }
}

proof fn lemma_normalise_step(m: Seq<(Seq<char>, JsonView)>, done: Seq<(Seq<char>, Seq<char>)>, f: (Seq<char>, Seq<char>))
    ensures
        fix_field(normalised(m, done), f) == normalised(m, done.push(f)),
{
    let cur = normalised(m, done);
    let nxt = normalised(m, done.push(f));
    let uint = crate::text::starts_with(f.1, "uint"@);
    assert forall|k: Seq<char>| #[trigger] uint_count(done.push(f), k)
        == uint_count(done, k) + (if f.0 == k && uint { 1nat } else { 0nat }) by {
        assert(done.push(f).drop_last() =~= done);
    }
    assert forall|i: int| 0 <= i < m.len() implies (#[trigger] cur[i]).0 == m[i].0 && (cur[i].1 is Str <==> m[i].1 is Str) by {}
    assert forall|i: int| 0 <= i < m.len() implies crate::json::first_key_index(cur, f.0, i) == (first_of_key(m, i) && m[i].0 == f.0) by {
        if first_of_key(m, i) && m[i].0 == f.0 {
            assert forall|j: int| 0 <= j < i implies (#[trigger] cur[j]).0 != f.0 by {
                assert(m[j].0 != m[i].0);
            }
        }
        if crate::json::first_key_index(cur, f.0, i) {
            assert forall|j: int| 0 <= j < i implies (#[trigger] m[j]).0 != m[i].0 by {
                assert(cur[j].0 != f.0);
            }
        }
    }
    if exists|i: int| crate::json::first_key_index(cur, f.0, i) {
        let i0 = choose|i: int| crate::json::first_key_index(cur, f.0, i);
        assert(crate::json::first_key_index(cur, f.0, i0));
        assert forall|i: int| 0 <= i < m.len() && i != i0 implies #[trigger] nxt[i] == cur[i] by {
            if first_of_key(m, i) && m[i].0 == f.0 {
                assert(crate::json::first_key_index(cur, f.0, i));
                crate::json::lemma_first_key_unique(cur, f.0, i);
            }
        }
        if uint && cur[i0].1 is Str {
            let x = m[i0].1->Str_0;
            assert(fixed_hex_times(x, uint_count(done.push(f), f.0))
                == fixed_hex(fixed_hex_times(x, uint_count(done, f.0))));
            assert(fix_field(cur, f) =~= nxt);
        } else {
            assert(fix_field(cur, f) =~= nxt);
        }
    } else {
        assert forall|i: int| 0 <= i < m.len() implies #[trigger] nxt[i] == cur[i] by {
            if first_of_key(m, i) && m[i].0 == f.0 {
                assert(crate::json::first_key_index(cur, f.0, i));
            }
        }
        assert(fix_field(cur, f) =~= nxt);
    }
}

proof fn lemma_normalise_fields(m: Seq<(Seq<char>, JsonView)>, done: Seq<(Seq<char>, Seq<char>)>, fs: Seq<(Seq<char>, Seq<char>)>)
    ensures
        fix_fields(normalised(m, done), fs) == normalised(m, done + fs),
    decreases fs.len(),
{
    if fs.len() == 0 {
        assert(done + fs =~= done);
    } else {
        let t = fs.drop_last();
        lemma_normalise_fields(m, done, t);
        lemma_normalise_step(m, done + t, fs.last());
        assert((done + t).push(fs.last()) =~= done + fs);
    }
}

proof fn lemma_normalise_all(m: Seq<(Seq<char>, JsonView)>, done: Seq<(Seq<char>, Seq<char>)>, ts: Seq<Seq<(Seq<char>, Seq<char>)>>)
    ensures
        fix_all(normalised(m, done), ts) == normalised(m, done + all_fields(ts)),
    decreases ts.len(),
{
    if ts.len() == 0 {
        assert(done + all_fields(ts) =~= done);
    } else {
        let t = ts.drop_last();
        lemma_normalise_all(m, done, t);
        lemma_normalise_fields(m, done + all_fields(t), ts.last());
        assert(done + all_fields(t) + ts.last() =~= done + all_fields(ts));
    }
}

proof fn lemma_normalised_none(m: Seq<(Seq<char>, JsonView)>)
    ensures
        normalised(m, Seq::<(Seq<char>, Seq<char>)>::empty()) == m,
{
    let e = Seq::<(Seq<char>, Seq<char>)>::empty();
    assert forall|k: Seq<char>| #[trigger] uint_count(e, k) == 0 by {}
    assert(normalised(m, e) =~= m);
}

/// What normalising an order message gives, for every message: after the
/// `nonce`, each string that comes first under its key is normalised once
/// for each field, over all the types, that types its key as an unsigned
/// integer (once, when the name occurs once); every other entry stays.
pub proof fn law_normalise_exact(m: Seq<(Seq<char>, JsonView)>, ts: Seq<Seq<(Seq<char>, Seq<char>)>>)
    ensures
        fix_all(fix_nonce(m), ts) == normalised(fix_nonce(m), all_fields(ts)),
{
    let n = fix_nonce(m);
    lemma_normalised_none(n);
    lemma_normalise_all(n, Seq::<(Seq<char>, Seq<char>)>::empty(), ts);
    assert(Seq::<(Seq<char>, Seq<char>)>::empty() + all_fields(ts) =~= all_fields(ts));
}

proof fn lemma_times_idem(x: Seq<char>, n: nat)
    requires
        fixed_hex(fixed_hex(x)) == fixed_hex(x),
        n >= 1,
    ensures
        fixed_hex_times(x, n) == fixed_hex(x),
    decreases n,
{
    assert(fixed_hex_times(x, 0) == x);
    if n > 1 {
        lemma_times_idem(x, (n - 1) as nat);
        assert(fixed_hex_times(x, n) == fixed_hex(fixed_hex_times(x, (n - 1) as nat)));
    } else {
        assert(fixed_hex_times(x, 1) == fixed_hex(fixed_hex_times(x, 0)));
    }
}

/// Normalising a message with no "nonce" a second time (which then cannot
/// panic) changes nothing, provided every string it normalises (one that
/// comes first under a key typed as an unsigned integer) is one that a
/// second normalisation leaves as it is, such as "0x" followed by
/// hexadecimal digits, any text not starting with "0x", or "0xzz".
pub proof fn law_normalise_idempotent(m: Seq<(Seq<char>, JsonView)>, ts: Seq<Seq<(Seq<char>, Seq<char>)>>)
    requires
        forall|i: int| 0 <= i < m.len() ==> (#[trigger] m[i]).0 != "nonce"@,
        forall|i: int| 0 <= i < m.len() && first_of_key(m, i) && (#[trigger] m[i]).1 is Str
            && uint_count(all_fields(ts), m[i].0) > 0
            ==> fixed_hex(fixed_hex(m[i].1->Str_0)) == fixed_hex(m[i].1->Str_0),
    ensures
        fix_nonce(m) == m,
        fix_all(m, ts) == normalised(m, all_fields(ts)),
        !nonce_panics(fix_all(m, ts)),
        fix_nonce(fix_all(m, ts)) == fix_all(m, ts),
        fix_all(fix_nonce(fix_all(m, ts)), ts) == fix_all(m, ts),
{
    let fs = all_fields(ts);
    assert(!exists|i: int| crate::json::first_key_index(m, "nonce"@, i));
    law_normalise_exact(m, ts);
    let r = normalised(m, fs);
    assert forall|i: int| 0 <= i < r.len() implies (#[trigger] r[i]).0 != "nonce"@ by {
        assert(r[i].0 == m[i].0);
    }
    assert(!exists|i: int| crate::json::first_key_index(r, "nonce"@, i));
    lemma_normalise_all(m, fs, ts);
    assert forall|i: int| 0 <= i < m.len() implies #[trigger] normalised(m, fs + fs)[i] == r[i] by {
        lemma_uint_count_concat(fs, fs, m[i].0);
        if first_of_key(m, i) && m[i].1 is Str && uint_count(fs, m[i].0) > 0 {
            let x = m[i].1->Str_0;
            lemma_times_idem(x, uint_count(fs, m[i].0));
            lemma_times_idem(x, uint_count(fs + fs, m[i].0));
        }
    }
    assert(normalised(m, fs + fs) =~= r);
}

/// Whether normalising the message would panic.
pub fn nonce_would_panic(message: &Vec<(String, Json)>) -> (r: bool)
    ensures
        r == nonce_panics(view_entries(message@)),
{
    proof {
        lemma_view_entries(message@);
    }
    match crate::json::find_key(message, "nonce") {
        Some(i) => {
            proof {
                crate::json::lemma_first_key_unique(view_entries(message@), "nonce"@, i as int);
            }
            match get_field(&message[i].1, "hex") {
                Some(h) => as_str(h).is_none(),
                None => true,
            }
        },
        None => false,
    }
}

/// Normalises one field of the message.
fn fix_message_field(message: &mut Vec<(String, Json)>, name: &String, kind: &String)
    ensures
        view_entries(final(message)@) == fix_field(view_entries(old(message)@), (name@, kind@)),
{
    proof {
        lemma_view_entries(message@);
    }
    match crate::json::find_key(message, name.as_str()) {
        Some(i) => {
            proof {
                crate::json::lemma_first_key_unique(view_entries(message@), name@, i as int);
            }
            let k = crate::text::chars_of(kind.as_str());
            let u = crate::text::chars_of("uint");
            if crate::text::starts_with_exec(&k, &u) {
                let fixed = match &message[i].1 {
                    Json::Str(s) => Some(fix_hex(s.as_str())),
                    _ => None,
                };
                match fixed {
                    Some(f) => {
                        let key = message[i].0.clone();
                        proof {
                            lemma_set_entry(message@, i as int, key, Json::Str(f));
                        }
                        message.set(i, (key, Json::Str(f)));
                    },
                    None => {},
                }
            }
        },
        None => {},
    }
}

/// Normalises the message of an order before it is signed: first its
/// `nonce`, then every field typed as an unsigned integer, type by type.
pub fn remove_leading_zeros(types: &Vec<(String, Vec<TypedField>)>, message: &mut Vec<(String, Json)>)
    requires
        !nonce_panics(view_entries(old(message)@)),
    ensures
        view_entries(final(message)@) == fix_all(fix_nonce(view_entries(old(message)@)), types_view(types@)),
{
    proof {
        lemma_view_entries(message@);
    }
    match crate::json::find_key(message, "nonce") {
        Some(i) => {
            proof {
                crate::json::lemma_first_key_unique(view_entries(message@), "nonce"@, i as int);
            }
            let fixed = match get_field(&message[i].1, "hex") {
                Some(h) => match as_str(h) {
                    Some(s) => fix_hex(s.as_str()),
                    None => String::new(),
                },
                None => String::new(),
            };
            let key = message[i].0.clone();
            proof {
                lemma_set_entry(message@, i as int, key, Json::Str(fixed));
            }
            message.set(i, (key, Json::Str(fixed)));
        },
        None => {},
    }
    let ghost start = view_entries(message@);
    let nt = types.len();
    let mut t: usize = 0;
    while t < nt
        invariant
            nt == types@.len(),
            t <= nt,
            view_entries(message@) == fix_all(start, types_view(types@).take(t as int)),
        decreases nt - t,
    {
        let fields = &types[t].1;
        let nf = fields.len();
        let ghost before = view_entries(message@);
        let ghost fs = types_view(types@)[t as int];
        proof {
            assert(fs == fields@.map_values(|f: TypedField| (f.name@, f.kind@)));
            assert(fs.take(0) =~= Seq::<(Seq<char>, Seq<char>)>::empty());
        }
        let mut k: usize = 0;
        while k < nf
            invariant
                nf == fields@.len(),
                k <= nf,
                fs.len() == nf,
                forall|q: int| 0 <= q < nf ==> #[trigger] fs[q] == (fields@[q].name@, fields@[q].kind@),
                view_entries(message@) == fix_fields(before, fs.take(k as int)),
            decreases nf - k,
        {
            proof {
                assert(fs.take(k + 1).drop_last() =~= fs.take(k as int));
                assert(fs.take(k + 1).last() == fs[k as int]);
            }
            fix_message_field(message, &fields[k].name, &fields[k].kind);
            k = k + 1;
        }
        proof {
            assert(fs.take(nf as int) =~= fs);
            assert(types_view(types@).take(t + 1).drop_last() =~= types_view(types@).take(t as int));
        }
        t = t + 1;
    }
    proof {
        assert(types_view(types@).take(nt as int) =~= types_view(types@));
    }
}

} // verus!

verus! {

/// The digits of the wallet balance text the page reports (hexadecimal wei
/// with a "0x" prefix): every "0x" removed, then the leading zeros.
pub open spec fn balance_digits(raw: Seq<char>) -> Seq<char> {
    crate::text::trim_start(crate::text::replace_all(raw, "0x"@, Seq::<char>::empty()), '0')
}

/// Reads the wallet balance, in wei, from the text the page reports:
/// its digits read in base 16 by `Decimal::from_str_radix`.
pub fn parse_balance_wei(raw: &str) -> (r: Option<Amount>)
    ensures
        r == crate::amount::decimal_parse_radix(balance_digits(raw@), 16),
{
    let v = crate::text::chars_of(raw);
    let prefix = crate::text::chars_of("0x");
    proof {
        reveal_strlit("0x");
    }
    let empty: Vec<char> = Vec::new();
    let stripped = crate::text::replace_all_exec(&v, &prefix, &empty);
    proof {
        assert(empty@ =~= Seq::<char>::empty());
    }
    let digits = crate::text::trim_start_exec(&stripped, '0');
    let text = crate::text::string_of(&digits);
    crate::amount::parse_radix(text.as_str(), 16)
}

/// The balance in ether: the wei amount divided by `1e18` (read by
/// `Decimal::from_scientific`); `None` where the division fails.
pub fn wei_to_eth(wei: &Amount) -> (r: Option<Amount>)
    ensures
        r == match crate::amount::decimal_from_scientific("1e18"@) {
            Some(d) => crate::amount::decimal_checked_quotient(*wei, d),
            None => None,
        },
{
    proof {
        use_type_invariant(wei);
    }
    match crate::amount::from_scientific("1e18") {
        Some(d) => {
            proof {
                use_type_invariant(&d);
            }
            crate::amount::checked_quotient(wei, &d)
        },
        None => None,
    }
}

/// How long to wait before the next API call when the last one was
/// `since_last_ms` milliseconds ago and calls must be `delay_ms` apart.
pub fn remaining_wait_ms(since_last_ms: u64, delay_ms: u64) -> (r: Option<u64>)
    ensures
        r == (if since_last_ms < delay_ms { Some((delay_ms - since_last_ms) as u64) } else { None }),
{
    if since_last_ms < delay_ms {
        Some(delay_ms - since_last_ms)
    } else {
        None
    }
}

/// How many times a page element is looked for after the first try.
pub const MAX_FIND_ELEM_ATTEMPTS: i32 = 10;

/// The pause between two looks for a page element, in milliseconds.
pub const FIND_ELEM_WAIT_INTERVAL: u64 = 2000;

/// What to do after a look for a page element.
#[derive(Debug, Clone, Copy, PartialEq, Eq, Structural)]
pub enum ElementSearch {
    /// The element is there.
    Found,
    /// The last look failed: the selector is invalid.
    GiveUp,
    /// Wait, then look again.
    Retry,
}

/// The decision after look number `attempt` (from 0 to
/// `MAX_FIND_ELEM_ATTEMPTS`) found the element or not.
pub fn element_search_step(attempt: i32, found: bool) -> (r: ElementSearch)
    ensures
        r == (if found {
            ElementSearch::Found
        } else if attempt == MAX_FIND_ELEM_ATTEMPTS {
            ElementSearch::GiveUp
        } else {
            ElementSearch::Retry
        }),
{
    if found {
        ElementSearch::Found
    } else if attempt == MAX_FIND_ELEM_ATTEMPTS {
        ElementSearch::GiveUp
    } else {
        ElementSearch::Retry
    }
}

/// The script that stands in for a wallet in the page: the template with
/// every "{pk}" replaced by the private key.
pub fn intercept_script(template: &str, pk: &str) -> (r: String)
    ensures
        r@ == crate::text::replace_all(template@, "{pk}"@, pk@),
{
    let v = crate::text::chars_of(template);
    let p = crate::text::chars_of("{pk}");
    let q = crate::text::chars_of(pk);
    proof {
        reveal_strlit("{pk}");
    }
    crate::text::string_of(&crate::text::replace_all_exec(&v, &p, &q))
}

/// The page selector of the avatar that shows the wallet `addr` signed in.
pub fn address_selector(addr: &str) -> (r: String)
    ensures
        r@ == "img[alt=\""@ + addr@ + "\"]"@,
{
    String::from_str("img[alt=\"").concat(addr).concat("\"]")
}

} // verus!
