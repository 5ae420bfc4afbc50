//! The wallet the client bids with, known to the logic by its address.

use vstd::prelude::*;
use vstd::string::*;
use crate::errors::BlurInitError;
use crate::json::{Json, JsonView, json_clone, view_entries};

verus! {

/// The address of the wallet whose private key is the text `pk`, as
/// `ethers` derives it; `None` where the text is no valid key.
pub uninterp spec fn key_address(pk: Seq<char>) -> Option<Seq<u8>>;

/// The EIP-55 checksummed text of an address (`ethers::utils::to_checksum`
/// with no chain id).
pub uninterp spec fn eip55_text(addr: Seq<u8>) -> Seq<char>;

/// The lowercase hexadecimal digit of `n` (below 16).
pub open spec fn hex_char(n: int) -> char {
    if n < 10 {
        (48 + n) as char
    } else {
        (87 + n) as char
    }
}

/// A byte as two lowercase hexadecimal digits.
pub open spec fn byte_hex(b: u8) -> Seq<char> {
    seq![hex_char(b as int / 16), hex_char(b as int % 16)]
}

/// How `ethers`' `Address` displays itself: "0x", its first two bytes,
/// an ellipsis, its last two bytes.
pub open spec fn short_address_text(a: Seq<u8>) -> Seq<char> {
    "0x"@ + byte_hex(a[0]) + byte_hex(a[1]) + seq!['\u{2026}'] + byte_hex(a[18]) + byte_hex(a[19])
}

/// Parses the private key `pk` into an `ethers::signers::LocalWallet`
/// (`str::parse`) and gives the wallet's address; `None` where the parse
/// fails.
#[verifier::external_body]
fn key_to_address(pk: &str) -> (r: Option<[u8; 20]>)
    ensures
        match r {
            Some(a) => key_address(pk@) == Some(a@),
            None => key_address(pk@) is None,
        },
{
    match pk.parse::<ethers::signers::LocalWallet>() {
        Ok(w) => Some(ethers::signers::Signer::address(&w).0),
        Err(_) => None,
    }
}

/// `ethers::utils::to_checksum(addr, None)`: the address in hexadecimal
/// after "0x", its letters cased by the EIP-55 rule; 42 characters.
#[verifier::external_body]
fn checksum_text(addr: &[u8; 20]) -> (r: String)
    ensures
        r@ == eip55_text(addr@),
        r@.len() == 42,
        r@.subrange(0, 2) == "0x"@,
{
    ethers::utils::to_checksum(&ethers::types::Address::from(*addr), None)
}

/// The lowercase hexadecimal digit of `n` (below 16).
fn hex_digit(n: u8) -> (r: char)
    requires
        n < 16,
    ensures
        r == hex_char(n as int),
{
    if n < 10 {
        (48 + n) as char
    } else {
        (87 + n) as char
    }
}

/// Appends the two lowercase hexadecimal digits of `b`.
fn push_byte_hex(s: &mut String, b: u8)
    ensures
        final(s)@ == old(s)@ + byte_hex(b),
{
    crate::text::push_char(s, hex_digit(b / 16));
    crate::text::push_char(s, hex_digit(b % 16));
    proof {
        assert(s@ =~= old(s)@ + byte_hex(b));
    }
}

/// The address as `ethers`' `Address` displays itself.
fn display_text(addr: &[u8; 20]) -> (r: String)
    ensures
        r@ == short_address_text(addr@),
{
    let mut s = String::from_str("0x");
    push_byte_hex(&mut s, addr[0]);
    push_byte_hex(&mut s, addr[1]);
    crate::text::push_char(&mut s, '\u{2026}');
    push_byte_hex(&mut s, addr[18]);
    push_byte_hex(&mut s, addr[19]);
    proof {
        reveal_strlit("0x");
        assert(s@ =~= short_address_text(addr@));
    }
    s
}

/// The signature (its hexadecimal text, without "0x") that the wallet of
/// the private key `pk` gives the EIP-712 typed data `typed`, as `ethers`
/// reads and signs them; `None` where the key or the typed data is refused.
pub uninterp spec fn typed_data_signature(pk: Seq<char>, typed: JsonView) -> Option<Seq<char>>;

/// Signs typed data: parses the key into a `LocalWallet` (`str::parse`),
/// reads `typed` as `ethers`' `TypedData` (`serde_json::from_value`),
/// encodes it (`Eip712::encode_eip712`) and signs the hash
/// (`Wallet::sign_hash`, the body of `Signer::sign_typed_data`), giving the
/// signature's `to_string`.
#[verifier::external_body]
fn typed_data_signature_text(pk: &str, typed: &Json) -> (r: Option<String>)
    ensures
        r is None <==> typed_data_signature(pk@, typed@) is None,
        r matches Some(s) ==> typed_data_signature(pk@, typed@) == Some(s@),
{
    let wallet = pk.parse::<ethers::signers::LocalWallet>().ok()?;
    let value = crate::json::value_from_json(typed);
    let data: ethers::types::transaction::eip712::TypedData = serde_json::from_value(value).ok()?;
    let hash = ethers::types::transaction::eip712::Eip712::encode_eip712(&data).ok()?;
    Some(wallet.sign_hash(ethers::types::H256::from(hash)).ok()?.to_string())
}

/// The typed data of an order: its domain, types and message, with the
/// primary type "Order".
pub open spec fn order_typed_data(domain: JsonView, types: JsonView, message: Seq<(Seq<char>, JsonView)>) -> JsonView {
    JsonView::Object(seq![
        ("domain"@, domain),
        ("types"@, types),
        ("primaryType"@, JsonView::Str("Order"@)),
        ("message"@, JsonView::Object(message)),
    ])
}

/// Signs an order with the wallet of the private key `pk`: the signature
/// of its typed data, `None` where the key or the order is refused.
pub fn sign_order(pk: &String, domain: &Json, types: &Json, message: &Vec<(String, Json)>) -> (r: Option<String>)
    ensures
        r is None <==> typed_data_signature(pk@, order_typed_data(domain@, types@, view_entries(message@))) is None,
        r matches Some(s) ==> typed_data_signature(pk@, order_typed_data(domain@, types@, view_entries(message@))) == Some(s@),
{
    let mut entries: Vec<(String, Json)> = Vec::new();
    let n = message.len();
    let mut i: usize = 0;
    while i < n
        invariant
            n == message@.len(),
            i <= n,
            view_entries(entries@) == view_entries(message@.take(i as int)),
        decreases n - i,
    {
        let k = message[i].0.clone();
        let x = json_clone(&message[i].1);
        let ghost before = entries@;
        entries.push((k, x));
        proof {
            assert(entries@.drop_last() =~= before);
            assert(message@.take(i + 1).drop_last() =~= message@.take(i as int));
        }
        i = i + 1;
    }
    proof {
        assert(message@.take(n as int) =~= message@);
    }
    let typed = crate::api::json_object4(
        crate::api::json_entry("domain", json_clone(domain)),
        crate::api::json_entry("types", json_clone(types)),
        crate::api::json_entry("primaryType", crate::api::json_string("Order")),
        crate::api::json_entry("message", Json::Object(entries)),
    );
    typed_data_signature_text(pk.as_str(), &typed)
}

/// The wallet for the private key `pk`, by its address; `InvalidKey` when
/// `pk` is no valid key.
pub fn init_wallet(pk: &String) -> (r: Result<[u8; 20], BlurInitError>)
    ensures
        match key_address(pk@) {
            Some(a) => r matches Ok(x) && x@ == a,
            None => r == Err::<[u8; 20], BlurInitError>(BlurInitError::InvalidKey),
        },
{
    match key_to_address(pk.as_str()) {
        Some(a) => Ok(a),
        None => Err(BlurInitError::InvalidKey),
    }
}

/// The page selector of the avatar that shows our wallet signed in: the
/// image whose alternative text is the checksummed address.
pub fn signed_in_selector(addr: &[u8; 20]) -> (r: String)
    ensures
        r@ == "img[alt=\""@ + eip55_text(addr@) + "\"]"@,
{
    let text = checksum_text(addr);
    crate::api::address_selector(text.as_str())
}

/// The wallet whose bids are asked for: the one given, else ours as its
/// address displays.
pub fn bids_wallet(wallet: Option<String>, own: &[u8; 20]) -> (r: String)
    ensures
        r@ == match wallet {
            Some(w) => w@,
            None => short_address_text(own@),
        },
{
    match wallet {
        Some(w) => w,
        None => display_text(own),
    }
}

} // verus!
