//! The Blur feed: subscriptions, the socket.io frames and the bid-level
//! updates they carry.

use vstd::prelude::*;
use crate::types::Bid;

verus! {

/// A message of the feed: new bid levels of the collection at `contract_addr`.
#[derive(Debug)]
pub enum Message {
    BidsUpdate { contract_addr: String, bids: Vec<Bid> },
}

/// A subscription to the feed: the bid levels of the collection at `addr`.
#[derive(Debug, Clone)]
pub enum Subscription {
    Collection { addr: String },
}

/// The subscriptions that a feed connection will make once opened.
pub struct AsyncSocketBuilder {
    subs: Vec<Subscription>,
}

impl AsyncSocketBuilder {
    /// The subscriptions, in the order they were made.
    pub closed spec fn subscriptions(&self) -> Seq<Subscription> {
        self.subs@
    }

    pub fn new() -> (r: Self)
        ensures
            r.subscriptions() == Seq::<Subscription>::empty(),
    {
        AsyncSocketBuilder { subs: Vec::new() }
    }

    pub fn subscribe(&mut self, sub: Subscription)
        ensures
            final(self).subscriptions() == old(self).subscriptions().push(sub),
    {
        self.subs.push(sub)
    }

    /// Gives the subscriptions up, in order, to the code that opens the connection.
    pub fn into_subscriptions(self) -> (r: Vec<Subscription>)
        ensures
            r@ == self.subscriptions(),
    {
        self.subs
    }
}

} // verus!

verus! {

/// A random number from `rand::thread_rng().next_u32()`; nothing is
/// promised of it.
#[verifier::external_body]
pub(crate) fn random_u32() -> (r: u32) {
    rand::RngCore::next_u32(&mut rand::thread_rng())
}

/// The characters identifiers are drawn from.
pub const ID_ALPHABET: &'static str = "0123456789ABCDEFGHIJKLMNOPQRSTUVWXYZabcdefghijklmnopqrstuvwxyz";

/// The length of a generated identifier.
pub const ID_LENGTH: usize = 12;

/// A random identifier for the feed's address: `ID_LENGTH` characters, each
/// the one of `ID_ALPHABET` at a random number modulo the alphabet's size.
pub fn gen_id() -> (r: String)
    ensures
        r@.len() == ID_LENGTH,
        exists|picks: Seq<u32>| picks.len() == ID_LENGTH && forall|i: int| 0 <= i < ID_LENGTH
            ==> r@[i] == #[trigger] ID_ALPHABET@[(picks[i] % 62) as int],
{
    let alphabet = crate::text::chars_of(ID_ALPHABET);
    proof {
        reveal_strlit("0123456789ABCDEFGHIJKLMNOPQRSTUVWXYZabcdefghijklmnopqrstuvwxyz");
    }
    let mut out: Vec<char> = Vec::new();
    let ghost mut picks: Seq<u32> = Seq::empty();
    let mut k: usize = 0;
    while k < ID_LENGTH
        invariant
            alphabet@ == ID_ALPHABET@,
            alphabet@.len() == 62,
            k <= ID_LENGTH,
            out@.len() == k,
            picks.len() == k,
            forall|i: int| 0 <= i < k ==> out@[i] == #[trigger] ID_ALPHABET@[(picks[i] % 62) as int],
        decreases ID_LENGTH - k,
    {
        let n = random_u32();
        let index = (n % 62) as usize;
        out.push(alphabet[index]);
        proof {
            picks = picks.push(n);
        }
        k = k + 1;
    }
    crate::text::string_of(&out)
}

/// The address of the feed for the given tab and storage identifiers.
pub open spec fn feed_url_text(tab: Seq<char>, storage: Seq<char>) -> Seq<char> {
    "wss://feeds.prod.blur.io/socket.io/?tabId="@ + tab + "&storageId="@ + storage + "&EIO=4&transport=websocket"@
}

/// The address of the feed for the given tab and storage identifiers.
pub fn feed_url(tab: &str, storage: &str) -> (r: String)
    ensures
        r@ == feed_url_text(tab@, storage@),
{
    String::from_str("wss://feeds.prod.blur.io/socket.io/?tabId=")
        .concat(tab)
        .concat("&storageId=")
        .concat(storage)
        .concat("&EIO=4&transport=websocket")
}

/// The address of the feed, with fresh random identifiers.
pub fn new_feed_url() -> (r: String)
    ensures
        exists|tab: Seq<char>, storage: Seq<char>| tab.len() == ID_LENGTH && storage.len() == ID_LENGTH
            && r@ == feed_url_text(tab, storage),
{
    let tab = gen_id();
    let storage = gen_id();
    feed_url(tab.as_str(), storage.as_str())
}

/// The frame that opens the socket.io session.
pub const CONNECT_FRAME: &'static str = "40";

/// The server's ping frame.
pub const PING_FRAME: &'static str = "2";

/// The answer to a ping.
pub const PONG_FRAME: &'static str = "3";

/// The character is an ASCII digit.
pub open spec fn is_digit(c: char) -> bool {
    '0' <= c && c <= '9'
}

/// How many digits `s` begins with.
pub open spec fn leading_digits(s: Seq<char>) -> nat
    decreases s.len(),
{
    if s.len() > 0 && is_digit(s[0]) {
        1 + leading_digits(s.skip(1))
    } else {
        0
    }
}

/// The JSON text of a socket.io frame: the frame without its leading digits
/// (the packet type and id); when there are none, without its first
/// character.
pub open spec fn event_text(s: Seq<char>) -> Seq<char> {
    if leading_digits(s) == 0 {
        s.skip(1)
    } else {
        s.skip(leading_digits(s) as int)
    }
}

/// Stripping the frame panics: it is empty, or begins with no digit and a
/// character longer than one byte.
pub open spec fn event_strip_panics(s: Seq<char>) -> bool {
    s.len() == 0 || (leading_digits(s) == 0 && (s[0] as u32) >= 128)
}

proof fn lemma_leading_digits(s: Seq<char>, i: int)
    requires
        0 <= i <= s.len(),
        forall|j: int| 0 <= j < i ==> is_digit(s[j]),
        i == s.len() || !is_digit(s[i]),
    ensures
        leading_digits(s) == i,
    decreases i,
{
    if i > 0 {
        assert forall|j: int| 0 <= j < i - 1 implies is_digit(s.skip(1)[j]) by {
            assert(s.skip(1)[j] == s[j + 1]);
        }
        if i < s.len() {
            assert(s.skip(1)[i - 1] == s[i]);
        }
        lemma_leading_digits(s.skip(1), i - 1);
    }
}

/// A frame made of a packet type and id (one or more digits) and a text
/// that does not begin with a digit yields exactly that text.
pub proof fn law_event_text_strips_prefix(digits: Seq<char>, rest: Seq<char>)
    requires
        digits.len() > 0,
        forall|i: int| 0 <= i < digits.len() ==> is_digit(#[trigger] digits[i]),
        rest.len() == 0 || !is_digit(rest[0]),
    ensures
        event_text(digits + rest) == rest,
{
    let s = digits + rest;
    assert forall|j: int| 0 <= j < digits.len() implies is_digit(s[j]) by {
        assert(s[j] == digits[j]);
    }
    if rest.len() > 0 {
        assert(s[digits.len() as int] == rest[0]);
    }
    lemma_leading_digits(s, digits.len() as int);
    assert(s.skip(digits.len() as int) =~= rest);
}

/// Parses a socket.io frame's JSON: the frame stripped as `event_text`
/// says, then read by `serde_json`; `None` where it is no JSON.
pub fn try_parse_event(msg: &str) -> (r: Option<crate::json::Json>)
    requires
        !event_strip_panics(msg@),
    ensures
        r is None <==> crate::json::json_parse(event_text(msg@)) is None,
        r matches Some(j) ==> crate::json::json_parse(event_text(msg@)) == Some(j@),
{
    let v = crate::text::chars_of(msg);
    let n = v.len();
    let mut k: usize = 0;
    while k < n && '0' <= v[k] && v[k] <= '9'
        invariant
            v@ == msg@,
            n == v@.len(),
            k <= n,
            forall|j: int| 0 <= j < k ==> is_digit(v@[j]),
        decreases n - k,
    {
        k = k + 1;
    }
    proof {
        lemma_leading_digits(v@, k as int);
    }
    let start = if k == 0 { 1 } else { k };
    let mut rest: Vec<char> = Vec::new();
    let mut i: usize = start;
    while i < n
        invariant
            n == v@.len(),
            1 <= start <= n,
            start <= i <= n,
            rest@ == v@.subrange(start as int, i as int),
        decreases n - i,
    {
        rest.push(v[i]);
        proof {
            assert(v@.subrange(start as int, i + 1) =~= v@.subrange(start as int, i as int).push(v@[i as int]));
        }
        i = i + 1;
    }
    proof {
        assert(v@.subrange(start as int, n as int) =~= v@.skip(start as int));
    }
    let text = crate::text::string_of(&rest);
    crate::json::parse_json(text.as_str())
}

} // verus!

verus! {

/// The end of the name of a bid-level event.
pub const BID_LEVELS_SUFFIX: &'static str = "COLLECTION.{}.denormalizer.bidLevels";

/// Why a feed event could not be read.
#[derive(Debug, Clone, Copy, PartialEq, Eq, Structural)]
pub enum FeedError {
    /// The frame is no socket.io event.
    InvalidEvent,
    /// The event has no name at index 0.
    NoEventName,
    /// The event's name is no string.
    EventNameNotString,
    /// The event has no data at index 1.
    NoEventData,
    /// The event's data is no object.
    DataNotObject,
    /// The data has no `updates`.
    NoUpdates,
    /// The data's `updates` is no array.
    UpdatesNotArray,
}

/// What a text frame of the feed asks for.
#[derive(Debug)]
pub enum FrameAction {
    /// The server pinged: answer `PONG_FRAME`.
    Pong,
    /// Nothing to do with this frame.
    Skip,
    /// The frame is a malformed event.
    Failed(FeedError),
    /// New bid levels of the collection at `contract_addr`, still to be read as bids.
    BidLevels { contract_addr: String, updates: Vec<crate::json::Json> },
}

/// What a frame asks for, in terms of views.
pub enum FrameOutcome {
    Pong,
    Skip,
    Failed(FeedError),
    BidLevels { contract_addr: Seq<char>, updates: Seq<crate::json::JsonView> },
}

/// The view of a frame action.
pub open spec fn action_view(a: FrameAction) -> FrameOutcome {
    match a {
        FrameAction::Pong => FrameOutcome::Pong,
        FrameAction::Skip => FrameOutcome::Skip,
        FrameAction::Failed(e) => FrameOutcome::Failed(e),
        FrameAction::BidLevels { contract_addr, updates } => FrameOutcome::BidLevels {
            contract_addr: contract_addr@,
            updates: crate::json::view_items(updates@),
        },
    }
}

/// What a parsed socket.io event means: an array whose first item (a
/// string) names the event and whose second is its data; a bid-level event
/// carries an object with an `updates` array and the collection's
/// `contractAddress`; other events and non-array values are skipped.
pub open spec fn event_outcome(ev: crate::json::JsonView) -> FrameOutcome {
    match ev {
        crate::json::JsonView::Array(items) => if items.len() == 0 {
            FrameOutcome::Failed(FeedError::NoEventName)
        } else {
            match crate::json::str_of(items[0]) {
                None => FrameOutcome::Failed(FeedError::EventNameNotString),
                Some(name) => if items.len() < 2 {
                    FrameOutcome::Failed(FeedError::NoEventData)
                } else if crate::text::ends_with(name, BID_LEVELS_SUFFIX@) {
                    let data = items[1];
                    if !crate::json::is_object(data) {
                        FrameOutcome::Failed(FeedError::DataNotObject)
                    } else {
                        match crate::json::field(data, "updates"@) {
                            None => FrameOutcome::Failed(FeedError::NoUpdates),
                            Some(u) => match crate::json::items_of(u) {
                                None => FrameOutcome::Failed(FeedError::UpdatesNotArray),
                                Some(us) => FrameOutcome::BidLevels {
                                    contract_addr: crate::json::str_of(crate::json::field(data, "contractAddress"@).unwrap()).unwrap(),
                                    updates: us,
                                },
                            },
                        }
                    }
                } else {
                    FrameOutcome::Skip
                },
            }
        },
        _ => FrameOutcome::Skip,
    }
}

/// A bid-level event (an array whose first item is a string ending with
/// the bid-level suffix and whose second item is an object) whose data
/// holds the array `updates` and the string `contractAddress` yields that
/// address and all the items of that array, in order.
pub proof fn law_bid_levels_keep_every_update(
    ev: crate::json::JsonView,
    name: Seq<char>,
    addr: Seq<char>,
    updates: Seq<crate::json::JsonView>,
)
    requires
        ev matches crate::json::JsonView::Array(items) && items.len() >= 2
            && items[0] == crate::json::JsonView::Str(name)
            && crate::json::is_object(items[1])
            && crate::json::field(items[1], "updates"@) == Some(crate::json::JsonView::Array(updates))
            && crate::json::field(items[1], "contractAddress"@) == Some(crate::json::JsonView::Str(addr)),
        crate::text::ends_with(name, BID_LEVELS_SUFFIX@),
    ensures
        event_outcome(ev) matches FrameOutcome::BidLevels { contract_addr, updates: us } && {
            &&& contract_addr == addr
            &&& us.len() == updates.len()
            &&& forall|i: int| 0 <= i < updates.len() ==> #[trigger] us[i] == updates[i]
        },
        !event_panics(ev),
{
}

/// Reading the event panics: a well-formed bid-level event whose data has
/// no string `contractAddress`.
pub open spec fn event_panics(ev: crate::json::JsonView) -> bool {
    match ev {
        crate::json::JsonView::Array(items) => {
            &&& items.len() >= 2
            &&& crate::json::str_of(items[0]) matches Some(name)
            &&& crate::text::ends_with(name, BID_LEVELS_SUFFIX@)
            &&& crate::json::is_object(items[1])
            &&& (crate::json::field(items[1], "updates"@) matches Some(u) && crate::json::items_of(u) is Some)
            &&& !(crate::json::field(items[1], "contractAddress"@) matches Some(crate::json::JsonView::Str(_)))
        },
        _ => false,
    }
}

/// Whether reading the event would panic.
pub fn event_would_panic(ev: &crate::json::Json) -> (r: bool)
    ensures
        r == event_panics(ev@),
{
    match ev {
        crate::json::Json::Array(items) => {
            proof {
                crate::json::lemma_view_items(items@);
            }
            if items.len() < 2 {
                return false;
            }
            let name = match crate::json::as_str(&items[0]) {
                Some(n) => n,
                None => return false,
            };
            let nv = crate::text::chars_of(name.as_str());
            let sv = crate::text::chars_of(BID_LEVELS_SUFFIX);
            if !crate::text::ends_with_exec(&nv, &sv) {
                return false;
            }
            let data = &items[1];
            if !crate::json::is_object_exec(data) {
                return false;
            }
            match crate::json::get_field(data, "updates") {
                Some(u) => if crate::json::as_array(u).is_none() {
                    return false;
                },
                None => return false,
            }
            match crate::json::get_field(data, "contractAddress") {
                Some(a) => crate::json::as_str(a).is_none(),
                None => true,
            }
        },
        _ => false,
    }
}

/// Reads a parsed socket.io event.
pub fn classify_event(ev: crate::json::Json) -> (r: FrameAction)
    requires
        !event_panics(ev@),
    ensures
        action_view(r) == event_outcome(ev@),
{
    match ev {
        crate::json::Json::Array(items) => {
            proof {
                crate::json::lemma_view_items(items@);
            }
            if items.len() == 0 {
                return FrameAction::Failed(FeedError::NoEventName);
            }
            let name = match crate::json::as_str(&items[0]) {
                Some(n) => n,
                None => return FrameAction::Failed(FeedError::EventNameNotString),
            };
            if items.len() < 2 {
                return FrameAction::Failed(FeedError::NoEventData);
            }
            let nv = crate::text::chars_of(name.as_str());
            let sv = crate::text::chars_of(BID_LEVELS_SUFFIX);
            if !crate::text::ends_with_exec(&nv, &sv) {
                return FrameAction::Skip;
            }
            let data = &items[1];
            if !crate::json::is_object_exec(data) {
                return FrameAction::Failed(FeedError::DataNotObject);
            }
            let updates = match crate::json::get_field(data, "updates") {
                Some(u) => match u {
                    crate::json::Json::Array(us) => {
                        let mut copy: Vec<crate::json::Json> = Vec::new();
                        let n = us.len();
                        let mut i: usize = 0;
                        while i < n
                            invariant
                                n == us@.len(),
                                i <= n,
                                crate::json::view_items(copy@) == crate::json::view_items(us@.take(i as int)),
                            decreases n - i,
                        {
                            let x = crate::json::json_clone(&us[i]);
                            let ghost before = copy@;
                            copy.push(x);
                            proof {
                                assert(copy@.drop_last() =~= before);
                                assert(us@.take(i + 1).drop_last() =~= us@.take(i as int));
                            }
                            i = i + 1;
                        }
                        proof {
                            assert(us@.take(n as int) =~= us@);
                        }
                        copy
                    },
                    _ => return FrameAction::Failed(FeedError::UpdatesNotArray),
                },
                None => return FrameAction::Failed(FeedError::NoUpdates),
            };
            let addr = match crate::json::get_field(data, "contractAddress") {
                Some(a) => match crate::json::as_str(a) {
                    Some(s) => s.clone(),
                    None => String::new(),
                },
                None => String::new(),
            };
            FrameAction::BidLevels { contract_addr: addr, updates }
        },
        _ => FrameAction::Skip,
    }
}

/// What a text frame asks for: a ping is answered, a frame that is no
/// socket.io message (type 4) is skipped, a message is read as an event.
pub open spec fn frame_outcome(s: Seq<char>) -> FrameOutcome {
    if s == PING_FRAME@ {
        FrameOutcome::Pong
    } else if !crate::text::starts_with(s, "4"@) {
        FrameOutcome::Skip
    } else {
        match crate::json::json_parse(event_text(s)) {
            None => FrameOutcome::Failed(FeedError::InvalidEvent),
            Some(ev) => event_outcome(ev),
        }
    }
}

/// Reading the frame panics.
pub open spec fn frame_panics(s: Seq<char>) -> bool {
    &&& s != PING_FRAME@
    &&& crate::text::starts_with(s, "4"@)
    &&& crate::json::json_parse(event_text(s)) matches Some(ev)
    &&& event_panics(ev)
}

/// Reads a text frame of the feed.
pub fn classify_frame(msg: &str) -> (r: FrameAction)
    requires
        !frame_panics(msg@),
    ensures
        action_view(r) == frame_outcome(msg@),
{
    proof {
        reveal_strlit("2");
        reveal_strlit("4");
    }
    if crate::json::str_eq(msg, PING_FRAME) {
        return FrameAction::Pong;
    }
    let v = crate::text::chars_of(msg);
    let four = crate::text::chars_of("4");
    if !crate::text::starts_with_exec(&v, &four) {
        return FrameAction::Skip;
    }
    proof {
        assert(msg@.len() > 0);
        assert("4"@[0] == '4');
        assert(msg@.subrange(0, 1)[0] == msg@[0]);
        assert(msg@[0] == '4');
        assert(leading_digits(msg@) > 0) by {
            reveal_with_fuel(leading_digits, 2);
        }
    }
    match try_parse_event(msg) {
        None => FrameAction::Failed(FeedError::InvalidEvent),
        Some(ev) => classify_event(ev),
    }
}

/// The frame that subscribes, as message number `counter`, to `sub`.
pub open spec fn subscribe_text(counter: u32, sub: Subscription) -> Seq<char> {
    match sub {
        Subscription::Collection { addr } => "42"@ + crate::text::decimal_text(counter as nat)
            + "[\"subscribe\",[\""@ + addr@ + ".COLLECTION.{}.denormalizer.bidLevels\"]]"@,
    }
}

/// The frame that subscribes, as message number `counter`, to `sub`.
pub fn subscribe_frame(counter: u32, sub: &Subscription) -> (r: String)
    ensures
        r@ == subscribe_text(counter, *sub),
{
    match sub {
        Subscription::Collection { addr } => {
            let n = crate::text::string_of(&crate::text::u64_text(counter as u64));
            String::from_str("42")
                .concat(n.as_str())
                .concat("[\"subscribe\",[\"")
                .concat(addr.as_str())
                .concat(".COLLECTION.{}.denormalizer.bidLevels\"]]")
        },
    }
}

} // verus!
