//! The bid keeper: the monitored collections with their bid lists and our
//! own bid on each, the decisions of the keeper, and the client that holds
//! them together.

use vstd::prelude::*;
use crate::amount::Amount;
use crate::amount_order::{amount_eq, amount_min};
use crate::bids::{
    appropriate_bid, dedup_bids, dedup_update, is_live, live_bids, merge_update, merged_bids,
    reach_index, retain_live, size_from, sort_bids, is_stable_sort_of, bid_is_live, bid_key,
    size_at_or_above, law_reach_is_highest_reaching_price, law_no_reach_no_reaching_price,
    law_size_at_or_above_order_free,
};
use crate::socket::{AsyncSocketBuilder, Subscription};
use crate::time::{Timestamp, add_minutes, instant_plus_minutes, utc_now};
use crate::types::{Bid, CollectionInfo};

verus! {

/// How long the client waits between two calls of the marketplace API, in milliseconds.
pub const WAIT_DURATION_MS: u64 = 8000;

/// How long a bid we place stays valid, in minutes.
pub const BID_LIFETIME_MINUTES: i64 = 30;

/// The keeper's settings: the executable size, counted from the highest
/// bid down, that our bid should match.
#[derive(Clone, Copy, Debug)]
pub struct ClientOptions {
    pub min_top_bids: u32,
}

/// Our own bid, kept only while it has not expired at `now`.
pub open spec fn live_user_bid(user: Option<Bid>, now: Timestamp) -> Option<Bid> {
    match user {
        Some(b) => if is_live(b, now) { Some(b) } else { None },
        None => None,
    }
}

/// A collection being watched: what the marketplace said of it, its bid
/// levels, and our own bid on it, if any.
pub struct MonitoredCollection {
    info: CollectionInfo,
    bids: Vec<Bid>,
    user_bid: Option<Bid>,
}

/// What the keeper should do about our bid on a collection.
#[derive(Debug, Clone, Copy)]
pub enum BidAction {
    /// Our bid is already at the target price.
    Keep,
    /// Cancel our bid `cancel`, then bid `place`.
    Replace { cancel: Bid, place: Amount },
    /// Bid `place`; we have no bid yet.
    Place { place: Amount },
    /// Cancel our bid `cancel`; there is nothing to bid for.
    Cancel { cancel: Bid },
    /// We have no bid and there is nothing to bid for.
    NoUpdate,
}

/// The price to bid: the appropriate bid's price, capped at the balance.
pub open spec fn target_price(appropriate: Option<Bid>, balance: Amount) -> Option<Amount> {
    match appropriate {
        None => None,
        Some(x) => Some(if x.value.key() > balance.key() { balance } else { x.value }),
    }
}

/// The action for a target price and our current bid.
pub open spec fn planned_action(target: Option<Amount>, user: Option<Bid>) -> BidAction {
    match (target, user) {
        (Some(t), Some(u)) => if u.value.key() == t.key() {
            BidAction::Keep
        } else {
            BidAction::Replace { cancel: u, place: t }
        },
        (Some(t), None) => BidAction::Place { place: t },
        (None, Some(u)) => BidAction::Cancel { cancel: u },
        (None, None) => BidAction::NoUpdate,
    }
}

impl MonitoredCollection {
    pub closed spec fn info(&self) -> CollectionInfo {
        self.info
    }

    /// The bid levels, as currently held.
    pub closed spec fn bid_list(&self) -> Seq<Bid> {
        self.bids@
    }

    /// Our own bid on the collection.
    pub closed spec fn own_bid(&self) -> Option<Bid> {
        self.user_bid
    }

    /// `new` is `old` with the bids and our bid that expired at `now` dropped.
    pub open spec fn is_purge_of(new: &Self, old: &Self, now: Timestamp) -> bool {
        &&& new.info() == old.info()
        &&& new.bid_list() == live_bids(old.bid_list(), now)
        &&& new.own_bid() == live_user_bid(old.own_bid(), now)
    }

    /// A newly watched collection: no bid levels yet, no bid of ours.
    pub fn new(info: CollectionInfo) -> (r: MonitoredCollection)
        ensures
            r.info() == info,
            r.bid_list() == Seq::<Bid>::empty(),
            r.own_bid() is None,
    {
        MonitoredCollection { info, bids: Vec::new(), user_bid: None }
    }

    /// Drops the bids, and our bid, that have expired at `now`.
    pub fn retain_live(&mut self, now: Timestamp)
        ensures
            Self::is_purge_of(final(self), old(self), now),
    {
        retain_live(&mut self.bids, now);
        let keep = match &self.user_bid {
            Some(b) => bid_is_live(b, now),
            None => false,
        };
        if !keep {
            self.user_bid = None;
        }
    }

    /// Drops the bids, and our bid, that have expired by the current time.
    fn timed_out_check(&mut self)
        ensures
            exists|now: Timestamp| Self::is_purge_of(final(self), old(self), now),
    {
        let now = utc_now();
        self.retain_live(now);
    }

    /// The collection's contract address.
    pub fn addr(&self) -> (r: &String)
        ensures
            *r == self.info().contract_address,
    {
        &self.info.contract_address
    }

    /// The collection's slug.
    pub fn slug(&self) -> (r: &String)
        ensures
            *r == self.info().collection_slug,
    {
        &self.info.collection_slug
    }

    /// The bid levels, once those expired by now are dropped.
    pub fn get_bids_mut(&mut self) -> (r: &mut Vec<Bid>)
        ensures
            exists|now: Timestamp| {
                &&& r@ == live_bids(old(self).bid_list(), now)
                &&& final(self).own_bid() == live_user_bid(old(self).own_bid(), now)
            },
            final(self).info() == old(self).info(),
            final(self).bid_list() == final(r)@,
    {
        self.timed_out_check();
        &mut self.bids
    }

    /// Our own bid, once dropped if it has expired by now; through the
    /// reference it can be changed in place.
    pub fn get_user_bid(&mut self) -> (r: Option<&mut Bid>)
        ensures
            exists|now: Timestamp| {
                &&& final(self).bid_list() == live_bids(old(self).bid_list(), now)
                &&& match live_user_bid(old(self).own_bid(), now) {
                    None => r is None && final(self).own_bid() is None,
                    Some(b) => r is Some && *r.unwrap() == b && final(self).own_bid() == Some(*final(r.unwrap())),
                }
            },
            final(self).info() == old(self).info(),
    {
        self.timed_out_check();
        self.user_bid.as_mut()
    }

    /// The bid levels, as currently held.
    pub fn bids(&self) -> (r: &Vec<Bid>)
        ensures
            r@ == self.bid_list(),
    {
        &self.bids
    }

    /// Our own bid, as currently held.
    pub fn user_bid(&self) -> (r: Option<Bid>)
        ensures
            r == self.own_bid(),
    {
        self.user_bid
    }

    /// Appends bid levels (as fetched when the collection is first watched).
    pub fn add_bids(&mut self, bids: Vec<Bid>)
        ensures
            final(self).info() == old(self).info(),
            final(self).own_bid() == old(self).own_bid(),
            final(self).bid_list() == old(self).bid_list() + bids@,
    {
        let mut bids = bids;
        self.bids.append(&mut bids);
    }

    /// Applies a feed update at `now`: when it holds bids, drops the expired
    /// bids and our bid if expired, sets the sizes of the price levels it
    /// names, and appends its (deduplicated) bids.
    pub fn apply_update_at(&mut self, update: &Vec<Bid>, now: Timestamp)
        ensures
            final(self).info() == old(self).info(),
            update@.len() == 0 ==> final(self).bid_list() == old(self).bid_list(),
            update@.len() == 0 ==> final(self).own_bid() == old(self).own_bid(),
            update@.len() > 0 ==> final(self).bid_list() == merged_bids(old(self).bid_list(), dedup_bids(update@), now),
            update@.len() > 0 ==> final(self).own_bid() == live_user_bid(old(self).own_bid(), now),
    {
        if update.len() == 0 {
            return;
        }
        let viewed = dedup_update(update);
        self.retain_live(now);
        merge_update(&mut self.bids, &viewed, now);
        proof {
            crate::bids::law_purge_idempotent(old(self).bid_list(), now);
        }
    }

    /// Applies a feed update as of the current time.
    pub fn apply_update(&mut self, update: &Vec<Bid>)
        ensures
            final(self).info() == old(self).info(),
            update@.len() == 0 ==> final(self).bid_list() == old(self).bid_list(),
            update@.len() == 0 ==> final(self).own_bid() == old(self).own_bid(),
            update@.len() > 0 ==> exists|now: Timestamp| {
                &&& final(self).bid_list() == merged_bids(old(self).bid_list(), dedup_bids(update@), now)
                &&& final(self).own_bid() == live_user_bid(old(self).own_bid(), now)
            },
    {
        let now = utc_now();
        self.apply_update_at(update, now);
    }

    /// First step of a bid check: sorts the bid levels by price and finds
    /// the bid at which the executable size counted from the top reaches
    /// `opts.min_top_bids`.
    pub fn prepare_bid_check(&mut self, opts: &ClientOptions) -> (r: Option<Bid>)
        ensures
            final(self).info() == old(self).info(),
            final(self).own_bid() == old(self).own_bid(),
            is_stable_sort_of(final(self).bid_list(), old(self).bid_list()),
            r is Some <==> exists|i: int|
                0 <= i < final(self).bid_list().len() && size_from(final(self).bid_list(), i) >= opts.min_top_bids,
            r matches Some(b) ==> exists|i: int|
                reach_index(final(self).bid_list(), opts.min_top_bids as int, i) && final(self).bid_list()[i] == b,
    {
        sort_bids(&mut self.bids);
        let r = appropriate_bid(&self.bids, opts.min_top_bids);
        proof {
            let s = self.bids@;
            assert(s == self.bid_list());
            if r is Some {
                let i = choose|i: int| 0 <= i < s.len() && size_from(s, i) >= opts.min_top_bids;
                assert(0 <= i < self.bid_list().len() && size_from(self.bid_list(), i) >= opts.min_top_bids);
            }
        }
        r
    }

    /// Second step of a bid check, once the balance (in ether) is known:
    /// caps the appropriate bid's price at the balance and decides what to
    /// do with our bid. Our bid is given up (to be cancelled) unless it is
    /// kept.
    pub fn plan_bid_update(&mut self, appropriate: Option<Bid>, balance: Amount) -> (r: BidAction)
        ensures
            r == planned_action(target_price(appropriate, balance), old(self).own_bid()),
            final(self).info() == old(self).info(),
            final(self).bid_list() == old(self).bid_list(),
            final(self).own_bid() == (if r is Keep { old(self).own_bid() } else { None }),
    {
        let target = match appropriate {
            Some(x) => Some(amount_min(x.value, balance)),
            None => None,
        };
        match target {
            Some(t) => match self.user_bid {
                Some(u) => {
                    if amount_eq(&u.value, &t) {
                        BidAction::Keep
                    } else {
                        self.user_bid = None;
                        BidAction::Replace { cancel: u, place: t }
                    }
                },
                None => BidAction::Place { place: t },
            },
            None => match self.user_bid {
                Some(u) => {
                    self.user_bid = None;
                    BidAction::Cancel { cancel: u }
                },
                None => BidAction::NoUpdate,
            },
        }
    }

    /// Records the bid we placed.
    pub fn record_placed(&mut self, bid: Bid)
        ensures
            final(self).info() == old(self).info(),
            final(self).bid_list() == old(self).bid_list(),
            final(self).own_bid() == Some(bid),
    {
        self.user_bid = Some(bid);
    }
}

/// The price the keeper bids is the appropriate bid's price or the
/// balance, whichever is lower: it never exceeds either.
pub proof fn law_target_capped(appropriate: Bid, balance: Amount)
    ensures
        target_price(Some(appropriate), balance) matches Some(t) && {
            &&& t.key() <= balance.key()
            &&& t.key() <= appropriate.value.key()
            &&& (t == balance || t == appropriate.value)
        },
        target_price(None, balance) is None,
{
}

/// The keeper's price. When the bid check's first step has sorted the bid
/// list `before` into `sorted` and found the level `i` where the size from
/// the top reaches `min`, that level carries the highest price `v` among
/// the bids of `before` such that the bids of `before` priced at least `v`
/// hold `min` or more, and the target is the lower of that price and the
/// balance.
pub proof fn law_target_is_capped_highest_reaching_price(
    before: Seq<Bid>,
    sorted: Seq<Bid>,
    min: int,
    i: int,
    balance: Amount,
)
    requires
        is_stable_sort_of(sorted, before),
        reach_index(sorted, min, i),
    ensures
        size_at_or_above(before, bid_key(sorted[i])) >= min,
        forall|j: int| 0 <= j < before.len() && size_at_or_above(before, bid_key(before[j])) >= min
            ==> bid_key(#[trigger] before[j]) <= bid_key(sorted[i]),
        target_price(Some(sorted[i]), balance) matches Some(t) && t.key() == (if bid_key(sorted[i]) <= balance.key() {
            bid_key(sorted[i])
        } else {
            balance.key()
        }),
{
    broadcast use vstd::seq_lib::group_to_multiset_ensures;
    law_reach_is_highest_reaching_price(sorted, min, i);
    law_size_at_or_above_order_free(sorted, before, bid_key(sorted[i]));
    assert forall|j: int| 0 <= j < before.len() && size_at_or_above(before, bid_key(before[j])) >= min
        implies bid_key(#[trigger] before[j]) <= bid_key(sorted[i]) by {
        let x = before[j];
        assert(before.contains(x));
        assert(before.to_multiset().count(x) > 0);
        assert(sorted.contains(x));
        let k = choose|k: int| 0 <= k < sorted.len() && sorted[k] == x;
        law_size_at_or_above_order_free(sorted, before, bid_key(x));
        assert(size_at_or_above(sorted, bid_key(sorted[k])) >= min);
    }
}

/// When the bid check's first step has sorted `before` into `sorted` and no
/// level reaches `min`, no bid of `before` has bids priced at least its
/// price that hold `min`: there is nothing to bid for.
pub proof fn law_no_reaching_price_without_level(before: Seq<Bid>, sorted: Seq<Bid>, min: int)
    requires
        is_stable_sort_of(sorted, before),
        forall|i: int| 0 <= i < sorted.len() ==> #[trigger] size_from(sorted, i) < min,
    ensures
        forall|j: int| 0 <= j < before.len() ==> size_at_or_above(before, bid_key(#[trigger] before[j])) < min,
{
    broadcast use vstd::seq_lib::group_to_multiset_ensures;
    law_no_reach_no_reaching_price(sorted, min);
    assert forall|j: int| 0 <= j < before.len() implies size_at_or_above(before, bid_key(#[trigger] before[j])) < min by {
        let x = before[j];
        assert(before.contains(x));
        assert(before.to_multiset().count(x) > 0);
        assert(sorted.contains(x));
        let k = choose|k: int| 0 <= k < sorted.len() && sorted[k] == x;
        law_size_at_or_above_order_free(sorted, before, bid_key(x));
        assert(size_at_or_above(sorted, bid_key(sorted[k])) < min);
    }
}

/// What the keeper does with each combination of a target price and our
/// bid: a bid at another price than the target, above or below, is
/// cancelled and the target bid for; a bid at the target is kept; with no
/// bid of ours the target is bid for; with no target our bid is cancelled.
pub proof fn law_planned_action_cases(t: Amount, u: Bid)
    ensures
        u.value.key() != t.key() ==> planned_action(Some(t), Some(u)) == (BidAction::Replace { cancel: u, place: t }),
        u.value.key() == t.key() ==> planned_action(Some(t), Some(u)) == BidAction::Keep,
        planned_action(Some(t), None) == (BidAction::Place { place: t }),
        planned_action(None, Some(u)) == (BidAction::Cancel { cancel: u }),
        planned_action(None, None) == BidAction::NoUpdate,
{
}

/// A purge at `now` keeps our bid exactly when it has not expired: when it
/// has no timeout, or its timeout is later than `now` (more seconds, or as
/// many seconds and more nanoseconds).
pub proof fn law_own_bid_expiry(b: Bid, now: Timestamp)
    ensures
        b.timeout is None ==> live_user_bid(Some(b), now) == Some(b),
        (b.timeout matches Some(t) && (t.secs > now.secs || (t.secs == now.secs && t.nanos > now.nanos)))
            ==> live_user_bid(Some(b), now) == Some(b),
        (b.timeout matches Some(t) && !(t.secs > now.secs || (t.secs == now.secs && t.nanos > now.nanos)))
            ==> live_user_bid(Some(b), now) is None,
        live_user_bid(None, now) is None,
{
}

/// After the collection is purged at `now`, a bid of ours that had not
/// expired is still ours, and one that had expired is gone; the bid list
/// keeps exactly its bids that have not expired.
pub proof fn law_purge_keeps_live_own_bid(new: MonitoredCollection, old: MonitoredCollection, now: Timestamp)
    requires
        MonitoredCollection::is_purge_of(&new, &old, now),
    ensures
        (old.own_bid() matches Some(b) && (b.timeout is None || (b.timeout matches Some(t)
            && (t.secs > now.secs || (t.secs == now.secs && t.nanos > now.nanos))))) ==> new.own_bid() == old.own_bid(),
        (old.own_bid() matches Some(b) && b.timeout matches Some(t)
            && !(t.secs > now.secs || (t.secs == now.secs && t.nanos > now.nanos))) ==> new.own_bid() is None,
        old.own_bid() is None ==> new.own_bid() is None,
        forall|i: int| 0 <= i < new.bid_list().len() ==> crate::bids::is_live(#[trigger] new.bid_list()[i], now),
{
    crate::bids::law_purge_keeps_exactly_live(old.bid_list(), now);
}

/// Our bid is kept exactly when we hold one at the target price.
pub proof fn law_keep_iff_at_target(target: Option<Amount>, user: Option<Bid>)
    ensures
        planned_action(target, user) is Keep <==> (target is Some && user is Some
            && user.unwrap().value.key() == target.unwrap().key()),
        planned_action(target, user) is NoUpdate <==> (target is None && user is None),
{
}

/// Once the planned action is carried out (a bid recorded at the planned
/// price, or our bid given up), planning again with the same target
/// changes nothing.
pub proof fn law_plan_settles(target: Option<Amount>, user: Option<Bid>, placed: Bid)
    ensures
        (planned_action(target, user) matches BidAction::Place { place } && placed.value == place)
            ==> planned_action(target, Some(placed)) is Keep,
        (planned_action(target, user) matches BidAction::Replace { place, .. } && placed.value == place)
            ==> planned_action(target, Some(placed)) is Keep,
        planned_action(target, user) is Cancel ==> planned_action(target, None) is NoUpdate,
{
}

/// The bid to place at `value`: one item, valid for thirty minutes from
/// now; `None` only where that instant is out of chrono's range.
pub fn bid_to_place(value: Amount) -> (r: Option<Bid>)
    ensures
        exists|now: Timestamp| {
            &&& now.secs >= 0
            &&& now.nanos < 1_000_000_000
            &&& match #[trigger] instant_plus_minutes(now, BID_LIFETIME_MINUTES) {
                None => r is None,
                Some(t) => r == Some(Bid { value, size: 1, timeout: Some(t) }),
            }
            &&& (now.secs + 60 * BID_LIFETIME_MINUTES <= crate::time::EXACT_SECS_LIMIT ==> r == Some(Bid {
                value,
                size: 1,
                timeout: Some(Timestamp { secs: (now.secs + 60 * BID_LIFETIME_MINUTES) as i64, nanos: now.nanos }),
            }))
        },
{
    let now = utc_now();
    match add_minutes(now, BID_LIFETIME_MINUTES) {
        Some(t) => Some(Bid { value, size: 1, timeout: Some(t) }),
        None => None,
    }
}

} // verus!

verus! {

/// Gathers what the client needs before it runs: the API it calls, its
/// settings, the collections to watch and the feed subscriptions for them.
pub struct ClientBuilder<A> {
    opts: ClientOptions,
    api: A,
    monitored: Vec<MonitoredCollection>,
    socket_builder: AsyncSocketBuilder,
}

/// The feed subscription that watches a collection.
pub open spec fn collection_subscription(info: CollectionInfo) -> Subscription {
    Subscription::Collection { addr: info.contract_address }
}

impl<A> ClientBuilder<A> {
    pub closed spec fn options(&self) -> ClientOptions {
        self.opts
    }

    pub closed spec fn api_value(&self) -> A {
        self.api
    }

    /// The collections to watch, in the order they were added.
    pub closed spec fn collections(&self) -> Seq<MonitoredCollection> {
        self.monitored@
    }

    /// The feed subscriptions made so far.
    pub closed spec fn subscriptions(&self) -> Seq<Subscription> {
        self.socket_builder.subscriptions()
    }

    /// A builder around an API (already signed in) with the given settings.
    pub fn new(api: A, opts: ClientOptions) -> (r: Self)
        ensures
            r.options() == opts,
            r.api_value() == api,
            r.collections() == Seq::<MonitoredCollection>::empty(),
            r.subscriptions() == Seq::<Subscription>::empty(),
    {
        ClientBuilder { opts, api, monitored: Vec::new(), socket_builder: AsyncSocketBuilder::new() }
    }

    /// The API, to ask it about a collection before watching it.
    pub fn api_mut(&mut self) -> (r: &mut A)
        ensures
            *r == old(self).api_value(),
            final(self).api_value() == *final(r),
            final(self).options() == old(self).options(),
            final(self).collections() == old(self).collections(),
            final(self).subscriptions() == old(self).subscriptions(),
    {
        &mut self.api
    }

    /// Watches the collection described by `info`: subscribes to its bid
    /// levels and adds it, with no bids yet, to the monitored collections.
    pub fn add_collection(&mut self, info: CollectionInfo)
        ensures
            final(self).options() == old(self).options(),
            final(self).api_value() == old(self).api_value(),
            final(self).subscriptions() == old(self).subscriptions().push(collection_subscription(info)),
            final(self).collections().len() == old(self).collections().len() + 1,
            forall|i: int| 0 <= i < old(self).collections().len() ==> #[trigger] final(self).collections()[i] == old(self).collections()[i],
            final(self).collections().last().info() == info,
            final(self).collections().last().bid_list() == Seq::<Bid>::empty(),
            final(self).collections().last().own_bid() is None,
    {
        let addr = info.contract_address.clone();
        self.socket_builder.subscribe(Subscription::Collection { addr });
        self.monitored.push(MonitoredCollection::new(info));
    }

    /// The client, its feed opened by `open_socket` from the subscriptions.
    pub fn build<S, F: FnOnce(AsyncSocketBuilder) -> S>(self, open_socket: F) -> (r: Client<A, S>)
        requires
            forall|b: AsyncSocketBuilder| call_requires(open_socket, (b,)),
        ensures
            r.options() == self.options(),
            r.api_value() == self.api_value(),
            r.collections() == self.collections(),
            exists|b: AsyncSocketBuilder| b.subscriptions() == self.subscriptions()
                && call_ensures(open_socket, (b,), r.socket_value()),
    {
        let ghost builder = self.socket_builder;
        let socket = open_socket(self.socket_builder);
        assert(builder.subscriptions() == self.subscriptions()
            && call_ensures(open_socket, (builder,), socket));
        Client { api: self.api, socket, monitored: self.monitored, opts: self.opts }
    }
}

/// The running client: the API, the opened feed, the watched collections
/// and the settings.
pub struct Client<A, S> {
    api: A,
    socket: S,
    monitored: Vec<MonitoredCollection>,
    opts: ClientOptions,
}

impl<A, S> Client<A, S> {
    pub closed spec fn options(&self) -> ClientOptions {
        self.opts
    }

    pub closed spec fn api_value(&self) -> A {
        self.api
    }

    pub closed spec fn socket_value(&self) -> S {
        self.socket
    }

    /// The watched collections, in order.
    pub closed spec fn collections(&self) -> Seq<MonitoredCollection> {
        self.monitored@
    }

    pub fn opts(&self) -> (r: ClientOptions)
        ensures
            r == self.options(),
    {
        self.opts
    }

    pub fn api_mut(&mut self) -> (r: &mut A)
        ensures
            *r == old(self).api_value(),
            final(self).api_value() == *final(r),
            final(self).socket_value() == old(self).socket_value(),
            final(self).collections() == old(self).collections(),
            final(self).options() == old(self).options(),
    {
        &mut self.api
    }

    pub fn socket_mut(&mut self) -> (r: &mut S)
        ensures
            *r == old(self).socket_value(),
            final(self).socket_value() == *final(r),
            final(self).api_value() == old(self).api_value(),
            final(self).collections() == old(self).collections(),
            final(self).options() == old(self).options(),
    {
        &mut self.socket
    }

    /// How many collections are watched.
    pub fn collection_count(&self) -> (r: usize)
        ensures
            r == self.collections().len(),
    {
        self.monitored.len()
    }

    /// The `i`-th watched collection.
    pub fn collection_mut(&mut self, i: usize) -> (r: &mut MonitoredCollection)
        requires
            i < old(self).collections().len(),
        ensures
            *r == old(self).collections()[i as int],
            final(self).collections() == old(self).collections().update(i as int, *final(r)),
            final(self).api_value() == old(self).api_value(),
            final(self).socket_value() == old(self).socket_value(),
            final(self).options() == old(self).options(),
    {
        &mut self.monitored[i]
    }

    /// The API together with the `i`-th watched collection, to run a bid
    /// check on it.
    pub fn api_and_collection_mut(&mut self, i: usize) -> (r: (&mut A, &mut MonitoredCollection))
        requires
            i < old(self).collections().len(),
        ensures
            *r.0 == old(self).api_value(),
            *r.1 == old(self).collections()[i as int],
            final(self).api_value() == *final(r.0),
            final(self).collections() == old(self).collections().update(i as int, *final(r.1)),
            final(self).socket_value() == old(self).socket_value(),
            final(self).options() == old(self).options(),
    {
        (&mut self.api, &mut self.monitored[i])
    }

    /// Routes a feed update to the first watched collection whose contract
    /// address is `contract_addr` and applies it there (see
    /// `MonitoredCollection::apply_update`); gives that collection's index,
    /// or `None` (and changes nothing) when no collection matches.
    pub fn route_update(&mut self, contract_addr: &String, bids: &Vec<Bid>) -> (r: Option<usize>)
        ensures
            final(self).api_value() == old(self).api_value(),
            final(self).socket_value() == old(self).socket_value(),
            final(self).options() == old(self).options(),
            final(self).collections().len() == old(self).collections().len(),
            r is None ==> final(self).collections() == old(self).collections(),
            r is None ==> forall|j: int| 0 <= j < old(self).collections().len()
                ==> (#[trigger] old(self).collections()[j]).info().contract_address@ != contract_addr@,
            r matches Some(i) ==> {
                &&& i < old(self).collections().len()
                &&& old(self).collections()[i as int].info().contract_address@ == contract_addr@
                &&& forall|j: int| 0 <= j < i ==> (#[trigger] old(self).collections()[j]).info().contract_address@ != contract_addr@
                &&& forall|j: int| 0 <= j < old(self).collections().len() && j != i
                    ==> #[trigger] final(self).collections()[j] == old(self).collections()[j]
                &&& final(self).collections()[i as int].info() == old(self).collections()[i as int].info()
                &&& (bids@.len() == 0 ==> final(self).collections()[i as int].bid_list() == old(self).collections()[i as int].bid_list())
                &&& (bids@.len() == 0 ==> final(self).collections()[i as int].own_bid() == old(self).collections()[i as int].own_bid())
                &&& (bids@.len() > 0 ==> exists|now: Timestamp| {
                    &&& final(self).collections()[i as int].bid_list()
                        == merged_bids(old(self).collections()[i as int].bid_list(), dedup_bids(bids@), now)
                    &&& final(self).collections()[i as int].own_bid()
                        == live_user_bid(old(self).collections()[i as int].own_bid(), now)
                })
            },
    {
        let n = self.monitored.len();
        let mut i: usize = 0;
        while i < n
            invariant
                n == self.monitored.len(),
                self.monitored@ == old(self).monitored@,
                self.api == old(self).api,
                self.socket == old(self).socket,
                self.opts == old(self).opts,
                i <= n,
                forall|j: int| 0 <= j < i ==> (#[trigger] self.monitored@[j]).info().contract_address@ != contract_addr@,
            decreases n - i,
        {
            let matches = self.monitored[i].addr().eq(contract_addr);
            if matches {
                let coll = &mut self.monitored[i];
                coll.apply_update(bids);
                return Some(i);
            }
            i = i + 1;
        }
        None
    }
}

} // verus!
