use autoblur::amount::Amount;
use autoblur::amount_order::amount_eq;
use autoblur::bids::{appropriate_bid, dedup_update, merge_update, retain_live, sort_bids, update_first_size};
use autoblur::client::{bid_to_place, BidAction, Client, ClientBuilder, ClientOptions, MonitoredCollection};
use autoblur::socket::Subscription;
use autoblur::time::Timestamp;
use autoblur::types::{Bid, CollectionInfo};

fn amt(m: i128, s: u32) -> Amount {
    Amount::new(m, s).unwrap()
}

fn bid(m: i128, s: u32, size: u32) -> Bid {
    Bid { value: amt(m, s), size, timeout: None }
}

fn timed(m: i128, size: u32, secs: i64) -> Bid {
    Bid { value: amt(m, 0), size, timeout: Some(Timestamp { secs, nanos: 0 }) }
}

fn info(addr: &str, slug: &str) -> CollectionInfo {
    CollectionInfo {
        contract_address: addr.to_string(),
        name: slug.to_uppercase(),
        collection_slug: slug.to_string(),
        image_url: None,
        floor_price: None,
        floor_price_day: None,
        floor_price_week: None,
        volume_fifteen_minutes: None,
        volume_day: None,
        volume_week: None,
    }
}

fn values(bids: &[Bid]) -> Vec<(i128, u32, u32)> {
    bids.iter().map(|b| (b.value.mantissa(), b.value.scale(), b.size)).collect()
}

#[test]
fn bids_compare_by_price() {
    assert!(bid(15, 1, 1) == bid(150, 2, 9));
    assert!(bid(1, 0, 1) != bid(2, 0, 1));
    assert!(bid(1, 0, 5) < bid(2, 0, 1));
    assert_eq!(bid(2, 0, 1).partial_cmp(&bid(20, 1, 3)), Some(std::cmp::Ordering::Equal));
}

#[test]
fn sort_is_stable_by_price() {
    let mut v = vec![bid(3, 0, 1), bid(1, 0, 1), bid(2, 0, 7), bid(20, 1, 8), bid(1, 0, 2)];
    sort_bids(&mut v);
    assert_eq!(values(&v), vec![(1, 0, 1), (1, 0, 2), (2, 0, 7), (20, 1, 8), (3, 0, 1)]);
    let before = values(&v);
    sort_bids(&mut v);
    assert_eq!(values(&v), before);
}

#[test]
fn appropriate_bid_counts_from_the_top() {
    let v = vec![bid(1, 0, 1), bid(2, 0, 1), bid(3, 0, 2)];
    assert!(amount_eq(&appropriate_bid(&v, 3).unwrap().value, &amt(2, 0)));
    assert!(amount_eq(&appropriate_bid(&v, 2).unwrap().value, &amt(3, 0)));
    assert!(amount_eq(&appropriate_bid(&v, 4).unwrap().value, &amt(1, 0)));
    assert!(amount_eq(&appropriate_bid(&v, 0).unwrap().value, &amt(3, 0)));
    assert!(appropriate_bid(&v, 5).is_none());
    assert!(appropriate_bid(&Vec::new(), 1).is_none());
}

#[test]
fn expired_bids_are_dropped() {
    let now = Timestamp { secs: 100, nanos: 0 };
    let mut v = vec![timed(1, 1, 50), bid(2, 0, 1), timed(3, 1, 150), timed(4, 1, 100)];
    retain_live(&mut v, now);
    assert_eq!(values(&v), vec![(2, 0, 1), (3, 0, 1)]);
    retain_live(&mut v, now);
    assert_eq!(values(&v), vec![(2, 0, 1), (3, 0, 1)]);
}

#[test]
fn updates_merge_into_the_levels() {
    let update = vec![bid(2, 0, 5), bid(2, 0, 5), bid(9, 0, 1)];
    let viewed = dedup_update(&update);
    assert_eq!(values(&viewed), vec![(2, 0, 5), (9, 0, 1)]);
    let mut levels = vec![bid(1, 0, 1), bid(2, 0, 1), bid(20, 1, 3)];
    update_first_size(&mut levels, &bid(20, 1, 4));
    assert_eq!(values(&levels), vec![(1, 0, 1), (2, 0, 4), (20, 1, 3)]);
    let mut levels = vec![timed(1, 1, 10), bid(2, 0, 1)];
    merge_update(&mut levels, &viewed, Timestamp { secs: 100, nanos: 0 });
    assert_eq!(values(&levels), vec![(2, 0, 5), (2, 0, 5), (9, 0, 1)]);
}

#[test]
fn monitored_collection_bookkeeping() {
    let mut m = MonitoredCollection::new(info("0xabc", "azuki"));
    assert_eq!(m.addr(), "0xabc");
    assert_eq!(m.slug(), "azuki");
    assert!(m.bids().is_empty());
    assert!(m.user_bid().is_none());
    m.add_bids(vec![bid(3, 0, 2), bid(1, 0, 1), bid(2, 0, 1)]);
    assert_eq!(m.get_bids_mut().len(), 3);
    assert!(m.get_user_bid().is_none());
    m.record_placed(bid(15, 1, 1));
    {
        let own = m.get_user_bid().unwrap();
        own.size = 4;
    }
    assert_eq!(m.user_bid().unwrap().size, 4);
    m.record_placed(timed(1, 1, 10));
    assert!(m.get_user_bid().is_none());
    m.get_bids_mut().push(bid(7, 0, 1));
    assert_eq!(m.bids().len(), 4);
}

#[test]
fn bid_check_plans_each_action() {
    let opts = ClientOptions { min_top_bids: 3 };
    let mut m = MonitoredCollection::new(info("0xabc", "azuki"));
    m.add_bids(vec![bid(3, 0, 2), bid(1, 0, 1), bid(2, 0, 1)]);
    let appropriate = m.prepare_bid_check(&opts);
    assert_eq!(values(m.bids()), vec![(1, 0, 1), (2, 0, 1), (3, 0, 2)]);
    let a = appropriate.unwrap();
    assert!(amount_eq(&a.value, &amt(2, 0)));

    match m.plan_bid_update(appropriate, amt(15, 1)) {
        BidAction::Place { place } => assert!(amount_eq(&place, &amt(15, 1))),
        other => panic!("unexpected {:?}", other),
    }
    let placed = bid_to_place(amt(15, 1)).unwrap();
    assert_eq!(placed.size, 1);
    assert!(placed.timeout.is_some());
    m.record_placed(placed);
    assert!(matches!(m.plan_bid_update(appropriate, amt(15, 1)), BidAction::Keep));
    assert!(m.user_bid().is_some());

    match m.plan_bid_update(appropriate, amt(10, 0)) {
        BidAction::Replace { cancel, place } => {
            assert!(amount_eq(&cancel.value, &amt(15, 1)));
            assert!(amount_eq(&place, &amt(2, 0)));
        }
        other => panic!("unexpected {:?}", other),
    }
    assert!(m.user_bid().is_none());
    m.record_placed(bid(2, 0, 1));
    match m.plan_bid_update(None, amt(10, 0)) {
        BidAction::Cancel { cancel } => assert!(amount_eq(&cancel.value, &amt(2, 0))),
        other => panic!("unexpected {:?}", other),
    }
    assert!(matches!(m.plan_bid_update(None, amt(10, 0)), BidAction::NoUpdate));
    assert!(m.prepare_bid_check(&ClientOptions { min_top_bids: 10 }).is_none());
}

#[test]
fn client_routes_updates_to_the_first_match() {
    let mut builder = ClientBuilder::new(7u8, ClientOptions { min_top_bids: 1 });
    builder.add_collection(info("0xabc", "a"));
    builder.add_collection(info("0xdef", "b"));
    let mut client: Client<u8, Vec<Subscription>> = builder.build(|b| b.into_subscriptions());
    assert_eq!(client.collection_count(), 2);
    assert_eq!(client.opts().min_top_bids, 1);
    assert_eq!(*client.api_mut(), 7);
    let subs = client.socket_mut();
    assert_eq!(subs.len(), 2);
    match &subs[1] {
        Subscription::Collection { addr } => assert_eq!(addr, "0xdef"),
    }
    let r = client.route_update(&"0xdef".to_string(), &vec![bid(5, 0, 2)]);
    assert_eq!(r, Some(1));
    assert_eq!(values(client.collection_mut(1).bids()), vec![(5, 0, 2)]);
    assert!(client.collection_mut(0).bids().is_empty());
    assert_eq!(client.route_update(&"0x999".to_string(), &vec![bid(5, 0, 2)]), None);
    assert_eq!(client.route_update(&"0xabc".to_string(), &Vec::new()), Some(0));
    assert!(client.collection_mut(0).bids().is_empty());
}

#[test]
fn updates_expire_our_bid_at_the_given_time() {
    let mut m = MonitoredCollection::new(info("0xabc", "a"));
    m.record_placed(timed(1, 1, 50));
    m.add_bids(vec![timed(2, 1, 40), bid(3, 0, 1)]);
    m.apply_update_at(&Vec::new(), Timestamp { secs: 100, nanos: 0 });
    assert!(m.user_bid().is_some());
    m.apply_update_at(&vec![bid(3, 0, 6)], Timestamp { secs: 100, nanos: 0 });
    assert!(m.user_bid().is_none());
    assert_eq!(values(m.bids()), vec![(3, 0, 6), (3, 0, 6)]);
    m.retain_live(Timestamp { secs: 100, nanos: 0 });
    assert_eq!(m.bids().len(), 2);
}

#[test]
fn the_level_is_the_highest_price_that_reaches() {
    let opts = ClientOptions { min_top_bids: 2 };
    let mut m = MonitoredCollection::new(info("0xabc", "a"));
    m.add_bids(vec![bid(3, 0, 1), bid(2, 0, 1), bid(1, 0, 2), bid(20, 1, 1)]);
    let a = m.prepare_bid_check(&opts).unwrap();
    assert!(amount_eq(&a.value, &amt(2, 0)));
    match m.plan_bid_update(Some(a), amt(15, 1)) {
        BidAction::Place { place } => assert!(amount_eq(&place, &amt(15, 1))),
        other => panic!("unexpected {:?}", other),
    }
}
