//! The marketplace's data: prices, collections, bids and sale notifications.

use vstd::prelude::*;
use crate::amount::Amount;
use crate::time::Timestamp;
use core::cmp::Ordering;
use vstd::std_specs::cmp::PartialOrdSpecImpl;

verus! {

/// A price with its unit (for instance "ETH").
#[derive(Clone, Debug)]
pub struct Price {
    pub amount: Amount,
    pub unit: String,
}

/// What the marketplace reports of a collection.
#[derive(Clone, Debug)]
pub struct CollectionInfo {
    pub contract_address: String,
    pub name: String,
    pub collection_slug: String,
    pub image_url: Option<String>,
    pub floor_price: Option<Price>,
    pub floor_price_day: Option<Price>,
    pub floor_price_week: Option<Price>,
    pub volume_fifteen_minutes: Option<Price>,
    pub volume_day: Option<Price>,
    pub volume_week: Option<Price>,
}

/// A collection bid level: a price, how many items are bid at it, and,
/// for a bid of our own, when it expires.
#[derive(Clone, Copy, Debug)]
pub struct Bid {
    pub value: Amount,
    pub size: u32,
    pub timeout: Option<Timestamp>,
}

/// Two bids are equal when their prices are numerically equal.
impl PartialEq for Bid {
    fn eq(&self, other: &Self) -> (r: bool) {
        crate::amount_order::amount_eq(&self.value, &other.value)
    }
}

impl vstd::std_specs::cmp::PartialEqSpecImpl for Bid {
    open spec fn obeys_eq_spec() -> bool {
        true
    }

    open spec fn eq_spec(&self, other: &Self) -> bool {
        self.value.key() == other.value.key()
    }
}

impl Eq for Bid {}

/// Bids are ordered by price.
impl PartialOrd for Bid {
    fn partial_cmp(&self, other: &Self) -> (r: Option<Ordering>) {
        if crate::amount_order::amount_lt(&self.value, &other.value) {
            Some(Ordering::Less)
        } else if crate::amount_order::amount_eq(&self.value, &other.value) {
            Some(Ordering::Equal)
        } else {
            Some(Ordering::Greater)
        }
    }
}

impl PartialOrdSpecImpl for Bid {
    open spec fn obeys_partial_cmp_spec() -> bool {
        true
    }

    open spec fn partial_cmp_spec(&self, other: &Self) -> Option<Ordering> {
        if self.value.key() < other.value.key() {
            Some(Ordering::Less)
        } else if self.value.key() == other.value.key() {
            Some(Ordering::Equal)
        } else {
            Some(Ordering::Greater)
        }
    }
}

/// The details of a sale notification.
#[derive(Clone, Debug)]
pub struct NotificationSaleData {
    pub to: String,
    pub from: String,
    pub price: Price,
    pub image_url: String,
    pub opensea_slug: String,
    pub colection_name: String,
    pub contract_address: String,
}

/// A notification of the user's feed.
#[derive(Clone, Debug)]
pub struct Notification {
    pub created_at: Timestamp,
    pub user_address: String,
    pub is_read: bool,
    pub data: NotificationSaleData,
}

} // verus!
