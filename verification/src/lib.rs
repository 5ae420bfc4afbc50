//! A bidding client for the Blur NFT marketplace: the collection-bid
//! bookkeeping, the decisions of the bid keeper, the request and response
//! handling of the Blur API and of its socket feed, and the browser
//! user-agent rewriting, each with its contract.

pub mod amount;
pub mod amount_order;
pub mod time;
pub mod text;
pub mod json;
pub mod errors;
pub mod http;
pub mod api;
pub mod types;
pub mod bids;
pub mod socket;
pub mod browser;
pub mod client;
pub mod wallet;
