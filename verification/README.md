# autoblur

A bidding client for the Blur NFT marketplace. It watches collections,
keeps their collection-bid levels up to date from the marketplace's
socket.io feed, and keeps one bid of its own on each collection: at the
price level where the executable size counted from the highest bid reaches
a configured amount, capped at the wallet's balance.

## Layout

- `src/` is the library, written in Verus with contracts:
  - `amount`, `amount_order`: exact decimal prices (`rust_decimal`);
  - `time`: instants (`chrono`);
  - `text`, `json`: character sequences and JSON values (`serde_json`);
  - `http`, `errors`: requests, answers and errors;
  - `types`, `bids`: bids and bid lists (sorting, expiry, the bid level a
    size reaches, merging feed updates);
  - `api`: the marketplace requests and the reading of their answers;
  - `socket`: the feed's frames and subscriptions;
  - `browser`: the user agent the signed-in page reports (`regex`);
  - `wallet`: the wallet address and the signing of orders (`ethers`);
  - `client`: the monitored collections, the bid keeper's decisions and
    the client that holds them.
- `app/` is the program around it: configuration, the browser session
  (`chromiumoxide`), the feed connection (`async-tungstenite`) and the
  loop that performs what the library decides.
- `tests/` holds the tests of the library.

The program reads `config.toml` (`pk`, `slugs`, `min_top_bids`) and the
page script `scripts/fakemask.js` from its working directory.
