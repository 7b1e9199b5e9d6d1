//! Reverse energy auctions for charging stations.
//!
//! A station reports its battery level. When at least a fifth of its capacity
//! is missing and it holds no auction, an auction opens for the missing
//! charge. Bidders offer energy at a price while the auction is ongoing. The
//! first report after the bidding window settles the auction: the cheapest
//! bids win, the last of them cut down so that no more is bought than was
//! asked for, and the energy won is added to the battery.
//!
//! Every function is verified against a contract over mathematical values:
//! [`station::StationView`] and [`auction::AuctionView`] are the views of the
//! records, and the transitions are spec functions on them.
//!
//! Quantities are unsigned fixed-point integers with [`deficit::UNIT`] to the
//! whole unit; times are seconds. The caller supplies the current time and the
//! identity of whoever signed a request.
//!
//! One item is taken on trust: the declaration of the ledger's identity type
//! in [`bid`], of which nothing is claimed.

pub mod auction;
pub mod bid;
pub mod bidding;
pub mod deficit;
pub mod errors;
pub mod price_order;
pub mod report;
pub mod settlement;
pub mod station;
