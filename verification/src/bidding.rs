//! Handling a bid: it joins the station's auction if there is one that still
//! takes bids.

use crate::bid::Bid;
use anchor_lang::prelude::Pubkey;
use crate::auction::lemma_with_bid_wf;
use crate::errors::AuctionError;
use crate::station::{Station, StationView};
use vstd::prelude::*;

verus! {

/// An offer as a bidder sends it. `id` names the station and serves only to
/// find its record.
#[derive(Debug, PartialEq, Eq)]
pub struct PlaceBidArgs {
    pub id: String,
    pub bidder: Pubkey,
    pub amount: u64,
    pub price_per_amount: u64,
}

impl PlaceBidArgs {
    /// The bid that the offer makes.
    pub open spec fn bid(self) -> Bid {
        Bid { bidder: self.bidder, amount: self.amount, price_per_amount: self.price_per_amount }
    }
}

impl StationView {
    /// Whether the station admits `bid` at `now`, and if not, why: a station
    /// without an auction admits none, otherwise its auction decides.
    pub open spec fn admission(self, bid: Bid, now: u64) -> Result<(), AuctionError> {
        match self.auction {
            None => Err(AuctionError::NoActiveAuction),
            Some(auction) => auction.admission(bid, now),
        }
    }

    /// The station with `bid` added to its auction.
    pub open spec fn with_bid(self, bid: Bid) -> StationView {
        match self.auction {
            None => self,
            Some(auction) => StationView { auction: Some(auction.with_bid(bid)), ..self },
        }
    }
}

/// An admitted bid keeps a station well formed.
pub proof fn lemma_bid_wf(station: StationView, bid: Bid, now: u64)
    requires
        station.wf(),
        station.admission(bid, now) is Ok,
    ensures
        station.with_bid(bid).wf(),
{
    lemma_with_bid_wf(station.auction->Some_0, bid, now);
}

/// Adds the offer to the station's auction, or says why it is turned down.
/// A turned-down offer changes nothing.
pub fn place_bid(station: &mut Station, args: PlaceBidArgs, now: u64) -> (outcome: Result<
    (),
    AuctionError,
>)
    ensures
        outcome == old(station)@.admission(args.bid(), now),
        outcome is Ok ==> final(station)@ == old(station)@.with_bid(args.bid()),
        outcome is Err ==> final(station)@ == old(station)@,
{
    let bid = Bid {
        bidder: args.bidder,
        amount: args.amount,
        price_per_amount: args.price_per_amount,
    };
    match &mut station.auction {
        None => Err(AuctionError::NoActiveAuction),
        Some(auction) => auction.submit(bid, now),
    }
}

} // verus!
