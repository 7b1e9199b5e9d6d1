//! A charging station: who may report for it, where it stands, how much its
//! battery holds, and the one auction slot it owns.

use crate::auction::{lemma_settled_wf, lemma_winners_within_request, Auction, AuctionView};
use crate::settlement::total_amount;
use anchor_lang::prelude::Pubkey;
use vstd::prelude::*;

verus! {

/// A charging station as the ledger records it. Nothing keeps
/// `battery_level` below `max_capacity`: a report records what it is given,
/// and a settlement adds what was won.
#[derive(Debug, PartialEq, Eq)]
pub struct Station {
    /// Who signed the latest report.
    pub auth: Pubkey,
    /// The station's name on the ledger.
    pub id: String,
    /// Millionths of a degree.
    pub latitude: i64,
    /// Millionths of a degree.
    pub longitude: i64,
    /// Fixed-point energy units.
    pub max_capacity: u64,
    /// Fixed-point energy units.
    pub battery_level: u64,
    /// The one auction slot: empty, or the latest auction in any state.
    pub auction: Option<Auction>,
}

/// A station as a mathematical value.
pub ghost struct StationView {
    pub auth: Pubkey,
    pub id: Seq<char>,
    pub latitude: i64,
    pub longitude: i64,
    pub max_capacity: u64,
    pub battery_level: u64,
    pub auction: Option<AuctionView>,
}

/// Where the auction of a station stands at a given time.
#[derive(Clone, Copy, Debug, PartialEq, Eq, Structural)]
pub enum AuctionState {
    /// The station holds no auction.
    Closed,
    /// The auction is ongoing and its window is not over.
    Open,
    /// The auction is ongoing, its window is over, and it awaits settlement.
    ExpiredUnsettled,
    /// The auction has been settled; nothing more happens to it.
    Settled,
}

impl View for Station {
    type V = StationView;

    open spec fn view(&self) -> StationView {
        StationView {
            auth: self.auth,
            id: self.id@,
            latitude: self.latitude,
            longitude: self.longitude,
            max_capacity: self.max_capacity,
            battery_level: self.battery_level,
            auction: match self.auction {
                Some(auction) => Some(auction@),
                None => None,
            },
        }
    }
}

impl StationView {
    /// The state of the station's auction at `now`.
    pub open spec fn auction_state(self, now: u64) -> AuctionState {
        match self.auction {
            None => AuctionState::Closed,
            Some(auction) => if !auction.ongoing {
                AuctionState::Settled
            } else if auction.expired(now) {
                AuctionState::ExpiredUnsettled
            } else {
                AuctionState::Open
            },
        }
    }

    /// The energy that settling the station's auction at `now` would add to
    /// the battery: nothing unless the auction is due.
    pub open spec fn payout(self, now: u64) -> nat {
        match self.auction {
            Some(auction) => auction.payout(now),
            None => 0,
        }
    }

    /// The station's auction, if it holds one, is well formed.
    pub open spec fn wf(self) -> bool {
        self.auction matches Some(auction) ==> auction.wf()
    }

    /// The station with a fresh auction in its slot, replacing what was there.
    pub open spec fn with_new_auction(self, req_charge: u64, timestamp: u64) -> StationView {
        StationView { auction: Some(AuctionView::opened(req_charge, timestamp)), ..self }
    }

    /// The station after an attempt to settle its auction at `now`: a due
    /// auction is settled and what it won is added to the battery; otherwise
    /// nothing changes. Meant for stations whose battery level can take the
    /// addition, which is what [`crate::report::finalize_auction`] asks for.
    pub open spec fn finalized(self, now: u64) -> StationView {
        match self.auction {
            Some(auction) => StationView {
                battery_level: (self.battery_level + auction.payout(now)) as u64,
                auction: Some(auction.settled_at(now)),
                ..self
            },
            None => self,
        }
    }
}

/// Opening an auction and settling one keep a station well formed.
pub proof fn lemma_auction_slot_wf(station: StationView, req_charge: u64, now: u64)
    requires
        station.wf(),
    ensures
        station.with_new_auction(req_charge, now).wf(),
        station.finalized(now).wf(),
{
    if let Some(auction) = station.auction {
        lemma_settled_wf(auction, now);
    }
}

/// In a well-formed station the winners of the auction never supply more
/// than the auction asked for.
pub proof fn lemma_station_winners_within_request(station: StationView)
    requires
        station.wf(),
    ensures
        station.auction matches Some(auction) ==> total_amount(auction.winning_bids)
            <= auction.req_charge,
{
    if let Some(auction) = station.auction {
        lemma_winners_within_request(auction);
    }
}

/// Unless its auction is due, an attempt to settle leaves a station as it is.
pub proof fn lemma_finalize_only_when_due(station: StationView, now: u64)
    requires
        station.auction_state(now) != AuctionState::ExpiredUnsettled,
    ensures
        station.finalized(now) == station,
{
}

/// Settling a station's auction twice is settling it once: the second
/// attempt, whenever it comes, changes neither battery nor auction.
pub proof fn lemma_finalize_idempotent(station: StationView, first: u64, second: u64)
    requires
        station.auction_state(first) == AuctionState::ExpiredUnsettled,
    ensures
        station.finalized(first).auction_state(second) == AuctionState::Settled,
        station.finalized(first).finalized(second) == station.finalized(first),
{
}

impl Station {
    /// The energy that settling the station's auction at `now` would add to
    /// the battery.
    pub fn payout(&self, now: u64) -> (total: u64)
        ensures
            total == self@.payout(now),
    {
        match &self.auction {
            Some(auction) => auction.payout(now),
            None => 0,
        }
    }

    /// Computes [`StationView::auction_state`].
    pub fn auction_state(&self, now: u64) -> (state: AuctionState)
        ensures
            state == self@.auction_state(now),
    {
        match &self.auction {
            None => AuctionState::Closed,
            Some(auction) => {
                if !auction.ongoing {
                    AuctionState::Settled
                } else if auction.is_expired(now) {
                    AuctionState::ExpiredUnsettled
                } else {
                    AuctionState::Open
                }
            },
        }
    }
}

} // verus!
