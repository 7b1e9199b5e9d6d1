//! One auction and its lifecycle: open for bids, past its window and waiting
//! to be settled, settled.

use crate::bid::Bid;
use crate::errors::AuctionError;
use crate::price_order::{lemma_sort_by_price, price_sorted, sort_bids_by_price, sort_by_price};
use crate::settlement::{accept_bids, accept_in_order, settled_amount, total_amount, winning_bids};
use crate::settlement::{lemma_accepted_total, lemma_settled_amount, lemma_total_amount_take};
use vstd::prelude::*;

verus! {

/// Seconds for which a newly opened auction takes bids.
pub const AUCTION_DURATION: u64 = 60;

/// A reverse auction for `req_charge` units of energy, opened at `timestamp`.
#[derive(Debug, PartialEq, Eq)]
pub struct Auction {
    /// The energy asked for, in fixed-point units.
    pub req_charge: u64,
    /// The second at which the auction opened.
    pub timestamp: u64,
    /// The length of the bidding window in seconds.
    pub duration: u64,
    /// True until the auction is settled.
    pub ongoing: bool,
    /// The bids in submission order; in price order once settled.
    pub bids: Vec<Bid>,
    /// The bids accepted at settlement, in the order of their acceptance.
    pub winning_bids: Vec<Bid>,
}

/// An auction as a mathematical value.
pub ghost struct AuctionView {
    pub req_charge: u64,
    pub timestamp: u64,
    pub duration: u64,
    pub ongoing: bool,
    pub bids: Seq<Bid>,
    pub winning_bids: Seq<Bid>,
}

impl View for Auction {
    type V = AuctionView;

    open spec fn view(&self) -> AuctionView {
        AuctionView {
            req_charge: self.req_charge,
            timestamp: self.timestamp,
            duration: self.duration,
            ongoing: self.ongoing,
            bids: self.bids@,
            winning_bids: self.winning_bids@,
        }
    }
}

impl AuctionView {
    /// A fresh auction: open, no bids, no winners.
    pub open spec fn opened(req_charge: u64, timestamp: u64) -> AuctionView {
        AuctionView {
            req_charge,
            timestamp,
            duration: AUCTION_DURATION,
            ongoing: true,
            bids: Seq::empty(),
            winning_bids: Seq::empty(),
        }
    }

    /// The first second at which the bidding window is over.
    pub open spec fn closes_at(self) -> int {
        self.timestamp + self.duration
    }

    /// `now` lies in the bidding window `[timestamp, timestamp + duration)`.
    pub open spec fn in_window(self, now: u64) -> bool {
        self.timestamp <= now < self.closes_at()
    }

    /// The bidding window is over at `now`.
    pub open spec fn expired(self, now: u64) -> bool {
        now >= self.closes_at()
    }

    /// The auction is past its window and has not been settled.
    pub open spec fn due(self, now: u64) -> bool {
        self.ongoing && self.expired(now)
    }

    /// Whether `bid` is admitted at `now`, and if not, why. The tests are made
    /// in this order: the auction is ongoing; `now` is not before the opening;
    /// the bid offers energy. The end of the window is not tested: until the
    /// auction is settled a late bid is admitted like any other.
    pub open spec fn admission(self, bid: Bid, now: u64) -> Result<(), AuctionError> {
        if !self.ongoing {
            Err(AuctionError::AuctionClosed)
        } else if now < self.timestamp {
            Err(AuctionError::SubmissionWindowViolation)
        } else if bid.amount == 0 {
            Err(AuctionError::InvalidBidAmount)
        } else {
            Ok(())
        }
    }

    /// The auction with `bid` added behind the bids it holds.
    pub open spec fn with_bid(self, bid: Bid) -> AuctionView {
        AuctionView { bids: self.bids.push(bid), ..self }
    }

    /// The auction after settlement: bids in price order, the winners
    /// appended to `winning_bids`, and no longer ongoing.
    pub open spec fn settled(self) -> AuctionView {
        AuctionView {
            ongoing: false,
            bids: sort_by_price(self.bids),
            winning_bids: self.winning_bids + winning_bids(self.bids, self.req_charge),
            ..self
        }
    }

    /// The auction after an attempt to settle it at `now`: settled if it was
    /// due, unchanged otherwise.
    pub open spec fn settled_at(self, now: u64) -> AuctionView {
        if self.due(now) {
            self.settled()
        } else {
            self
        }
    }

    /// The energy that an attempt to settle at `now` yields.
    pub open spec fn payout(self, now: u64) -> nat {
        if self.due(now) {
            settled_amount(self.bids, self.req_charge)
        } else {
            0
        }
    }

    /// What holds of an auction from its opening on, whatever bids it took
    /// and whether or not it was settled: every bid offers energy; an ongoing
    /// auction has no winners; a settled one holds its bids in price order
    /// and, as winners, the bids accepted from them.
    pub open spec fn wf(self) -> bool {
        &&& forall|i: int| 0 <= i < self.bids.len() ==> (#[trigger] self.bids[i]).amount > 0
        &&& self.ongoing ==> self.winning_bids.len() == 0
        &&& !self.ongoing ==> {
            &&& price_sorted(self.bids)
            &&& self.winning_bids == accept_in_order(self.bids, self.req_charge)
        }
    }
}

/// A fresh auction is well formed.
pub proof fn lemma_opened_wf(req_charge: u64, timestamp: u64)
    ensures
        AuctionView::opened(req_charge, timestamp).wf(),
{
}

/// An admitted bid keeps the auction well formed.
pub proof fn lemma_with_bid_wf(auction: AuctionView, bid: Bid, now: u64)
    requires
        auction.wf(),
        auction.admission(bid, now) is Ok,
    ensures
        auction.with_bid(bid).wf(),
{
}

/// Settlement keeps the auction well formed.
pub proof fn lemma_settled_wf(auction: AuctionView, now: u64)
    requires
        auction.wf(),
    ensures
        auction.settled_at(now).wf(),
{
    if auction.due(now) {
        lemma_sort_by_price(auction.bids);
        let sorted = sort_by_price(auction.bids);
        assert(auction.winning_bids + winning_bids(auction.bids, auction.req_charge)
            == accept_in_order(sorted, auction.req_charge));
        assert forall|i: int| 0 <= i < sorted.len() implies (#[trigger] sorted[i]).amount > 0 by {
            assert(auction.bids.contains(sorted[i]));
        }
    }
}

/// The winners of a well-formed auction never supply more than it asked for.
pub proof fn lemma_winners_within_request(auction: AuctionView)
    requires
        auction.wf(),
    ensures
        total_amount(auction.winning_bids) <= auction.req_charge,
{
    if auction.ongoing {
    } else {
        lemma_accepted_total(auction.bids, auction.req_charge);
    }
}

/// A bid is admitted exactly when the auction is ongoing, has opened, and the
/// bid offers energy; so every such bid that arrives within the window is
/// admitted, and none that arrives before the opening.
pub proof fn lemma_admission(auction: AuctionView, bid: Bid, now: u64)
    ensures
        auction.admission(bid, now) is Ok <==> auction.ongoing && auction.timestamp <= now
            && bid.amount > 0,
        auction.ongoing && auction.in_window(now) && bid.amount > 0 ==> auction.admission(bid, now)
            is Ok,
        now < auction.timestamp ==> auction.admission(bid, now) is Err,
{
}

/// A settled auction is final: settling it again changes nothing and
/// yields nothing, and it admits no bid.
pub proof fn lemma_settled_is_final(auction: AuctionView, bid: Bid, now: u64)
    requires
        !auction.ongoing,
    ensures
        auction.settled_at(now) == auction,
        auction.payout(now) == 0,
        auction.admission(bid, now) == Err::<(), AuctionError>(AuctionError::AuctionClosed),
{
}

/// Settling twice is settling once: the second attempt, whenever it comes,
/// appends no winner and yields nothing.
pub proof fn lemma_settle_idempotent(auction: AuctionView, first: u64, second: u64)
    requires
        auction.due(first),
    ensures
        auction.settled_at(first).settled_at(second) == auction.settled_at(first),
        auction.settled_at(first).payout(second) == 0,
{
}

impl Auction {
    /// Opens an auction for `req_charge` units at `timestamp`.
    pub fn new(req_charge: u64, timestamp: u64) -> (auction: Auction)
        ensures
            auction@ == AuctionView::opened(req_charge, timestamp),
    {
        Auction {
            req_charge,
            timestamp,
            duration: AUCTION_DURATION,
            ongoing: true,
            bids: Vec::new(),
            winning_bids: Vec::new(),
        }
    }

    /// Whether the bidding window is over at `now`.
    pub fn is_expired(&self, now: u64) -> (expired: bool)
        ensures
            expired == self@.expired(now),
    {
        now >= self.timestamp && now - self.timestamp >= self.duration
    }

    /// Admits `bid` at `now`, or says why not and leaves the auction alone.
    pub fn submit(&mut self, bid: Bid, now: u64) -> (outcome: Result<(), AuctionError>)
        ensures
            outcome == old(self)@.admission(bid, now),
            outcome is Ok ==> final(self)@ == old(self)@.with_bid(bid),
            outcome is Err ==> final(self)@ == old(self)@,
    {
        if !self.ongoing {
            Err(AuctionError::AuctionClosed)
        } else if now < self.timestamp {
            Err(AuctionError::SubmissionWindowViolation)
        } else if bid.amount == 0 {
            Err(AuctionError::InvalidBidAmount)
        } else {
            self.bids.push(bid);
            Ok(())
        }
    }

    /// The energy that settling at `now` would yield: for a due auction the
    /// smaller of what it asks for and what its bids offer, else nothing.
    pub fn payout(&self, now: u64) -> (total: u64)
        ensures
            total == self@.payout(now),
            total <= self.req_charge,
    {
        if !self.ongoing || !self.is_expired(now) {
            return 0;
        }
        let mut total: u64 = 0;
        let mut next: usize = 0;
        while next < self.bids.len() && total < self.req_charge
            invariant
                next <= self.bids@.len(),
                total <= self.req_charge,
                total == if total_amount(self.bids@.take(next as int)) <= self.req_charge {
                    total_amount(self.bids@.take(next as int))
                } else {
                    self.req_charge as nat
                },
            decreases self.bids@.len() - next,
        {
            let amount: u64 = self.bids[next].amount;
            proof {
                let upto = self.bids@.take(next as int + 1);
                assert(upto.drop_last() == self.bids@.take(next as int));
            }
            if amount >= self.req_charge - total {
                total = self.req_charge;
            } else {
                total = total + amount;
            }
            next = next + 1;
        }
        proof {
            lemma_total_amount_take(self.bids@, next as int);
            assert(self.bids@.take(self.bids@.len() as int) == self.bids@);
            lemma_settled_amount(self.bids@, self.req_charge);
        }
        total
    }

    /// Settles the auction if it is due at `now` and returns the energy won;
    /// any other auction is left alone and yields nothing.
    pub fn settle(&mut self, now: u64) -> (total: u64)
        ensures
            final(self)@ == old(self)@.settled_at(now),
            total == old(self)@.payout(now),
    {
        if !self.ongoing || !self.is_expired(now) {
            return 0;
        }
        sort_bids_by_price(&mut self.bids);
        let (mut accepted, total) = accept_bids(&self.bids, self.req_charge);
        self.winning_bids.append(&mut accepted);
        self.ongoing = false;
        total
    }
}

} // verus!
