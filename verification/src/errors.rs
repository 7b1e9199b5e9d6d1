//! Why a request against an auction is turned down.

use vstd::prelude::*;

verus! {

/// The reasons for which a bid is not admitted. A request that is turned down
/// leaves the station as it was; the reason is handed to the caller, who may
/// fail on it or merely log it.
#[derive(Clone, Copy, Debug, PartialEq, Eq, Structural)]
pub enum AuctionError {
    /// The station holds no auction.
    NoActiveAuction,
    /// The station's auction has been settled.
    AuctionClosed,
    /// The bid arrived before the auction opened.
    SubmissionWindowViolation,
    /// The bid offers no energy.
    InvalidBidAmount,
}

} // verus!
