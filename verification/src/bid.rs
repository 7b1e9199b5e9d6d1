//! The bid model: one offer to supply energy at a price.

use anchor_lang::prelude::Pubkey;
use vstd::prelude::*;

verus! {

/// The ledger's account identity, `anchor_lang::prelude::Pubkey`. Nothing is
/// claimed of its contents: the library only stores and hands on such values.
#[verifier::external_type_specification]
#[verifier::external_body]
pub struct ExPubkey(anchor_lang::prelude::Pubkey);

/// One offer: `bidder` supplies up to `amount` energy units at
/// `price_per_amount` each.
#[derive(Clone, Copy, Debug, PartialEq, Eq)]
pub struct Bid {
    pub bidder: Pubkey,
    pub amount: u64,
    pub price_per_amount: u64,
}

impl Bid {
    /// The same offer cut down to `amount` units.
    pub open spec fn with_amount(self, amount: u64) -> Bid {
        Bid { bidder: self.bidder, amount, price_per_amount: self.price_per_amount }
    }

    /// Cuts the offer down to `remaining` units, keeping bidder and price.
    pub fn split(&self, remaining: u64) -> (part: Bid)
        ensures
            part == self.with_amount(remaining),
    {
        Bid { bidder: self.bidder, amount: remaining, price_per_amount: self.price_per_amount }
    }
}

} // verus!
