use anchor_lang::prelude::Pubkey;
use devolt::auction::Auction;
use devolt::bid::Bid;
use devolt::bidding::{place_bid, PlaceBidArgs};
use devolt::errors::AuctionError;
use devolt::station::Station;

fn key(tag: u8) -> Pubkey {
    Pubkey::new_from_array([tag; 32])
}

fn station(auction: Option<Auction>) -> Station {
    Station {
        auth: key(200),
        id: String::from("station-1"),
        latitude: -23_550_520,
        longitude: -46_633_308,
        max_capacity: 100_000_000,
        battery_level: 40_000_000,
        auction,
    }
}

fn offer(tag: u8, amount: u64, price_per_amount: u64) -> PlaceBidArgs {
    PlaceBidArgs { id: String::from("station-1"), bidder: key(tag), amount, price_per_amount }
}

#[test]
fn bid_joins_an_open_auction() {
    let mut subject = station(Some(Auction::new(50, 1_000)));
    assert_eq!(place_bid(&mut subject, offer(1, 30, 5), 1_000), Ok(()));
    assert_eq!(place_bid(&mut subject, offer(2, 30, 3), 1_030), Ok(()));
    let mut expected = Auction::new(50, 1_000);
    expected.bids.push(Bid { bidder: key(1), amount: 30, price_per_amount: 5 });
    expected.bids.push(Bid { bidder: key(2), amount: 30, price_per_amount: 3 });
    assert_eq!(subject, station(Some(expected)));
}

#[test]
fn bid_without_auction_is_turned_down() {
    let mut subject = station(None);
    assert_eq!(place_bid(&mut subject, offer(1, 30, 5), 1_000), Err(AuctionError::NoActiveAuction));
    assert_eq!(subject, station(None));
}

#[test]
fn bid_on_settled_auction_is_turned_down() {
    let mut settled = Auction::new(50, 1_000);
    settled.settle(1_060);
    assert!(!settled.ongoing);
    let mut subject = station(Some(settled));
    assert_eq!(place_bid(&mut subject, offer(1, 30, 5), 1_061), Err(AuctionError::AuctionClosed));
    let mut unchanged = Auction::new(50, 1_000);
    unchanged.ongoing = false;
    assert_eq!(subject, station(Some(unchanged)));
}

#[test]
fn bid_before_opening_is_turned_down() {
    let mut subject = station(Some(Auction::new(50, 1_000)));
    assert_eq!(
        place_bid(&mut subject, offer(1, 30, 5), 999),
        Err(AuctionError::SubmissionWindowViolation)
    );
    assert_eq!(subject, station(Some(Auction::new(50, 1_000))));
}

#[test]
fn bid_after_the_window_joins_until_settlement() {
    let mut subject = station(Some(Auction::new(50, 1_000)));
    assert_eq!(place_bid(&mut subject, offer(1, 30, 5), 1_060), Ok(()));
    assert_eq!(place_bid(&mut subject, offer(2, 10, 1), 5_000), Ok(()));
    let auction = subject.auction.as_mut().unwrap();
    assert_eq!(auction.bids.len(), 2);
    assert_eq!(auction.settle(5_001), 40);
    assert_eq!(place_bid(&mut subject, offer(3, 10, 1), 5_002), Err(AuctionError::AuctionClosed));
}

#[test]
fn bid_without_energy_is_turned_down() {
    let mut subject = station(Some(Auction::new(50, 1_000)));
    assert_eq!(place_bid(&mut subject, offer(1, 0, 5), 1_010), Err(AuctionError::InvalidBidAmount));
    assert_eq!(subject, station(Some(Auction::new(50, 1_000))));
}

#[test]
fn reasons_are_tested_in_order() {
    let mut closed = Auction::new(50, 1_000);
    closed.ongoing = false;
    let mut subject = station(Some(closed));
    assert_eq!(place_bid(&mut subject, offer(1, 0, 5), 10), Err(AuctionError::AuctionClosed));
    let mut subject = station(Some(Auction::new(50, 1_000)));
    assert_eq!(
        place_bid(&mut subject, offer(1, 0, 5), 10),
        Err(AuctionError::SubmissionWindowViolation)
    );
    let mut subject = station(None);
    assert_eq!(place_bid(&mut subject, offer(1, 0, 5), 10), Err(AuctionError::NoActiveAuction));
}

#[test]
fn submit_on_the_auction_itself() {
    let mut auction = Auction::new(50, 1_000);
    let first = Bid { bidder: key(1), amount: 5, price_per_amount: 2 };
    assert_eq!(auction.submit(first, 1_000), Ok(()));
    assert_eq!(auction.submit(first, 999), Err(AuctionError::SubmissionWindowViolation));
    assert_eq!(auction.bids, vec![first]);
}
