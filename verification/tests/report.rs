use anchor_lang::prelude::Pubkey;
use devolt::auction::Auction;
use devolt::bid::Bid;
use devolt::bidding::{place_bid, PlaceBidArgs};
use devolt::deficit::UNIT;
use devolt::report::{battery_report, create_auction, finalize_auction};
use devolt::report::{CreateBateryReportArgs, ReportOutcome};
use devolt::station::{AuctionState, Station};

fn key(tag: u8) -> Pubkey {
    Pubkey::new_from_array([tag; 32])
}

fn bid(tag: u8, amount: u64, price_per_amount: u64) -> Bid {
    Bid { bidder: key(tag), amount, price_per_amount }
}

fn blank() -> Station {
    Station {
        auth: Pubkey::default(),
        id: String::new(),
        latitude: 0,
        longitude: 0,
        max_capacity: 0,
        battery_level: 0,
        auction: None,
    }
}

fn reading(max_capacity: u64, battery_level: u64) -> CreateBateryReportArgs {
    CreateBateryReportArgs {
        id: String::from("station-1"),
        latitude: -23_550_520,
        longitude: -46_633_308,
        max_capacity,
        battery_level,
    }
}

fn recorded(max_capacity: u64, battery_level: u64, auction: Option<Auction>) -> Station {
    Station {
        auth: key(9),
        id: String::from("station-1"),
        latitude: -23_550_520,
        longitude: -46_633_308,
        max_capacity,
        battery_level,
        auction,
    }
}

#[test]
fn report_with_deficit_of_21_percent_opens_an_auction() {
    let mut station = blank();
    let outcome = battery_report(&mut station, key(9), reading(100 * UNIT, 79 * UNIT), 1_000);
    assert_eq!(outcome, ReportOutcome::AuctionOpened);
    assert_eq!(
        station,
        recorded(100 * UNIT, 79 * UNIT, Some(Auction::new(21 * UNIT, 1_000)))
    );
    assert_eq!(station.auction_state(1_000), AuctionState::Open);
}

#[test]
fn report_with_deficit_of_19_percent_opens_none() {
    let mut station = blank();
    let outcome = battery_report(&mut station, key(9), reading(100 * UNIT, 81 * UNIT), 1_000);
    assert_eq!(outcome, ReportOutcome::Recorded);
    assert_eq!(station, recorded(100 * UNIT, 81 * UNIT, None));
    assert_eq!(station.auction_state(1_000), AuctionState::Closed);
}

#[test]
fn report_with_deficit_of_exactly_20_percent_opens_an_auction() {
    let mut station = blank();
    let outcome = battery_report(&mut station, key(9), reading(100 * UNIT, 80 * UNIT), 5);
    assert_eq!(outcome, ReportOutcome::AuctionOpened);
    assert_eq!(station.auction, Some(Auction::new(20 * UNIT, 5)));
}

#[test]
fn report_overwrites_the_readings() {
    let mut station = recorded(10, 10, None);
    station.auth = key(1);
    station.id = String::from("old");
    station.latitude = 1;
    station.longitude = 2;
    let outcome = battery_report(&mut station, key(9), reading(500, 450), 1_000);
    assert_eq!(outcome, ReportOutcome::Recorded);
    assert_eq!(station, recorded(500, 450, None));
}

#[test]
fn report_during_the_window_leaves_the_auction_alone() {
    let mut station = blank();
    battery_report(&mut station, key(9), reading(100 * UNIT, 50 * UNIT), 1_000);
    let outcome = battery_report(&mut station, key(9), reading(100 * UNIT, 10 * UNIT), 1_059);
    assert_eq!(outcome, ReportOutcome::Recorded);
    assert_eq!(
        station,
        recorded(100 * UNIT, 10 * UNIT, Some(Auction::new(50 * UNIT, 1_000)))
    );
}

#[test]
fn report_after_the_window_settles_and_charges_the_battery() {
    let mut station = recorded(100, 50, None);
    create_auction(&mut station, 50, 1_000);
    for (tag, amount, price) in [(1, 30, 5), (2, 30, 3), (3, 40, 4)] {
        let offer = PlaceBidArgs {
            id: String::from("station-1"),
            bidder: key(tag),
            amount,
            price_per_amount: price,
        };
        assert_eq!(place_bid(&mut station, offer, 1_010), Ok(()));
    }
    let outcome = battery_report(&mut station, key(9), reading(100, 50), 1_060);
    assert_eq!(outcome, ReportOutcome::AuctionSettled);
    assert_eq!(station.battery_level, 100);
    let auction = station.auction.as_ref().unwrap();
    assert_eq!(auction.winning_bids, vec![bid(2, 30, 3), bid(3, 20, 4)]);
    assert!(!auction.ongoing);
    assert_eq!(station.auction_state(1_060), AuctionState::Settled);
}

#[test]
fn report_settles_an_auction_without_bids() {
    let mut station = recorded(100, 50, None);
    create_auction(&mut station, 50, 1_000);
    let outcome = battery_report(&mut station, key(9), reading(100, 50), 1_060);
    assert_eq!(outcome, ReportOutcome::AuctionSettled);
    assert_eq!(station.battery_level, 50);
    let auction = station.auction.as_ref().unwrap();
    assert!(auction.winning_bids.is_empty());
    assert!(!auction.ongoing);
}

#[test]
fn report_after_settlement_neither_settles_nor_opens() {
    let mut station = recorded(100, 50, None);
    create_auction(&mut station, 50, 1_000);
    let offer = PlaceBidArgs {
        id: String::from("station-1"),
        bidder: key(1),
        amount: 30,
        price_per_amount: 5,
    };
    assert_eq!(place_bid(&mut station, offer, 1_010), Ok(()));
    assert_eq!(
        battery_report(&mut station, key(9), reading(100, 50), 1_060),
        ReportOutcome::AuctionSettled
    );
    assert_eq!(station.battery_level, 80);
    let outcome = battery_report(&mut station, key(9), reading(100, 10), 2_000);
    assert_eq!(outcome, ReportOutcome::Recorded);
    assert_eq!(station.battery_level, 10);
    let auction = station.auction.as_ref().unwrap();
    assert_eq!(auction.winning_bids, vec![bid(1, 30, 5)]);
    assert_eq!(auction.req_charge, 50);
    assert_eq!(auction.timestamp, 1_000);
    assert!(!auction.ongoing);
}

#[test]
fn finalize_is_a_no_op_once_settled() {
    let mut station = recorded(100, 50, None);
    create_auction(&mut station, 50, 1_000);
    station.auction.as_mut().unwrap().bids = vec![bid(1, 30, 5), bid(2, 30, 3), bid(3, 40, 4)];
    finalize_auction(&mut station, 1_060);
    assert_eq!(station.battery_level, 100);
    let mut settled = Auction::new(50, 1_000);
    settled.ongoing = false;
    settled.bids = vec![bid(2, 30, 3), bid(3, 40, 4), bid(1, 30, 5)];
    settled.winning_bids = vec![bid(2, 30, 3), bid(3, 20, 4)];
    assert_eq!(station, recorded(100, 100, Some(settled)));
    finalize_auction(&mut station, 1_061);
    finalize_auction(&mut station, 99_999);
    assert_eq!(station.battery_level, 100);
    assert_eq!(station.auction.as_ref().unwrap().winning_bids.len(), 2);
}

#[test]
fn finalize_before_the_window_ends_or_without_auction_does_nothing() {
    let mut station = recorded(100, 50, None);
    finalize_auction(&mut station, 1_000);
    assert_eq!(station, recorded(100, 50, None));
    create_auction(&mut station, 50, 1_000);
    station.auction.as_mut().unwrap().bids = vec![bid(1, 30, 5)];
    finalize_auction(&mut station, 1_059);
    let mut open = Auction::new(50, 1_000);
    open.bids = vec![bid(1, 30, 5)];
    assert_eq!(station, recorded(100, 50, Some(open)));
    assert_eq!(station.auction_state(1_059), AuctionState::Open);
    assert_eq!(station.auction_state(1_060), AuctionState::ExpiredUnsettled);
    assert_eq!(station.payout(1_059), 0);
    assert_eq!(station.payout(1_060), 30);
}

#[test]
fn create_auction_replaces_the_slot() {
    let mut station = recorded(100, 50, None);
    create_auction(&mut station, 50, 1_000);
    station.auction.as_mut().unwrap().bids = vec![bid(1, 30, 5)];
    create_auction(&mut station, 7, 2_000);
    assert_eq!(station, recorded(100, 50, Some(Auction::new(7, 2_000))));
}
