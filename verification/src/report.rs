//! Handling a station's telemetry report: the readings are recorded, and the
//! station's auction is settled if it is due, or opened if the station has
//! none and its battery is low.

use crate::auction::Auction;
use anchor_lang::prelude::Pubkey;
use crate::deficit::{battery_deficit_pct, charge_for_deficit, deficit_pct, deficit_triggers};
use crate::deficit::{DEFICIT_THRESHOLD_PCT, UNIT};
use crate::station::{lemma_auction_slot_wf, AuctionState, Station, StationView};
use vstd::prelude::*;

verus! {

/// What a station reports about itself.
#[derive(Debug, PartialEq, Eq)]
pub struct CreateBateryReportArgs {
    pub id: String,
    pub latitude: i64,
    pub longitude: i64,
    pub max_capacity: u64,
    pub battery_level: u64,
}

/// What a report did to the station's auction.
#[derive(Clone, Copy, Debug, PartialEq, Eq, Structural)]
pub enum ReportOutcome {
    /// Only the readings were recorded.
    Recorded,
    /// An auction that was due has been settled.
    AuctionSettled,
    /// An auction has been opened to make up for the deficit.
    AuctionOpened,
}

impl StationView {
    /// The station with the readings of a report by `signer` written over
    /// its own. The auction slot is not touched.
    pub open spec fn recorded(self, signer: Pubkey, args: CreateBateryReportArgs) -> StationView {
        StationView {
            auth: signer,
            id: args.id@,
            latitude: args.latitude,
            longitude: args.longitude,
            max_capacity: args.max_capacity,
            battery_level: args.battery_level,
            auction: self.auction,
        }
    }

    /// What a report at `now` does once the readings are recorded: it
    /// settles a due auction, or opens one on an empty slot if the deficit
    /// calls for it, never both. A settled auction stays in its slot, so no
    /// further auction opens for the station while it is there.
    pub open spec fn report_outcome(self, now: u64) -> ReportOutcome {
        match self.auction_state(now) {
            AuctionState::ExpiredUnsettled => ReportOutcome::AuctionSettled,
            AuctionState::Closed => if deficit_triggers(self.max_capacity, self.battery_level) {
                ReportOutcome::AuctionOpened
            } else {
                ReportOutcome::Recorded
            },
            _ => ReportOutcome::Recorded,
        }
    }

    /// The station after a report by `signer` at `now`.
    pub open spec fn reported(
        self,
        signer: Pubkey,
        args: CreateBateryReportArgs,
        now: u64,
    ) -> StationView {
        let recorded = self.recorded(signer, args);
        match recorded.report_outcome(now) {
            ReportOutcome::AuctionSettled => recorded.finalized(now),
            ReportOutcome::AuctionOpened => recorded.with_new_auction(
                charge_for_deficit(
                    deficit_pct(recorded.max_capacity, recorded.battery_level) as u64,
                ),
                now,
            ),
            ReportOutcome::Recorded => recorded,
        }
    }
}

/// A report keeps a station well formed.
pub proof fn lemma_reported_wf(
    station: StationView,
    signer: Pubkey,
    args: CreateBateryReportArgs,
    now: u64,
)
    requires
        station.wf(),
    ensures
        station.reported(signer, args, now).wf(),
{
    let recorded = station.recorded(signer, args);
    lemma_auction_slot_wf(
        recorded,
        charge_for_deficit(deficit_pct(recorded.max_capacity, recorded.battery_level) as u64),
        now,
    );
}

/// Puts a fresh auction for `req_charge` units, opened at `timestamp`, in
/// the station's slot.
pub fn create_auction(station: &mut Station, req_charge: u64, timestamp: u64)
    ensures
        final(station)@ == old(station)@.with_new_auction(req_charge, timestamp),
{
    station.auction = Some(Auction::new(req_charge, timestamp));
}

/// Settles the station's auction if it is due at `timestamp` and adds the
/// energy won to the battery. A station whose auction is not due, or which
/// has none, is left as it is.
pub fn finalize_auction(station: &mut Station, timestamp: u64)
    requires
        old(station)@.battery_level + old(station)@.payout(timestamp) <= u64::MAX,
    ensures
        final(station)@ == old(station)@.finalized(timestamp),
{
    let total: u64 = match &mut station.auction {
        Some(auction) => auction.settle(timestamp),
        None => 0,
    };
    if total > 0 {
        station.battery_level = station.battery_level + total;
    }
}

/// Records the report of `signer` and acts on the station's auction as the
/// time `now` and the reported deficit call for.
pub fn battery_report(
    station: &mut Station,
    signer: Pubkey,
    args: CreateBateryReportArgs,
    now: u64,
) -> (outcome: ReportOutcome)
    requires
        args.battery_level + old(station)@.payout(now) <= u64::MAX,
    ensures
        final(station)@ == old(station)@.reported(signer, args, now),
        outcome == old(station)@.recorded(signer, args).report_outcome(now),
{
    station.auth = signer;
    station.id = args.id;
    station.latitude = args.latitude;
    station.longitude = args.longitude;
    station.max_capacity = args.max_capacity;
    station.battery_level = args.battery_level;

    match station.auction_state(now) {
        AuctionState::ExpiredUnsettled => {
            finalize_auction(station, now);
            ReportOutcome::AuctionSettled
        },
        AuctionState::Closed => {
            let pct: u64 = battery_deficit_pct(station.max_capacity, station.battery_level);
            if pct >= DEFICIT_THRESHOLD_PCT * UNIT {
                create_auction(station, pct, now);
                ReportOutcome::AuctionOpened
            } else {
                ReportOutcome::Recorded
            }
        },
        _ => ReportOutcome::Recorded,
    }
}

} // verus!
