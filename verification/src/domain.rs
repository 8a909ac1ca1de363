//! Data model of the auction core: auctions, bids, receipts and the typed
//! rejections of the bidding engine.
//!
//! Amounts are strictly positive integer minor units (a fixed-scale decimal
//! representation of money); timestamps are integer clock ticks; identifiers
//! are opaque integers.

use vstd::prelude::*;

verus! {

/// Lifecycle state of an auction. `Pending`, `Active` and `Ended` follow the
/// clock; `Cancelled` is a manual, terminal override.
#[derive(Clone, Copy, Debug, PartialEq, Eq, Structural)]
pub enum AuctionStatus {
    Pending,
    Active,
    Ended,
    Cancelled,
}

/// One auction row: a time-boxed ascending-bid sale of one vehicle, with a
/// denormalised record of the current highest accepted bid.
#[derive(Clone, Copy, Debug, PartialEq, Eq)]
pub struct Auction {
    pub id: u64,
    /// Foreign key into the vehicle catalog; never dereferenced here.
    pub vehicle_id: u64,
    /// Start of the bidding window (inclusive).
    pub start_time: i64,
    /// End of the bidding window (inclusive).
    pub end_time: i64,
    /// Minimum acceptable first bid; strictly positive.
    pub starting_bid: u64,
    /// Amount of the most recently accepted bid, `None` before the first.
    pub current_highest_bid: Option<u64>,
    /// Bidder of the most recently accepted bid; `None` iff no bid yet.
    pub highest_bidder_id: Option<u64>,
    pub status: AuctionStatus,
    pub created_at: i64,
    pub updated_at: i64,
}

impl Auction {
    /// Internal consistency of a single auction row: a non-empty bidding
    /// window, a positive starting bid, the two highest-bid fields set
    /// together, and any recorded highest bid at or above the starting bid.
    pub open spec fn wf(self) -> bool {
        &&& self.start_time < self.end_time
        &&& self.starting_bid > 0
        &&& (self.current_highest_bid is Some <==> self.highest_bidder_id is Some)
        &&& (self.current_highest_bid matches Some(m) ==> m >= self.starting_bid)
    }
}

/// One accepted bid: an immutable, append-only fact.
#[derive(Clone, Copy, Debug, PartialEq, Eq)]
pub struct Bid {
    pub id: u64,
    pub auction_id: u64,
    pub bidder_id: u64,
    /// Strictly positive amount in minor units.
    pub amount: u64,
    pub placed_at: i64,
}

/// What a successful `place_bid` hands back to the caller: exactly the
/// values that were committed.
#[derive(Clone, Copy, Debug, PartialEq, Eq)]
pub struct BidReceipt {
    pub bid_id: u64,
    pub auction_id: u64,
    pub bidder_id: u64,
    pub amount: u64,
    pub placed_at: i64,
}

/// Typed rejection of a `place_bid` attempt. Every rejection reaches the
/// caller as a value; none is retried except `Conflict`, which the engine
/// retries internally a bounded number of times before surfacing it.
#[derive(Clone, Copy, Debug, PartialEq, Eq, Structural)]
pub enum BidRejection {
    /// No auction with the given id exists.
    NotFound,
    /// The auction is not currently in its bidding window, or is cancelled.
    AuctionNotActive,
    /// The amount is not a positive monetary value.
    InvalidAmount,
    /// The amount does not strictly exceed the floor; carries the floor.
    BidTooLow { minimum: u64 },
    /// The bidder already holds the highest bid on this auction.
    AlreadyHighestBidder,
    /// The auction's highest bid moved between read and commit, and retries
    /// were exhausted.
    Conflict,
}

/// Partial update an administrator may apply to an auction: any subset of
/// the bidding window, the starting bid, and a manual status override.
/// Fields left `None` keep their current value.
#[derive(Clone, Copy, Debug, PartialEq, Eq)]
pub struct AuctionUpdate {
    pub start_time: Option<i64>,
    pub end_time: Option<i64>,
    pub starting_bid: Option<u64>,
    /// The only accepted override is `Cancelled`; the other statuses follow
    /// the clock and cannot be set by hand.
    pub status: Option<AuctionStatus>,
}

/// Typed rejection of an auction creation.
#[derive(Clone, Copy, Debug, PartialEq, Eq, Structural)]
pub enum CreateRejection {
    /// `start_time` does not lie strictly before `end_time`.
    InvalidWindow,
    /// The starting bid is not a positive monetary value.
    InvalidStartingBid,
}

/// Typed rejection of an administrative auction update.
#[derive(Clone, Copy, Debug, PartialEq, Eq, Structural)]
pub enum UpdateRejection {
    /// No auction with the given id exists.
    NotFound,
    /// The resulting `start_time` would not lie strictly before `end_time`.
    InvalidWindow,
    /// The resulting starting bid would not be positive.
    InvalidStartingBid,
    /// The resulting starting bid would exceed the current highest bid.
    StartingBidAboveHighest,
    /// A manual status other than `Cancelled`, or a cancellation of an
    /// auction that is already ended or cancelled.
    InvalidStatusChange,
}

/// Typed rejection of an auction deletion.
#[derive(Clone, Copy, Debug, PartialEq, Eq, Structural)]
pub enum DeleteRejection {
    /// No auction with the given id exists.
    NotFound,
    /// At least one bid has been accepted; the append-only bid history must
    /// be preserved, so such an auction cannot be deleted.
    HasBids,
}

impl BidRejection {
    /// HTTP status code recommended for this rejection: 404 for a missing
    /// auction, 409 for a closed window or a commit conflict, 422 for a
    /// rejected amount or a self-outbid.
    pub fn http_status(&self) -> (code: u16)
        ensures
            code == match *self {
                BidRejection::NotFound => 404u16,
                BidRejection::AuctionNotActive => 409u16,
                BidRejection::InvalidAmount => 422u16,
                BidRejection::BidTooLow { .. } => 422u16,
                BidRejection::AlreadyHighestBidder => 422u16,
                BidRejection::Conflict => 409u16,
            },
    {
        match *self {
            BidRejection::NotFound => 404,
            BidRejection::AuctionNotActive => 409,
            BidRejection::InvalidAmount => 422,
            BidRejection::BidTooLow { .. } => 422,
            BidRejection::AlreadyHighestBidder => 422,
            BidRejection::Conflict => 409,
        }
    }
}

} // verus!
