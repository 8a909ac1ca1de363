//! Auction lifecycle: the effective status of an auction is derived from the
//! clock and the auction's bidding window, except that a manual `Cancelled`
//! is terminal and always wins. The stored `status` field of a non-cancelled
//! auction is only a cache of this computation.

use vstd::prelude::*;

use crate::domain::Auction;
use crate::domain::AuctionStatus;

verus! {

/// Status an auction effectively has at time `now`: `Cancelled` is sticky;
/// otherwise the bidding window, inclusive at both ends, decides.
pub open spec fn status_at(a: Auction, now: i64) -> AuctionStatus {
    if a.status is Cancelled {
        AuctionStatus::Cancelled
    } else if now < a.start_time {
        AuctionStatus::Pending
    } else if now <= a.end_time {
        AuctionStatus::Active
    } else {
        AuctionStatus::Ended
    }
}

/// An auction accepts bids at `now` exactly when it is effectively `Active`.
pub open spec fn biddable_at(a: Auction, now: i64) -> bool {
    status_at(a, now) is Active
}

/// Recomputes the effective status of `a` at time `now`.
pub fn effective_status(a: &Auction, now: i64) -> (s: AuctionStatus)
    ensures
        s == status_at(*a, now),
{
    if a.status == AuctionStatus::Cancelled {
        AuctionStatus::Cancelled
    } else if now < a.start_time {
        AuctionStatus::Pending
    } else if now <= a.end_time {
        AuctionStatus::Active
    } else {
        AuctionStatus::Ended
    }
}

/// True exactly when a bid may be placed on `a` at time `now`: at or after
/// `start_time`, at or before `end_time`, and not cancelled.
pub fn is_biddable(a: &Auction, now: i64) -> (b: bool)
    ensures
        b == biddable_at(*a, now),
{
    effective_status(a, now) == AuctionStatus::Active
}

} // verus!
