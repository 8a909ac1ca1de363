//! Validation rules of the bidding engine: the floor a new bid must beat and
//! the ordered checks a bid attempt passes before it may be committed.
//!
//! The checks run in a fixed order and the first failing one wins, so a
//! failed validation has no side effects and reports a single rejection.

use vstd::prelude::*;

use crate::domain::Auction;
use crate::domain::BidRejection;
use crate::lifecycle::biddable_at;
use crate::lifecycle::is_biddable;

verus! {

/// The floor a new bid must strictly exceed: the current highest bid, or the
/// starting bid while no bid has been accepted.
pub open spec fn floor_of(a: Auction) -> u64 {
    match a.current_highest_bid {
        Some(m) => m,
        None => a.starting_bid,
    }
}

/// Outcome of validating a bid of `amount` by `bidder_id` against auction
/// `a` at time `now`, with the checks in their fixed order: the bidding
/// window first, then positivity of the amount, then the floor, then the
/// no-self-outbid rule.
pub open spec fn bid_decision(a: Auction, now: i64, bidder_id: u64, amount: u64) -> Result<
    (),
    BidRejection,
> {
    if !biddable_at(a, now) {
        Err(BidRejection::AuctionNotActive)
    } else if amount == 0 {
        Err(BidRejection::InvalidAmount)
    } else if amount <= floor_of(a) {
        Err(BidRejection::BidTooLow { minimum: floor_of(a) })
    } else if a.highest_bidder_id == Some(bidder_id) {
        Err(BidRejection::AlreadyHighestBidder)
    } else {
        Ok(())
    }
}

/// Computes the floor of `a`.
pub fn floor(a: &Auction) -> (m: u64)
    ensures
        m == floor_of(*a),
{
    match a.current_highest_bid {
        Some(m) => m,
        None => a.starting_bid,
    }
}

/// Runs the ordered validation checks for a bid of `amount` by `bidder_id`
/// against `a` at time `now`; returns the first failing check's rejection,
/// or `Ok` when the bid may be committed.
pub fn validate_bid(a: &Auction, now: i64, bidder_id: u64, amount: u64) -> (r: Result<
    (),
    BidRejection,
>)
    ensures
        r == bid_decision(*a, now, bidder_id, amount),
{
    if !is_biddable(a, now) {
        Err(BidRejection::AuctionNotActive)
    } else if amount == 0 {
        Err(BidRejection::InvalidAmount)
    } else {
        let m = floor(a);
        if amount <= m {
            Err(BidRejection::BidTooLow { minimum: m })
        } else {
            let same_bidder = match a.highest_bidder_id {
                Some(b) => b == bidder_id,
                None => false,
            };
            if same_bidder {
                Err(BidRejection::AlreadyHighestBidder)
            } else {
                Ok(())
            }
        }
    }
}

/// A bid outside the bidding window is always rejected as
/// `AuctionNotActive`, whatever its amount: before `start_time`, after
/// `end_time`, and on a cancelled auction.
pub proof fn lemma_window_enforcement(a: Auction, now: i64, bidder_id: u64, amount: u64)
    requires
        !biddable_at(a, now),
    ensures
        bid_decision(a, now, bidder_id, amount) == Err::<(), BidRejection>(
            BidRejection::AuctionNotActive,
        ),
{
}

/// The bidder holding the highest bid can never have another bid accepted
/// on the same auction; when every other check passes, the rejection is
/// `AlreadyHighestBidder`.
pub proof fn lemma_no_self_outbid(a: Auction, now: i64, bidder_id: u64, amount: u64)
    requires
        a.wf(),
        a.highest_bidder_id == Some(bidder_id),
    ensures
        bid_decision(a, now, bidder_id, amount) is Err,
        biddable_at(a, now) && amount > floor_of(a) ==> bid_decision(a, now, bidder_id, amount)
            == Err::<(), BidRejection>(BidRejection::AlreadyHighestBidder),
{
}

} // verus!
