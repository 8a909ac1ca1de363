use auction_core::domain::AuctionStatus;
use auction_core::domain::AuctionUpdate;
use auction_core::domain::CreateRejection;
use auction_core::domain::DeleteRejection;
use auction_core::domain::UpdateRejection;
use auction_core::house::AuctionHouse;
use auction_core::lifecycle::effective_status;
use auction_core::lifecycle::is_biddable;

fn no_change() -> AuctionUpdate {
    AuctionUpdate { start_time: None, end_time: None, starting_bid: None, status: None }
}

#[test]
fn creation_assigns_fresh_ids_and_pending_status() {
    let mut h = AuctionHouse::new();
    let a = h.create_auction(7, 100, 200, 1000, 10).expect("creation is valid");
    let b = h.create_auction(8, 300, 400, 2000, 11).expect("creation is valid");
    assert_eq!(a.id, 1);
    assert_eq!(b.id, 2);
    assert_eq!(a.status, AuctionStatus::Pending);
    assert_eq!(a.current_highest_bid, None);
    assert_eq!(a.highest_bidder_id, None);
    assert_eq!(a.created_at, 10);
    assert_eq!(a.updated_at, 10);
    assert_eq!(h.auction_count(), 2);
    let listed = h.list_auctions();
    assert_eq!(listed.len(), 2);
    assert_eq!(listed[0], b);
    assert_eq!(listed[1], a);
}

#[test]
fn listing_is_newest_first() {
    let mut h = AuctionHouse::new();
    let a = h.create_auction(7, 100, 200, 1000, 10).expect("creation is valid");
    let b = h.create_auction(8, 300, 400, 2000, 20).expect("creation is valid");
    let c = h.create_auction(9, 500, 600, 3000, 30).expect("creation is valid");
    let listed = h.list_auctions();
    assert_eq!(listed, vec![c, b, a]);
    for w in listed.windows(2) {
        assert!(w[0].created_at >= w[1].created_at);
    }
    // Deletion keeps the remaining rows in the same order.
    h.delete_auction(b.id).expect("an auction without bids can be deleted");
    assert_eq!(h.list_auctions(), vec![c, a]);
}

#[test]
fn creation_rejects_empty_window() {
    let mut h = AuctionHouse::new();
    assert_eq!(h.create_auction(7, 200, 200, 1000, 10), Err(CreateRejection::InvalidWindow));
    assert_eq!(h.create_auction(7, 201, 200, 1000, 10), Err(CreateRejection::InvalidWindow));
    assert_eq!(h.auction_count(), 0);
}

#[test]
fn creation_rejects_zero_starting_bid() {
    let mut h = AuctionHouse::new();
    assert_eq!(h.create_auction(7, 100, 200, 0, 10), Err(CreateRejection::InvalidStartingBid));
    assert_eq!(h.auction_count(), 0);
}

#[test]
fn effective_status_follows_the_clock() {
    let mut h = AuctionHouse::new();
    let a = h.create_auction(7, 100, 200, 1000, 10).expect("creation is valid");
    assert_eq!(effective_status(&a, 99), AuctionStatus::Pending);
    assert_eq!(effective_status(&a, 100), AuctionStatus::Active);
    assert_eq!(effective_status(&a, 200), AuctionStatus::Active);
    assert_eq!(effective_status(&a, 201), AuctionStatus::Ended);
    assert!(!is_biddable(&a, 99));
    assert!(is_biddable(&a, 100));
    assert!(is_biddable(&a, 200));
    assert!(!is_biddable(&a, 201));
}

#[test]
fn cancellation_is_sticky() {
    let mut h = AuctionHouse::new();
    let a = h.create_auction(7, 100, 200, 1000, 10).expect("creation is valid");
    let u = AuctionUpdate { status: Some(AuctionStatus::Cancelled), ..no_change() };
    let a = h.update_auction(a.id, u, 50).expect("cancelling a pending auction is allowed");
    assert_eq!(a.status, AuctionStatus::Cancelled);
    // Inside what would have been the window, it stays cancelled.
    assert_eq!(effective_status(&a, 150), AuctionStatus::Cancelled);
    assert!(!is_biddable(&a, 150));
}

#[test]
fn update_changes_window_and_starting_bid() {
    let mut h = AuctionHouse::new();
    let a = h.create_auction(7, 100, 200, 1000, 10).expect("creation is valid");
    let u = AuctionUpdate {
        start_time: Some(150),
        end_time: Some(300),
        starting_bid: Some(500),
        status: None,
    };
    let a2 = h.update_auction(a.id, u, 20).expect("the update is valid");
    assert_eq!(a2.start_time, 150);
    assert_eq!(a2.end_time, 300);
    assert_eq!(a2.starting_bid, 500);
    assert_eq!(a2.status, AuctionStatus::Pending);
    assert_eq!(a2.updated_at, 20);
    assert_eq!(h.get_auction(a.id), Some(a2));
}

#[test]
fn update_rejects_inverted_window() {
    let mut h = AuctionHouse::new();
    let a = h.create_auction(7, 100, 200, 1000, 10).expect("creation is valid");
    let u = AuctionUpdate { start_time: Some(250), ..no_change() };
    assert_eq!(h.update_auction(a.id, u, 20), Err(UpdateRejection::InvalidWindow));
    assert_eq!(h.get_auction(a.id), Some(a));
}

#[test]
fn update_rejects_zero_starting_bid() {
    let mut h = AuctionHouse::new();
    let a = h.create_auction(7, 100, 200, 1000, 10).expect("creation is valid");
    let u = AuctionUpdate { starting_bid: Some(0), ..no_change() };
    assert_eq!(h.update_auction(a.id, u, 20), Err(UpdateRejection::InvalidStartingBid));
}

#[test]
fn update_rejects_starting_bid_above_current_highest() {
    let mut h = AuctionHouse::new();
    let a = h.create_auction(7, 100, 200, 1000, 10).expect("creation is valid");
    h.place_bid(a.id, 42, 1500, 150).expect("valid bid is accepted");
    let u = AuctionUpdate { starting_bid: Some(1501), ..no_change() };
    assert_eq!(h.update_auction(a.id, u, 151), Err(UpdateRejection::StartingBidAboveHighest));
    // Up to the current highest it is allowed.
    let u = AuctionUpdate { starting_bid: Some(1500), ..no_change() };
    assert!(h.update_auction(a.id, u, 152).is_ok());
}

#[test]
fn update_rejects_manual_status_other_than_cancelled() {
    let mut h = AuctionHouse::new();
    let a = h.create_auction(7, 100, 200, 1000, 10).expect("creation is valid");
    for st in [AuctionStatus::Pending, AuctionStatus::Active, AuctionStatus::Ended] {
        let u = AuctionUpdate { status: Some(st), ..no_change() };
        assert_eq!(h.update_auction(a.id, u, 20), Err(UpdateRejection::InvalidStatusChange));
    }
}

#[test]
fn update_rejects_cancelling_ended_or_cancelled_auctions() {
    let mut h = AuctionHouse::new();
    let a = h.create_auction(7, 100, 200, 1000, 10).expect("creation is valid");
    let cancel = AuctionUpdate { status: Some(AuctionStatus::Cancelled), ..no_change() };
    // Past the window the auction has ended: cancelling is refused.
    assert_eq!(h.update_auction(a.id, cancel, 300), Err(UpdateRejection::InvalidStatusChange));
    // Cancel a second auction while pending, then try again.
    let b = h.create_auction(8, 400, 500, 1000, 301).expect("creation is valid");
    h.update_auction(b.id, cancel, 302).expect("cancelling a pending auction is allowed");
    assert_eq!(h.update_auction(b.id, cancel, 303), Err(UpdateRejection::InvalidStatusChange));
}

#[test]
fn update_of_missing_auction_is_not_found() {
    let mut h = AuctionHouse::new();
    assert_eq!(h.update_auction(9, no_change(), 20), Err(UpdateRejection::NotFound));
}

#[test]
fn delete_requires_an_existing_auction() {
    let mut h = AuctionHouse::new();
    assert_eq!(h.delete_auction(9), Err(DeleteRejection::NotFound));
}

#[test]
fn delete_is_refused_once_bids_exist() {
    let mut h = AuctionHouse::new();
    let a = h.create_auction(7, 100, 200, 1000, 10).expect("creation is valid");
    h.place_bid(a.id, 42, 1500, 150).expect("valid bid is accepted");
    assert_eq!(h.delete_auction(a.id), Err(DeleteRejection::HasBids));
    assert_eq!(h.auction_count(), 1);
    assert_eq!(h.bid_count(), 1);
}

#[test]
fn delete_removes_an_auction_without_bids() {
    let mut h = AuctionHouse::new();
    let a = h.create_auction(7, 100, 200, 1000, 10).expect("creation is valid");
    let b = h.create_auction(8, 100, 200, 1000, 11).expect("creation is valid");
    h.delete_auction(a.id).expect("an auction without bids can be deleted");
    assert_eq!(h.get_auction(a.id), None);
    assert_eq!(h.get_auction(b.id), Some(b));
    // The freed id is not reused.
    let c = h.create_auction(9, 100, 200, 1000, 12).expect("creation is valid");
    assert_eq!(c.id, 3);
}

#[test]
fn ids_left_probe_reports_room() {
    let h = AuctionHouse::new();
    assert!(h.can_create_auction());
}
