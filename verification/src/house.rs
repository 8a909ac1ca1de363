//! The auction store and the bidding engine that drives it: an in-memory
//! collection of auction rows plus an append-only log of accepted bids.
//!
//! All bids for one auction are serialised through `&mut` access to the
//! house, so the accepted amounts for an auction grow strictly in commit
//! order. Writers that read first and commit later carry a `VersionToken`;
//! a commit against a token that no longer reflects the auction's highest
//! bid is refused as `Conflict`, which is what keeps the read-then-write
//! race from ever accepting a stale bid.

use vstd::prelude::*;

use crate::domain::Auction;
use crate::domain::AuctionStatus;
use crate::domain::AuctionUpdate;
use crate::domain::Bid;
use crate::domain::BidReceipt;
use crate::domain::BidRejection;
use crate::domain::CreateRejection;
use crate::domain::DeleteRejection;
use crate::domain::UpdateRejection;
use crate::engine::bid_decision;
use crate::engine::validate_bid;
use crate::lifecycle::effective_status;
use crate::lifecycle::status_at;

verus! {

/// Opaque witness of an auction's highest-bid state at read time. A commit
/// guarded by a token succeeds only while the auction's highest-bid fields
/// still match what the reader saw; because accepted amounts only grow, a
/// matching token means no bid has committed in between.
#[derive(Clone, Copy, Debug)]
pub struct VersionToken {
    auction_id: u64,
    amount_seen: Option<u64>,
    bidder_seen: Option<u64>,
}

impl VersionToken {
    /// Auction this token was read from.
    pub closed spec fn spec_auction_id(self) -> u64 {
        self.auction_id
    }

    /// Highest-bid amount observed at read time.
    pub closed spec fn spec_amount_seen(self) -> Option<u64> {
        self.amount_seen
    }

    /// Highest bidder observed at read time.
    pub closed spec fn spec_bidder_seen(self) -> Option<u64> {
        self.bidder_seen
    }

    /// Auction this token was read from.
    pub fn auction_id(&self) -> (id: u64)
        ensures
            id == self.spec_auction_id(),
    {
        self.auction_id
    }
}

/// Membership test a bid log is filtered by to yield one auction's bids.
pub open spec fn bid_filter(id: u64) -> spec_fn(Bid) -> bool {
    |b: Bid| b.auction_id == id
}

/// Durable state of the auction subsystem: the auction rows, the append-only
/// bid log, the id counter for new auctions, and the latest clock reading
/// ever handed to a mutating operation.
pub struct AuctionHouse {
    auctions: Vec<Auction>,
    bids: Vec<Bid>,
    next_auction_id: u64,
    last_time: i64,
}

impl AuctionHouse {
    /// The auction rows, in ascending id order.
    pub closed spec fn spec_auctions(self) -> Seq<Auction> {
        self.auctions@
    }

    /// The accepted bids of all auctions, in commit order.
    pub closed spec fn spec_bids(self) -> Seq<Bid> {
        self.bids@
    }

    /// Id the next created auction will receive.
    pub closed spec fn spec_next_auction_id(self) -> u64 {
        self.next_auction_id
    }

    /// Latest clock reading a mutating operation has seen; the clock of the
    /// enclosing service never runs backwards, so callers pass `now` values
    /// that are at least this.
    pub closed spec fn spec_last_time(self) -> i64 {
        self.last_time
    }

    /// Some row carries id `id`.
    pub open spec fn has_auction(self, id: u64) -> bool {
        exists|i: int|
            0 <= i < self.spec_auctions().len() && (#[trigger] self.spec_auctions()[i]).id == id
    }

    /// Index of the row carrying id `id` (meaningful only when present).
    pub open spec fn index_of(self, id: u64) -> int {
        choose|i: int|
            0 <= i < self.spec_auctions().len() && (#[trigger] self.spec_auctions()[i]).id == id
    }

    /// The auction row carrying id `id`, if any.
    pub open spec fn auction_named(self, id: u64) -> Option<Auction> {
        if self.has_auction(id) {
            Some(self.spec_auctions()[self.index_of(id)])
        } else {
            None
        }
    }

    /// The accepted bids of auction `id`, in commit order.
    pub open spec fn bids_of(self, id: u64) -> Seq<Bid> {
        self.spec_bids().filter(bid_filter(id))
    }

    /// `t` still reflects the highest-bid state of its auction.
    pub open spec fn token_current(self, t: VersionToken) -> bool {
        self.auction_named(t.spec_auction_id()) matches Some(a) && a.current_highest_bid
            == t.spec_amount_seen() && a.highest_bidder_id == t.spec_bidder_seen()
    }

    /// Row ids are strictly increasing along the vector, hence unique.
    pub open spec fn ids_sorted(self) -> bool {
        forall|i: int, j: int|
            0 <= i < j < self.spec_auctions().len() ==> (#[trigger] self.spec_auctions()[i]).id < (
            #[trigger] self.spec_auctions()[j]).id
    }

    /// Every row is internally consistent, has an id below the counter, and
    /// was created and last touched no later than the latest clock reading.
    pub open spec fn auctions_wf(self) -> bool {
        forall|i: int|
            0 <= i < self.spec_auctions().len() ==> {
                &&& (#[trigger] self.spec_auctions()[i]).wf()
                &&& self.spec_auctions()[i].id < self.spec_next_auction_id()
                &&& self.spec_auctions()[i].created_at <= self.spec_last_time()
                &&& self.spec_auctions()[i].updated_at <= self.spec_last_time()
            }
    }

    /// Along the vector, rows were created in order: later rows carry
    /// creation times at least as large.
    pub open spec fn creation_ordered(self) -> bool {
        forall|i: int, j: int|
            0 <= i < j < self.spec_auctions().len() ==> (
            #[trigger] self.spec_auctions()[i]).created_at <= (
            #[trigger] self.spec_auctions()[j]).created_at
    }

    /// Bid ids equal their position in the log, amounts are positive, every
    /// bid was placed no later than the latest clock reading, and every bid
    /// belongs to an existing auction.
    pub open spec fn bids_wf(self) -> bool {
        forall|i: int|
            0 <= i < self.spec_bids().len() ==> {
                &&& (#[trigger] self.spec_bids()[i]).id == i
                &&& self.spec_bids()[i].amount > 0
                &&& self.spec_bids()[i].placed_at <= self.spec_last_time()
                &&& self.has_auction(self.spec_bids()[i].auction_id)
            }
    }

    /// For one auction, later accepted bids carry strictly larger amounts
    /// and are placed no earlier.
    pub open spec fn bids_ordered(self) -> bool {
        forall|i: int, j: int|
            0 <= i < j < self.spec_bids().len() && (#[trigger] self.spec_bids()[i]).auction_id == (
            #[trigger] self.spec_bids()[j]).auction_id ==> self.spec_bids()[i].amount
                < self.spec_bids()[j].amount && self.spec_bids()[i].placed_at
                <= self.spec_bids()[j].placed_at
    }

    /// `a`'s denormalised highest-bid fields agree with the bid log: they
    /// name the committed bid with the maximal amount, or nothing when no
    /// bid for `a` exists.
    pub open spec fn auction_highest_ok(self, a: Auction) -> bool {
        match a.current_highest_bid {
            Some(m) => {
                &&& exists|i: int|
                    0 <= i < self.spec_bids().len() && (#[trigger] self.spec_bids()[i]).auction_id
                        == a.id && self.spec_bids()[i].amount == m && Some(
                        self.spec_bids()[i].bidder_id,
                    ) == a.highest_bidder_id
                &&& forall|i: int|
                    0 <= i < self.spec_bids().len() && (#[trigger] self.spec_bids()[i]).auction_id
                        == a.id ==> self.spec_bids()[i].amount <= m
            },
            None => forall|i: int|
                0 <= i < self.spec_bids().len() ==> (#[trigger] self.spec_bids()[i]).auction_id
                    != a.id,
        }
    }

    /// Every row's highest-bid fields agree with the bid log.
    pub open spec fn highest_linked(self) -> bool {
        forall|k: int|
            0 <= k < self.spec_auctions().len() ==> self.auction_highest_ok(
                #[trigger] self.spec_auctions()[k],
            )
    }

    /// Well-formedness of the whole house; established by `new`, preserved
    /// by every operation.
    pub open spec fn wf(self) -> bool {
        &&& self.ids_sorted()
        &&& self.auctions_wf()
        &&& self.creation_ordered()
        &&& self.bids_wf()
        &&& self.bids_ordered()
        &&& self.highest_linked()
    }

    /// Two rows carrying the same id are the same row.
    proof fn lemma_index_unique(self, i: int, j: int)
        requires
            self.ids_sorted(),
            0 <= i < self.spec_auctions().len(),
            0 <= j < self.spec_auctions().len(),
            self.spec_auctions()[i].id == self.spec_auctions()[j].id,
        ensures
            i == j,
    {
    }

    /// An empty house, with the id counter at its start and the clock at its
    /// minimum.
    pub fn new() -> (h: AuctionHouse)
        ensures
            h.wf(),
            h.spec_auctions().len() == 0,
            h.spec_bids().len() == 0,
            h.spec_next_auction_id() == 1,
            h.spec_last_time() == i64::MIN,
    {
        AuctionHouse {
            auctions: Vec::new(),
            bids: Vec::new(),
            next_auction_id: 1,
            last_time: i64::MIN,
        }
    }

    /// Index of the row carrying `id`, if any.
    fn find_index(&self, id: u64) -> (r: Option<usize>)
        requires
            self.ids_sorted(),
        ensures
            match r {
                Some(i) => self.has_auction(id) && 0 <= i < self.spec_auctions().len()
                    && self.spec_auctions()[i as int].id == id && self.index_of(id) == i,
                None => !self.has_auction(id),
            },
    {
        let mut i: usize = 0;
        while i < self.auctions.len()
            invariant
                i <= self.spec_auctions().len(),
                self.ids_sorted(),
                forall|j: int| 0 <= j < i ==> (#[trigger] self.spec_auctions()[j]).id != id,
            decreases self.spec_auctions().len() - i,
        {
            if self.auctions[i].id == id {
                proof {
                    self.lemma_index_unique(self.index_of(id), i as int);
                }
                return Some(i);
            }
            i = i + 1;
        }
        None
    }

    /// Point read: the auction with id `id`, or `None` when no such auction
    /// exists.
    pub fn get_auction(&self, id: u64) -> (r: Option<Auction>)
        requires
            self.wf(),
        ensures
            r == self.auction_named(id),
    {
        match self.find_index(id) {
            Some(i) => Some(self.auctions[i]),
            None => None,
        }
    }

    /// Read for update: the auction with id `id` together with a
    /// `VersionToken` that a later conflict-guarded commit can present.
    pub fn read_for_update(&self, id: u64) -> (r: Option<(Auction, VersionToken)>)
        requires
            self.wf(),
        ensures
            match r {
                Some((a, t)) => {
                    &&& self.auction_named(id) == Some(a)
                    &&& t.spec_auction_id() == id
                    &&& t.spec_amount_seen() == a.current_highest_bid
                    &&& t.spec_bidder_seen() == a.highest_bidder_id
                    &&& self.token_current(t)
                },
                None => self.auction_named(id) is None,
            },
    {
        match self.find_index(id) {
            Some(i) => {
                let a = self.auctions[i];
                let t = VersionToken {
                    auction_id: id,
                    amount_seen: a.current_highest_bid,
                    bidder_seen: a.highest_bidder_id,
                };
                Some((a, t))
            },
            None => None,
        }
    }

    /// Number of auction rows.
    pub fn auction_count(&self) -> (n: usize)
        ensures
            n == self.spec_auctions().len(),
    {
        self.auctions.len()
    }

    /// Number of accepted bids over all auctions.
    pub fn bid_count(&self) -> (n: usize)
        ensures
            n == self.spec_bids().len(),
    {
        self.bids.len()
    }

    /// Latest clock reading a mutating operation has seen; callers obtain
    /// `now` values at or above this from their clock.
    pub fn last_time(&self) -> (t: i64)
        ensures
            t == self.spec_last_time(),
    {
        self.last_time
    }

    /// Outcome of a single conflict-guarded bid attempt: the auction must
    /// still exist, the token must still reflect its highest-bid state, and
    /// the bid must pass the engine's validation against the current row.
    pub open spec fn token_decision(
        self,
        t: VersionToken,
        bidder_id: u64,
        amount: u64,
        now: i64,
    ) -> Result<(), BidRejection> {
        match self.auction_named(t.spec_auction_id()) {
            None => Err(BidRejection::NotFound),
            Some(a) => if !self.token_current(t) {
                Err(BidRejection::Conflict)
            } else {
                bid_decision(a, now, bidder_id, amount)
            },
        }
    }

    /// Outcome `place_bid` owes the caller against the current state: the
    /// engine's validation of the bid against the named auction, or
    /// `NotFound` when no such auction exists.
    pub open spec fn place_decision(
        self,
        auction_id: u64,
        bidder_id: u64,
        amount: u64,
        now: i64,
    ) -> Result<(), BidRejection> {
        match self.auction_named(auction_id) {
            None => Err(BidRejection::NotFound),
            Some(a) => bid_decision(a, now, bidder_id, amount),
        }
    }

    /// Receipt a successful bid of `amount` by `bidder_id` at `now` yields
    /// against this (pre-commit) state.
    pub open spec fn receipt_for(self, auction_id: u64, bidder_id: u64, amount: u64, now: i64) -> BidReceipt {
        BidReceipt {
            bid_id: self.spec_bids().len() as u64,
            auction_id,
            bidder_id,
            amount,
            placed_at: now,
        }
    }
}

/// Relation between the house before and after one committed bid: the bid
/// row is appended as a single new fact, the auction's highest-bid fields
/// and `updated_at` move to the committed values, and nothing else changes.
/// The append and the row update happen in one operation, never separately.
pub open spec fn bid_committed(
    pre: AuctionHouse,
    post: AuctionHouse,
    auction_id: u64,
    bidder_id: u64,
    amount: u64,
    now: i64,
) -> bool {
    let k = pre.index_of(auction_id);
    let a = pre.spec_auctions()[k];
    &&& post.spec_bids() == pre.spec_bids().push(
        (Bid {
            id: pre.spec_bids().len() as u64,
            auction_id,
            bidder_id,
            amount,
            placed_at: now,
        }),
    )
    &&& post.spec_auctions().len() == pre.spec_auctions().len()
    &&& forall|i: int|
        0 <= i < pre.spec_auctions().len() && i != k ==> (#[trigger] post.spec_auctions()[i])
            == pre.spec_auctions()[i]
    &&& post.spec_auctions()[k] == (Auction {
        current_highest_bid: Some(amount),
        highest_bidder_id: Some(bidder_id),
        updated_at: now,
        ..a
    })
    &&& post.auction_named(auction_id) == Some(post.spec_auctions()[k])
    &&& post.spec_next_auction_id() == pre.spec_next_auction_id()
    &&& post.spec_last_time() == now
}

/// Equality of two optional identifiers or amounts.
fn opt_eq(x: Option<u64>, y: Option<u64>) -> (b: bool)
    ensures
        b == (x == y),
{
    match (x, y) {
        (None, None) => true,
        (Some(u), Some(v)) => u == v,
        _ => false,
    }
}

impl AuctionHouse {
    /// One conflict-guarded attempt to place a bid, the commit step of the
    /// engine: if `token` was read from an auction that still exists and
    /// whose highest-bid fields are unchanged, the bid is validated against
    /// the current row and, on success, committed atomically — the bid row
    /// appended and the auction's highest-bid fields updated together.
    /// A stale token is refused as `Conflict` with no other effect, so a
    /// bid that raced against a faster commit is never applied to stale
    /// state. Every rejected attempt leaves the house exactly as it was.
    pub fn place_bid_with_token(
        &mut self,
        token: VersionToken,
        bidder_id: u64,
        amount: u64,
        now: i64,
    ) -> (r: Result<BidReceipt, BidRejection>)
        requires
            old(self).wf(),
            now >= old(self).spec_last_time(),
        ensures
            final(self).wf(),
            match old(self).token_decision(token, bidder_id, amount, now) {
                Err(rej) => r == Err::<BidReceipt, BidRejection>(rej) && *final(self) == *old(self),
                Ok(()) => r == Ok::<BidReceipt, BidRejection>(
                    old(self).receipt_for(token.spec_auction_id(), bidder_id, amount, now),
                ) && bid_committed(
                    *old(self),
                    *final(self),
                    token.spec_auction_id(),
                    bidder_id,
                    amount,
                    now,
                ),
            },
    {
        let id = token.auction_id();
        match self.find_index(id) {
            None => Err(BidRejection::NotFound),
            Some(k) => {
                let a = self.auctions[k];
                if !opt_eq(a.current_highest_bid, token.amount_seen) || !opt_eq(
                    a.highest_bidder_id,
                    token.bidder_seen,
                ) {
                    return Err(BidRejection::Conflict);
                }
                match validate_bid(&a, now, bidder_id, amount) {
                    Err(rej) => Err(rej),
                    Ok(()) => {
                        let bid_id = self.bids.len() as u64;
                        let bid = Bid { id: bid_id, auction_id: id, bidder_id, amount, placed_at: now };
                        let updated = Auction {
                            current_highest_bid: Some(amount),
                            highest_bidder_id: Some(bidder_id),
                            updated_at: now,
                            ..a
                        };
                        self.bids.push(bid);
                        self.auctions.set(k, updated);
                        self.last_time = now;
                        proof {
                            old(self).lemma_commit_wf(*self, k as int, bidder_id, amount, now);
                        }
                        Ok(BidReceipt { bid_id, auction_id: id, bidder_id, amount, placed_at: now })
                    },
                }
            },
        }
    }

    /// A commit that appends one validated bid and updates the one auction
    /// row it belongs to preserves every invariant of the house.
    proof fn lemma_commit_wf(self, post: AuctionHouse, k: int, bidder_id: u64, amount: u64, now: i64)
        requires
            self.wf(),
            now >= self.spec_last_time(),
            self.spec_bids().len() <= u64::MAX,
            0 <= k < self.spec_auctions().len(),
            bid_decision(self.spec_auctions()[k], now, bidder_id, amount) is Ok,
            post.spec_bids() == self.spec_bids().push(
                (Bid {
                    id: self.spec_bids().len() as u64,
                    auction_id: self.spec_auctions()[k].id,
                    bidder_id,
                    amount,
                    placed_at: now,
                }),
            ),
            post.spec_auctions() == self.spec_auctions().update(
                k,
                (Auction {
                    current_highest_bid: Some(amount),
                    highest_bidder_id: Some(bidder_id),
                    updated_at: now,
                    ..self.spec_auctions()[k]
                }),
            ),
            post.spec_next_auction_id() == self.spec_next_auction_id(),
            post.spec_last_time() == now,
        ensures
            post.wf(),
            bid_committed(self, post, self.spec_auctions()[k].id, bidder_id, amount, now),
    {
        let a = self.spec_auctions()[k];
        let id = a.id;
        let newbid = Bid {
            id: self.spec_bids().len() as u64,
            auction_id: id,
            bidder_id,
            amount,
            placed_at: now,
        };
        let updated = Auction {
            current_highest_bid: Some(amount),
            highest_bidder_id: Some(bidder_id),
            updated_at: now,
            ..a
        };
        let n = self.spec_bids().len() as int;

        // The engine accepted the bid, so the amount beats the floor.
        assert(amount > 0);
        assert(amount > crate::engine::floor_of(a));

        // Row ids are untouched, so lookups and sortedness carry over.
        assert(forall|i: int|
            0 <= i < post.spec_auctions().len() ==> (#[trigger] post.spec_auctions()[i]).id
                == self.spec_auctions()[i].id);
        assert(post.ids_sorted());
        assert forall|x: u64| self.has_auction(x) implies post.has_auction(x) by {
            let i = choose|i: int|
                0 <= i < self.spec_auctions().len() && (#[trigger] self.spec_auctions()[i]).id
                    == x;
            assert(post.spec_auctions()[i].id == x);
        }
        assert(self.index_of(id) == k) by {
            self.lemma_index_unique(self.index_of(id), k);
        }
        assert(post.spec_auctions()[k].id == id);
        assert(post.has_auction(id));
        assert(post.index_of(id) == k) by {
            post.lemma_index_unique(post.index_of(id), k);
        }

        // The updated row stays internally consistent: the committed amount
        // is at or above the starting bid because it beat the floor.
        assert(updated.wf());
        assert(post.auctions_wf());

        // The new bid sits at the end of the log with the next id, and the
        // older bids' auctions are all still present.
        assert(newbid.id == n);
        assert(post.spec_bids()[n] == newbid);
        assert(post.spec_auctions()[k].id == id);
        assert(post.has_auction(id));
        assert(post.bids_wf());

        // Amounts for this auction stay strictly increasing: every older
        // bid for it is bounded by the old highest, which the new amount
        // strictly exceeds.
        assert(self.auction_highest_ok(a));
        assert forall|i: int, j: int|
            0 <= i < j < post.spec_bids().len() && (#[trigger] post.spec_bids()[i]).auction_id == (
            #[trigger] post.spec_bids()[j]).auction_id implies post.spec_bids()[i].amount
            < post.spec_bids()[j].amount && post.spec_bids()[i].placed_at
            <= post.spec_bids()[j].placed_at by {
            if j < n {
                assert(self.spec_bids()[i].amount < self.spec_bids()[j].amount);
            } else {
                assert(post.spec_bids()[j] == newbid);
                assert(self.spec_bids()[i].auction_id == id);
                assert(self.spec_bids()[i].amount <= crate::engine::floor_of(a));
            }
        }
        assert(post.bids_ordered());

        // Each row's highest-bid fields still agree with the log: the
        // updated row names the new bid, and the new bid belongs to no
        // other row because row ids are unique.
        assert forall|r: int| 0 <= r < post.spec_auctions().len() implies post.auction_highest_ok(
            #[trigger] post.spec_auctions()[r],
        ) by {
            if r == k {
                assert(post.spec_bids()[n] == newbid);
                assert forall|i: int|
                    0 <= i < post.spec_bids().len() && (#[trigger] post.spec_bids()[i]).auction_id
                        == updated.id implies post.spec_bids()[i].amount <= amount by {
                    if i < n {
                        assert(self.spec_bids()[i].amount <= crate::engine::floor_of(a));
                    }
                }
            } else {
                let b = self.spec_auctions()[r];
                assert(post.spec_auctions()[r] == b);
                assert(b.id != id) by {
                    if b.id == id {
                        self.lemma_index_unique(r, k);
                    }
                }
                assert(self.auction_highest_ok(b));
                match b.current_highest_bid {
                    Some(m) => {
                        let w = choose|i: int|
                            0 <= i < self.spec_bids().len() && (
                            #[trigger] self.spec_bids()[i]).auction_id == b.id
                                && self.spec_bids()[i].amount == m && Some(
                                self.spec_bids()[i].bidder_id,
                            ) == b.highest_bidder_id;
                        assert(post.spec_bids()[w] == self.spec_bids()[w]);
                    },
                    None => {},
                }
            }
        }
        assert(post.highest_linked());
    }

    /// Place a bid: read the auction's current state, validate the bid
    /// against it, and commit under the conflict guard, retrying from a
    /// fresh read up to `RETRY_ATTEMPTS` times if a commit is refused as
    /// stale. The caller sees exactly the engine's decision against the
    /// state the commit was applied to; within one house the attempts are
    /// serialised, so the first fresh read already commits and `Conflict`
    /// never surfaces here. A rejected bid changes nothing at all.
    pub fn place_bid(&mut self, auction_id: u64, bidder_id: u64, amount: u64, now: i64) -> (r:
        Result<BidReceipt, BidRejection>)
        requires
            old(self).wf(),
            now >= old(self).spec_last_time(),
        ensures
            final(self).wf(),
            match old(self).place_decision(auction_id, bidder_id, amount, now) {
                Err(rej) => r == Err::<BidReceipt, BidRejection>(rej) && *final(self) == *old(self),
                Ok(()) => r == Ok::<BidReceipt, BidRejection>(
                    old(self).receipt_for(auction_id, bidder_id, amount, now),
                ) && bid_committed(*old(self), *final(self), auction_id, bidder_id, amount, now),
            },
    {
        let mut attempts: u64 = 0;
        loop
            invariant
                *self == *old(self),
                old(self).wf(),
                now >= old(self).spec_last_time(),
                attempts < RETRY_ATTEMPTS,
            decreases RETRY_ATTEMPTS - attempts,
        {
            match self.read_for_update(auction_id) {
                None => {
                    return Err(BidRejection::NotFound);
                },
                Some((auction, token)) => {
                    match validate_bid(&auction, now, bidder_id, amount) {
                        Err(rej) => {
                            return Err(rej);
                        },
                        Ok(()) => {
                            match self.place_bid_with_token(token, bidder_id, amount, now) {
                                Ok(receipt) => {
                                    return Ok(receipt);
                                },
                                Err(BidRejection::Conflict) => {
                                    // Another commit moved the highest bid
                                    // between read and commit; revalidate
                                    // against fresh state, boundedly.
                                    attempts = attempts + 1;
                                    if attempts == RETRY_ATTEMPTS {
                                        return Err(BidRejection::Conflict);
                                    }
                                },
                                Err(rej) => {
                                    return Err(rej);
                                },
                            }
                        },
                    }
                },
            }
        }
    }
}

/// How many times `place_bid` revalidates and retries a commit that was
/// refused as stale before surfacing `Conflict`.
pub const RETRY_ATTEMPTS: u64 = 3;

impl AuctionHouse {
    /// The auction row a successful creation at `now` appends, carrying the
    /// next fresh id and no bid yet.
    pub open spec fn created_auction(
        self,
        vehicle_id: u64,
        start_time: i64,
        end_time: i64,
        starting_bid: u64,
        now: i64,
    ) -> Auction {
        Auction {
            id: self.spec_next_auction_id(),
            vehicle_id,
            start_time,
            end_time,
            starting_bid,
            current_highest_bid: None,
            highest_bidder_id: None,
            status: AuctionStatus::Pending,
            created_at: now,
            updated_at: now,
        }
    }

    /// The id counter has room for another auction; `create_auction` asks
    /// for this, and unverified callers test it first.
    pub fn can_create_auction(&self) -> (b: bool)
        ensures
            b == (self.spec_next_auction_id() < u64::MAX),
    {
        self.next_auction_id < u64::MAX
    }

    /// Create an auction: the window must be non-empty and the starting bid
    /// positive. The new auction starts `Pending` with no bid, under a
    /// fresh id no earlier auction ever carried; a rejected creation
    /// changes nothing.
    pub fn create_auction(
        &mut self,
        vehicle_id: u64,
        start_time: i64,
        end_time: i64,
        starting_bid: u64,
        now: i64,
    ) -> (r: Result<Auction, CreateRejection>)
        requires
            old(self).wf(),
            now >= old(self).spec_last_time(),
            old(self).spec_next_auction_id() < u64::MAX,
        ensures
            final(self).wf(),
            !(start_time < end_time) ==> r == Err::<Auction, CreateRejection>(
                CreateRejection::InvalidWindow,
            ) && *final(self) == *old(self),
            start_time < end_time && starting_bid == 0 ==> r == Err::<Auction, CreateRejection>(
                CreateRejection::InvalidStartingBid,
            ) && *final(self) == *old(self),
            start_time < end_time && starting_bid > 0 ==> {
                let a = old(self).created_auction(
                    vehicle_id,
                    start_time,
                    end_time,
                    starting_bid,
                    now,
                );
                &&& r == Ok::<Auction, CreateRejection>(a)
                &&& final(self).spec_auctions() == old(self).spec_auctions().push(a)
                &&& final(self).auction_named(a.id) == Some(a)
                &&& final(self).spec_bids() == old(self).spec_bids()
                &&& final(self).spec_next_auction_id() == old(self).spec_next_auction_id() + 1
                &&& final(self).spec_last_time() == now
            },
    {
        if !(start_time < end_time) {
            return Err(CreateRejection::InvalidWindow);
        }
        if starting_bid == 0 {
            return Err(CreateRejection::InvalidStartingBid);
        }
        let a = Auction {
            id: self.next_auction_id,
            vehicle_id,
            start_time,
            end_time,
            starting_bid,
            current_highest_bid: None,
            highest_bidder_id: None,
            status: AuctionStatus::Pending,
            created_at: now,
            updated_at: now,
        };
        self.auctions.push(a);
        self.next_auction_id = self.next_auction_id + 1;
        self.last_time = now;
        proof {
            let pre = *old(self);
            let post = *self;
            assert forall|x: u64| pre.has_auction(x) implies post.has_auction(x) by {
                let i = choose|i: int|
                    0 <= i < pre.spec_auctions().len() && (#[trigger] pre.spec_auctions()[i]).id
                        == x;
                assert(post.spec_auctions()[i].id == x);
            }
            assert(post.spec_auctions()[pre.spec_auctions().len() as int] == a);
            assert(post.has_auction(a.id));
            assert(post.ids_sorted());
            assert(post.index_of(a.id) == pre.spec_auctions().len() as int) by {
                post.lemma_index_unique(post.index_of(a.id), pre.spec_auctions().len() as int);
            }
            // Every existing bid belongs to a row whose id is below the old
            // counter, so none of them belongs to the new row either.
            assert forall|r: int|
                0 <= r < post.spec_auctions().len() implies post.auction_highest_ok(
                #[trigger] post.spec_auctions()[r],
            ) by {
                if r < pre.spec_auctions().len() {
                    assert(pre.auction_highest_ok(pre.spec_auctions()[r]));
                } else {
                    assert forall|i: int|
                        0 <= i < post.spec_bids().len() implies (
                    #[trigger] post.spec_bids()[i]).auction_id != a.id by {
                        let w = pre.spec_bids()[i].auction_id;
                        assert(pre.has_auction(w));
                        let j = choose|j: int|
                            0 <= j < pre.spec_auctions().len() && (
                            #[trigger] pre.spec_auctions()[j]).id == w;
                        assert(pre.spec_auctions()[j].id < a.id);
                    }
                }
            }
        }
        Ok(a)
    }

    /// The auction row an accepted update yields, or the first rejection in
    /// check order: the resulting window must be non-empty, the resulting
    /// starting bid positive and not above the current highest bid, and the
    /// only manual status override is `Cancelled`, allowed while the
    /// auction is effectively pending or active. An accepted cancellation
    /// is terminal; the highest-bid fields are never touched by an update.
    pub open spec fn update_decision(a: Auction, u: AuctionUpdate, now: i64) -> Result<
        Auction,
        UpdateRejection,
    > {
        let ns = match u.start_time {
            Some(t) => t,
            None => a.start_time,
        };
        let ne = match u.end_time {
            Some(t) => t,
            None => a.end_time,
        };
        let nb = match u.starting_bid {
            Some(m) => m,
            None => a.starting_bid,
        };
        if !(ns < ne) {
            Err(UpdateRejection::InvalidWindow)
        } else if nb == 0 {
            Err(UpdateRejection::InvalidStartingBid)
        } else if a.current_highest_bid matches Some(m) && nb > m {
            Err(UpdateRejection::StartingBidAboveHighest)
        } else if u.status matches Some(st) && !(st is Cancelled) {
            Err(UpdateRejection::InvalidStatusChange)
        } else if u.status is Some && !(status_at(a, now) is Pending || status_at(a, now)
            is Active) {
            Err(UpdateRejection::InvalidStatusChange)
        } else {
            Ok(
                (Auction {
                    start_time: ns,
                    end_time: ne,
                    starting_bid: nb,
                    status: if u.status is Some {
                        AuctionStatus::Cancelled
                    } else {
                        a.status
                    },
                    updated_at: now,
                    ..a
                }),
            )
        }
    }

    /// Apply an administrative update to auction `id`: window, starting bid
    /// and manual cancellation only, as `update_decision` describes. A
    /// rejected update changes nothing; an accepted one replaces that one
    /// row and touches neither the bid log nor any other auction.
    pub fn update_auction(&mut self, id: u64, u: AuctionUpdate, now: i64) -> (r: Result<
        Auction,
        UpdateRejection,
    >)
        requires
            old(self).wf(),
            now >= old(self).spec_last_time(),
        ensures
            final(self).wf(),
            match old(self).auction_named(id) {
                None => r == Err::<Auction, UpdateRejection>(UpdateRejection::NotFound) && *final(self) == *old(self),
                Some(a) => match Self::update_decision(a, u, now) {
                    Err(rej) => r == Err::<Auction, UpdateRejection>(rej) && *final(self) == *old(self),
                    Ok(na) => {
                        &&& r == Ok::<Auction, UpdateRejection>(na)
                        &&& final(self).spec_auctions() == old(self).spec_auctions().update(
                            old(self).index_of(id),
                            na,
                        )
                        &&& final(self).auction_named(id) == Some(na)
                        &&& final(self).spec_bids() == old(self).spec_bids()
                        &&& final(self).spec_next_auction_id() == old(self).spec_next_auction_id()
                        &&& final(self).spec_last_time() == now
                    },
                },
            },
    {
        let k = match self.find_index(id) {
            None => {
                return Err(UpdateRejection::NotFound);
            },
            Some(k) => k,
        };
        let a = self.auctions[k];
        let ns = match u.start_time {
            Some(t) => t,
            None => a.start_time,
        };
        let ne = match u.end_time {
            Some(t) => t,
            None => a.end_time,
        };
        let nb = match u.starting_bid {
            Some(m) => m,
            None => a.starting_bid,
        };
        if !(ns < ne) {
            return Err(UpdateRejection::InvalidWindow);
        }
        if nb == 0 {
            return Err(UpdateRejection::InvalidStartingBid);
        }
        match a.current_highest_bid {
            Some(m) => {
                if nb > m {
                    return Err(UpdateRejection::StartingBidAboveHighest);
                }
            },
            None => {},
        }
        let cancel = match u.status {
            Some(st) => {
                if st != AuctionStatus::Cancelled {
                    return Err(UpdateRejection::InvalidStatusChange);
                }
                let eff = effective_status(&a, now);
                if !(eff == AuctionStatus::Pending || eff == AuctionStatus::Active) {
                    return Err(UpdateRejection::InvalidStatusChange);
                }
                true
            },
            None => false,
        };
        let na = Auction {
            start_time: ns,
            end_time: ne,
            starting_bid: nb,
            status: if cancel {
                AuctionStatus::Cancelled
            } else {
                a.status
            },
            updated_at: now,
            ..a
        };
        self.auctions.set(k, na);
        self.last_time = now;
        proof {
            let pre = *old(self);
            let post = *self;
            assert forall|x: u64| pre.has_auction(x) implies post.has_auction(x) by {
                let i = choose|i: int|
                    0 <= i < pre.spec_auctions().len() && (#[trigger] pre.spec_auctions()[i]).id
                        == x;
                assert(post.spec_auctions()[i].id == x);
            }
            pre.lemma_index_unique(pre.index_of(id), k as int);
            assert(post.spec_auctions()[k as int].id == id);
            assert(post.has_auction(id));
            assert(post.ids_sorted());
            assert(post.index_of(id) == k as int) by {
                post.lemma_index_unique(post.index_of(id), k as int);
            }
            // The update keeps the row's id and highest-bid fields, so the
            // agreement of every row with the untouched bid log carries
            // over unchanged.
            assert(post.spec_bids() == pre.spec_bids());
            assert forall|r: int|
                0 <= r < post.spec_auctions().len() implies post.auction_highest_ok(
                #[trigger] post.spec_auctions()[r],
            ) by {
                let b = pre.spec_auctions()[r];
                assert(pre.auction_highest_ok(b));
                assert(post.spec_auctions()[r].id == b.id);
                assert(post.spec_auctions()[r].current_highest_bid == b.current_highest_bid);
                assert(post.spec_auctions()[r].highest_bidder_id == b.highest_bidder_id);
                match b.current_highest_bid {
                    Some(m) => {
                        let w = choose|i: int|
                            0 <= i < pre.spec_bids().len() && (
                            #[trigger] pre.spec_bids()[i]).auction_id == b.id
                                && pre.spec_bids()[i].amount == m && Some(
                                pre.spec_bids()[i].bidder_id,
                            ) == b.highest_bidder_id;
                        assert(post.spec_bids()[w] == pre.spec_bids()[w]);
                    },
                    None => {},
                }
            }
        }
        Ok(na)
    }

    /// At least one accepted bid names auction `id`.
    pub open spec fn has_bids(self, id: u64) -> bool {
        exists|i: int|
            0 <= i < self.spec_bids().len() && (#[trigger] self.spec_bids()[i]).auction_id == id
    }

    /// Whether any accepted bid names auction `id`.
    pub fn auction_has_bids(&self, id: u64) -> (b: bool)
        ensures
            b == self.has_bids(id),
    {
        let mut i: usize = 0;
        while i < self.bids.len()
            invariant
                i <= self.spec_bids().len(),
                forall|j: int| 0 <= j < i ==> (#[trigger] self.spec_bids()[j]).auction_id != id,
            decreases self.spec_bids().len() - i,
        {
            if self.bids[i].auction_id == id {
                return true;
            }
            i = i + 1;
        }
        false
    }

    /// Delete auction `id`. An auction with accepted bids is never deleted,
    /// so the append-only bid history stays intact; deleting it is refused
    /// as `HasBids`. A rejected deletion changes nothing; an accepted one
    /// removes that one row and nothing else.
    pub fn delete_auction(&mut self, id: u64) -> (r: Result<(), DeleteRejection>)
        requires
            old(self).wf(),
        ensures
            final(self).wf(),
            match old(self).auction_named(id) {
                None => r == Err::<(), DeleteRejection>(DeleteRejection::NotFound) && *final(self)
                    == *old(self),
                Some(_) => if old(self).has_bids(id) {
                    r == Err::<(), DeleteRejection>(DeleteRejection::HasBids) && *final(self)
                        == *old(self)
                } else {
                    &&& r == Ok::<(), DeleteRejection>(())
                    &&& final(self).spec_auctions() == old(self).spec_auctions().remove(
                        old(self).index_of(id),
                    )
                    &&& final(self).auction_named(id) is None
                    &&& final(self).spec_bids() == old(self).spec_bids()
                    &&& final(self).spec_next_auction_id() == old(self).spec_next_auction_id()
                    &&& final(self).spec_last_time() == old(self).spec_last_time()
                },
            },
    {
        let k = match self.find_index(id) {
            None => {
                return Err(DeleteRejection::NotFound);
            },
            Some(k) => k,
        };
        if self.auction_has_bids(id) {
            return Err(DeleteRejection::HasBids);
        }
        self.auctions.remove(k);
        proof {
            let pre = *old(self);
            let post = *self;
            pre.lemma_index_unique(pre.index_of(id), k as int);
            // No other row carried the removed id, so the lookup now
            // comes up empty.
            assert forall|i: int| 0 <= i < post.spec_auctions().len() implies (
            #[trigger] post.spec_auctions()[i]).id != id by {
                if post.spec_auctions()[i].id == id {
                    if i < k {
                        pre.lemma_index_unique(i, k as int);
                    } else {
                        pre.lemma_index_unique(i + 1, k as int);
                    }
                }
            }
            // Every remaining bid belongs to a row other than the removed
            // one, and that row survives at its old or shifted index.
            assert forall|i: int|
                0 <= i < post.spec_bids().len() implies post.has_auction(
                (#[trigger] post.spec_bids()[i]).auction_id,
            ) by {
                let x = pre.spec_bids()[i].auction_id;
                assert(pre.has_auction(x));
                let j = choose|j: int|
                    0 <= j < pre.spec_auctions().len() && (#[trigger] pre.spec_auctions()[j]).id
                        == x;
                assert(x != id);
                assert(j != k);
                if j < k {
                    assert(post.spec_auctions()[j].id == x);
                } else {
                    assert(post.spec_auctions()[j - 1].id == x);
                }
            }
            assert forall|r: int|
                0 <= r < post.spec_auctions().len() implies post.auction_highest_ok(
                #[trigger] post.spec_auctions()[r],
            ) by {
                if r < k {
                    assert(pre.auction_highest_ok(pre.spec_auctions()[r]));
                } else {
                    assert(pre.auction_highest_ok(pre.spec_auctions()[r + 1]));
                }
            }
        }
        Ok(())
    }

    /// All accepted bids of auction `id`, in commit order, which is also
    /// ascending order of amount and of placement time.
    pub fn bids_for_auction(&self, id: u64) -> (r: Vec<Bid>)
        ensures
            r@ == self.bids_of(id),
    {
        let mut out: Vec<Bid> = Vec::new();
        let mut i: usize = 0;
        proof {
            reveal(Seq::filter);
            assert(out@ =~= self.spec_bids().take(0).filter(bid_filter(id)));
        }
        while i < self.bids.len()
            invariant
                i <= self.spec_bids().len(),
                out@ == self.spec_bids().take(i as int).filter(bid_filter(id)),
            decreases self.spec_bids().len() - i,
        {
            let b = self.bids[i];
            proof {
                reveal(Seq::filter);
                assert(self.spec_bids().take(i as int + 1).drop_last() =~= self.spec_bids().take(
                    i as int,
                ));
                assert(self.spec_bids().take(i as int + 1).last() == self.spec_bids()[i as int]);
            }
            if b.auction_id == id {
                out.push(b);
            }
            i = i + 1;
        }
        proof {
            assert(self.spec_bids().take(self.spec_bids().len() as int) =~= self.spec_bids());
        }
        out
    }

    /// A copy of every auction row, newest first: the listing order is
    /// descending creation time, the most recently created auction at the
    /// front.
    pub fn list_auctions(&self) -> (r: Vec<Auction>)
        requires
            self.wf(),
        ensures
            r@ == self.spec_auctions().reverse(),
            forall|i: int, j: int|
                0 <= i < j < r@.len() ==> (#[trigger] r@[i]).created_at >= (
                #[trigger] r@[j]).created_at,
    {
        let mut out: Vec<Auction> = Vec::new();
        let mut i: usize = self.auctions.len();
        while i > 0
            invariant
                i <= self.spec_auctions().len(),
                out@ == self.spec_auctions().subrange(
                    i as int,
                    self.spec_auctions().len() as int,
                ).reverse(),
            decreases i,
        {
            i = i - 1;
            out.push(self.auctions[i]);
            proof {
                assert(out@ =~= self.spec_auctions().subrange(
                    i as int,
                    self.spec_auctions().len() as int,
                ).reverse());
            }
        }
        proof {
            assert(self.spec_auctions().subrange(0, self.spec_auctions().len() as int)
                =~= self.spec_auctions());
        }
        out
    }
}

/// Every element a filter keeps is an element of the underlying sequence.
proof fn lemma_filter_element_source(s: Seq<Bid>, pred: spec_fn(Bid) -> bool, k: int)
    requires
        0 <= k < s.filter(pred).len(),
    ensures
        exists|i: int| 0 <= i < s.len() && s[i] == s.filter(pred)[k],
    decreases s.len(),
{
    reveal(Seq::filter);
    if s.len() > 0 {
        let sub = s.drop_last();
        if pred(s.last()) && k == s.filter(pred).len() - 1 {
            assert(s[s.len() - 1] == s.filter(pred)[k]);
        } else {
            lemma_filter_element_source(sub, pred, k);
            let i = choose|i: int| 0 <= i < sub.len() && sub[i] == sub.filter(pred)[k];
            assert(s[i] == s.filter(pred)[k]);
        }
    }
}

/// Two elements a filter keeps, in order, come from two elements of the
/// underlying sequence in the same order.
proof fn lemma_filter_pair_source(s: Seq<Bid>, pred: spec_fn(Bid) -> bool, k: int, l: int)
    requires
        0 <= k < l < s.filter(pred).len(),
    ensures
        exists|i: int, j: int|
            0 <= i < j < s.len() && s[i] == s.filter(pred)[k] && s[j] == s.filter(pred)[l],
    decreases s.len(),
{
    reveal(Seq::filter);
    if s.len() > 0 {
        let sub = s.drop_last();
        if pred(s.last()) && l == s.filter(pred).len() - 1 {
            lemma_filter_element_source(sub, pred, k);
            let i = choose|i: int| 0 <= i < sub.len() && sub[i] == sub.filter(pred)[k];
            assert(s[i] == s.filter(pred)[k]);
            assert(s[s.len() - 1] == s.filter(pred)[l]);
            assert(0 <= i < s.len() - 1 < s.len());
        } else {
            lemma_filter_pair_source(sub, pred, k, l);
            let (i, j) = choose|i: int, j: int|
                0 <= i < j < sub.len() && sub[i] == sub.filter(pred)[k] && sub[j] == sub.filter(
                    pred,
                )[l];
            assert(s[i] == s.filter(pred)[k] && s[j] == s.filter(pred)[l]);
        }
    }
}

/// For any auction of a well-formed house, the sequence of accepted bids'
/// amounts is strictly increasing in commit order, and their placement
/// times never decrease: no bid is ever accepted at or below an earlier
/// accepted bid for the same auction.
pub proof fn lemma_bid_amounts_increase(h: AuctionHouse, id: u64, k: int, l: int)
    requires
        h.wf(),
        0 <= k < l < h.bids_of(id).len(),
    ensures
        h.bids_of(id)[k].amount < h.bids_of(id)[l].amount,
        h.bids_of(id)[k].placed_at <= h.bids_of(id)[l].placed_at,
{
    let s = h.spec_bids();
    let pred = bid_filter(id);
    s.lemma_filter_pred(pred, k);
    s.lemma_filter_pred(pred, l);
    lemma_filter_pair_source(s, pred, k, l);
    let (i, j) = choose|i: int, j: int|
        0 <= i < j < s.len() && s[i] == s.filter(pred)[k] && s[j] == s.filter(pred)[l];
    assert(s[i].auction_id == s[j].auction_id);
}

/// For any auction of a well-formed house, the denormalised highest-bid
/// fields agree with the bid history: with no accepted bid they are empty,
/// and otherwise `current_highest_bid` is the amount of the latest accepted
/// bid, which is the maximum over all of them, placed by the recorded
/// highest bidder.
pub proof fn lemma_highest_is_latest_and_max(h: AuctionHouse, id: u64)
    requires
        h.wf(),
        h.has_auction(id),
    ensures
        h.auction_named(id) matches Some(a) && match a.current_highest_bid {
            Some(m) => {
                &&& h.bids_of(id).len() > 0
                &&& h.bids_of(id).last().amount == m
                &&& a.highest_bidder_id == Some(h.bids_of(id).last().bidder_id)
                &&& forall|k: int| 0 <= k < h.bids_of(id).len() ==> (#[trigger] h.bids_of(id)[k]).amount <= m
            },
            None => h.bids_of(id).len() == 0,
        },
{
    let s = h.spec_bids();
    let pred = bid_filter(id);
    let f = h.bids_of(id);
    let kk = h.index_of(id);
    let a = h.spec_auctions()[kk];
    assert(h.auction_highest_ok(a));
    match a.current_highest_bid {
        Some(m) => {
            let w = choose|i: int|
                0 <= i < s.len() && (#[trigger] s[i]).auction_id == a.id && s[i].amount == m
                    && Some(s[i].bidder_id) == a.highest_bidder_id;
            s.lemma_filter_contains(pred, w);
            assert(f.contains(s[w]));
            let k = choose|k: int| 0 <= k < f.len() && f[k] == s[w];
            // Every kept bid is bounded by the recorded highest amount.
            assert forall|j: int| 0 <= j < f.len() implies (#[trigger] f[j]).amount <= m by {
                s.lemma_filter_pred(pred, j);
                lemma_filter_element_source(s, pred, j);
                let i = choose|i: int| 0 <= i < s.len() && s[i] == f[j];
                assert(s[i].auction_id == a.id);
            }
            // The bid carrying the highest amount can only sit last, since
            // amounts grow strictly along the kept sequence.
            if k < f.len() - 1 {
                lemma_bid_amounts_increase(h, id, k, f.len() - 1);
                assert(f.last().amount > m);
                assert(false);
            }
            assert(f.last() == s[w]);
        },
        None => {
            if f.len() > 0 {
                s.lemma_filter_pred(pred, 0);
                lemma_filter_element_source(s, pred, 0);
                let i = choose|i: int| 0 <= i < s.len() && s[i] == f[0];
                assert(s[i].auction_id != a.id);
                assert(false);
            }
        },
    }
}

} // verus!
