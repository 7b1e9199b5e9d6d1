//! Greedy allocation: walking the bids in price order, each is accepted whole
//! until the required charge is covered; the bid that would overshoot is cut
//! down to what is still missing.

use crate::bid::Bid;
use crate::price_order::{insert_by_price, lemma_sort_by_price, sort_by_price};
use vstd::prelude::*;

verus! {

/// The energy that `bids` offer together.
pub open spec fn total_amount(bids: Seq<Bid>) -> nat
    decreases bids.len(),
{
    if bids.len() == 0 {
        0
    } else {
        total_amount(bids.drop_last()) + bids.last().amount as nat
    }
}

/// The bids accepted from `queue`, taken front to back, to cover `need`.
pub open spec fn accept_in_order(queue: Seq<Bid>, need: u64) -> Seq<Bid>
    decreases queue.len(),
{
    if queue.len() == 0 || need == 0 {
        Seq::empty()
    } else if queue.first().amount <= need {
        seq![queue.first()] + accept_in_order(
            queue.drop_first(),
            (need - queue.first().amount) as u64,
        )
    } else {
        seq![queue.first().with_amount(need)]
    }
}

/// The bids that win an auction over `bids` that asks for `req_charge`.
pub open spec fn winning_bids(bids: Seq<Bid>, req_charge: u64) -> Seq<Bid> {
    accept_in_order(sort_by_price(bids), req_charge)
}

/// The energy that settling `bids` against `req_charge` hands to the station.
pub open spec fn settled_amount(bids: Seq<Bid>, req_charge: u64) -> nat {
    total_amount(winning_bids(bids, req_charge))
}

/// A single bid offers its own amount.
pub proof fn lemma_total_amount_single(bid: Bid)
    ensures
        total_amount(seq![bid]) == bid.amount,
{
    reveal_with_fuel(total_amount, 2);
    assert(seq![bid].drop_last() == Seq::<Bid>::empty());
}

/// The total of a concatenation is the sum of the totals.
pub proof fn lemma_total_amount_concat(a: Seq<Bid>, b: Seq<Bid>)
    ensures
        total_amount(a + b) == total_amount(a) + total_amount(b),
    decreases b.len(),
{
    if b.len() == 0 {
        assert(a + b == a);
    } else {
        lemma_total_amount_concat(a, b.drop_last());
        assert((a + b).drop_last() == a + b.drop_last());
    }
}

/// Rearranging bids does not change what they offer together.
pub proof fn lemma_total_amount_sorted(bids: Seq<Bid>)
    ensures
        total_amount(sort_by_price(bids)) == total_amount(bids),
    decreases bids.len(),
{
    if bids.len() > 0 {
        lemma_total_amount_sorted(bids.drop_last());
        lemma_total_amount_inserted(sort_by_price(bids.drop_last()), bids.last());
    }
}

proof fn lemma_total_amount_inserted(sorted: Seq<Bid>, bid: Bid)
    ensures
        total_amount(insert_by_price(sorted, bid)) == total_amount(sorted)
            + bid.amount,
    decreases sorted.len(),
{
    if sorted.len() > 0 && sorted.last().price_per_amount > bid.price_per_amount {
        lemma_total_amount_inserted(sorted.drop_last(), bid);
        let inner = insert_by_price(sorted.drop_last(), bid);
        assert(inner.push(sorted.last()).drop_last() == inner);
    } else {
        assert(sorted.push(bid).drop_last() == sorted);
    }
}

/// Never more is accepted than is needed, and never less than is needed
/// while bids are left: the accepted total is the smaller of need and offer.
pub proof fn lemma_accepted_total(queue: Seq<Bid>, need: u64)
    ensures
        total_amount(accept_in_order(queue, need)) == if total_amount(queue) <= need {
            total_amount(queue)
        } else {
            need as nat
        },
    decreases queue.len(),
{
    if queue.len() > 0 {
        let head = queue.first();
        let rest = queue.drop_first();
        assert(queue == seq![head] + rest);
        lemma_total_amount_concat(seq![head], rest);
        lemma_total_amount_single(head);
        if need == 0 {
        } else if head.amount <= need {
            let left = (need - head.amount) as u64;
            lemma_accepted_total(rest, left);
            lemma_total_amount_concat(seq![head], accept_in_order(rest, left));
        } else {
            lemma_total_amount_single(head.with_amount(need));
        }
    }
}

/// The accepted bids are a front part of the queue: the bid at each place is
/// the queued bid at that place, whole for all but the last, which may be cut
/// down; and a queued bid is left out only once the need is covered.
pub proof fn lemma_accepted_prefix(queue: Seq<Bid>, need: u64)
    ensures
        accept_in_order(queue, need).len() <= queue.len(),
        forall|i: int|
            0 <= i < accept_in_order(queue, need).len() ==> {
                &&& #[trigger] accept_in_order(queue, need)[i] == queue[i].with_amount(
                    accept_in_order(queue, need)[i].amount,
                )
                &&& accept_in_order(queue, need)[i].amount <= queue[i].amount
            },
        forall|i: int|
            0 <= i < accept_in_order(queue, need).len() - 1 ==> #[trigger] accept_in_order(
                queue,
                need,
            )[i] == queue[i],
        accept_in_order(queue, need).len() < queue.len() ==> total_amount(
            accept_in_order(queue, need),
        ) == need,
    decreases queue.len(),
{
    let accepted = accept_in_order(queue, need);
    if queue.len() == 0 || need == 0 {
    } else if queue.first().amount <= need {
        let left = (need - queue.first().amount) as u64;
        let rest = queue.drop_first();
        lemma_accepted_prefix(rest, left);
        let tail = accept_in_order(rest, left);
        assert(accepted == seq![queue.first()] + tail);
        assert forall|i: int| 0 <= i < accepted.len() implies {
            &&& #[trigger] accepted[i] == queue[i].with_amount(accepted[i].amount)
            &&& accepted[i].amount <= queue[i].amount
        } by {
            if i > 0 {
                assert(accepted[i] == tail[i - 1]);
                assert(queue[i] == rest[i - 1]);
            }
        }
        assert forall|i: int| 0 <= i < accepted.len() - 1 implies #[trigger] accepted[i]
            == queue[i] by {
            if i > 0 {
                assert(accepted[i] == tail[i - 1]);
                assert(queue[i] == rest[i - 1]);
            }
        }
        lemma_accepted_total(queue, need);
        lemma_accepted_total(rest, left);
        lemma_total_amount_concat(seq![queue.first()], tail);
        lemma_total_amount_single(queue.first());
    } else {
        lemma_accepted_total(queue, need);
        lemma_total_amount_single(queue.first().with_amount(need));
    }
}

/// An auction never takes more energy than it asked for, and takes all of
/// what it asked for if the bids offer that much.
pub proof fn lemma_settled_amount(bids: Seq<Bid>, req_charge: u64)
    ensures
        settled_amount(bids, req_charge) <= req_charge,
        settled_amount(bids, req_charge) == if total_amount(bids) <= req_charge {
            total_amount(bids)
        } else {
            req_charge as nat
        },
{
    lemma_total_amount_sorted(bids);
    lemma_accepted_total(sort_by_price(bids), req_charge);
}

/// The winners are the cheapest bids. Each winner is the bid at its place in
/// the price order, cut down at most; and a bid that was accepted, whole or
/// in part, is never dearer than a bid that was left out.
pub proof fn lemma_winners_are_cheapest(bids: Seq<Bid>, req_charge: u64)
    ensures
        winning_bids(bids, req_charge).len() <= sort_by_price(bids).len(),
        forall|i: int|
            0 <= i < winning_bids(bids, req_charge).len() ==> {
                &&& (#[trigger] winning_bids(bids, req_charge)[i]).bidder == sort_by_price(
                    bids,
                )[i].bidder
                &&& winning_bids(bids, req_charge)[i].price_per_amount == sort_by_price(
                    bids,
                )[i].price_per_amount
                &&& winning_bids(bids, req_charge)[i].amount <= sort_by_price(bids)[i].amount
            },
        forall|i: int, j: int|
            0 <= i < winning_bids(bids, req_charge).len() <= j < sort_by_price(bids).len() ==> (
            #[trigger] winning_bids(bids, req_charge)[i]).price_per_amount <= (
            #[trigger] sort_by_price(bids)[j]).price_per_amount,
{
    lemma_sort_by_price(bids);
    lemma_accepted_prefix(sort_by_price(bids), req_charge);
}

/// Bids that all offer energy yield winners that all supply energy.
pub proof fn lemma_accepted_positive(queue: Seq<Bid>, need: u64)
    requires
        forall|i: int| 0 <= i < queue.len() ==> (#[trigger] queue[i]).amount > 0,
    ensures
        forall|i: int|
            0 <= i < accept_in_order(queue, need).len() ==> (#[trigger] accept_in_order(
                queue,
                need,
            )[i]).amount > 0,
    decreases queue.len(),
{
    let accepted = accept_in_order(queue, need);
    if queue.len() == 0 || need == 0 {
    } else if queue.first().amount <= need {
        let left = (need - queue.first().amount) as u64;
        let rest = queue.drop_first();
        assert forall|i: int| 0 <= i < rest.len() implies (#[trigger] rest[i]).amount > 0 by {
            assert(rest[i] == queue[i + 1]);
        }
        lemma_accepted_positive(rest, left);
        let tail = accept_in_order(rest, left);
        assert forall|i: int| 0 <= i < accepted.len() implies (#[trigger] accepted[i]).amount
            > 0 by {
            if i > 0 {
                assert(accepted[i] == tail[i - 1]);
            } else {
                assert(accepted[0] == queue[0]);
            }
        }
    } else {
    }
}

/// The leading bids of a sequence offer no more than all of them.
pub proof fn lemma_total_amount_take(bids: Seq<Bid>, count: int)
    requires
        0 <= count <= bids.len(),
    ensures
        total_amount(bids.take(count)) <= total_amount(bids),
{
    assert(bids == bids.take(count) + bids.skip(count));
    lemma_total_amount_concat(bids.take(count), bids.skip(count));
}

/// Accepts bids from `queue` front to back until `req_charge` is covered.
/// Returns the accepted bids and the energy they supply together.
pub fn accept_bids(queue: &Vec<Bid>, req_charge: u64) -> (accepted: (Vec<Bid>, u64))
    ensures
        accepted.0@ == accept_in_order(queue@, req_charge),
        accepted.1 == total_amount(accepted.0@),
        accepted.1 <= req_charge,
{
    let mut winners: Vec<Bid> = Vec::new();
    let mut need: u64 = req_charge;
    let mut next: usize = 0;
    proof {
        assert(queue@.skip(0) == queue@);
        assert(winners@ + accept_in_order(queue@, req_charge) == accept_in_order(
            queue@,
            req_charge,
        ));
    }
    while next < queue.len() && need > 0
        invariant
            next <= queue@.len(),
            need <= req_charge,
            total_amount(winners@) == req_charge - need,
            accept_in_order(queue@, req_charge) == winners@ + accept_in_order(
                queue@.skip(next as int),
                need,
            ),
        decreases queue@.len() - next,
    {
        let bid: Bid = queue[next];
        let ghost before = winners@;
        let ghost rest = queue@.skip(next as int);
        proof {
            assert(rest.first() == bid);
            assert(rest.drop_first() == queue@.skip(next as int + 1));
        }
        if bid.amount <= need {
            winners.push(bid);
            need = need - bid.amount;
            proof {
                assert(winners@ + accept_in_order(rest.drop_first(), need) == before + (seq![bid]
                    + accept_in_order(rest.drop_first(), need)));
            }
        } else {
            let part: Bid = bid.split(need);
            winners.push(part);
            proof {
                assert(accept_in_order(rest.drop_first(), 0) == Seq::<Bid>::empty());
                assert(winners@ + Seq::<Bid>::empty() == before + seq![part]);
            }
            need = 0;
        }
        proof {
            assert(winners@.drop_last() == before);
        }
        next = next + 1;
    }
    proof {
        assert(accept_in_order(queue@.skip(next as int), need) == Seq::<Bid>::empty());
        assert(winners@ + Seq::<Bid>::empty() == winners@);
    }
    (winners, req_charge - need)
}

} // verus!
