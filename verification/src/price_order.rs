//! The order in which an auction considers its bids: cheapest first, and among
//! bids of one price the earlier submission first.

use crate::bid::Bid;
use vstd::prelude::*;

verus! {

/// No bid is followed by a cheaper one.
pub open spec fn price_sorted(bids: Seq<Bid>) -> bool {
    forall|i: int, j: int|
        0 <= i < j < bids.len() ==> bids[i].price_per_amount <= bids[j].price_per_amount
}

/// The bids of `bids` that ask exactly `price`, in the order they stand in.
pub open spec fn bids_at_price(bids: Seq<Bid>, price: u64) -> Seq<Bid> {
    bids.filter(|b: Bid| b.price_per_amount == price)
}

/// `sorted` is `bids` rearranged by ascending price without reordering bids
/// of equal price. Keeping every price class intact makes `sorted` a
/// rearrangement of `bids`; see [`lemma_price_order_unique`] for why at most
/// one sequence qualifies.
pub open spec fn is_price_order_of(sorted: Seq<Bid>, bids: Seq<Bid>) -> bool {
    &&& price_sorted(sorted)
    &&& forall|price: u64| #[trigger] bids_at_price(sorted, price) == bids_at_price(bids, price)
}

/// `bid` placed behind every bid of `sorted` that is not dearer than it.
pub open spec fn insert_by_price(sorted: Seq<Bid>, bid: Bid) -> Seq<Bid>
    decreases sorted.len(),
{
    if sorted.len() > 0 && sorted.last().price_per_amount > bid.price_per_amount {
        insert_by_price(sorted.drop_last(), bid).push(sorted.last())
    } else {
        sorted.push(bid)
    }
}

/// `bids` by ascending price, submissions of equal price in submission order.
pub open spec fn sort_by_price(bids: Seq<Bid>) -> Seq<Bid>
    decreases bids.len(),
{
    if bids.len() == 0 {
        bids
    } else {
        insert_by_price(sort_by_price(bids.drop_last()), bids.last())
    }
}

/// Inserting keeps the length plus one, keeps the sequence sorted, and adds
/// `bid` at the end of its own price class while leaving the others alone.
pub proof fn lemma_insert_by_price(sorted: Seq<Bid>, bid: Bid)
    requires
        price_sorted(sorted),
    ensures
        insert_by_price(sorted, bid).len() == sorted.len() + 1,
        price_sorted(insert_by_price(sorted, bid)),
        insert_by_price(sorted, bid).to_multiset() == sorted.to_multiset().insert(bid),
        forall|price: u64| #[trigger]
            bids_at_price(insert_by_price(sorted, bid), price) == if bid.price_per_amount
                == price {
                bids_at_price(sorted, price).push(bid)
            } else {
                bids_at_price(sorted, price)
            },
    decreases sorted.len(),
{
    broadcast use vstd::seq_lib::group_to_multiset_ensures;

    let out = insert_by_price(sorted, bid);
    if sorted.len() > 0 && sorted.last().price_per_amount > bid.price_per_amount {
        let front = sorted.drop_last();
        let last = sorted.last();
        lemma_insert_by_price(front, bid);
        let inner = insert_by_price(front, bid);
        assert(out == inner.push(last));
        assert(sorted == front.push(last));
        assert(forall|k: int| 0 <= k < inner.len() ==> inner.to_multiset().count(inner[k]) > 0);
        assert forall|k: int| 0 <= k < inner.len() implies inner[k].price_per_amount
            <= last.price_per_amount by {
            assert(front.to_multiset().insert(bid).count(inner[k]) > 0);
            if inner[k] != bid {
                assert(front.to_multiset().count(inner[k]) > 0);
                assert(front.contains(inner[k]));
                let w = choose|w: int| 0 <= w < front.len() && front[w] == inner[k];
                assert(sorted[w] == inner[k]);
            }
        }
        assert(out.to_multiset() == sorted.to_multiset().insert(bid)) by {
            assert(front.to_multiset().insert(bid).insert(last) =~= front.to_multiset().insert(
                last,
            ).insert(bid));
        }
        assert forall|price: u64| #[trigger]
            bids_at_price(out, price) == if bid.price_per_amount == price {
                bids_at_price(sorted, price).push(bid)
            } else {
                bids_at_price(sorted, price)
            } by {
            let pred = |b: Bid| b.price_per_amount == price;
            inner.lemma_filter_push(last, pred);
            front.lemma_filter_push(last, pred);
            assert(bids_at_price(inner, price) == if bid.price_per_amount == price {
                bids_at_price(front, price).push(bid)
            } else {
                bids_at_price(front, price)
            });
        }
    } else {
        assert forall|price: u64| #[trigger]
            bids_at_price(out, price) == if bid.price_per_amount == price {
                bids_at_price(sorted, price).push(bid)
            } else {
                bids_at_price(sorted, price)
            } by {
            sorted.lemma_filter_push(bid, |b: Bid| b.price_per_amount == price);
        }
    }
}

/// Sorting by price rearranges the bids, cheapest first, and never swaps two
/// bids of equal price.
pub proof fn lemma_sort_by_price(bids: Seq<Bid>)
    ensures
        sort_by_price(bids).len() == bids.len(),
        sort_by_price(bids).to_multiset() == bids.to_multiset(),
        forall|i: int|
            0 <= i < sort_by_price(bids).len() ==> bids.contains(#[trigger] sort_by_price(bids)[i]),
        is_price_order_of(sort_by_price(bids), bids),
    decreases bids.len(),
{
    broadcast use vstd::seq_lib::group_to_multiset_ensures;

    if bids.len() == 0 {
    } else {
        let sorted = sort_by_price(bids);
        let front = bids.drop_last();
        let last = bids.last();
        lemma_sort_by_price(front);
        lemma_insert_by_price(sort_by_price(front), last);
        assert(bids == front.push(last));
        assert forall|price: u64| #[trigger]
            bids_at_price(sort_by_price(bids), price) == bids_at_price(bids, price) by {
            front.lemma_filter_push(last, |b: Bid| b.price_per_amount == price);
            assert(bids_at_price(sort_by_price(front), price) == bids_at_price(front, price));
        }
        assert forall|i: int| 0 <= i < sorted.len() implies bids.contains(#[trigger] sorted[i]) by {
            assert(sorted.to_multiset().count(sorted[i]) > 0);
        }
    }
}

/// At most one sequence is the price order of given bids: two sorted
/// sequences that agree on every price class are equal.
pub proof fn lemma_price_order_unique(a: Seq<Bid>, b: Seq<Bid>)
    requires
        price_sorted(a),
        price_sorted(b),
        forall|price: u64| #[trigger] bids_at_price(a, price) == bids_at_price(b, price),
    ensures
        a == b,
    decreases a.len(),
{
    if a.len() == 0 || b.len() == 0 {
        if a.len() > 0 {
            let price = a.last().price_per_amount;
            lemma_price_class_of_last(a);
            b.lemma_filter_len(|x: Bid| x.price_per_amount == price);
            assert(bids_at_price(a, price) == bids_at_price(b, price));
        }
        if b.len() > 0 {
            let price = b.last().price_per_amount;
            lemma_price_class_of_last(b);
            a.lemma_filter_len(|x: Bid| x.price_per_amount == price);
            assert(bids_at_price(a, price) == bids_at_price(b, price));
        }
        assert(a =~= b);
    } else {
        let pa = a.last().price_per_amount;
        let pb = b.last().price_per_amount;
        lemma_price_class_of_last(a);
        lemma_price_class_of_last(b);
        assert(pb >= pa) by {
            lemma_price_class_member(b, pa, bids_at_price(b, pa).len() - 1);
        }
        assert(pa >= pb) by {
            lemma_price_class_member(a, pb, bids_at_price(a, pb).len() - 1);
        }
        let fa = a.drop_last();
        let fb = b.drop_last();
        assert(a == fa.push(a.last()));
        assert(b == fb.push(b.last()));
        assert forall|price: u64| #[trigger]
            bids_at_price(fa, price) == bids_at_price(fb, price) by {
            let pred = |x: Bid| x.price_per_amount == price;
            fa.lemma_filter_push(a.last(), pred);
            fb.lemma_filter_push(b.last(), pred);
            assert(bids_at_price(a, price) == bids_at_price(b, price));
            if price == pa {
                let ca = bids_at_price(fa, price);
                let cb = bids_at_price(fb, price);
                assert(ca == ca.push(a.last()).drop_last());
                assert(cb == cb.push(b.last()).drop_last());
            }
        }
        assert(a.last() == b.last()) by {
            assert(bids_at_price(a, pa) == bids_at_price(b, pa));
        }
        lemma_price_order_unique(fa, fb);
    }
}

/// The last bid of a sequence closes its own price class.
proof fn lemma_price_class_of_last(bids: Seq<Bid>)
    requires
        bids.len() > 0,
    ensures
        bids_at_price(bids, bids.last().price_per_amount).len() > 0,
        bids_at_price(bids, bids.last().price_per_amount).last() == bids.last(),
{
    let pred = |x: Bid| x.price_per_amount == bids.last().price_per_amount;
    assert(bids == bids.drop_last().push(bids.last()));
    bids.drop_last().lemma_filter_push(bids.last(), pred);
}

/// Every member of a price class asks that price and does not exceed the
/// price of the last bid of a sorted sequence.
proof fn lemma_price_class_member(bids: Seq<Bid>, price: u64, k: int)
    requires
        price_sorted(bids),
        0 <= k < bids_at_price(bids, price).len(),
    ensures
        bids.len() > 0,
        price <= bids.last().price_per_amount,
{
    let pred = |x: Bid| x.price_per_amount == price;
    let member = bids.filter(pred)[k];
    bids.lemma_filter_len(pred);
    bids.lemma_filter_pred(pred, k);
    assert(bids.filter(pred).contains(member));
    bids.lemma_filter_contains_rev(pred, member);
    let w = choose|w: int| 0 <= w < bids.len() && bids[w] == member;
    assert(bids[w].price_per_amount == price);
}

/// Where a scan from the back stops is where [`insert_by_price`] puts the bid.
proof fn lemma_insert_position(sorted: Seq<Bid>, bid: Bid, at: int)
    requires
        0 <= at <= sorted.len(),
        forall|k: int| at <= k < sorted.len() ==> sorted[k].price_per_amount > bid.price_per_amount,
        at > 0 ==> sorted[at - 1].price_per_amount <= bid.price_per_amount,
    ensures
        insert_by_price(sorted, bid) == sorted.insert(at, bid),
    decreases sorted.len(),
{
    if at < sorted.len() {
        lemma_insert_position(sorted.drop_last(), bid, at);
        assert(sorted.drop_last().insert(at, bid).push(sorted.last()) =~= sorted.insert(at, bid));
    } else {
        assert(sorted.push(bid) =~= sorted.insert(at, bid));
    }
}

/// Sorts the bids by ascending price, keeping bids of equal price in the
/// order they were submitted in.
pub fn sort_bids_by_price(bids: &mut Vec<Bid>)
    ensures
        final(bids)@ == sort_by_price(old(bids)@),
        is_price_order_of(final(bids)@, old(bids)@),
        final(bids)@.len() == old(bids)@.len(),
{
    let mut sorted: Vec<Bid> = Vec::new();
    let count: usize = bids.len();
    let mut next: usize = 0;
    while next < count
        invariant
            count == bids@.len(),
            next <= count,
            sorted@ == sort_by_price(bids@.take(next as int)),
            sorted@.len() == next,
        decreases count - next,
    {
        let bid: Bid = bids[next];
        let mut at: usize = sorted.len();
        while at > 0 && sorted[at - 1].price_per_amount > bid.price_per_amount
            invariant
                at <= sorted@.len(),
                forall|k: int|
                    at <= k < sorted@.len() ==> sorted@[k].price_per_amount
                        > bid.price_per_amount,
            decreases at,
        {
            at = at - 1;
        }
        proof {
            lemma_insert_position(sorted@, bid, at as int);
            let upto = bids@.take(next as int + 1);
            assert(upto.drop_last() == bids@.take(next as int));
            assert(upto.last() == bid);
            lemma_sort_by_price(bids@.take(next as int));
        }
        sorted.insert(at, bid);
        next = next + 1;
    }
    proof {
        assert(bids@.take(count as int) == bids@);
        lemma_sort_by_price(bids@);
    }
    *bids = sorted;
}

} // verus!
