//! Price levels and the sorted one-sided book container.
//!
//! Prices and amounts are fixed-point integers (ticks), so that the sort and
//! equality laws of the book hold exactly. A side keeps its levels strictly
//! ordered in price priority (bids descending, asks ascending) and never
//! stores a level whose amount is zero.

use vstd::prelude::*;

verus! {

/// One price level: a (price, amount) pair in fixed-point ticks.
/// An `amount` of zero never occurs inside a book side; in an incoming
/// payload it means "delete the level at this price".
#[derive(Clone, Copy, PartialEq, Eq, Structural, Debug)]
pub struct Level {
    pub price: u64,
    pub amount: u64,
}

impl Level {
    pub fn new(price: u64, amount: u64) -> (r: Level)
        ensures
            r.price == price,
            r.amount == amount,
    {
        Level { price, amount }
    }

    /// The zero-level sentinel used when a side of the book is empty.
    pub fn zero() -> (r: Level)
        ensures
            r.price == 0,
            r.amount == 0,
    {
        Level { price: 0, amount: 0 }
    }
}

/// Which side of the book a container belongs to.
#[derive(Clone, Copy, PartialEq, Eq, Structural, Debug)]
pub enum Side {
    Buy,
    Sell,
}

/// True when price `a` has strictly better priority than price `b` on `side`:
/// higher first for bids, lower first for asks.
pub open spec fn price_before(side: Side, a: u64, b: u64) -> bool {
    match side {
        Side::Buy => a > b,
        Side::Sell => a < b,
    }
}

/// The levels are strictly ordered in price priority for `side`.
pub open spec fn side_sorted(side: Side, s: Seq<Level>) -> bool {
    forall|i: int, j: int|
        0 <= i < j < s.len() ==> price_before(side, s[i].price, s[j].price)
}

/// No stored level has amount zero.
pub open spec fn no_zero_amounts(s: Seq<Level>) -> bool {
    forall|i: int| 0 <= i < s.len() ==> s[i].amount != 0
}

/// Well-formedness of one side's level sequence.
pub open spec fn side_wf(side: Side, s: Seq<Level>) -> bool {
    side_sorted(side, s) && no_zero_amounts(s)
}

/// No two levels of the sequence share a price.
pub open spec fn distinct_prices(s: Seq<Level>) -> bool {
    forall|i: int, j: int| 0 <= i < j < s.len() ==> s[i].price != s[j].price
}

/// Some level of `s` carries price `p`.
pub open spec fn price_in(s: Seq<Level>, p: u64) -> bool {
    exists|i: int| 0 <= i < s.len() && s[i].price == p
}

/// The price -> amount map held by a level sequence (later entries win).
pub open spec fn side_map(s: Seq<Level>) -> Map<u64, u64>
    decreases s.len(),
{
    if s.len() == 0 {
        Map::empty()
    } else {
        side_map(s.drop_last()).insert(s.last().price, s.last().amount)
    }
}

/// The effect of one payload level on a price -> amount map:
/// amount zero deletes the price, anything else inserts or replaces it.
pub open spec fn apply_level(m: Map<u64, u64>, l: Level) -> Map<u64, u64> {
    if l.amount == 0 {
        m.remove(l.price)
    } else {
        m.insert(l.price, l.amount)
    }
}

/// The cumulative effect of a payload's levels, applied left to right.
pub open spec fn apply_levels(m: Map<u64, u64>, levels: Seq<Level>) -> Map<u64, u64>
    decreases levels.len(),
{
    if levels.len() == 0 {
        m
    } else {
        apply_level(apply_levels(m, levels.drop_last()), levels.last())
    }
}

/// A strictly ordered sequence has pairwise distinct prices.
pub proof fn lemma_sorted_distinct(side: Side, s: Seq<Level>)
    requires
        side_sorted(side, s),
    ensures
        distinct_prices(s),
{
    assert forall|i: int, j: int| 0 <= i < j < s.len() implies s[i].price != s[j].price by {
        assert(price_before(side, s[i].price, s[j].price));
    }
}

/// Pointwise characterization of `side_map` for duplicate-free sequences:
/// its domain is exactly the prices present, and each price maps to the
/// amount stored beside it.
pub proof fn lemma_side_map_char(s: Seq<Level>)
    requires
        distinct_prices(s),
    ensures
        forall|p: u64| #[trigger] side_map(s).dom().contains(p) <==> price_in(s, p),
        forall|i: int|
            0 <= i < s.len() ==> side_map(s)[#[trigger] s[i].price] == s[i].amount,
    decreases s.len(),
{
    if s.len() > 0 {
        let t = s.drop_last();
        lemma_side_map_char(t);
        assert forall|p: u64| #[trigger] side_map(s).dom().contains(p) implies price_in(s, p) by {
            if p == s.last().price {
                assert(s[s.len() - 1].price == p);
            } else {
                assert(side_map(t).dom().contains(p));
                assert(price_in(t, p));
                let i = choose|i: int| 0 <= i < t.len() && t[i].price == p;
                assert(t[i] == s[i]);
                assert(s[i].price == p);
            }
        }
        assert forall|p: u64| price_in(s, p) implies #[trigger] side_map(s).dom().contains(p) by {
            let i = choose|i: int| 0 <= i < s.len() && s[i].price == p;
            if i < s.len() - 1 {
                assert(t[i].price == p);
                assert(price_in(t, p));
                assert(side_map(t).dom().contains(p));
            }
        }
        assert forall|i: int| 0 <= i < s.len() implies side_map(s)[#[trigger] s[i].price]
            == s[i].amount by {
            if i < s.len() - 1 {
                assert(t[i] == s[i]);
                assert(side_map(t)[t[i].price] == t[i].amount);
                assert(s[i].price != s.last().price);
            }
        }
    }
}

/// A map that agrees pointwise with a duplicate-free sequence is its map.
pub proof fn lemma_side_map_is(s: Seq<Level>, m: Map<u64, u64>)
    requires
        distinct_prices(s),
        forall|p: u64| #[trigger] m.dom().contains(p) <==> price_in(s, p),
        forall|i: int| 0 <= i < s.len() ==> m[#[trigger] s[i].price] == s[i].amount,
    ensures
        side_map(s) == m,
{
    lemma_side_map_char(s);
    assert forall|p: u64| side_map(s).dom().contains(p) implies m.dom().contains(p)
        && #[trigger] side_map(s)[p] == m[p] by {
        let i = choose|i: int| 0 <= i < s.len() && s[i].price == p;
        assert(m[s[i].price] == s[i].amount);
        assert(side_map(s)[s[i].price] == s[i].amount);
    }
    assert forall|p: u64| m.dom().contains(p) implies side_map(s).dom().contains(p) by {
        assert(price_in(s, p));
    }
    assert(side_map(s) =~= m);
}

/// Removing an entry keeps the side well formed and deletes exactly its
/// price from the side's map.
pub proof fn lemma_remove_at(side: Side, s: Seq<Level>, i: int)
    requires
        side_wf(side, s),
        0 <= i < s.len(),
    ensures
        side_wf(side, s.remove(i)),
        side_map(s.remove(i)) == side_map(s).remove(s[i].price),
{
    lemma_sorted_distinct(side, s);
    lemma_side_map_char(s);
    let r = s.remove(i);
    assert forall|a: int, b: int| 0 <= a < b < r.len() implies price_before(
        side,
        r[a].price,
        r[b].price,
    ) by {
        let a0 = if a < i { a } else { a + 1 };
        let b0 = if b < i { b } else { b + 1 };
        assert(r[a] == s[a0] && r[b] == s[b0]);
    }
    lemma_sorted_distinct(side, r);
    let m = side_map(s).remove(s[i].price);
    assert forall|p: u64| #[trigger] m.dom().contains(p) implies price_in(r, p) by {
        let j = choose|j: int| 0 <= j < s.len() && s[j].price == p;
        assert(j != i);
        let j2 = if j < i { j } else { j - 1 };
        assert(r[j2].price == p);
    }
    assert forall|p: u64| price_in(r, p) implies #[trigger] m.dom().contains(p) by {
        let j = choose|j: int| 0 <= j < r.len() && r[j].price == p;
        let j0 = if j < i { j } else { j + 1 };
        assert(s[j0].price == p);
        assert(s[j0].price != s[i].price);
    }
    assert forall|j: int| 0 <= j < r.len() implies m[#[trigger] r[j].price] == r[j].amount by {
        let j0 = if j < i { j } else { j + 1 };
        assert(r[j] == s[j0]);
        assert(s[j0].price != s[i].price);
        assert(side_map(s)[s[j0].price] == s[j0].amount);
    }
    lemma_side_map_is(r, m);
}

/// Replacing the entry that already carries a price keeps the side well
/// formed and overwrites that price in the side's map.
pub proof fn lemma_update_at(side: Side, s: Seq<Level>, i: int, l: Level)
    requires
        side_wf(side, s),
        0 <= i < s.len(),
        s[i].price == l.price,
        l.amount != 0,
    ensures
        side_wf(side, s.update(i, l)),
        side_map(s.update(i, l)) == side_map(s).insert(l.price, l.amount),
{
    lemma_sorted_distinct(side, s);
    lemma_side_map_char(s);
    let r = s.update(i, l);
    assert forall|a: int, b: int| 0 <= a < b < r.len() implies price_before(
        side,
        r[a].price,
        r[b].price,
    ) by {
        assert(r[a].price == s[a].price && r[b].price == s[b].price);
    }
    lemma_sorted_distinct(side, r);
    let m = side_map(s).insert(l.price, l.amount);
    assert forall|p: u64| #[trigger] m.dom().contains(p) implies price_in(r, p) by {
        if p == l.price {
            assert(r[i].price == p);
        } else {
            let j = choose|j: int| 0 <= j < s.len() && s[j].price == p;
            assert(r[j].price == p);
        }
    }
    assert forall|p: u64| price_in(r, p) implies #[trigger] m.dom().contains(p) by {
        let j = choose|j: int| 0 <= j < r.len() && r[j].price == p;
        assert(s[j].price == p);
    }
    assert forall|j: int| 0 <= j < r.len() implies m[#[trigger] r[j].price] == r[j].amount by {
        if j != i {
            assert(r[j] == s[j]);
            assert(s[j].price != s[i].price);
            assert(side_map(s)[s[j].price] == s[j].amount);
        }
    }
    lemma_side_map_is(r, m);
}

/// Inserting a level at its price-priority position keeps the side well
/// formed and adds exactly its price to the side's map.
pub proof fn lemma_insert_at(side: Side, s: Seq<Level>, i: int, l: Level)
    requires
        side_wf(side, s),
        0 <= i <= s.len(),
        l.amount != 0,
        forall|j: int| 0 <= j < i ==> price_before(side, s[j].price, l.price),
        forall|j: int| i <= j < s.len() ==> price_before(side, l.price, s[j].price),
    ensures
        side_wf(side, s.insert(i, l)),
        side_map(s.insert(i, l)) == side_map(s).insert(l.price, l.amount),
{
    lemma_sorted_distinct(side, s);
    lemma_side_map_char(s);
    let r = s.insert(i, l);
    assert forall|a: int, b: int| 0 <= a < b < r.len() implies price_before(
        side,
        r[a].price,
        r[b].price,
    ) by {
        if a < i && b == i {
            assert(r[a] == s[a]);
        } else if a == i && b > i {
            assert(r[b] == s[b - 1]);
        } else {
            let a0 = if a < i { a } else { a - 1 };
            let b0 = if b < i { b } else { b - 1 };
            assert(r[a] == s[a0] && r[b] == s[b0]);
        }
    }
    lemma_sorted_distinct(side, r);
    let m = side_map(s).insert(l.price, l.amount);
    assert forall|p: u64| #[trigger] m.dom().contains(p) implies price_in(r, p) by {
        if p == l.price {
            assert(r[i].price == p);
        } else {
            let j = choose|j: int| 0 <= j < s.len() && s[j].price == p;
            let j2 = if j < i { j } else { j + 1 };
            assert(r[j2].price == p);
        }
    }
    assert forall|p: u64| price_in(r, p) implies #[trigger] m.dom().contains(p) by {
        let j = choose|j: int| 0 <= j < r.len() && r[j].price == p;
        if j != i {
            let j0 = if j < i { j } else { j - 1 };
            assert(s[j0].price == p);
        }
    }
    assert forall|j: int| 0 <= j < r.len() implies m[#[trigger] r[j].price] == r[j].amount by {
        if j != i {
            let j0 = if j < i { j } else { j - 1 };
            assert(r[j] == s[j0]);
            assert(price_before(side, s[j0].price, l.price) || price_before(
                side,
                l.price,
                s[j0].price,
            ));
            assert(side_map(s)[s[j0].price] == s[j0].amount);
        }
    }
    lemma_side_map_is(r, m);
}

/// Deleting a price that the side does not hold leaves its map unchanged.
pub proof fn lemma_absent_remove(s: Seq<Level>, p: u64)
    requires
        distinct_prices(s),
        !price_in(s, p),
    ensures
        side_map(s).remove(p) == side_map(s),
{
    lemma_side_map_char(s);
    assert(!side_map(s).dom().contains(p));
    assert(side_map(s).remove(p) =~= side_map(s));
}

/// Dropping the head of a well-formed side removes exactly the best price
/// from its map.
pub proof fn lemma_drop_first_map(side: Side, s: Seq<Level>)
    requires
        side_wf(side, s),
        s.len() > 0,
    ensures
        side_wf(side, s.drop_first()),
        side_map(s.drop_first()) == side_map(s).remove(s[0].price),
{
    lemma_remove_at(side, s, 0);
    assert(s.remove(0) =~= s.drop_first());
}

/// Two well-formed sequences for the same side that hold the same
/// price -> amount map are the same sequence: a side's content is fully
/// determined by its map.
pub proof fn lemma_side_canonical(side: Side, s1: Seq<Level>, s2: Seq<Level>)
    requires
        side_wf(side, s1),
        side_wf(side, s2),
        side_map(s1) == side_map(s2),
    ensures
        s1 == s2,
    decreases s1.len(),
{
    lemma_sorted_distinct(side, s1);
    lemma_sorted_distinct(side, s2);
    lemma_side_map_char(s1);
    lemma_side_map_char(s2);
    if s1.len() == 0 {
        if s2.len() > 0 {
            assert(s2[0].price == s2[0].price);
            assert(price_in(s2, s2[0].price));
            assert(side_map(s1).dom().contains(s2[0].price));
            assert(price_in(s1, s2[0].price));
            assert(false);
        }
        assert(s1 =~= s2);
    } else if s2.len() == 0 {
        assert(price_in(s1, s1[0].price));
        assert(side_map(s2).dom().contains(s1[0].price));
        assert(price_in(s2, s1[0].price));
        assert(false);
    } else {
        let p1 = s1[0].price;
        let p2 = s2[0].price;
        assert(price_in(s2, p2));
        assert(side_map(s1).dom().contains(p2));
        assert(price_in(s1, p2));
        let i = choose|i: int| 0 <= i < s1.len() && s1[i].price == p2;
        if i > 0 {
            assert(price_before(side, p1, p2));
        }
        assert(price_in(s1, p1));
        assert(side_map(s2).dom().contains(p1));
        assert(price_in(s2, p1));
        let j = choose|j: int| 0 <= j < s2.len() && s2[j].price == p1;
        if j > 0 {
            assert(price_before(side, p2, p1));
        }
        assert(p1 == p2);
        assert(side_map(s1)[p1] == s1[0].amount);
        assert(side_map(s2)[p2] == s2[0].amount);
        assert(s1[0] == s2[0]);
        lemma_drop_first_map(side, s1);
        lemma_drop_first_map(side, s2);
        lemma_side_canonical(side, s1.drop_first(), s2.drop_first());
        assert(s1.len() == s2.len());
        assert forall|k: int| 0 <= k < s1.len() implies s1[k] == s2[k] by {
            if k > 0 {
                assert(s1.drop_first()[k - 1] == s2.drop_first()[k - 1]);
            }
        }
        assert(s1 =~= s2);
    }
}

/// Pointwise characterization of a batch's cumulative effect when the batch
/// touches each price at most once: a zero amount removes its price, a
/// positive amount pins its price to that amount, and untouched prices keep
/// whatever the base map said.
pub proof fn lemma_apply_levels_char(m: Map<u64, u64>, levels: Seq<Level>)
    requires
        distinct_prices(levels),
    ensures
        forall|i: int|
            0 <= i < levels.len() && levels[i].amount == 0 ==> !apply_levels(
                m,
                levels,
            ).dom().contains(#[trigger] levels[i].price),
        forall|i: int|
            0 <= i < levels.len() && levels[i].amount != 0 ==> apply_levels(
                m,
                levels,
            ).dom().contains(#[trigger] levels[i].price) && apply_levels(m, levels)[levels[i].price]
                == levels[i].amount,
        forall|p: u64|
            !price_in(levels, p) ==> (#[trigger] apply_levels(m, levels).dom().contains(p)
                <==> m.dom().contains(p)) && (m.dom().contains(p) ==> apply_levels(m, levels)[p]
                == m[p]),
    decreases levels.len(),
{
    if levels.len() > 0 {
        let t = levels.drop_last();
        let x = levels.last();
        lemma_apply_levels_char(m, t);
        assert forall|i: int|
            0 <= i < levels.len() && levels[i].amount == 0 implies !apply_levels(
            m,
            levels,
        ).dom().contains(#[trigger] levels[i].price) by {
            if i < levels.len() - 1 {
                assert(t[i] == levels[i]);
                assert(levels[i].price != x.price);
            }
        }
        assert forall|i: int|
            0 <= i < levels.len() && levels[i].amount != 0 implies apply_levels(
            m,
            levels,
        ).dom().contains(#[trigger] levels[i].price) && apply_levels(m, levels)[levels[i].price]
            == levels[i].amount by {
            if i < levels.len() - 1 {
                assert(t[i] == levels[i]);
                assert(levels[i].price != x.price);
            }
        }
        assert forall|p: u64|
            !price_in(levels, p) implies (#[trigger] apply_levels(m, levels).dom().contains(p)
            <==> m.dom().contains(p)) && (m.dom().contains(p) ==> apply_levels(m, levels)[p]
            == m[p]) by {
            assert(levels[levels.len() - 1].price == x.price);
            assert(p != x.price);
            assert forall|k: int| 0 <= k < t.len() implies #[trigger] t[k].price != p by {
                assert(levels[k].price == t[k].price);
            }
            assert(!price_in(t, p));
            assert(apply_levels(m, t).dom().contains(p) <==> m.dom().contains(p));
            assert(apply_levels(m, levels) == apply_level(apply_levels(m, t), x));
        }
    }
}

/// The order of levels inside one batch does not affect the cumulative
/// effect, provided the batch touches each price at most once (when a price
/// repeats, the last write wins and the order is meaningful).
pub proof fn lemma_apply_levels_permutation(m: Map<u64, u64>, l1: Seq<Level>, l2: Seq<Level>)
    requires
        distinct_prices(l1),
        distinct_prices(l2),
        l1.to_multiset() == l2.to_multiset(),
    ensures
        apply_levels(m, l1) == apply_levels(m, l2),
{
    l1.to_multiset_ensures();
    l2.to_multiset_ensures();
    lemma_apply_levels_char(m, l1);
    lemma_apply_levels_char(m, l2);
    let r1 = apply_levels(m, l1);
    let r2 = apply_levels(m, l2);
    assert forall|p: u64| price_in(l1, p) implies price_in(l2, p) by {
        let i = choose|i: int| 0 <= i < l1.len() && l1[i].price == p;
        assert(l1.contains(l1[i]));
        assert(l1.to_multiset().count(l1[i]) > 0);
        assert(l2.to_multiset().count(l1[i]) > 0);
        assert(l2.contains(l1[i]));
        let j = choose|j: int| 0 <= j < l2.len() && l2[j] == l1[i];
        assert(l2[j].price == p);
    }
    assert forall|p: u64| price_in(l2, p) implies price_in(l1, p) by {
        let j = choose|j: int| 0 <= j < l2.len() && l2[j].price == p;
        assert(l2.contains(l2[j]));
        assert(l2.to_multiset().count(l2[j]) > 0);
        assert(l1.to_multiset().count(l2[j]) > 0);
        assert(l1.contains(l2[j]));
        let i = choose|i: int| 0 <= i < l1.len() && l1[i] == l2[j];
        assert(l1[i].price == p);
    }
    assert forall|p: u64| #![auto] r1.dom().contains(p) <==> r2.dom().contains(p) by {
        if price_in(l1, p) {
            let i = choose|i: int| 0 <= i < l1.len() && l1[i].price == p;
            assert(l1.contains(l1[i]));
            assert(l1.to_multiset().count(l1[i]) > 0);
            assert(l2.to_multiset().count(l1[i]) > 0);
            assert(l2.contains(l1[i]));
            let j = choose|j: int| 0 <= j < l2.len() && l2[j] == l1[i];
            assert(l2[j].price == p);
        } else {
            assert(!price_in(l2, p));
        }
    }
    assert forall|p: u64| #![auto] r1.dom().contains(p) implies r1[p] == r2[p] by {
        if price_in(l1, p) {
            let i = choose|i: int| 0 <= i < l1.len() && l1[i].price == p;
            assert(l1.contains(l1[i]));
            assert(l1.to_multiset().count(l1[i]) > 0);
            assert(l2.to_multiset().count(l1[i]) > 0);
            assert(l2.contains(l1[i]));
            let j = choose|j: int| 0 <= j < l2.len() && l2[j] == l1[i];
            assert(l2[j].price == p);
            assert(l1[i].amount != 0);
            assert(r1[p] == l1[i].amount);
            assert(r2[p] == l2[j].amount);
        } else {
            assert(!price_in(l2, p));
        }
    }
    assert(r1 =~= r2);
}

/// A batch with no zero amounts deletes nothing: the resulting map holds
/// exactly the base's prices and the batch's.
pub proof fn lemma_apply_levels_no_deletes(m: Map<u64, u64>, levels: Seq<Level>)
    requires
        forall|i: int| 0 <= i < levels.len() ==> (#[trigger] levels[i]).amount != 0,
    ensures
        forall|p: u64|
            #[trigger] apply_levels(m, levels).dom().contains(p) <==> m.dom().contains(p)
                || price_in(levels, p),
    decreases levels.len(),
{
    if levels.len() > 0 {
        let t = levels.drop_last();
        let x = levels.last();
        assert(levels[levels.len() - 1].amount != 0);
        assert forall|i: int| 0 <= i < t.len() implies (#[trigger] t[i]).amount != 0 by {
            assert(t[i] == levels[i]);
        }
        lemma_apply_levels_no_deletes(m, t);
        assert forall|p: u64|
            #[trigger] apply_levels(m, levels).dom().contains(p) implies m.dom().contains(p)
            || price_in(levels, p) by {
            if p == x.price {
                assert(levels[levels.len() - 1].price == p);
            } else {
                assert(apply_levels(m, t).dom().contains(p));
                if price_in(t, p) {
                    let i = choose|i: int| 0 <= i < t.len() && t[i].price == p;
                    assert(levels[i].price == p);
                }
            }
        }
        assert forall|p: u64|
            m.dom().contains(p) || price_in(levels, p) implies #[trigger] apply_levels(
            m,
            levels,
        ).dom().contains(p) by {
            if p != x.price {
                if price_in(levels, p) {
                    let i = choose|i: int| 0 <= i < levels.len() && levels[i].price == p;
                    assert(t[i].price == p);
                    assert(price_in(t, p));
                }
                assert(apply_levels(m, t).dom().contains(p));
            }
        }
    }
}

/// Law: the order of levels inside one batch does not affect the side a
/// batch produces. Two well-formed sides built by applying batches that
/// hold the same levels (each price touched at most once) over the same
/// starting content are the same side, level for level.
pub proof fn lemma_batch_order_irrelevant(
    side: Side,
    base: Map<u64, u64>,
    l1: Seq<Level>,
    l2: Seq<Level>,
    s1: Seq<Level>,
    s2: Seq<Level>,
)
    requires
        distinct_prices(l1),
        distinct_prices(l2),
        l1.to_multiset() == l2.to_multiset(),
        side_wf(side, s1),
        side_wf(side, s2),
        side_map(s1) == apply_levels(base, l1),
        side_map(s2) == apply_levels(base, l2),
    ensures
        s1 == s2,
{
    lemma_apply_levels_permutation(base, l1, l2);
    lemma_side_canonical(side, s1, s2);
}

/// A sorted one-sided book container of price levels.
#[derive(Clone, PartialEq, Debug)]
pub struct OrderBookSide {
    pub side: Side,
    pub levels: Vec<Level>,
}

impl View for OrderBookSide {
    type V = Seq<Level>;

    open spec fn view(&self) -> Seq<Level> {
        self.levels@
    }
}

/// Compares price priority of `a` against `b` on `side`.
pub fn price_before_exec(side: Side, a: u64, b: u64) -> (r: bool)
    ensures
        r == price_before(side, a, b),
{
    match side {
        Side::Buy => a > b,
        Side::Sell => a < b,
    }
}

impl OrderBookSide {
    /// The container invariant: strictly sorted in price priority for its
    /// side, and free of zero-amount levels.
    pub open spec fn wf(&self) -> bool {
        side_wf(self.side, self@)
    }

    /// Builds a side from an arbitrary batch of levels: zero amounts are
    /// dropped, duplicate prices resolve to the last occurrence, and the
    /// result is sorted in price priority.
    pub fn new(side: Side, levels: Vec<Level>) -> (r: OrderBookSide)
        ensures
            r.side == side,
            r.wf(),
            side_map(r@) == apply_levels(Map::empty(), levels@),
    {
        let mut s = OrderBookSide { side, levels: Vec::new() };
        proof {
            assert(side_map(s@) =~= Map::<u64, u64>::empty());
        }
        s.upsert(levels);
        s
    }

    /// First position whose stored price does not come before `price`.
    fn position(&self, price: u64) -> (idx: usize)
        requires
            self.wf(),
        ensures
            idx <= self@.len(),
            forall|j: int| 0 <= j < idx ==> price_before(self.side, self@[j].price, price),
            idx < self@.len() ==> !price_before(self.side, self@[idx as int].price, price),
    {
        let mut idx: usize = 0;
        loop
            invariant
                self.wf(),
                idx <= self@.len(),
                forall|j: int| 0 <= j < idx ==> price_before(self.side, self@[j].price, price),
            ensures
                idx <= self@.len(),
                forall|j: int| 0 <= j < idx ==> price_before(self.side, self@[j].price, price),
                idx < self@.len() ==> !price_before(self.side, self@[idx as int].price, price),
            decreases self@.len() - idx,
        {
            if idx == self.levels.len() {
                break;
            }
            if !price_before_exec(self.side, self.levels[idx].price, price) {
                break;
            }
            idx = idx + 1;
        }
        idx
    }

    /// Applies one payload level: amount zero deletes the matching price
    /// (a missing price is a no-op), anything else replaces or inserts the
    /// level at its price-priority position.
    pub fn upsert_level(&mut self, l: Level)
        requires
            old(self).wf(),
        ensures
            final(self).side == old(self).side,
            final(self).wf(),
            side_map(final(self)@) == apply_level(side_map(old(self)@), l),
    {
        let ghost s0 = self@;
        proof {
            lemma_sorted_distinct(self.side, s0);
        }
        let idx = self.position(l.price);
        if idx < self.levels.len() && self.levels[idx].price == l.price {
            if l.amount == 0 {
                proof {
                    lemma_remove_at(self.side, s0, idx as int);
                }
                self.levels.remove(idx);
            } else {
                proof {
                    lemma_update_at(self.side, s0, idx as int, l);
                }
                self.levels.set(idx, l);
            }
        } else {
            proof {
                assert forall|j: int| idx <= j < s0.len() implies price_before(
                    self.side,
                    l.price,
                    s0[j].price,
                ) by {
                    assert(!price_before(self.side, s0[idx as int].price, l.price));
                    assert(s0[idx as int].price != l.price);
                    assert(price_before(self.side, l.price, s0[idx as int].price));
                    if j > idx {
                        assert(price_before(self.side, s0[idx as int].price, s0[j].price));
                    }
                }
            }
            if l.amount == 0 {
                proof {
                    assert forall|j: int| 0 <= j < s0.len() implies s0[j].price != l.price by {
                        if j < idx {
                            assert(price_before(self.side, s0[j].price, l.price));
                        } else {
                            assert(price_before(self.side, l.price, s0[j].price));
                        }
                    }
                    assert(!price_in(s0, l.price));
                    lemma_absent_remove(s0, l.price);
                }
            } else {
                proof {
                    lemma_insert_at(self.side, s0, idx as int, l);
                }
                self.levels.insert(idx, l);
            }
        }
    }

    /// Applies a batch of payload levels in order; within the batch the last
    /// write to a price wins.
    pub fn upsert(&mut self, levels: Vec<Level>)
        requires
            old(self).wf(),
        ensures
            final(self).side == old(self).side,
            final(self).wf(),
            side_map(final(self)@) == apply_levels(side_map(old(self)@), levels@),
    {
        let ghost orig = self@;
        let n = levels.len();
        let mut k: usize = 0;
        while k < n
            invariant
                k <= n,
                n == levels@.len(),
                self.side == old(self).side,
                self.wf(),
                side_map(self@) == apply_levels(side_map(orig), levels@.subrange(0, k as int)),
            decreases n - k,
        {
            let l = levels[k];
            self.upsert_level(l);
            proof {
                let pre = levels@.subrange(0, k as int);
                let post = levels@.subrange(0, k + 1 as int);
                assert(post.drop_last() =~= pre);
                assert(post.last() == levels@[k as int]);
            }
            k = k + 1;
        }
        proof {
            assert(levels@.subrange(0, n as int) =~= levels@);
        }
    }

    /// The level with the best price, if any.
    pub fn best(&self) -> (r: Option<Level>)
        ensures
            self@.len() == 0 ==> r is None,
            self@.len() > 0 ==> r == Some(self@[0]),
    {
        if self.levels.len() == 0 {
            None
        } else {
            Some(self.levels[0])
        }
    }

    /// The stored levels in price-priority order.
    pub fn levels(&self) -> (r: &Vec<Level>)
        ensures
            r@ == self@,
    {
        &self.levels
    }

    /// A deep copy of this side.
    pub fn duplicate(&self) -> (r: OrderBookSide)
        ensures
            r.side == self.side,
            r@ == self@,
    {
        let lv = self.levels.clone();
        proof {
            assert forall|i: int| 0 <= i < lv@.len() implies lv@[i] == self@[i] by {
                assert(vstd::pervasive::cloned::<Level>(self@[i], lv@[i]));
            }
            assert(lv@ =~= self@);
        }
        OrderBookSide { side: self.side, levels: lv }
    }

    /// Number of stored levels.
    pub fn len(&self) -> (r: usize)
        ensures
            r == self@.len(),
    {
        self.levels.len()
    }
}

} // verus!
