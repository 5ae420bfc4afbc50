//! Bid lists: ordering by price, expiry, and the search for the bid level
//! that a given executable size reaches from the top.

use vstd::prelude::*;
use crate::amount::Amount;
use crate::amount_order::{amount_lt};
use crate::time::{Timestamp, later, is_later};
use crate::types::Bid;

verus! {

broadcast use vstd::seq_lib::group_seq_properties, vstd::seq_lib::group_to_multiset_ensures;

/// The price of a bid, at the finest scale.
pub open spec fn bid_key(b: Bid) -> int {
    b.value.key()
}

/// The bids are in ascending order of price.
pub open spec fn sorted_by_value(s: Seq<Bid>) -> bool {
    forall|i: int, j: int| 0 <= i < j < s.len() ==> bid_key(#[trigger] s[i]) <= bid_key(#[trigger] s[j])
}

/// The predicate "has price key `k`".
pub open spec fn has_key(k: int) -> spec_fn(Bid) -> bool {
    |b: Bid| bid_key(b) == k
}

/// The bids of `s` whose price key is `k`, in their order in `s`.
pub open spec fn value_class(s: Seq<Bid>, k: int) -> Seq<Bid> {
    s.filter(has_key(k))
}

/// `r` is `s` sorted by price, bids of equal price keeping their order.
pub open spec fn is_stable_sort_of(r: Seq<Bid>, s: Seq<Bid>) -> bool {
    &&& sorted_by_value(r)
    &&& r.to_multiset() == s.to_multiset()
    &&& forall|k: int| #[trigger] value_class(r, k) == value_class(s, k)
}

proof fn lemma_filter_push(s: Seq<Bid>, x: Bid, k: int)
    ensures
        value_class(s.push(x), k) == if bid_key(x) == k {
            value_class(s, k).push(x)
        } else {
            value_class(s, k)
        },
{
    reveal(Seq::filter);
    assert(s.push(x).drop_last() =~= s);
}

proof fn lemma_class_insert(r: Seq<Bid>, p: int, x: Bid, k: int)
    requires
        0 <= p <= r.len(),
        forall|i: int| p <= i < r.len() ==> bid_key(#[trigger] r[i]) > bid_key(x),
    ensures
        value_class(r.insert(p, x), k) == if bid_key(x) == k {
            value_class(r, k).push(x)
        } else {
            value_class(r, k)
        },
{
    let a = r.subrange(0, p);
    let b = r.subrange(p, r.len() as int);
    assert(r =~= a + b);
    assert(r.insert(p, x) =~= a.push(x) + b);
    Seq::filter_distributes_over_add(a, b, has_key(k));
    Seq::filter_distributes_over_add(a.push(x), b, has_key(k));
    lemma_filter_push(a, x, k);
    if bid_key(x) == k {
        assert forall|i: int| 0 <= i < b.len() implies !#[trigger] has_key(k)(b[i]) by {
            assert(b[i] == r[p + i]);
        }
        b.lemma_all_neg_filter_empty(has_key(k));
        assert(value_class(b, k) =~= Seq::<Bid>::empty());
        assert(value_class(a, k).push(x) + value_class(b, k) =~= (value_class(a, k) + value_class(b, k)).push(x));
    }
}

/// Sorts the bids by price, keeping bids of equal price in their order
/// (a stable sort, as `slice::sort` is).
pub fn sort_bids(bids: &mut Vec<Bid>)
    ensures
        is_stable_sort_of(final(bids)@, old(bids)@),
{
    let mut sorted: Vec<Bid> = Vec::new();
    let n = bids.len();
    let mut i: usize = 0;
    while i < n
        invariant
            n == bids.len(),
            i <= n,
            is_stable_sort_of(sorted@, bids@.take(i as int)),
        decreases n - i,
    {
        let x = bids[i];
        let mut p: usize = sorted.len();
        while p > 0 && amount_lt(&x.value, &sorted[p - 1].value)
            invariant
                p <= sorted.len(),
                forall|j: int| p <= j < sorted.len() ==> bid_key(#[trigger] sorted@[j]) > bid_key(x),
            decreases p,
        {
            p = p - 1;
        }
        proof {
            let r = sorted@;
            assert(bids@.take(i + 1) =~= bids@.take(i as int).push(x));
            assert forall|k: int| #[trigger] value_class(r.insert(p as int, x), k) == value_class(bids@.take(i + 1), k) by {
                lemma_class_insert(r, p as int, x, k);
                lemma_filter_push(bids@.take(i as int), x, k);
            }
            r.insert_ensures(p as int, x);
            assert forall|a: int, b: int| 0 <= a < b < r.insert(p as int, x).len() implies
                bid_key(#[trigger] r.insert(p as int, x)[a]) <= bid_key(#[trigger] r.insert(p as int, x)[b]) by {
                let q = r.insert(p as int, x);
                if b < p {
                } else if b == p {
                    if p > 0 {
                        assert(bid_key(r[p - 1]) <= bid_key(x));
                        if a < p - 1 {
                            assert(bid_key(r[a]) <= bid_key(r[p - 1]));
                        }
                    }
                } else if a < p {
                    assert(q[b] == r[b - 1]);
                } else if a == p {
                    assert(q[b] == r[b - 1]);
                } else {
                    assert(q[a] == r[a - 1]);
                    assert(q[b] == r[b - 1]);
                }
            }
            assert(r.insert(p as int, x) =~= r.subrange(0, p as int).push(x) + r.subrange(p as int, r.len() as int));
            assert(r =~= r.subrange(0, p as int) + r.subrange(p as int, r.len() as int));
            vstd::seq_lib::lemma_multiset_commutative(r.subrange(0, p as int).push(x), r.subrange(p as int, r.len() as int));
            vstd::seq_lib::lemma_multiset_commutative(r.subrange(0, p as int), r.subrange(p as int, r.len() as int));
        }
        sorted.insert(p, x);
        i = i + 1;
    }
    proof {
        assert(bids@.take(n as int) =~= bids@);
    }
    *bids = sorted;
}

} // verus!

verus! {

/// `b` has not expired at `now`: it has no timeout, or its timeout is later than `now`.
pub open spec fn is_live(b: Bid, now: Timestamp) -> bool {
    match b.timeout {
        None => true,
        Some(t) => later(t, now),
    }
}

/// The predicate "has not expired at `now`".
pub open spec fn live_at(now: Timestamp) -> spec_fn(Bid) -> bool {
    |b: Bid| is_live(b, now)
}

/// The bids of `s` that have not expired at `now`, in their order.
pub open spec fn live_bids(s: Seq<Bid>, now: Timestamp) -> Seq<Bid> {
    s.filter(live_at(now))
}

/// Whether `b` has not expired at `now`.
pub fn bid_is_live(b: &Bid, now: Timestamp) -> (r: bool)
    ensures
        r == is_live(*b, now),
{
    match b.timeout {
        None => true,
        Some(t) => is_later(t, now),
    }
}

pub proof fn lemma_filter_take_push<A>(s: Seq<A>, i: int, pred: spec_fn(A) -> bool)
    requires
        0 <= i < s.len(),
    ensures
        s.take(i + 1).filter(pred) == if pred(s[i]) {
            s.take(i).filter(pred).push(s[i])
        } else {
            s.take(i).filter(pred)
        },
{
    reveal(Seq::filter);
    assert(s.take(i + 1).drop_last() =~= s.take(i));
}

/// Drops the expired bids, keeping the others in order.
pub fn retain_live(bids: &mut Vec<Bid>, now: Timestamp)
    ensures
        final(bids)@ == live_bids(old(bids)@, now),
{
    let mut kept: Vec<Bid> = Vec::new();
    let n = bids.len();
    let mut i: usize = 0;
    while i < n
        invariant
            n == bids.len(),
            i <= n,
            kept@ == bids@.take(i as int).filter(live_at(now)),
        decreases n - i,
    {
        let b = bids[i];
        proof {
            lemma_filter_take_push(bids@, i as int, live_at(now));
        }
        if bid_is_live(&b, now) {
            kept.push(b);
        }
        i = i + 1;
    }
    proof {
        assert(bids@.take(n as int) =~= bids@);
    }
    *bids = kept;
}

/// The executable size of all the bids of `s`.
pub open spec fn size_sum(s: Seq<Bid>) -> int
    decreases s.len(),
{
    if s.len() == 0 {
        0
    } else {
        s[0].size + size_sum(s.drop_first())
    }
}

/// The executable size of the bids from index `i` to the top of `s`.
pub open spec fn size_from(s: Seq<Bid>, i: int) -> int {
    size_sum(s.subrange(i, s.len() as int))
}

/// Index `i` of `s` is where the size counted from the top first reaches
/// `min`: the bids from `i` up hold at least `min`, those above `i` less.
pub open spec fn reach_index(s: Seq<Bid>, min: int, i: int) -> bool {
    &&& 0 <= i < s.len()
    &&& size_from(s, i) >= min
    &&& forall|j: int| i < j < s.len() ==> #[trigger] size_from(s, j) < min
}

proof fn lemma_size_from_step(s: Seq<Bid>, i: int)
    requires
        0 <= i < s.len(),
    ensures
        size_from(s, i) == s[i].size + size_from(s, i + 1),
{
    assert(s.subrange(i, s.len() as int).drop_first() =~= s.subrange(i + 1, s.len() as int));
}

/// Walking down from the highest-priced bid (the end of the list), the
/// first bid at which the accumulated size reaches `min_top_bids`; `None`
/// when all the bids together hold less.
pub fn appropriate_bid(bids: &Vec<Bid>, min_top_bids: u32) -> (r: Option<Bid>)
    ensures
        r is Some <==> exists|i: int| 0 <= i < bids@.len() && size_from(bids@, i) >= min_top_bids,
        r matches Some(b) ==> exists|i: int| reach_index(bids@, min_top_bids as int, i) && bids@[i] == b,
{
    let n = bids.len();
    let mut acc: u64 = 0;
    let mut k: usize = n;
    proof {
        assert(bids@.subrange(n as int, n as int) =~= Seq::<Bid>::empty());
    }
    while k > 0
        invariant
            k <= n == bids.len(),
            acc == size_from(bids@, k as int),
            acc < min_top_bids || k == n,
            acc <= u32::MAX,
            forall|j: int| k <= j < n ==> #[trigger] size_from(bids@, j) < min_top_bids,
        decreases k,
    {
        let idx = k - 1;
        proof {
            lemma_size_from_step(bids@, idx as int);
        }
        acc = acc + bids[idx].size as u64;
        if acc >= min_top_bids as u64 {
            let b = bids[idx];
            proof {
                assert(reach_index(bids@, min_top_bids as int, idx as int));
            }
            return Some(b);
        }
        k = idx;
    }
    proof {
        assert forall|i: int| 0 <= i < bids@.len() implies size_from(bids@, i) < min_top_bids by {
            assert(size_from(bids@, i) < min_top_bids);
        }
    }
    None
}

} // verus!

verus! {

/// Whether a bid is live, in terms of its timeout: it has none, or the
/// timeout is later than `now` (more seconds, or as many seconds and more
/// nanoseconds).
pub proof fn law_is_live_by_timeout(b: Bid, now: Timestamp)
    ensures
        is_live(b, now) <==> (b.timeout is None || (b.timeout matches Some(t)
            && (t.secs > now.secs || (t.secs == now.secs && t.nanos > now.nanos)))),
{
}

/// Two bids agree in price, size and timeout.
pub open spec fn same_bid(a: Bid, b: Bid) -> bool {
    &&& bid_key(a) == bid_key(b)
    &&& a.size == b.size
    &&& a.timeout == b.timeout
}

/// `s` with every bid dropped that repeats (in price, size and timeout) an
/// earlier one; the first of each kept, in order.
pub open spec fn dedup_bids(s: Seq<Bid>) -> Seq<Bid>
    decreases s.len(),
{
    if s.len() == 0 {
        s
    } else {
        let d = dedup_bids(s.drop_last());
        if exists|j: int| 0 <= j < s.len() - 1 && same_bid(#[trigger] s[j], s.last()) {
            d
        } else {
            d.push(s.last())
        }
    }
}

fn same_timeout(a: Option<Timestamp>, b: Option<Timestamp>) -> (r: bool)
    ensures
        r == (a == b),
{
    match (a, b) {
        (None, None) => true,
        (Some(x), Some(y)) => x.secs == y.secs && x.nanos == y.nanos,
        _ => false,
    }
}

fn is_same_bid(a: &Bid, b: &Bid) -> (r: bool)
    ensures
        r == same_bid(*a, *b),
{
    crate::amount_order::amount_eq(&a.value, &b.value) && a.size == b.size && same_timeout(a.timeout, b.timeout)
}

/// The bids of an update with repeats dropped, first occurrences in order.
pub fn dedup_update(update: &Vec<Bid>) -> (r: Vec<Bid>)
    ensures
        r@ == dedup_bids(update@),
{
    let mut out: Vec<Bid> = Vec::new();
    let n = update.len();
    let mut i: usize = 0;
    while i < n
        invariant
            n == update.len(),
            i <= n,
            out@ == dedup_bids(update@.take(i as int)),
        decreases n - i,
    {
        let x = update[i];
        let mut seen = false;
        let mut j: usize = 0;
        while j < i
            invariant
                i < n == update.len(),
                j <= i,
                seen == exists|q: int| 0 <= q < j && same_bid(#[trigger] update@[q], x),
            decreases i - j,
        {
            if is_same_bid(&update[j], &x) {
                seen = true;
            }
            j = j + 1;
        }
        proof {
            let t = update@.take(i + 1);
            assert(t.drop_last() =~= update@.take(i as int));
            assert(t.last() == x);
            assert((exists|q: int| 0 <= q < t.len() - 1 && same_bid(#[trigger] t[q], t.last()))
                == (exists|q: int| 0 <= q < i && same_bid(#[trigger] update@[q], x))) by {
                if exists|q: int| 0 <= q < i && same_bid(#[trigger] update@[q], x) {
                    let q = choose|q: int| 0 <= q < i && same_bid(#[trigger] update@[q], x);
                    assert(t[q] == update@[q]);
                }
                if exists|q: int| 0 <= q < t.len() - 1 && same_bid(#[trigger] t[q], t.last()) {
                    let q = choose|q: int| 0 <= q < t.len() - 1 && same_bid(#[trigger] t[q], t.last());
                    assert(t[q] == update@[q]);
                }
            }
        }
        if !seen {
            out.push(x);
        }
        i = i + 1;
    }
    proof {
        assert(update@.take(n as int) =~= update@);
    }
    out
}

/// Index `i` holds the first bid of `s` with price key `k`.
pub open spec fn first_with_key(s: Seq<Bid>, k: int, i: int) -> bool {
    &&& 0 <= i < s.len()
    &&& bid_key(s[i]) == k
    &&& forall|j: int| 0 <= j < i ==> bid_key(#[trigger] s[j]) != k
}

/// `s` with the size of its first bid priced as `nb` set to `nb`'s size
/// (unchanged when no bid has that price).
pub open spec fn set_first_size(s: Seq<Bid>, nb: Bid) -> Seq<Bid> {
    if exists|i: int| first_with_key(s, bid_key(nb), i) {
        let i = choose|i: int| first_with_key(s, bid_key(nb), i);
        s.update(i, Bid { size: nb.size, ..s[i] })
    } else {
        s
    }
}

/// The size updates of `v` applied to `s`, in the order of `v`.
pub open spec fn apply_sizes(s: Seq<Bid>, v: Seq<Bid>) -> Seq<Bid>
    decreases v.len(),
{
    if v.len() == 0 {
        s
    } else {
        set_first_size(apply_sizes(s, v.drop_last()), v.last())
    }
}

/// Sets the size of the first bid priced as `nb` to `nb`'s size.
pub fn update_first_size(bids: &mut Vec<Bid>, nb: &Bid)
    ensures
        final(bids)@ == set_first_size(old(bids)@, *nb),
{
    let n = bids.len();
    let mut i: usize = 0;
    while i < n
        invariant
            n == bids.len(),
            bids@ == old(bids)@,
            i <= n,
            forall|j: int| 0 <= j < i ==> bid_key(#[trigger] bids@[j]) != bid_key(*nb),
        decreases n - i,
    {
        if crate::amount_order::amount_eq(&bids[i].value, &nb.value) {
            let b = bids[i];
            proof {
                let s = old(bids)@;
                assert(first_with_key(s, bid_key(*nb), i as int));
                let c = choose|c: int| first_with_key(s, bid_key(*nb), c);
                if c < i {
                    assert(bid_key(s[c]) != bid_key(*nb));
                }
                if c > i {
                    assert(bid_key(s[i as int]) != bid_key(*nb));
                }
                assert(c == i);
            }
            bids.set(i, Bid { size: nb.size, ..b });
            return;
        }
        i = i + 1;
    }
}

/// What the pushes of an update append: every bid but the last only if
/// it has not expired at `now` (each push is preceded by a purge of the
/// expired bids), the last one in any case.
pub open spec fn pushed_tail(v: Seq<Bid>, now: Timestamp) -> Seq<Bid> {
    if v.len() == 0 {
        v
    } else {
        live_bids(v.drop_last(), now).push(v.last())
    }
}

/// The bid list after a feed update `viewed` (already deduplicated) at
/// `now`: the expired bids dropped, the sizes of existing price levels
/// updated, then the update's bids appended.
pub open spec fn merged_bids(s: Seq<Bid>, viewed: Seq<Bid>, now: Timestamp) -> Seq<Bid> {
    apply_sizes(live_bids(s, now), viewed) + pushed_tail(viewed, now)
}

/// Merges a deduplicated feed update into the bid list.
pub fn merge_update(bids: &mut Vec<Bid>, viewed: &Vec<Bid>, now: Timestamp)
    ensures
        final(bids)@ == merged_bids(old(bids)@, viewed@, now),
{
    retain_live(bids, now);
    let ghost base = bids@;
    let m = viewed.len();
    let mut i: usize = 0;
    while i < m
        invariant
            m == viewed.len(),
            i <= m,
            bids@ == apply_sizes(base, viewed@.take(i as int)),
        decreases m - i,
    {
        proof {
            assert(viewed@.take(i + 1).drop_last() =~= viewed@.take(i as int));
        }
        update_first_size(bids, &viewed[i]);
        i = i + 1;
    }
    proof {
        assert(viewed@.take(m as int) =~= viewed@);
    }
    let ghost updated = bids@;
    let mut j: usize = 0;
    while j < m
        invariant
            m == viewed.len(),
            j <= m,
            j < m ==> bids@ == updated + live_bids(viewed@.take(j as int), now),
            j == m ==> bids@ == updated + pushed_tail(viewed@, now),
        decreases m - j,
    {
        let b = viewed[j];
        proof {
            lemma_filter_take_push(viewed@, j as int, live_at(now));
        }
        if j + 1 == m {
            proof {
                assert(viewed@.drop_last() =~= viewed@.take(j as int));
                assert(updated + live_bids(viewed@.take(j as int), now).push(b)
                    =~= (updated + live_bids(viewed@.take(j as int), now)).push(b));
            }
            bids.push(b);
        } else if bid_is_live(&b, now) {
            proof {
                assert(updated + live_bids(viewed@.take(j as int), now).push(b)
                    =~= (updated + live_bids(viewed@.take(j as int), now)).push(b));
            }
            bids.push(b);
        }
        j = j + 1;
    }
    proof {
        if m == 0 {
            assert(updated + pushed_tail(viewed@, now) =~= updated);
        }
    }
}

} // verus!

verus! {

/// Dropping the expired bids twice at the same instant drops nothing more.
pub proof fn law_purge_idempotent(s: Seq<Bid>, now: Timestamp)
    ensures
        live_bids(live_bids(s, now), now) == live_bids(s, now),
    decreases s.len(),
{
    reveal(Seq::filter);
    if s.len() > 0 {
        law_purge_idempotent(s.drop_last(), now);
        let d = live_bids(s.drop_last(), now);
        if is_live(s.last(), now) {
            assert(d.push(s.last()).drop_last() =~= d);
        }
    }
}

/// After the expired bids are dropped at `now`, every bid left is live at
/// `now`, and every bid that was live at `now` is still there.
pub proof fn law_purge_keeps_exactly_live(s: Seq<Bid>, now: Timestamp)
    ensures
        forall|i: int| 0 <= i < live_bids(s, now).len() ==> is_live(#[trigger] live_bids(s, now)[i], now),
        forall|i: int| 0 <= i < s.len() && is_live(s[i], now) ==> #[trigger] live_bids(s, now).contains(s[i]),
        live_bids(s, now).len() <= s.len(),
{
    assert forall|i: int| 0 <= i < live_bids(s, now).len() implies is_live(#[trigger] live_bids(s, now)[i], now) by {
        s.lemma_filter_pred(live_at(now), i);
    }
    assert forall|i: int| 0 <= i < s.len() && is_live(s[i], now) implies #[trigger] live_bids(s, now).contains(s[i]) by {
        s.lemma_filter_contains(live_at(now), i);
    }
    s.lemma_filter_len(live_at(now));
}

proof fn lemma_class_nonempty(s: Seq<Bid>, i: int)
    requires
        0 <= i < s.len(),
    ensures
        value_class(s, bid_key(s[i])).len() > 0,
{
    s.lemma_filter_contains(has_key(bid_key(s[i])), i);
}

proof fn lemma_class_member(s: Seq<Bid>, k: int)
    requires
        value_class(s, k).len() > 0,
    ensures
        exists|j: int| 0 <= j < s.len() && bid_key(#[trigger] s[j]) == k,
{
    let c = value_class(s, k);
    s.lemma_filter_pred(has_key(k), 0);
    assert(c.contains(c[0]));
    s.lemma_filter_contains_rev(has_key(k), c[0]);
    let j = choose|j: int| 0 <= j < s.len() && s[j] == c[0];
    assert(bid_key(s[j]) == k);
}

proof fn lemma_sorted_classes_determine(a: Seq<Bid>, b: Seq<Bid>)
    requires
        sorted_by_value(a),
        sorted_by_value(b),
        forall|k: int| #[trigger] value_class(a, k) == value_class(b, k),
    ensures
        a == b,
    decreases a.len() + b.len(),
{
    if a.len() == 0 && b.len() == 0 {
        assert(a =~= b);
    } else if a.len() == 0 {
        lemma_class_nonempty(b, b.len() - 1);
        a.lemma_filter_len(has_key(bid_key(b.last())));
        assert(value_class(a, bid_key(b.last())) == value_class(b, bid_key(b.last())));
    } else if b.len() == 0 {
        lemma_class_nonempty(a, a.len() - 1);
        b.lemma_filter_len(has_key(bid_key(a.last())));
        assert(value_class(a, bid_key(a.last())) == value_class(b, bid_key(a.last())));
    } else {
        let ka = bid_key(a.last());
        let kb = bid_key(b.last());
        lemma_class_nonempty(b, b.len() - 1);
        assert(value_class(a, kb) == value_class(b, kb));
        lemma_class_member(a, kb);
        lemma_class_nonempty(a, a.len() - 1);
        assert(value_class(a, ka) == value_class(b, ka));
        lemma_class_member(b, ka);
        let ja = choose|j: int| 0 <= j < a.len() && bid_key(#[trigger] a[j]) == kb;
        let jb = choose|j: int| 0 <= j < b.len() && bid_key(#[trigger] b[j]) == ka;
        if ja < a.len() - 1 {
            assert(bid_key(a[ja]) <= bid_key(a[a.len() - 1]));
        }
        if jb < b.len() - 1 {
            assert(bid_key(b[jb]) <= bid_key(b[b.len() - 1]));
        }
        assert(ka == kb);
        let a2 = a.drop_last();
        let b2 = b.drop_last();
        assert(a =~= a2.push(a.last()));
        assert(b =~= b2.push(b.last()));
        assert forall|k: int| #[trigger] value_class(a2, k) == value_class(b2, k) by {
            lemma_filter_push(a2, a.last(), k);
            lemma_filter_push(b2, b.last(), k);
            assert(value_class(a, k) == value_class(b, k));
            if k == ka {
                assert(value_class(a2, k).push(a.last()).drop_last() =~= value_class(a2, k));
                assert(value_class(b2, k).push(b.last()).drop_last() =~= value_class(b2, k));
            }
        }
        lemma_filter_push(a2, a.last(), ka);
        lemma_filter_push(b2, b.last(), ka);
        assert(value_class(a, ka) == value_class(b, ka));
        assert(value_class(a2, ka).push(a.last()).last() == a.last());
        assert(a.last() == b.last());
        lemma_sorted_classes_determine(a2, b2);
    }
}

/// A stable sort by price has one result: two lists that are both `s`
/// stably sorted by price are equal.
pub proof fn law_stable_sort_unique(r1: Seq<Bid>, r2: Seq<Bid>, s: Seq<Bid>)
    requires
        is_stable_sort_of(r1, s),
        is_stable_sort_of(r2, s),
    ensures
        r1 == r2,
{
    assert forall|k: int| #[trigger] value_class(r1, k) == value_class(r2, k) by {
        assert(value_class(r1, k) == value_class(s, k));
        assert(value_class(r2, k) == value_class(s, k));
    }
    lemma_sorted_classes_determine(r1, r2);
}

/// Sorting a list that is already in order of price leaves it as it is.
pub proof fn law_sort_of_sorted_is_identity(r: Seq<Bid>, s: Seq<Bid>)
    requires
        sorted_by_value(s),
        is_stable_sort_of(r, s),
    ensures
        r == s,
{
    assert forall|k: int| #[trigger] value_class(r, k) == value_class(s, k) by {}
    lemma_sorted_classes_determine(r, s);
}

/// The bid level at which a given size is reached from the top is
/// unique.
pub proof fn law_reach_index_unique(s: Seq<Bid>, min: int, i: int, j: int)
    requires
        reach_index(s, min, i),
        reach_index(s, min, j),
    ensures
        i == j,
{
    if i < j {
        assert(size_from(s, j) < min);
    }
    if j < i {
        assert(size_from(s, i) < min);
    }
}

/// Asking for a larger size from the top never gives a higher-priced bid
/// level: in a list sorted by price, the level for `min2 >= min1` is at or
/// below the level for `min1`.
pub proof fn law_reach_monotone(s: Seq<Bid>, min1: int, min2: int, i1: int, i2: int)
    requires
        sorted_by_value(s),
        min1 <= min2,
        reach_index(s, min1, i1),
        reach_index(s, min2, i2),
    ensures
        i2 <= i1,
        bid_key(s[i2]) <= bid_key(s[i1]),
{
    if i2 > i1 {
        assert(size_from(s, i2) < min1);
    }
}

/// The predicate "priced at least `v`".
pub open spec fn priced_at_least(v: int) -> spec_fn(Bid) -> bool {
    |b: Bid| bid_key(b) >= v
}

/// The executable size of the bids of `s` priced at least `v`.
pub open spec fn size_at_or_above(s: Seq<Bid>, v: int) -> int {
    size_sum(s.filter(priced_at_least(v)))
}

/// How many bids `s` begins with that are priced below `v`.
pub open spec fn count_below(s: Seq<Bid>, v: int) -> nat
    decreases s.len(),
{
    if s.len() > 0 && bid_key(s[0]) < v {
        1 + count_below(s.skip(1), v)
    } else {
        0
    }
}

proof fn lemma_count_below(s: Seq<Bid>, v: int)
    ensures
        count_below(s, v) <= s.len(),
        forall|k: int| 0 <= k < count_below(s, v) ==> bid_key(#[trigger] s[k]) < v,
        count_below(s, v) < s.len() ==> bid_key(s[count_below(s, v) as int]) >= v,
    decreases s.len(),
{
    if s.len() > 0 && bid_key(s[0]) < v {
        let t = s.skip(1);
        lemma_count_below(t, v);
        assert forall|k: int| 0 <= k < count_below(s, v) implies bid_key(#[trigger] s[k]) < v by {
            if k > 0 {
                assert(s[k] == t[k - 1]);
            }
        }
        if count_below(s, v) < s.len() {
            assert(s[count_below(s, v) as int] == t[count_below(t, v) as int]);
        }
    }
}

proof fn lemma_filter_suffix(s: Seq<Bid>, v: int, f: int)
    requires
        0 <= f <= s.len(),
        forall|k: int| 0 <= k < f ==> bid_key(#[trigger] s[k]) < v,
        forall|k: int| f <= k < s.len() ==> bid_key(#[trigger] s[k]) >= v,
    ensures
        s.filter(priced_at_least(v)) == s.subrange(f, s.len() as int),
    decreases s.len(),
{
    reveal(Seq::filter);
    if s.len() == 0 {
        assert(s.filter(priced_at_least(v)) =~= Seq::<Bid>::empty());
    } else {
        let t = s.drop_last();
        assert forall|k: int| 0 <= k < t.len() implies #[trigger] t[k] == s[k] by {}
        if f == s.len() {
            lemma_filter_suffix(t, v, f - 1);
            assert(s.filter(priced_at_least(v)) == t.filter(priced_at_least(v)));
            assert(s.subrange(f, s.len() as int) =~= t.subrange(f - 1, t.len() as int));
        } else {
            lemma_filter_suffix(t, v, f);
            assert(s.subrange(f, s.len() as int) =~= t.subrange(f, t.len() as int).push(s.last()));
        }
    }
}

proof fn lemma_size_at_or_above_sorted(s: Seq<Bid>, v: int)
    requires
        sorted_by_value(s),
    ensures
        size_at_or_above(s, v) == size_from(s, count_below(s, v) as int),
        count_below(s, v) <= s.len(),
        forall|k: int| 0 <= k < count_below(s, v) ==> bid_key(#[trigger] s[k]) < v,
        forall|k: int| count_below(s, v) <= k < s.len() ==> bid_key(#[trigger] s[k]) >= v,
{
    lemma_count_below(s, v);
    let c = count_below(s, v) as int;
    assert forall|k: int| c <= k < s.len() implies bid_key(#[trigger] s[k]) >= v by {
        if c < k {
            assert(bid_key(s[c]) <= bid_key(s[k]));
        }
    }
    lemma_filter_suffix(s, v, c);
}

proof fn lemma_size_from_mono(s: Seq<Bid>, a: int, b: int)
    requires
        0 <= a <= b <= s.len(),
    ensures
        size_from(s, a) >= size_from(s, b),
    decreases b - a,
{
    if a < b {
        lemma_size_from_step(s, a);
        lemma_size_from_mono(s, a + 1, b);
    }
}

/// In a list sorted by price, the bid level at which the size counted from
/// the top first reaches `min` carries the highest price `v` of the list
/// for which the bids priced at least `v` hold `min` or more.
pub proof fn law_reach_is_highest_reaching_price(s: Seq<Bid>, min: int, i: int)
    requires
        sorted_by_value(s),
        reach_index(s, min, i),
    ensures
        size_at_or_above(s, bid_key(s[i])) >= min,
        forall|j: int| 0 <= j < s.len() && size_at_or_above(s, bid_key(s[j])) >= min
            ==> bid_key(#[trigger] s[j]) <= bid_key(s[i]),
{
    let v = bid_key(s[i]);
    lemma_size_at_or_above_sorted(s, v);
    lemma_size_from_mono(s, count_below(s, v) as int, i);
    assert forall|j: int| 0 <= j < s.len() && size_at_or_above(s, bid_key(s[j])) >= min
        implies bid_key(#[trigger] s[j]) <= bid_key(s[i]) by {
        let w = bid_key(s[j]);
        lemma_size_at_or_above_sorted(s, w);
        let c = count_below(s, w) as int;
        if w > v {
            assert forall|k: int| 0 <= k <= i implies bid_key(#[trigger] s[k]) < w by {
                if k < i {
                    assert(bid_key(s[k]) <= bid_key(s[i]));
                }
            }
            if c <= i {
                assert(bid_key(s[c]) >= w);
            }
            assert(c < s.len()) by {
                if c >= s.len() {
                    assert(bid_key(s[j]) < w);
                }
            }
            assert(size_from(s, c) < min);
        }
    }
}

/// In a list sorted by price where no level is reached, no price of the
/// list has bids priced at least it that hold `min` or more.
pub proof fn law_no_reach_no_reaching_price(s: Seq<Bid>, min: int)
    requires
        sorted_by_value(s),
        forall|i: int| 0 <= i < s.len() ==> #[trigger] size_from(s, i) < min,
    ensures
        forall|j: int| 0 <= j < s.len() ==> size_at_or_above(s, bid_key(#[trigger] s[j])) < min,
{
    assert forall|j: int| 0 <= j < s.len() implies size_at_or_above(s, bid_key(#[trigger] s[j])) < min by {
        lemma_size_at_or_above_sorted(s, bid_key(s[j]));
        let c = count_below(s, bid_key(s[j])) as int;
        if c >= s.len() {
            assert(bid_key(s[j]) < bid_key(s[j]));
        }
        assert(size_from(s, c) < min);
    }
}

proof fn lemma_size_sum_concat(u: Seq<Bid>, w: Seq<Bid>)
    ensures
        size_sum(u + w) == size_sum(u) + size_sum(w),
    decreases u.len(),
{
    if u.len() == 0 {
        assert(u + w =~= w);
    } else {
        assert((u + w)[0] == u[0]);
        assert((u + w).drop_first() =~= u.drop_first() + w);
        lemma_size_sum_concat(u.drop_first(), w);
    }
}

proof fn lemma_filter_single(x: Bid, p: spec_fn(Bid) -> bool)
    ensures
        seq![x].filter(p) == (if p(x) { seq![x] } else { Seq::<Bid>::empty() }),
{
    reveal(Seq::filter);
    assert(seq![x].drop_last() =~= Seq::<Bid>::empty());
    assert(Seq::<Bid>::empty().filter(p) =~= Seq::<Bid>::empty());
    assert(Seq::<Bid>::empty().push(x) =~= seq![x]);
}

proof fn lemma_size_without(s: Seq<Bid>, k: int, p: spec_fn(Bid) -> bool)
    requires
        0 <= k < s.len(),
    ensures
        size_sum(s.filter(p)) == size_sum(s.remove(k).filter(p)) + (if p(s[k]) { s[k].size as int } else { 0 }),
{
    let a = s.take(k);
    let b = s.skip(k + 1);
    assert(s =~= a + seq![s[k]] + b);
    assert(s.remove(k) =~= a + b);
    Seq::filter_distributes_over_add(a + seq![s[k]], b, p);
    Seq::filter_distributes_over_add(a, seq![s[k]], p);
    Seq::filter_distributes_over_add(a, b, p);
    lemma_filter_single(s[k], p);
    lemma_size_sum_concat(a.filter(p) + seq![s[k]].filter(p), b.filter(p));
    lemma_size_sum_concat(a.filter(p), seq![s[k]].filter(p));
    lemma_size_sum_concat(a.filter(p), b.filter(p));
    assert(size_sum(Seq::<Bid>::empty()) == 0);
    assert(seq![s[k]].drop_first() =~= Seq::<Bid>::empty());
}

proof fn lemma_size_filter_order_free(s1: Seq<Bid>, s2: Seq<Bid>, p: spec_fn(Bid) -> bool)
    requires
        s1.to_multiset() == s2.to_multiset(),
    ensures
        size_sum(s1.filter(p)) == size_sum(s2.filter(p)),
    decreases s1.len(),
{
    broadcast use vstd::multiset::group_multiset_axioms;
    if s1.len() == 0 {
        assert(s1.to_multiset().len() == s1.len());
        assert(s2.to_multiset().len() == s2.len());
        assert(s2.len() == 0);
        s1.lemma_filter_len(p);
        s2.lemma_filter_len(p);
    } else {
        let x = s1.last();
        let k1 = s1.len() - 1;
        assert(s1.to_multiset().count(x) > 0) by {
            assert(s1.contains(x)) by {
                assert(s1[k1] == x);
            }
        }
        assert(s2.contains(x));
        let k = choose|k: int| 0 <= k < s2.len() && s2[k] == x;
        assert(s1.remove(k1) =~= s1.drop_last());
        assert(s1.remove(k1).to_multiset() == s1.to_multiset().remove(x));
        assert(s2.remove(k).to_multiset() == s2.to_multiset().remove(x));
        lemma_size_filter_order_free(s1.remove(k1), s2.remove(k), p);
        lemma_size_without(s1, k1, p);
        lemma_size_without(s2, k, p);
    }
}

/// The size of the bids priced at least `v` does not depend on the order
/// of the bids.
pub proof fn law_size_at_or_above_order_free(r: Seq<Bid>, s: Seq<Bid>, v: int)
    requires
        r.to_multiset() == s.to_multiset(),
    ensures
        size_at_or_above(r, v) == size_at_or_above(s, v),
{
    lemma_size_filter_order_free(r, s, priced_at_least(v));
}

proof fn lemma_all_live(v: Seq<Bid>, now: Timestamp)
    requires
        forall|k: int| 0 <= k < v.len() ==> is_live(#[trigger] v[k], now),
    ensures
        live_bids(v, now) == v,
    decreases v.len(),
{
    reveal(Seq::filter);
    if v.len() > 0 {
        assert forall|k: int| 0 <= k < v.drop_last().len() implies is_live(#[trigger] v.drop_last()[k], now) by {
            assert(v.drop_last()[k] == v[k]);
        }
        lemma_all_live(v.drop_last(), now);
        assert(v.drop_last().push(v.last()) =~= v);
    }
}

proof fn lemma_dedup_covers(u: Seq<Bid>)
    ensures
        forall|k: int| 0 <= k < u.len() ==> exists|m: int| 0 <= m < dedup_bids(u).len()
            && same_bid(#[trigger] dedup_bids(u)[m], #[trigger] u[k]),
        forall|m: int| 0 <= m < dedup_bids(u).len() ==> exists|k: int| 0 <= k < u.len()
            && #[trigger] dedup_bids(u)[m] == u[k],
    decreases u.len(),
{
    if u.len() > 0 {
        let t = u.drop_last();
        let d = dedup_bids(t);
        lemma_dedup_covers(t);
        assert forall|k: int| 0 <= k < u.len() implies exists|m: int| 0 <= m < dedup_bids(u).len()
            && same_bid(#[trigger] dedup_bids(u)[m], #[trigger] u[k]) by {
            if k < u.len() - 1 {
                assert(t[k] == u[k]);
                let m = choose|m: int| 0 <= m < d.len() && same_bid(#[trigger] d[m], t[k]);
                assert(dedup_bids(u)[m] == d[m]);
            } else if exists|j: int| 0 <= j < u.len() - 1 && same_bid(#[trigger] u[j], u.last()) {
                let j = choose|j: int| 0 <= j < u.len() - 1 && same_bid(#[trigger] u[j], u.last());
                assert(t[j] == u[j]);
                let m = choose|m: int| 0 <= m < d.len() && same_bid(#[trigger] d[m], t[j]);
                assert(dedup_bids(u)[m] == d[m]);
            } else {
                assert(dedup_bids(u)[d.len() as int] == u[k]);
            }
        }
        assert forall|m: int| 0 <= m < dedup_bids(u).len() implies exists|k: int| 0 <= k < u.len()
            && #[trigger] dedup_bids(u)[m] == u[k] by {
            if m < d.len() {
                let k = choose|k: int| 0 <= k < t.len() && #[trigger] d[m] == t[k];
                assert(dedup_bids(u)[m] == d[m]);
                assert(t[k] == u[k]);
            } else {
                assert(dedup_bids(u)[m] == u[u.len() - 1]);
            }
        }
    }
}

/// A merged update whose bids are all live keeps every one of them: the
/// merged list ends with the update.
pub proof fn law_merge_keeps_update(s: Seq<Bid>, viewed: Seq<Bid>, now: Timestamp)
    requires
        forall|k: int| 0 <= k < viewed.len() ==> is_live(#[trigger] viewed[k], now),
    ensures
        merged_bids(s, viewed, now) == apply_sizes(live_bids(s, now), viewed) + viewed,
        forall|k: int| 0 <= k < viewed.len() ==> merged_bids(s, viewed, now).contains(#[trigger] viewed[k]),
{
    if viewed.len() > 0 {
        assert forall|k: int| 0 <= k < viewed.drop_last().len() implies is_live(#[trigger] viewed.drop_last()[k], now) by {
            assert(viewed.drop_last()[k] == viewed[k]);
        }
        lemma_all_live(viewed.drop_last(), now);
        assert(viewed.drop_last().push(viewed.last()) =~= viewed);
    }
    let m = merged_bids(s, viewed, now);
    let a = apply_sizes(live_bids(s, now), viewed);
    assert forall|k: int| 0 <= k < viewed.len() implies m.contains(#[trigger] viewed[k]) by {
        assert(m[a.len() + k] == viewed[k]);
    }
}

/// After a feed update whose bids are all live is merged (repeats dropped),
/// every bid of the update has a level in the list with its price, size
/// and timeout.
pub proof fn law_update_levels_present(s: Seq<Bid>, update: Seq<Bid>, now: Timestamp)
    requires
        forall|k: int| 0 <= k < update.len() ==> is_live(#[trigger] update[k], now),
    ensures
        forall|k: int| 0 <= k < update.len() ==> exists|j: int|
            0 <= j < merged_bids(s, dedup_bids(update), now).len()
            && same_bid(#[trigger] merged_bids(s, dedup_bids(update), now)[j], #[trigger] update[k]),
{
    let d = dedup_bids(update);
    lemma_dedup_covers(update);
    assert forall|k: int| 0 <= k < d.len() implies is_live(#[trigger] d[k], now) by {
        let q = choose|q: int| 0 <= q < update.len() && #[trigger] d[k] == update[q];
    }
    law_merge_keeps_update(s, d, now);
    let m = merged_bids(s, d, now);
    let a = apply_sizes(live_bids(s, now), d);
    assert forall|k: int| 0 <= k < update.len() implies exists|j: int| 0 <= j < m.len()
        && same_bid(#[trigger] m[j], #[trigger] update[k]) by {
        let q = choose|q: int| 0 <= q < d.len() && same_bid(#[trigger] d[q], update[k]);
        assert(m[a.len() + q] == d[q]);
    }
}

proof fn lemma_apply_sizes_pointwise(l: Seq<Bid>, v: Seq<Bid>)
    requires
        forall|a: int, b: int| 0 <= a < b < v.len() ==> bid_key(#[trigger] v[a]) != bid_key(#[trigger] v[b]),
    ensures
        apply_sizes(l, v).len() == l.len(),
        forall|i: int| 0 <= i < l.len() ==> (#[trigger] apply_sizes(l, v)[i]).value == l[i].value
            && apply_sizes(l, v)[i].timeout == l[i].timeout,
        forall|k: int, i: int| 0 <= k < v.len() && first_with_key(l, bid_key(v[k]), i)
            ==> (#[trigger] apply_sizes(l, v)[i]).size == (#[trigger] v[k]).size,
        forall|i: int| 0 <= i < l.len() && (forall|k: int| 0 <= k < v.len() ==> !first_with_key(l, bid_key(#[trigger] v[k]), i))
            ==> (#[trigger] apply_sizes(l, v)[i]).size == l[i].size,
    decreases v.len(),
{
    if v.len() > 0 {
        let w = v.drop_last();
        let x = v.last();
        assert forall|a: int, b: int| 0 <= a < b < w.len() implies bid_key(#[trigger] w[a]) != bid_key(#[trigger] w[b]) by {
            assert(w[a] == v[a]);
            assert(w[b] == v[b]);
        }
        lemma_apply_sizes_pointwise(l, w);
        let r = apply_sizes(l, w);
        assert(apply_sizes(l, v) == set_first_size(r, x));
        assert forall|i: int, k: int| 0 <= i < l.len() implies first_with_key(r, k, i) == first_with_key(l, k, i) by {
            if first_with_key(l, k, i) {
                assert forall|j: int| 0 <= j < i implies bid_key(#[trigger] r[j]) != k by {
                    assert(bid_key(l[j]) != k);
                }
            }
            if first_with_key(r, k, i) {
                assert forall|j: int| 0 <= j < i implies bid_key(#[trigger] l[j]) != k by {
                    assert(bid_key(r[j]) != k);
                }
            }
        }
        if exists|i: int| first_with_key(r, bid_key(x), i) {
            let i0 = choose|i: int| first_with_key(r, bid_key(x), i);
            assert(first_with_key(r, bid_key(x), i0));
            let res = apply_sizes(l, v);
            assert(res == r.update(i0, Bid { size: x.size, ..r[i0] }));
            assert forall|k: int, i: int| 0 <= k < v.len() && first_with_key(l, bid_key(v[k]), i)
                implies (#[trigger] res[i]).size == (#[trigger] v[k]).size by {
                if k < v.len() - 1 {
                    assert(w[k] == v[k]);
                    if i == i0 {
                        assert(bid_key(v[k]) != bid_key(v[v.len() - 1]));
                        assert(bid_key(l[i]) == bid_key(v[k]));
                        assert(bid_key(r[i0]) == bid_key(x));
                    }
                } else {
                    assert(first_with_key(r, bid_key(x), i));
                    if i < i0 {
                        assert(bid_key(r[i]) != bid_key(x));
                    }
                    if i0 < i {
                        assert(bid_key(r[i0]) != bid_key(x));
                    }
                }
            }
            assert forall|i: int| 0 <= i < l.len() && (forall|k: int| 0 <= k < v.len() ==> !first_with_key(l, bid_key(#[trigger] v[k]), i))
                implies (#[trigger] res[i]).size == l[i].size by {
                assert forall|k: int| 0 <= k < w.len() implies !first_with_key(l, bid_key(#[trigger] w[k]), i) by {
                    assert(w[k] == v[k]);
                    assert(!first_with_key(l, bid_key(v[k]), i));
                }
                if i == i0 {
                    assert(!first_with_key(l, bid_key(v[v.len() - 1]), i));
                }
            }
        } else {
            assert(apply_sizes(l, v) == r);
            assert forall|k: int, i: int| 0 <= k < v.len() && first_with_key(l, bid_key(v[k]), i)
                implies (#[trigger] apply_sizes(l, v)[i]).size == (#[trigger] v[k]).size by {
                if k < v.len() - 1 {
                    assert(w[k] == v[k]);
                } else {
                    assert(first_with_key(r, bid_key(x), i));
                }
            }
            assert forall|i: int| 0 <= i < l.len() && (forall|k: int| 0 <= k < v.len() ==> !first_with_key(l, bid_key(#[trigger] v[k]), i))
                implies (#[trigger] apply_sizes(l, v)[i]).size == l[i].size by {
                assert forall|k: int| 0 <= k < w.len() implies !first_with_key(l, bid_key(#[trigger] w[k]), i) by {
                    assert(w[k] == v[k]);
                    assert(!first_with_key(l, bid_key(v[k]), i));
                }
            }
        }
    }
}

/// After an update with distinct prices is merged at `now`, every price
/// level held (and not expired) that the update names, the first held bid
/// at that price, carries the size the update gives for that price, with
/// its price and timeout; every other held level keeps its size; the held
/// levels come first, in order.
pub proof fn law_merge_sets_named_sizes(s: Seq<Bid>, v: Seq<Bid>, now: Timestamp)
    requires
        forall|a: int, b: int| 0 <= a < b < v.len() ==> bid_key(#[trigger] v[a]) != bid_key(#[trigger] v[b]),
    ensures
        merged_bids(s, v, now).len() >= live_bids(s, now).len(),
        forall|k: int, i: int| 0 <= k < v.len() && 0 <= i < live_bids(s, now).len()
            && bid_key(live_bids(s, now)[i]) == bid_key(v[k])
            && (forall|j: int| 0 <= j < i ==> bid_key(#[trigger] live_bids(s, now)[j]) != bid_key(v[k]))
            ==> (#[trigger] merged_bids(s, v, now)[i]).size == (#[trigger] v[k]).size,
        forall|i: int| 0 <= i < live_bids(s, now).len() ==> (#[trigger] merged_bids(s, v, now)[i]).value == live_bids(s, now)[i].value
            && merged_bids(s, v, now)[i].timeout == live_bids(s, now)[i].timeout,
        forall|i: int| 0 <= i < live_bids(s, now).len()
            && (forall|k: int| 0 <= k < v.len() ==> bid_key(#[trigger] v[k]) != bid_key(live_bids(s, now)[i]))
            ==> (#[trigger] merged_bids(s, v, now)[i]).size == live_bids(s, now)[i].size,
{
    let l = live_bids(s, now);
    lemma_apply_sizes_pointwise(l, v);
    let a = apply_sizes(l, v);
    let m = merged_bids(s, v, now);
    assert forall|i: int| 0 <= i < l.len() implies #[trigger] m[i] == a[i] by {}
    assert forall|k: int, i: int| 0 <= k < v.len() && 0 <= i < l.len()
        && bid_key(l[i]) == bid_key(v[k])
        && (forall|j: int| 0 <= j < i ==> bid_key(#[trigger] l[j]) != bid_key(v[k]))
        implies (#[trigger] m[i]).size == (#[trigger] v[k]).size by {
        assert(first_with_key(l, bid_key(v[k]), i));
        assert(a[i].size == v[k].size);
    }
    assert forall|i: int| 0 <= i < l.len()
        && (forall|k: int| 0 <= k < v.len() ==> bid_key(#[trigger] v[k]) != bid_key(l[i]))
        implies (#[trigger] m[i]).size == l[i].size by {
        assert forall|k: int| 0 <= k < v.len() implies !first_with_key(l, bid_key(#[trigger] v[k]), i) by {
            assert(bid_key(v[k]) != bid_key(l[i]));
        }
    }
}

} // verus!
