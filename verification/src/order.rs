//! The order in which a renderer lists things.
//!
//! Whatever is listed gets a key: a rank and up to three texts. Keys are
//! compared by rank first and then text by text. Things with equal keys
//! stay in the order in which they were given, so the order of a listing
//! is fixed by the keys alone.
use vstd::prelude::*;
use crate::text::Placement;
use crate::text::compare_text;
use crate::text::text_lt;
use crate::text::text_lt_asymmetric;
use crate::text::text_lt_irreflexive;
use crate::text::text_lt_total;
use crate::text::text_lt_transitive;

verus! {

/// What a thing is ordered by.
#[derive(Debug)]
pub struct SortKey {
    pub rank: u8,
    pub first: Vec<char>,
    pub second: Vec<char>,
    pub third: Vec<char>,
}

/// What a `SortKey` stands for.
pub struct SortKeyView {
    pub rank: u8,
    pub first: Seq<char>,
    pub second: Seq<char>,
    pub third: Seq<char>,
}

impl View for SortKey {
    type V = SortKeyView;

    open spec fn view(&self) -> SortKeyView {
        SortKeyView {
            rank: self.rank,
            first: self.first@,
            second: self.second@,
            third: self.third@,
        }
    }
}

/// What a list of keys stands for.
pub open spec fn key_views(keys: Seq<SortKey>) -> Seq<SortKeyView> {
    Seq::new(keys.len(), |i: int| keys[i]@)
}

/// What a list of places stands for.
pub open spec fn places(order: Seq<usize>) -> Seq<int> {
    Seq::new(order.len(), |i: int| order[i] as int)
}

/// `a` comes before `b`: by the rank, then by the first text, then by the
/// second, then by the third.
pub open spec fn key_lt(a: SortKeyView, b: SortKeyView) -> bool {
    if a.rank != b.rank {
        a.rank < b.rank
    } else if a.first != b.first {
        text_lt(a.first, b.first)
    } else if a.second != b.second {
        text_lt(a.second, b.second)
    } else {
        text_lt(a.third, b.third)
    }
}

/// No key comes before itself, and of two keys at most one comes before
/// the other.
pub proof fn key_lt_asymmetric(a: SortKeyView, b: SortKeyView)
    ensures
        !(key_lt(a, b) && key_lt(b, a)),
        !key_lt(a, a),
{
    text_lt_asymmetric(a.first, b.first);
    text_lt_asymmetric(a.second, b.second);
    text_lt_asymmetric(a.third, b.third);
    text_lt_irreflexive(a.third);
}

/// Of two different keys one comes before the other.
pub proof fn key_lt_total(a: SortKeyView, b: SortKeyView)
    ensures
        key_lt(a, b) || key_lt(b, a) || a == b,
{
    text_lt_total(a.first, b.first);
    text_lt_total(a.second, b.second);
    text_lt_total(a.third, b.third);
}

/// What comes before a key comes before all that the key comes before.
pub proof fn key_lt_transitive(a: SortKeyView, b: SortKeyView, c: SortKeyView)
    requires
        key_lt(a, b),
        key_lt(b, c),
    ensures
        key_lt(a, c),
{
    key_lt_asymmetric(a, b);
    key_lt_asymmetric(b, c);
    if a.rank == b.rank && b.rank == c.rank {
        if a.first != b.first && b.first != c.first {
            text_lt_transitive(a.first, b.first, c.first);
            text_lt_irreflexive(a.first);
        } else if a.first == b.first && b.first == c.first {
            if a.second != b.second && b.second != c.second {
                text_lt_transitive(a.second, b.second, c.second);
                text_lt_irreflexive(a.second);
            } else if a.second == b.second && b.second == c.second {
                text_lt_transitive(a.third, b.third, c.third);
            }
        }
    }
}

/// Whether `a` comes before `b`.
pub fn key_before(a: &SortKey, b: &SortKey) -> (r: bool)
    ensures
        r == key_lt(a@, b@),
{
    if a.rank != b.rank {
        return a.rank < b.rank;
    }
    match compare_text(&a.first, &b.first) {
        Placement::Before => true,
        Placement::After => false,
        Placement::Same => match compare_text(&a.second, &b.second) {
            Placement::Before => true,
            Placement::After => false,
            Placement::Same => match compare_text(&a.third, &b.third) {
                Placement::Before => true,
                _ => false,
            },
        },
    }
}

/// The thing at place `i` is listed before the thing at place `j`: its key
/// comes first, or the keys are equal and it was given first.
pub open spec fn precedes(keys: Seq<SortKeyView>, i: int, j: int) -> bool {
    key_lt(keys[i], keys[j]) || (!key_lt(keys[j], keys[i]) && i < j)
}

/// `order` lists the first `n` places of `keys`, each once, each before all
/// that it precedes.
pub open spec fn is_stable_order_of(keys: Seq<SortKeyView>, n: int, order: Seq<int>) -> bool {
    &&& order.len() == n
    &&& forall|p: int| 0 <= p < order.len() ==> 0 <= #[trigger] order[p] < n
    &&& forall|i: int| 0 <= i < n ==> order.contains(i)
    &&& forall|p: int, q: int|
        0 <= p < q < order.len() ==> precedes(keys, #[trigger] order[p], #[trigger] order[q])
}

/// `order` lists the places of `keys`, each once, each before all that it
/// precedes: the keys in rising order, equal keys in the order given.
pub open spec fn is_stable_order(keys: Seq<SortKeyView>, order: Seq<int>) -> bool {
    is_stable_order_of(keys, keys.len() as int, order)
}

/// Two sequences that hold the same things, each in strictly rising order,
/// are one sequence.
pub proof fn strictly_sorted_is_unique<T>(a: Seq<T>, b: Seq<T>, lt: spec_fn(T, T) -> bool)
    requires
        forall|x: T, y: T| !(#[trigger] lt(x, y) && lt(y, x)),
        forall|i: int, j: int| 0 <= i < j < a.len() ==> lt(#[trigger] a[i], #[trigger] a[j]),
        forall|i: int, j: int| 0 <= i < j < b.len() ==> lt(#[trigger] b[i], #[trigger] b[j]),
        forall|x: T| a.contains(x) <==> b.contains(x),
    ensures
        a == b,
    decreases a.len(),
{
    if a.len() == 0 {
        if b.len() > 0 {
            assert(b.contains(b[0]));
        }
        assert(a =~= b);
    } else {
        assert(a.contains(a[0]));
        assert(b.contains(a[0]));
        let j = choose|j: int| 0 <= j < b.len() && b[j] == a[0];
        assert(b.contains(b[0]));
        assert(a.contains(b[0]));
        let i = choose|i: int| 0 <= i < a.len() && a[i] == b[0];
        if j > 0 {
            assert(lt(b[0], b[j]));
            if i > 0 {
                assert(lt(a[0], a[i]));
            }
        }
        assert(a[0] == b[0]);
        let ra = a.drop_first();
        let rb = b.drop_first();
        assert forall|x: T| ra.contains(x) <==> rb.contains(x) by {
            if ra.contains(x) {
                let p = choose|p: int| 0 <= p < ra.len() && ra[p] == x;
                assert(a[p + 1] == x);
                assert(lt(a[0], a[p + 1]));
                assert(a.contains(x));
                let q = choose|q: int| 0 <= q < b.len() && b[q] == x;
                assert(q > 0);
                assert(rb[q - 1] == x);
            }
            if rb.contains(x) {
                let p = choose|p: int| 0 <= p < rb.len() && rb[p] == x;
                assert(b[p + 1] == x);
                assert(lt(b[0], b[p + 1]));
                assert(b.contains(x));
                let q = choose|q: int| 0 <= q < a.len() && a[q] == x;
                assert(q > 0);
                assert(ra[q - 1] == x);
            }
        }
        assert forall|i: int, j: int| 0 <= i < j < ra.len() implies lt(
            #[trigger] ra[i],
            #[trigger] ra[j],
        ) by {
            assert(lt(a[i + 1], a[j + 1]));
        }
        assert forall|i: int, j: int| 0 <= i < j < rb.len() implies lt(
            #[trigger] rb[i],
            #[trigger] rb[j],
        ) by {
            assert(lt(b[i + 1], b[j + 1]));
        }
        strictly_sorted_is_unique(ra, rb, lt);
        assert(a =~= seq![a[0]] + ra);
        assert(b =~= seq![b[0]] + rb);
    }
}

/// The keys fix the order: there is one stable order and no other.
pub proof fn stable_order_is_unique(keys: Seq<SortKeyView>, a: Seq<int>, b: Seq<int>)
    requires
        is_stable_order(keys, a),
        is_stable_order(keys, b),
    ensures
        a == b,
{
    let lt = |i: int, j: int| precedes(keys, i, j);
    assert forall|x: int, y: int| !(#[trigger] lt(x, y) && lt(y, x)) by {
        key_lt_asymmetric(keys[x], keys[y]);
    }
    assert forall|x: int| a.contains(x) <==> b.contains(x) by {
        if a.contains(x) {
            let p = choose|p: int| 0 <= p < a.len() && a[p] == x;
            assert(0 <= a[p] < keys.len());
        }
        if b.contains(x) {
            let p = choose|p: int| 0 <= p < b.len() && b[p] == x;
            assert(0 <= b[p] < keys.len());
        }
    }
    strictly_sorted_is_unique(a, b, lt);
}

/// The places of `keys` in rising order of the keys, equal keys in the
/// order given.
pub open spec fn stable_order(keys: Seq<SortKeyView>) -> Seq<int> {
    choose|order: Seq<int>| is_stable_order(keys, order)
}

/// Lists the places of `keys` in rising order of the keys, equal keys in
/// the order given.
pub fn sort_stably(keys: &Vec<SortKey>) -> (order: Vec<usize>)
    ensures
        is_stable_order(key_views(keys@), places(order@)),
        places(order@) == stable_order(key_views(keys@)),
{
    let ghost kv = key_views(keys@);
    let mut order: Vec<usize> = Vec::new();
    let mut n: usize = 0;
    while n < keys.len()
        invariant
            n <= keys.len(),
            kv == key_views(keys@),
            is_stable_order_of(kv, n as int, places(order@)),
        decreases keys.len() - n,
    {
        let ghost before = places(order@);
        let mut p: usize = order.len();
        assert forall|q: int| 0 <= q < order.len() implies #[trigger] order@[q] < n by {
            assert(0 <= before[q] < n);
        }
        while p > 0 && key_before(&keys[n], &keys[order[p - 1]])
            invariant
                p <= order.len(),
                n < keys.len(),
                kv == key_views(keys@),
                before == places(order@),
                is_stable_order_of(kv, n as int, before),
                forall|q: int| 0 <= q < order.len() ==> #[trigger] order@[q] < n,
                forall|q: int|
                    p <= q < order.len() ==> key_lt(kv[n as int], kv[#[trigger] before[q]]),
            decreases p,
        {
            p = p - 1;
        }
        order.insert(p, n);
        proof {
            let after = places(order@);
            assert(after =~= before.insert(p as int, n as int));
            assert forall|q: int| 0 <= q < p implies !key_lt(kv[n as int], kv[#[trigger] before[q]]) by {
                let last = before[p - 1];
                let here = before[q];
                if q < p - 1 {
                    assert(precedes(kv, here, last));
                    key_lt_total(kv[here], kv[last]);
                    if key_lt(kv[n as int], kv[here]) && key_lt(kv[here], kv[last]) {
                        key_lt_transitive(kv[n as int], kv[here], kv[last]);
                    }
                }
            }
            assert forall|i: int| 0 <= i < n + 1 implies after.contains(i) by {
                if i == n {
                    assert(after[p as int] == i);
                } else {
                    assert(before.contains(i));
                    let q = choose|q: int| 0 <= q < before.len() && before[q] == i;
                    if q < p {
                        assert(after[q] == i);
                    } else {
                        assert(after[q + 1] == i);
                    }
                }
            }
            assert forall|a: int, b: int| 0 <= a < b < after.len() implies precedes(
                kv,
                #[trigger] after[a],
                #[trigger] after[b],
            ) by {
                if a == p {
                    assert(after[b] == before[b - 1]);
                } else if b == p {
                    assert(after[a] == before[a]);
                    assert(!key_lt(kv[n as int], kv[before[a]]));
                } else {
                    let a0 = if a < p { a } else { a - 1 };
                    let b0 = if b < p { b } else { b - 1 };
                    assert(after[a] == before[a0]);
                    assert(after[b] == before[b0]);
                }
            }
        }
        n = n + 1;
    }
    proof {
        let found = places(order@);
        assert(is_stable_order(kv, found));
        stable_order_is_unique(kv, found, stable_order(kv));
    }
    order
}

} // verus!
