use vstd::prelude::*;

verus! {

/// Where a stable insertion puts `i` among the sorted `s`: after every entry
/// that `i` does not come strictly before.
pub open spec fn insert_position(before: spec_fn(int, int) -> bool, s: Seq<int>, i: int) -> int
    decreases s.len(),
{
    if s.len() == 0 {
        0
    } else if before(i, s.last()) {
        insert_position(before, s.drop_last(), i)
    } else {
        s.len() as int
    }
}

/// `idx` sorted by `before`, entries that neither comes before kept in
/// their order (a stable sort, as `sort_by` is).
#[verifier::opaque]
pub open spec fn stable_sort(before: spec_fn(int, int) -> bool, idx: Seq<int>) -> Seq<int>
    decreases idx.len(),
{
    if idx.len() == 0 {
        idx
    } else {
        let sorted = stable_sort(before, idx.drop_last());
        sorted.insert(insert_position(before, sorted, idx.last()), idx.last())
    }
}

pub open spec fn as_ints(v: Seq<usize>) -> Seq<int> {
    v.map_values(|x: usize| x as int)
}

/// Inserts `i` into `order`, sorted by `before`, after the entries that it
/// does not come strictly before; `comes_before(a, b)` tells whether `a` comes before
/// `b`.
pub fn insert_stable<F: Fn(usize, usize) -> bool>(
    order: &mut Vec<usize>,
    i: usize,
    Ghost(before): Ghost<spec_fn(int, int) -> bool>,
    bound: usize,
    comes_before: F,
)
    requires
        i < bound,
        forall|j: int| 0 <= j < old(order)@.len() ==> (#[trigger] old(order)@[j]) < bound,
        forall|a: usize, b: usize| a < bound && b < bound ==> #[trigger] comes_before.requires((a, b)),
        forall|a: usize, b: usize, r: bool|
            a < bound && b < bound && #[trigger] comes_before.ensures((a, b), r) ==> r == before(a as int, b as int),
    ensures
        as_ints(final(order)@) == as_ints(old(order)@).insert(
            insert_position(before, as_ints(old(order)@), i as int),
            i as int,
        ),
        forall|j: int| 0 <= j < final(order)@.len() ==> (#[trigger] final(order)@[j]) < bound,
{
    let ghost sorted = as_ints(order@);
    let mut p: usize = order.len();
    assert(sorted.take(p as int) == sorted);
    while p > 0
        invariant
            p <= order@.len(),
            sorted == as_ints(order@),
            i < bound,
            forall|j: int| 0 <= j < order@.len() ==> (#[trigger] order@[j]) < bound,
            forall|a: usize, b: usize| a < bound && b < bound ==> #[trigger] comes_before.requires((a, b)),
            forall|a: usize, b: usize, r: bool|
                a < bound && b < bound && #[trigger] comes_before.ensures((a, b), r) ==> r == before(a as int, b as int),
            insert_position(before, sorted.take(p as int), i as int) == insert_position(before, sorted, i as int),
        ensures
            p <= order@.len(),
            insert_position(before, sorted.take(p as int), i as int) == insert_position(before, sorted, i as int),
            p == 0 || !before(i as int, sorted[p - 1]),
        decreases p,
    {
        let q = order[p - 1];
        assert(sorted.take(p as int).drop_last() == sorted.take(p - 1));
        assert(sorted.take(p as int).last() == q as int);
        if !comes_before(i, q) {
            break;
        }
        p = p - 1;
    }
    proof {
        if p > 0 {
            assert(sorted.take(p as int).last() == sorted[p - 1]);
        }
    }
    order.insert(p, i);
    assert(as_ints(order@) == sorted.insert(p as int, i as int));
}

/// The entries of `s` that satisfy `pred`, in order.
#[verifier::opaque]
pub open spec fn filter_idx(s: Seq<int>, pred: spec_fn(int) -> bool) -> Seq<int>
    decreases s.len(),
{
    if s.len() == 0 {
        Seq::empty()
    } else {
        let rest = filter_idx(s.drop_last(), pred);
        if pred(s.last()) {
            rest.push(s.last())
        } else {
            rest
        }
    }
}

/// The entries of `src` that `keep` keeps, in order.
pub fn filter_positions<F: Fn(usize) -> bool>(
    src: &Vec<usize>,
    Ghost(pred): Ghost<spec_fn(int) -> bool>,
    bound: usize,
    keep: F,
) -> (r: Vec<usize>)
    requires
        forall|j: int| 0 <= j < src@.len() ==> (#[trigger] src@[j]) < bound,
        forall|a: usize| a < bound ==> #[trigger] keep.requires((a,)),
        forall|a: usize, b: bool| a < bound && #[trigger] keep.ensures((a,), b) ==> b == pred(a as int),
    ensures
        as_ints(r@) == filter_idx(as_ints(src@), pred),
        forall|j: int| 0 <= j < r@.len() ==> (#[trigger] r@[j]) < bound,
{
    let ghost s = as_ints(src@);
    let mut out: Vec<usize> = Vec::new();
    let mut k: usize = 0;
    proof {
        reveal_with_fuel(filter_idx, 1);
    }
    while k < src.len()
        invariant
            k <= src@.len(),
            s == as_ints(src@),
            forall|j: int| 0 <= j < src@.len() ==> (#[trigger] src@[j]) < bound,
            forall|a: usize| a < bound ==> #[trigger] keep.requires((a,)),
            forall|a: usize, b: bool| a < bound && #[trigger] keep.ensures((a,), b) ==> b == pred(a as int),
            as_ints(out@) == filter_idx(s.take(k as int), pred),
            forall|j: int| 0 <= j < out@.len() ==> (#[trigger] out@[j]) < bound,
        decreases src.len() - k,
    {
        assert(s.take(k + 1).drop_last() == s.take(k as int));
        assert(s.take(k + 1).last() == src@[k as int] as int);
        proof {
            reveal_with_fuel(filter_idx, 1);
        }
        let x = src[k];
        if keep(x) {
            let ghost before = out@;
            out.push(x);
            assert(as_ints(out@) == as_ints(before).push(x as int));
        }
        k = k + 1;
    }
    assert(s.take(src@.len() as int) == s);
    out
}

/// The entries of `src` sorted stably by `before`.
pub fn sort_positions<F: Fn(usize, usize) -> bool>(
    src: &Vec<usize>,
    Ghost(before): Ghost<spec_fn(int, int) -> bool>,
    bound: usize,
    comes_before: F,
) -> (r: Vec<usize>)
    requires
        forall|j: int| 0 <= j < src@.len() ==> (#[trigger] src@[j]) < bound,
        forall|a: usize, b: usize| a < bound && b < bound ==> #[trigger] comes_before.requires((a, b)),
        forall|a: usize, b: usize, r: bool|
            a < bound && b < bound && #[trigger] comes_before.ensures((a, b), r) ==> r == before(a as int, b as int),
    ensures
        as_ints(r@) == stable_sort(before, as_ints(src@)),
        forall|j: int| 0 <= j < r@.len() ==> (#[trigger] r@[j]) < bound,
{
    let ghost s = as_ints(src@);
    let mut out: Vec<usize> = Vec::new();
    let mut k: usize = 0;
    proof {
        reveal_with_fuel(stable_sort, 1);
    }
    while k < src.len()
        invariant
            k <= src@.len(),
            s == as_ints(src@),
            forall|j: int| 0 <= j < src@.len() ==> (#[trigger] src@[j]) < bound,
            forall|a: usize, b: usize| a < bound && b < bound ==> #[trigger] comes_before.requires((a, b)),
            forall|a: usize, b: usize, r: bool|
                a < bound && b < bound && #[trigger] comes_before.ensures((a, b), r) ==> r == before(a as int, b as int),
            as_ints(out@) == stable_sort(before, s.take(k as int)),
            forall|j: int| 0 <= j < out@.len() ==> (#[trigger] out@[j]) < bound,
        decreases src.len() - k,
    {
        assert(s.take(k + 1).drop_last() == s.take(k as int));
        assert(s.take(k + 1).last() == src@[k as int] as int);
        proof {
            reveal_with_fuel(stable_sort, 1);
        }
        insert_stable(&mut out, src[k], Ghost(before), bound, &comes_before);
        k = k + 1;
    }
    assert(s.take(src@.len() as int) == s);
    out
}

/// The numbers below `n`, in order.
pub fn positions_below(n: usize) -> (r: Vec<usize>)
    ensures
        as_ints(r@) == Seq::new(n as nat, |i: int| i),
        forall|j: int| 0 <= j < r@.len() ==> (#[trigger] r@[j]) < n,
{
    let mut out: Vec<usize> = Vec::new();
    let mut i: usize = 0;
    while i < n
        invariant
            i <= n,
            as_ints(out@) == Seq::new(i as nat, |j: int| j),
            forall|j: int| 0 <= j < out@.len() ==> (#[trigger] out@[j]) < n,
        decreases n - i,
    {
        let ghost before = out@;
        out.push(i);
        assert(as_ints(out@) == as_ints(before).push(i as int));
        assert(as_ints(out@) =~= Seq::new((i + 1) as nat, |j: int| j));
        i = i + 1;
    }
    out
}

/// The first `n` entries of `v` (all of them when it is shorter).
pub fn take_positions(v: &Vec<usize>, n: usize) -> (r: Vec<usize>)
    ensures
        as_ints(r@) == as_ints(v@).take(if n < v@.len() { n as int } else { v@.len() as int }),
{
    let m = if n < v.len() { n } else { v.len() };
    let mut out: Vec<usize> = Vec::new();
    let mut k: usize = 0;
    while k < m
        invariant
            k <= m <= v@.len(),
            as_ints(out@) == as_ints(v@).take(k as int),
        decreases m - k,
    {
        let ghost before = out@;
        out.push(v[k]);
        assert(as_ints(out@) == as_ints(before).push(v@[k as int] as int));
        assert(as_ints(v@).take(k + 1) == as_ints(v@).take(k as int).push(as_ints(v@)[k as int]));
        k = k + 1;
    }
    out
}

proof fn lemma_insert_position_bounds(before: spec_fn(int, int) -> bool, s: Seq<int>, i: int)
    ensures
        0 <= insert_position(before, s, i) <= s.len(),
    decreases s.len(),
{
    if s.len() > 0 {
        lemma_insert_position_bounds(before, s.drop_last(), i);
    }
}

/// A stable sort keeps the number of entries.
pub proof fn lemma_stable_sort_len(before: spec_fn(int, int) -> bool, idx: Seq<int>)
    ensures
        stable_sort(before, idx).len() == idx.len(),
    decreases idx.len(),
{
    reveal_with_fuel(stable_sort, 1);
    if idx.len() > 0 {
        lemma_stable_sort_len(before, idx.drop_last());
        lemma_insert_position_bounds(before, stable_sort(before, idx.drop_last()), idx.last());
    }
}


/// A filter keeps exactly the entries that satisfy its predicate.
pub proof fn lemma_filter_idx_contains(s: Seq<int>, pred: spec_fn(int) -> bool)
    ensures
        forall|x: int| #[trigger] filter_idx(s, pred).contains(x) <==> s.contains(x) && pred(x),
    decreases s.len(),
{
    reveal_with_fuel(filter_idx, 1);
    if s.len() > 0 {
        let rest = s.drop_last();
        lemma_filter_idx_contains(rest, pred);
        let f = filter_idx(s, pred);
        let rf = filter_idx(rest, pred);
        assert forall|x: int| f.contains(x) <==> s.contains(x) && pred(x) by {
            assert(rf.contains(x) <==> rest.contains(x) && pred(x));
            if s.contains(x) && x != s.last() {
                let k = choose|k: int| 0 <= k < s.len() && s[k] == x;
                assert(rest[k] == x);
            }
            if rest.contains(x) {
                let k = choose|k: int| 0 <= k < rest.len() && rest[k] == x;
                assert(s[k] == x);
            }
            if pred(s.last()) {
                if f.contains(x) && x != s.last() {
                    let k = choose|k: int| 0 <= k < f.len() && f[k] == x;
                    assert(rf[k] == x);
                }
                if rf.contains(x) {
                    let k = choose|k: int| 0 <= k < rf.len() && rf[k] == x;
                    assert(f[k] == x);
                }
                assert(f[rf.len() as int] == s.last());
            }
            assert(s[s.len() - 1] == s.last());
        }
    }
}

/// A stable sort keeps the entries it sorts.
pub proof fn lemma_stable_sort_contains(before: spec_fn(int, int) -> bool, idx: Seq<int>)
    ensures
        forall|x: int| #[trigger] stable_sort(before, idx).contains(x) <==> idx.contains(x),
    decreases idx.len(),
{
    reveal_with_fuel(stable_sort, 1);
    if idx.len() > 0 {
        let rest = idx.drop_last();
        let x = idx.last();
        lemma_stable_sort_contains(before, rest);
        let sorted = stable_sort(before, rest);
        let p = insert_position(before, sorted, x);
        lemma_insert_position_bounds(before, sorted, x);
        let r = sorted.insert(p, x);
        assert(stable_sort(before, idx) == r);
        assert forall|y: int| r.contains(y) <==> idx.contains(y) by {
            assert(sorted.contains(y) <==> rest.contains(y));
            if r.contains(y) {
                let k = choose|k: int| 0 <= k < r.len() && r[k] == y;
                if k == p {
                    assert(idx[idx.len() - 1] == y);
                } else {
                    let sk = if k < p { k } else { k - 1 };
                    assert(sorted[sk] == y);
                    assert(sorted.contains(y));
                    let m = choose|m: int| 0 <= m < rest.len() && rest[m] == y;
                    assert(idx[m] == y);
                }
            }
            if idx.contains(y) {
                let m = choose|m: int| 0 <= m < idx.len() && idx[m] == y;
                if m < idx.len() - 1 {
                    assert(rest[m] == y);
                    assert(rest.contains(y));
                    let k = choose|k: int| 0 <= k < sorted.len() && sorted[k] == y;
                    if k < p {
                        assert(r[k] == y);
                    } else {
                        assert(r[k + 1] == y);
                    }
                } else {
                    assert(r[p] == y);
                }
            }
        }
    }
}

} // verus!
