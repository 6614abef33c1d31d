//! Year ordering and the row cap shared by the year-range queries.
use vstd::prelude::*;

verus! {

/// Largest number of values that a year-range query returns.
pub const ROW_CAP: usize = 80;

/// Inserts `x` after every entry of `s`, counted from its end, whose year is later
/// than that of `x`: into a year-ordered `s` it goes after the entries of its year.
pub open spec fn insert_by_year<V>(s: Seq<(i32, V)>, x: (i32, V)) -> Seq<(i32, V)>
    decreases s.len(),
{
    if s.len() == 0 {
        seq![x]
    } else if s.last().0 <= x.0 {
        s.push(x)
    } else {
        insert_by_year(s.drop_last(), x).push(s.last())
    }
}

/// `s` ordered by year; entries of the same year keep their order.
pub open spec fn sort_by_year<V>(s: Seq<(i32, V)>) -> Seq<(i32, V)>
    decreases s.len(),
{
    if s.len() == 0 {
        s
    } else {
        insert_by_year(sort_by_year(s.drop_last()), s.last())
    }
}

/// The first `n` elements of `s`, or all of them where it holds fewer.
pub open spec fn capped<T>(s: Seq<T>, n: int) -> Seq<T> {
    if s.len() <= n {
        s
    } else {
        s.subrange(0, n)
    }
}

/// The values of year-tagged entries.
pub open spec fn values_of<V>(s: Seq<(i32, V)>) -> Seq<V> {
    s.map_values(|e: (i32, V)| e.1)
}

/// Whether the years of `s` never decrease.
pub open spec fn year_ordered<V>(s: Seq<(i32, V)>) -> bool {
    forall|i: int, j: int| 0 <= i < j < s.len() ==> s[i].0 <= s[j].0
}

/// The values of `entries` in year order, at most `limit` of them.
pub open spec fn ordered_values<V>(entries: Seq<(i32, V)>, limit: int) -> Seq<V> {
    values_of(capped(sort_by_year(entries), limit))
}

proof fn lemma_insert_at<V>(s: Seq<(i32, V)>, x: (i32, V), p: int)
    requires
        0 <= p <= s.len(),
        forall|j: int| p <= j < s.len() ==> s[j].0 > x.0,
        p == 0 || s[p - 1].0 <= x.0,
    ensures
        insert_by_year(s, x) == s.insert(p, x),
    decreases s.len(),
{
    if s.len() == 0 {
        assert(s.insert(p, x) =~= seq![x]);
    } else if s.last().0 <= x.0 {
        assert(p == s.len());
        assert(s.insert(p, x) =~= s.push(x));
    } else {
        lemma_insert_at(s.drop_last(), x, p);
        assert(s.drop_last().insert(p, x).push(s.last()) =~= s.insert(p, x));
    }
}

/// Insertion keeps every entry and adds one.
pub proof fn lemma_insert_len<V>(s: Seq<(i32, V)>, x: (i32, V))
    ensures
        insert_by_year(s, x).len() == s.len() + 1,
    decreases s.len(),
{
    if s.len() > 0 && s.last().0 > x.0 {
        lemma_insert_len(s.drop_last(), x);
    }
}

/// Ordering keeps the number of entries.
pub proof fn lemma_sort_len<V>(s: Seq<(i32, V)>)
    ensures
        sort_by_year(s).len() == s.len(),
    decreases s.len(),
{
    if s.len() > 0 {
        lemma_sort_len(s.drop_last());
        lemma_insert_len(sort_by_year(s.drop_last()), s.last());
    }
}

/// Inserting into a year-ordered sequence keeps it year-ordered.
pub proof fn lemma_insert_ordered<V>(s: Seq<(i32, V)>, x: (i32, V))
    requires
        year_ordered(s),
    ensures
        year_ordered(insert_by_year(s, x)),
        forall|i: int|
            0 <= i < insert_by_year(s, x).len() ==> (#[trigger] insert_by_year(s, x)[i] == x
                || exists|j: int| 0 <= j < s.len() && s[j] == insert_by_year(s, x)[i]),
    decreases s.len(),
{
    if s.len() == 0 {
    } else if s.last().0 <= x.0 {
        let r = s.push(x);
        assert forall|i: int| 0 <= i < r.len() implies (#[trigger] r[i] == x || exists|j: int|
            0 <= j < s.len() && s[j] == r[i]) by {
            if i < s.len() {
                assert(s[i] == r[i]);
            }
        }
    } else {
        let t = s.drop_last();
        lemma_insert_ordered(t, x);
        lemma_insert_len(t, x);
        let u = insert_by_year(t, x);
        let r = u.push(s.last());
        assert forall|i: int| 0 <= i < r.len() implies (#[trigger] r[i] == x || exists|j: int|
            0 <= j < s.len() && s[j] == r[i]) by {
            if i < u.len() {
                if u[i] != x {
                    let j = choose|j: int| 0 <= j < t.len() && t[j] == u[i];
                    assert(s[j] == r[i]);
                }
            } else {
                assert(s[s.len() - 1] == r[i]);
            }
        }
        assert forall|i: int, j: int| 0 <= i < j < r.len() implies r[i].0 <= r[j].0 by {
            if j == r.len() - 1 && i < u.len() {
                if u[i] == x {
                } else {
                    let k = choose|k: int| 0 <= k < t.len() && t[k] == u[i];
                    assert(s[k] == t[k]);
                }
            }
        }
    }
}

/// Ordering by year gives a year-ordered sequence.
pub proof fn lemma_sort_ordered<V>(s: Seq<(i32, V)>)
    ensures
        year_ordered(sort_by_year(s)),
    decreases s.len(),
{
    if s.len() > 0 {
        lemma_sort_ordered(s.drop_last());
        lemma_insert_ordered(sort_by_year(s.drop_last()), s.last());
    }
}

/// Insertion adds `x` to the entries, and its value to their values, counted with
/// multiplicity.
pub proof fn lemma_insert_multiset<V>(s: Seq<(i32, V)>, x: (i32, V))
    ensures
        insert_by_year(s, x).to_multiset() == s.to_multiset().insert(x),
        values_of(insert_by_year(s, x)).to_multiset() == values_of(s).to_multiset().insert(x.1),
    decreases s.len(),
{
    broadcast use vstd::seq_lib::group_to_multiset_ensures;

    if s.len() == 0 {
        assert(seq![x] =~= s.push(x));
        assert(values_of(seq![x]) =~= values_of(s).push(x.1));
    } else if s.last().0 <= x.0 {
        assert(values_of(s.push(x)) =~= values_of(s).push(x.1));
    } else {
        let t = s.drop_last();
        let e = s.last();
        lemma_insert_multiset(t, x);
        let u = insert_by_year(t, x);
        assert(s =~= t.push(e));
        assert(values_of(s) =~= values_of(t).push(e.1));
        assert(values_of(u.push(e)) =~= values_of(u).push(e.1));
        assert(u.push(e).to_multiset() =~= s.to_multiset().insert(x));
        assert(values_of(u.push(e)).to_multiset() =~= values_of(s).to_multiset().insert(x.1));
    }
}

/// Ordering by year keeps the entries and their values, counted with multiplicity.
pub proof fn lemma_sort_multiset<V>(s: Seq<(i32, V)>)
    ensures
        sort_by_year(s).to_multiset() == s.to_multiset(),
        values_of(sort_by_year(s)).to_multiset() == values_of(s).to_multiset(),
    decreases s.len(),
{
    broadcast use vstd::seq_lib::group_to_multiset_ensures;

    if s.len() > 0 {
        let t = s.drop_last();
        lemma_sort_multiset(t);
        lemma_insert_multiset(sort_by_year(t), s.last());
        assert(s =~= t.push(s.last()));
        assert(values_of(s) =~= values_of(t).push(s.last().1));
    }
}

/// Every entry kept by a year-range query is one of its entries; where the entries
/// are no more than the cap, the values returned are theirs, in some order.
pub proof fn lemma_ordered_from<V>(entries: Seq<(i32, V)>, limit: int)
    requires
        limit >= 0,
    ensures
        forall|i: int|
            0 <= i < capped(sort_by_year(entries), limit).len() ==> #[trigger] entries.contains(
                capped(sort_by_year(entries), limit)[i],
            ),
        entries.len() <= limit ==> ordered_values(entries, limit).to_multiset() == values_of(
            entries,
        ).to_multiset(),
{
    broadcast use vstd::seq_lib::group_to_multiset_ensures;

    lemma_sort_multiset(entries);
    lemma_sort_len(entries);
    let sorted = sort_by_year(entries);
    assert forall|i: int| 0 <= i < capped(sorted, limit).len() implies #[trigger] entries.contains(
        capped(sorted, limit)[i],
    ) by {
        assert(capped(sorted, limit)[i] == sorted[i]);
        assert(sorted.contains(sorted[i]));
        assert(sorted.to_multiset().count(sorted[i]) > 0);
    }
}

/// Inserts `x` into `out` as `insert_by_year` does.
fn insert_entry<V>(out: &mut Vec<(i32, V)>, x: (i32, V))
    ensures
        final(out)@ == insert_by_year(old(out)@, x),
{
    let mut p: usize = out.len();
    while p > 0 && out[p - 1].0 > x.0
        invariant
            p <= out@.len(),
            forall|j: int| p <= j < out@.len() ==> out@[j].0 > x.0,
        decreases p,
    {
        p = p - 1;
    }
    proof {
        lemma_insert_at(out@, x, p as int);
    }
    out.insert(p, x);
}

/// The values of `entries` in year order, at most `limit` of them.
pub fn order_values<V>(entries: Vec<(i32, V)>, limit: usize) -> (r: Vec<V>)
    ensures
        r@ == ordered_values(entries@, limit as int),
{
    let ghost all = entries@;
    let total = entries.len();
    let mut rest = entries;
    let mut sorted: Vec<(i32, V)> = Vec::new();
    let mut i: usize = 0;
    while rest.len() > 0
        invariant
            i <= all.len(),
            all.len() == total,
            rest@ == all.subrange(i as int, all.len() as int),
            sorted@ == sort_by_year(all.subrange(0, i as int)),
        decreases rest@.len(),
    {
        proof {
            assert(all.subrange(0, i as int + 1).drop_last() =~= all.subrange(0, i as int));
        }
        let x = rest.remove(0);
        insert_entry(&mut sorted, x);
        i = i + 1;
        assert(rest@ =~= all.subrange(i as int, all.len() as int));
    }
    assert(all.subrange(0, i as int) =~= all);
    sorted.truncate(limit);
    let ghost kept = sorted@;
    proof {
        lemma_sort_len(all);
    }
    assert(kept == capped(sort_by_year(all), limit as int));
    let mut out: Vec<V> = Vec::new();
    let mut k: usize = 0;
    while sorted.len() > 0
        invariant
            k <= kept.len(),
            kept.len() <= total,
            sorted@ == kept.subrange(k as int, kept.len() as int),
            out@ == values_of(kept.subrange(0, k as int)),
        decreases sorted@.len(),
    {
        let x = sorted.remove(0);
        out.push(x.1);
        k = k + 1;
        assert(out@ =~= values_of(kept.subrange(0, k as int)));
        assert(sorted@ =~= kept.subrange(k as int, kept.len() as int));
    }
    assert(kept.subrange(0, k as int) =~= kept);
    out
}

} // verus!
