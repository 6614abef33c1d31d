//! Releases of the reference data and the span of forecast years each one covers.
use vstd::prelude::*;

use crate::tables::RegionRow;

verus! {

/// Largest number of releases that the span listing returns.
pub const RELEASE_CAP: usize = 100;

/// One release and the first and last forecast year that it holds.
pub struct ReleaseYearResponse {
    pub year: i32,
    pub max: Option<i32>,
    pub min: Option<i32>,
}

/// Whether some row belongs to release `k`.
pub open spec fn has_release<V>(rows: Seq<RegionRow<V>>, k: i32) -> bool {
    exists|i: int| 0 <= i < rows.len() && #[trigger] rows[i].release_year == k
}

/// Whether `m` is the latest year of the rows of release `k`.
pub open spec fn is_max_year<V>(rows: Seq<RegionRow<V>>, k: i32, m: i32) -> bool {
    &&& exists|i: int| 0 <= i < rows.len() && #[trigger] rows[i].release_year == k && rows[i].year == m
    &&& forall|i: int| 0 <= i < rows.len() && #[trigger] rows[i].release_year == k ==> rows[i].year <= m
}

/// Whether `m` is the earliest year of the rows of release `k`.
pub open spec fn is_min_year<V>(rows: Seq<RegionRow<V>>, k: i32, m: i32) -> bool {
    &&& exists|i: int| 0 <= i < rows.len() && #[trigger] rows[i].release_year == k && rows[i].year == m
    &&& forall|i: int| 0 <= i < rows.len() && #[trigger] rows[i].release_year == k ==> rows[i].year >= m
}

/// Whether `r` is the span listing of `rows`: the releases present, latest first,
/// at most `RELEASE_CAP` of them, each with its latest and earliest year.
pub open spec fn is_span_listing<V>(rows: Seq<RegionRow<V>>, r: Seq<ReleaseYearResponse>) -> bool {
    &&& r.len() <= RELEASE_CAP
    &&& forall|i: int, j: int| 0 <= i < j < r.len() ==> r[i].year > r[j].year
    &&& forall|i: int|
        #![trigger r[i]]
        0 <= i < r.len() ==> {
            &&& has_release(rows, r[i].year)
            &&& r[i].max matches Some(m) && is_max_year(rows, r[i].year, m)
            &&& r[i].min matches Some(m) && is_min_year(rows, r[i].year, m)
        }
    &&& forall|k: i32|
        #[trigger] has_release(rows, k) ==> (exists|i: int| 0 <= i < r.len() && r[i].year == k) || (
        r.len() == RELEASE_CAP && k < r[RELEASE_CAP - 1].year)
}

/// The releases that some row of `rows` belongs to.
pub open spec fn release_set<V>(rows: Seq<RegionRow<V>>) -> Set<i32> {
    rows.map_values(|r: RegionRow<V>| r.release_year).to_set()
}

/// A span listing holds one entry for each release present, up to `RELEASE_CAP`:
/// `min(RELEASE_CAP, number of releases)` entries.
pub proof fn lemma_span_count<V>(rows: Seq<RegionRow<V>>, r: Seq<ReleaseYearResponse>)
    requires
        is_span_listing(rows, r),
    ensures
        r.len() == (if release_set(rows).len() < RELEASE_CAP {
            release_set(rows).len()
        } else {
            RELEASE_CAP as nat
        }),
{
    broadcast use vstd::set::group_set_axioms, vstd::seq_lib::seq_to_set_is_finite;

    let d = release_set(rows);
    let years = rows.map_values(|x: RegionRow<V>| x.release_year);
    let keys = r.map_values(|e: ReleaseYearResponse| e.year);
    assert forall|k: i32| #[trigger] d.contains(k) <==> has_release(rows, k) by {
        if d.contains(k) {
            let i = choose|i: int| 0 <= i < years.len() && years[i] == k;
            assert(rows[i].release_year == k);
        }
        if has_release(rows, k) {
            let i = choose|i: int| 0 <= i < rows.len() && #[trigger] rows[i].release_year == k;
            assert(years[i] == k);
        }
    }
    assert(keys.no_duplicates()) by {
        assert forall|i: int, j: int| 0 <= i < keys.len() && 0 <= j < keys.len() && i != j implies keys[i]
            != keys[j] by {
            if i < j {
                assert(r[i].year > r[j].year);
            } else {
                assert(r[j].year > r[i].year);
            }
        }
    }
    keys.unique_seq_to_set();
    let ks = keys.to_set();
    assert forall|k: i32| ks.contains(k) implies #[trigger] d.contains(k) by {
        let i = choose|i: int| 0 <= i < keys.len() && keys[i] == k;
        assert(r[i].year == k);
    }
    assert(ks.subset_of(d));
    vstd::set_lib::lemma_len_subset(ks, d);
    if r.len() < RELEASE_CAP {
        assert forall|k: i32| d.contains(k) implies #[trigger] ks.contains(k) by {
            assert(has_release(rows, k));
            let i = choose|i: int| 0 <= i < r.len() && r[i].year == k;
            assert(keys[i] == k);
        }
        assert(ks =~= d);
    }
}

/// Groups of `p`: keys strictly decreasing, each with its latest and earliest year,
/// and every release of `p` among them.
spec fn groups_of<V>(p: Seq<RegionRow<V>>, g: Seq<(i32, i32, i32)>) -> bool {
    &&& forall|a: int, b: int| 0 <= a < b < g.len() ==> g[a].0 > g[b].0
    &&& forall|a: int|
        #![trigger g[a]]
        0 <= a < g.len() ==> has_release(p, g[a].0) && is_max_year(p, g[a].0, g[a].1)
            && is_min_year(p, g[a].0, g[a].2)
    &&& forall|k: i32| #[trigger] has_release(p, k) ==> exists|a: int| 0 <= a < g.len() && g[a].0 == k
}

proof fn lemma_push_release<V>(p: Seq<RegionRow<V>>, x: RegionRow<V>)
    ensures
        forall|k: i32| #[trigger]
            has_release(p.push(x), k) <==> (has_release(p, k) || x.release_year == k),
        forall|k: i32, m: i32|
            is_max_year(p, k, m) && x.release_year != k ==> #[trigger] is_max_year(p.push(x), k, m),
        forall|k: i32, m: i32|
            is_min_year(p, k, m) && x.release_year != k ==> #[trigger] is_min_year(p.push(x), k, m),
{
    let q = p.push(x);
    assert forall|k: i32| #[trigger] has_release(q, k) <==> (has_release(p, k) || x.release_year == k) by {
        if has_release(p, k) {
            let i = choose|i: int| 0 <= i < p.len() && #[trigger] p[i].release_year == k;
            assert(q[i].release_year == k);
        }
        if x.release_year == k {
            assert(q[p.len() as int].release_year == k);
        }
        if has_release(q, k) && x.release_year != k {
            let i = choose|i: int| 0 <= i < q.len() && #[trigger] q[i].release_year == k;
            assert(p[i].release_year == k);
        }
    }
    assert forall|k: i32, m: i32|
        is_max_year(p, k, m) && x.release_year != k implies #[trigger] is_max_year(q, k, m) by {
        let i = choose|i: int| 0 <= i < p.len() && #[trigger] p[i].release_year == k && p[i].year == m;
        assert(q[i].release_year == k && q[i].year == m);
        assert forall|j: int| 0 <= j < q.len() && #[trigger] q[j].release_year == k implies q[j].year
            <= m by {
            assert(j < p.len());
            assert(p[j].release_year == k);
        }
    }
    assert forall|k: i32, m: i32|
        is_min_year(p, k, m) && x.release_year != k implies #[trigger] is_min_year(q, k, m) by {
        let i = choose|i: int| 0 <= i < p.len() && #[trigger] p[i].release_year == k && p[i].year == m;
        assert(q[i].release_year == k && q[i].year == m);
        assert forall|j: int| 0 <= j < q.len() && #[trigger] q[j].release_year == k implies q[j].year
            >= m by {
            assert(j < p.len());
            assert(p[j].release_year == k);
        }
    }
}

proof fn lemma_push_same_release<V>(p: Seq<RegionRow<V>>, x: RegionRow<V>, hi: i32, lo: i32)
    requires
        is_max_year(p, x.release_year, hi),
        is_min_year(p, x.release_year, lo),
    ensures
        is_max_year(p.push(x), x.release_year, if x.year > hi { x.year } else { hi }),
        is_min_year(p.push(x), x.release_year, if x.year < lo { x.year } else { lo }),
{
    let q = p.push(x);
    let k = x.release_year;
    let n = p.len() as int;
    assert(q[n] == x);
    let i = choose|i: int| 0 <= i < p.len() && #[trigger] p[i].release_year == k && p[i].year == hi;
    assert(q[i] == p[i]);
    let i2 = choose|i: int| 0 <= i < p.len() && #[trigger] p[i].release_year == k && p[i].year == lo;
    assert(q[i2] == p[i2]);
    assert forall|j: int| 0 <= j < q.len() && #[trigger] q[j].release_year == k implies q[j].year
        <= (if x.year > hi { x.year } else { hi }) && q[j].year >= (if x.year < lo { x.year } else { lo }) by {
        if j < n {
            assert(p[j] == q[j]);
        }
    }
}

proof fn lemma_push_new_release<V>(p: Seq<RegionRow<V>>, x: RegionRow<V>)
    requires
        !has_release(p, x.release_year),
    ensures
        is_max_year(p.push(x), x.release_year, x.year),
        is_min_year(p.push(x), x.release_year, x.year),
{
    let q = p.push(x);
    let n = p.len() as int;
    assert(q[n] == x);
    assert forall|j: int| 0 <= j < q.len() && #[trigger] q[j].release_year == x.release_year implies q[j].year
        == x.year by {
        if j < n {
            assert(p[j] == q[j]);
            assert(p[j].release_year == x.release_year);
        }
    }
}

/// Lists the releases present in `rows`, latest first, at most `RELEASE_CAP` of
/// them, each with the latest and earliest forecast year of its rows.
pub fn release_years<V>(rows: &Vec<RegionRow<V>>) -> (r: Vec<ReleaseYearResponse>)
    ensures
        is_span_listing(rows@, r@),
{
    let mut g: Vec<(i32, i32, i32)> = Vec::new();
    let mut i: usize = 0;
    while i < rows.len()
        invariant
            i <= rows@.len(),
            groups_of(rows@.subrange(0, i as int), g@),
        decreases rows@.len() - i,
    {
        let ghost p = rows@.subrange(0, i as int);
        let ghost q = rows@.subrange(0, i as int + 1);
        assert(q =~= p.push(rows@[i as int]));
        let key = rows[i].release_year;
        let year = rows[i].year;
        proof {
            lemma_push_release(p, rows@[i as int]);
        }
        let mut j: usize = 0;
        while j < g.len() && g[j].0 > key
            invariant
                j <= g@.len(),
                forall|a: int| 0 <= a < j ==> #[trigger] g@[a].0 > key,
            decreases g@.len() - j,
        {
            j = j + 1;
        }
        if j < g.len() && g[j].0 == key {
            let (k0, hi, lo) = g[j];
            proof {
                lemma_push_same_release(p, rows@[i as int], hi, lo);
            }
            let nhi = if year > hi { year } else { hi };
            let nlo = if year < lo { year } else { lo };
            let ghost old_g = g@;
            g.set(j, (k0, nhi, nlo));
            assert forall|k: i32| #[trigger] has_release(q, k) implies exists|a: int|
                0 <= a < g@.len() && g@[a].0 == k by {
                if k != key {
                    let a = choose|a: int| 0 <= a < old_g.len() && old_g[a].0 == k;
                    assert(g@[a].0 == k);
                } else {
                    assert(g@[j as int].0 == k);
                }
            }
        } else {
            proof {
                if has_release(p, key) {
                    let a = choose|a: int| 0 <= a < g@.len() && g@[a].0 == key;
                    if a < j {
                    } else {
                        assert(g@[j as int].0 >= g@[a].0);
                    }
                }
                lemma_push_new_release(p, rows@[i as int]);
            }
            let ghost old_g = g@;
            g.insert(j, (key, year, year));
            assert forall|k: i32| #[trigger] has_release(q, k) implies exists|a: int|
                0 <= a < g@.len() && g@[a].0 == k by {
                if k != key {
                    let b = choose|b: int| 0 <= b < old_g.len() && old_g[b].0 == k;
                    if b < j {
                        assert(g@[b].0 == k);
                    } else {
                        assert(g@[b + 1].0 == k);
                    }
                } else {
                    assert(g@[j as int].0 == k);
                }
            }
        }
        i = i + 1;
    }
    assert(rows@.subrange(0, i as int) =~= rows@);
    let mut out: Vec<ReleaseYearResponse> = Vec::new();
    let mut a: usize = 0;
    while a < g.len() && a < RELEASE_CAP
        invariant
            a <= g@.len(),
            a <= RELEASE_CAP,
            groups_of(rows@, g@),
            out@.len() == a,
            forall|b: int|
                #![trigger out@[b]]
                0 <= b < a ==> out@[b].year == g@[b].0 && out@[b].max == Some(g@[b].1) && out@[b].min
                    == Some(g@[b].2),
        decreases g@.len() - a,
    {
        let (k, hi, lo) = g[a];
        out.push(ReleaseYearResponse { year: k, max: Some(hi), min: Some(lo) });
        a = a + 1;
    }
    assert forall|i: int| 0 <= i < out@.len() implies #[trigger] out@[i].year == g@[i].0 by {}
    assert forall|k: i32| #[trigger] has_release(rows@, k) implies (exists|b: int|
        0 <= b < out@.len() && out@[b].year == k) || (out@.len() == RELEASE_CAP && k < out@[RELEASE_CAP
        - 1].year) by {
        let b = choose|b: int| 0 <= b < g@.len() && g@[b].0 == k;
        if b < a {
            assert(out@[b].year == k);
        } else {
            assert(g@[RELEASE_CAP - 1].0 > g@[b].0);
        }
    }
    out
}

} // verus!
