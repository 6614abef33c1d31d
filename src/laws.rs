//! Properties that hold of every request and every table.
use vstd::prelude::*;

use crate::escalation::{escalation_entries, escalation_result, zip_division, EscalationFilter};
use crate::order::{
    capped, lemma_ordered_from, lemma_sort_len, lemma_sort_ordered, ordered_values, sort_by_year,
    values_of, year_ordered, ROW_CAP,
};
use crate::paging::{lemma_window_len, page_len, window_of, PAGE_SIZE};
use crate::prices::{discount_entries, discount_keep, price_entries, scc_entries, EnergyPriceFilter, SccRequest};
use crate::region::{region_entries, region_result, EmissionsRequest, RegionFilter};
use crate::tables::{entries_where, lemma_entries_from, lemma_entries_none, DiscountRow, Division, EscalationRow, PriceRow, RegionRow, SccRow, ZipInfo};

verus! {

proof fn lemma_no_entries_no_values<V>(entries: Seq<(i32, V)>)
    requires
        entries.len() == 0,
    ensures
        ordered_values(entries, ROW_CAP as int).len() == 0,
{
    lemma_sort_len(entries);
}

/// A regional query whose year range is reversed (`from > to`) returns no value.
pub proof fn lemma_reversed_range_region<V>(f: RegionFilter, rows: Seq<RegionRow<V>>)
    requires
        f.from > f.to,
    ensures
        region_result(f, rows).len() == 0,
{
    lemma_entries_none(rows, |r: RegionRow<V>| f.keeps(r), |r: RegionRow<V>| (r.year, r.value));
    lemma_no_entries_no_values(region_entries(f, rows));
}

/// An emissions query whose year range is reversed returns no value, whatever
/// balancing authority its zip code resolves to.
pub proof fn lemma_reversed_range_emissions<V>(q: EmissionsRequest, ba: Seq<char>, rows: Seq<RegionRow<V>>)
    requires
        q.from > q.to,
    ensures
        region_result(q.filter_for(ba), rows).len() == 0,
{
    lemma_reversed_range_region(q.filter_for(ba), rows);
}

/// An escalation query whose year range is reversed returns no value.
pub proof fn lemma_reversed_range_escalation<V>(
    f: EscalationFilter,
    zips: Seq<ZipInfo>,
    divisions: Seq<Division>,
    rows: Seq<EscalationRow<V>>,
)
    requires
        f.from > f.to,
    ensures
        escalation_result(f, zips, divisions, rows).len() == 0,
{
    if let Some(d) = zip_division(zips, divisions, f.zip) {
        lemma_entries_none(
            rows,
            |r: EscalationRow<V>| f.keeps(d, r),
            |r: EscalationRow<V>| (r.year, r),
        );
        lemma_no_entries_no_values(escalation_entries(f, d, rows));
    }
}

/// An SCC query whose year range is reversed returns no value.
pub proof fn lemma_reversed_range_scc<V>(q: SccRequest, rows: Seq<SccRow<V>>)
    requires
        q.from > q.to,
    ensures
        ordered_values(scc_entries(q, rows), ROW_CAP as int).len() == 0,
{
    lemma_entries_none(
        rows,
        |r: SccRow<V>| q.spec_keeps(r),
        |r: SccRow<V>| (r.year, q.option.spec_column(r)),
    );
    lemma_no_entries_no_values(scc_entries(q, rows));
}

/// An energy-price query whose year range is reversed returns no value.
pub proof fn lemma_reversed_range_prices<V>(f: EnergyPriceFilter, rows: Seq<PriceRow<V>>)
    requires
        f.from > f.to,
    ensures
        ordered_values(price_entries(f, rows), ROW_CAP as int).len() == 0,
{
    lemma_entries_none(
        rows,
        |r: PriceRow<V>| f.keeps(r),
        |r: PriceRow<V>| (r.year, f.fuel_type.spec_column(r)),
    );
    lemma_no_entries_no_values(price_entries(f, rows));
}

/// A year-range query returns `ROW_CAP` values where more rows match, and exactly
/// as many values as rows match otherwise.
pub proof fn lemma_row_cap<V>(entries: Seq<(i32, V)>)
    ensures
        ordered_values(entries, ROW_CAP as int).len() == (if entries.len() <= ROW_CAP {
            entries.len() as int
        } else {
            ROW_CAP as int
        }),
{
    lemma_sort_len(entries);
}

/// The count law of the cap, for the regional tables.
pub proof fn lemma_row_cap_region<V>(f: RegionFilter, rows: Seq<RegionRow<V>>)
    ensures
        region_result(f, rows).len() == (if region_entries(f, rows).len() <= ROW_CAP {
            region_entries(f, rows).len() as int
        } else {
            ROW_CAP as int
        }),
{
    lemma_row_cap(region_entries(f, rows));
}

/// The values that a year-range query returns come in order of year.
pub proof fn lemma_year_order<V>(entries: Seq<(i32, V)>)
    ensures
        year_ordered(capped(sort_by_year(entries), ROW_CAP as int)),
        ordered_values(entries, ROW_CAP as int) == values_of(capped(sort_by_year(entries), ROW_CAP as int)),
{
    lemma_sort_ordered(entries);
}

/// Page `k` of a listing of `n` rows holds `min(P, max(0, n - k * P))` rows, and the
/// look-ahead probe finds a row exactly when `n > (k + 1) * P`.
pub proof fn lemma_pagination<T>(s: Seq<T>, k: int)
    requires
        k >= 0,
    ensures
        window_of(s, k * PAGE_SIZE, PAGE_SIZE as int).len() == page_len(s.len() as int, k),
        page_len(s.len() as int, k) == if s.len() - k * PAGE_SIZE <= 0 {
            0
        } else if s.len() - k * PAGE_SIZE < PAGE_SIZE {
            s.len() - k * PAGE_SIZE
        } else {
            PAGE_SIZE as int
        },
        (window_of(s, (k + 1) * PAGE_SIZE, 1).len() > 0) == (s.len() > (k + 1) * PAGE_SIZE),
{
    lemma_window_len(s, k);
    assert((k + 1) * PAGE_SIZE >= 0) by (nonlinear_arith)
        requires
            k >= 0,
    ;
}

/// Every row that an escalation query returns is one that it selects: of the
/// division that its zip code resolves to, in its year range, of its release and
/// case, and of its sector where one is asked for. Where no more rows match than
/// the cap, the rows returned are exactly the matching rows, in some order.
pub proof fn lemma_escalation_rows<V>(
    f: EscalationFilter,
    zips: Seq<ZipInfo>,
    divisions: Seq<Division>,
    rows: Seq<EscalationRow<V>>,
)
    ensures
        zip_division(zips, divisions, f.zip) is None ==> escalation_result(f, zips, divisions, rows).len()
            == 0,
        zip_division(zips, divisions, f.zip) matches Some(d) ==> {
            &&& forall|i: int|
                0 <= i < escalation_result(f, zips, divisions, rows).len() ==> f.keeps(
                    d,
                    #[trigger] escalation_result(f, zips, divisions, rows)[i],
                )
            &&& escalation_entries(f, d, rows).len() <= ROW_CAP ==> escalation_result(
                f,
                zips,
                divisions,
                rows,
            ).to_multiset() == values_of(escalation_entries(f, d, rows)).to_multiset()
        },
{
    if let Some(d) = zip_division(zips, divisions, f.zip) {
        let keep = |r: EscalationRow<V>| f.keeps(d, r);
        let entry = |r: EscalationRow<V>| (r.year, r);
        let entries = escalation_entries(f, d, rows);
        lemma_entries_from(rows, keep, entry);
        lemma_ordered_from(entries, ROW_CAP as int);
        let kept = capped(sort_by_year(entries), ROW_CAP as int);
        let res = escalation_result(f, zips, divisions, rows);
        assert forall|i: int| 0 <= i < res.len() implies f.keeps(d, #[trigger] res[i]) by {
            assert(res[i] == kept[i].1);
            assert(entries.contains(kept[i]));
            let k = choose|k: int| 0 <= k < entries.len() && entries[k] == kept[i];
            assert(entries[k] == entries_where(rows, keep, entry)[k]);
        }
    }
}

/// A discount-rate query returns rows of the requested release and rate schedule,
/// in year order, and every such row of the table once.
pub proof fn lemma_discount_rows<V>(release_year: i32, rate: Seq<char>, rows: Seq<DiscountRow<V>>)
    ensures
        ({
            let res = values_of(sort_by_year(discount_entries(release_year, rate, rows)));
            &&& forall|i: int|
                0 <= i < res.len() ==> (#[trigger] res[i]).release_year == release_year && res[i].rate@
                    == rate
            &&& forall|i: int, j: int| 0 <= i < j < res.len() ==> res[i].year <= res[j].year
            &&& res.to_multiset() == values_of(discount_entries(release_year, rate, rows)).to_multiset()
        }),
{
    let keep = discount_keep::<V>(release_year, rate);
    let entry = |r: DiscountRow<V>| (r.year, r);
    let entries = discount_entries(release_year, rate, rows);
    let sorted = sort_by_year(entries);
    let res = values_of(sorted);
    lemma_entries_from(rows, keep, entry);
    lemma_sort_len(entries);
    lemma_sort_ordered(entries);
    lemma_ordered_from(entries, entries.len() as int);
    assert(capped(sorted, entries.len() as int) == sorted);
    assert forall|i: int| 0 <= i < sorted.len() implies (#[trigger] sorted[i]).0 == sorted[i].1.year && (
    sorted[i].1.release_year == release_year && sorted[i].1.rate@ == rate) by {
        assert(capped(sorted, entries.len() as int)[i] == sorted[i]);
        assert(entries.contains(sorted[i]));
        let k = choose|k: int| 0 <= k < entries.len() && entries[k] == sorted[i];
        assert(entries[k] == entries_where(rows, keep, entry)[k]);
    }
    assert forall|i: int| 0 <= i < res.len() implies (#[trigger] res[i]).release_year == release_year
        && res[i].rate@ == rate by {
        assert(res[i] == sorted[i].1);
    }
    assert forall|i: int, j: int| 0 <= i < j < res.len() implies res[i].year <= res[j].year by {
        assert(res[i] == sorted[i].1);
        assert(res[j] == sorted[j].1);
        assert(sorted[i].0 == sorted[i].1.year);
        assert(sorted[j].0 == sorted[j].1.year);
    }
}

/// Where no more rows match a regional query than the cap, it returns exactly the
/// values of the matching rows, in some order (and in year order, by `lemma_year_order`).
pub proof fn lemma_region_values<V>(f: RegionFilter, rows: Seq<RegionRow<V>>)
    requires
        region_entries(f, rows).len() <= ROW_CAP,
    ensures
        region_result(f, rows).to_multiset() == values_of(region_entries(f, rows)).to_multiset(),
{
    lemma_ordered_from(region_entries(f, rows), ROW_CAP as int);
}

/// The same regional query on the same table gives the same values: the service
/// only reads the tables, so a repeated request is answered alike.
pub proof fn lemma_region_repeatable<V>(
    f1: RegionFilter,
    f2: RegionFilter,
    rows1: Seq<RegionRow<V>>,
    rows2: Seq<RegionRow<V>>,
)
    requires
        f1 == f2,
        rows1 == rows2,
    ensures
        region_result(f1, rows1) == region_result(f2, rows2),
{
}

} // verus!
