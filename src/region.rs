//! Emissions-intensity queries over the regional tables, and the chained
//! zip-code lookup in front of the balancing-authority table.
use vstd::prelude::*;

use crate::order::{order_values, ordered_values, ROW_CAP};
use crate::response::ErrorResponse;
use crate::tables::{entries_where, find_zip, zip_row, RegionRow, ZipInfo};

verus! {

/// Message of the error returned when the zip code of an emissions query is unknown.
pub const EMISSIONS_ZIP_ERROR: &'static str = "Could not get requested emissions zip information";

/// A query on a regional table: one region, case and rate schedule of one release,
/// over the years `from ..= to`.
pub struct RegionRequest {
    pub from: i32,
    pub to: i32,
    pub release_year: i32,
    pub region: String,
    pub case: String,
    pub rate: String,
}

/// What a `RegionRequest` asks for, with its text as character sequences.
pub struct RegionFilter {
    pub from: i32,
    pub to: i32,
    pub release_year: i32,
    pub region: Seq<char>,
    pub case: Seq<char>,
    pub rate: Seq<char>,
}

impl View for RegionRequest {
    type V = RegionFilter;

    open spec fn view(&self) -> RegionFilter {
        RegionFilter {
            from: self.from,
            to: self.to,
            release_year: self.release_year,
            region: self.region@,
            case: self.case@,
            rate: self.rate@,
        }
    }
}

impl RegionFilter {
    /// Whether `row` is one that the query selects.
    pub open spec fn keeps<V>(self, row: RegionRow<V>) -> bool {
        &&& row.case@ == self.case
        &&& row.region@ == self.region
        &&& row.release_year == self.release_year
        &&& row.rate@ == self.rate
        &&& self.from <= row.year <= self.to
    }
}

/// The year-tagged values of the rows that `f` selects, in table order.
pub open spec fn region_entries<V>(f: RegionFilter, rows: Seq<RegionRow<V>>) -> Seq<(i32, V)> {
    entries_where(rows, |r: RegionRow<V>| f.keeps(r), |r: RegionRow<V>| (r.year, r.value))
}

/// What a query on a regional table returns: the selected values in year order,
/// at most `ROW_CAP` of them.
pub open spec fn region_result<V>(f: RegionFilter, rows: Seq<RegionRow<V>>) -> Seq<V> {
    ordered_values(region_entries(f, rows), ROW_CAP as int)
}

impl RegionRequest {
    /// Whether `row` is one that this query selects.
    pub fn keeps<V>(&self, row: &RegionRow<V>) -> (r: bool)
        ensures
            r == self@.keeps(*row),
    {
        row.case == self.case && row.region == self.region && row.release_year == self.release_year
            && row.rate == self.rate && self.from <= row.year && row.year <= self.to
    }
}

/// Runs `q` on the rows of a regional table.
pub fn select_region<V: Copy>(q: &RegionRequest, rows: &Vec<RegionRow<V>>) -> (r: Vec<V>)
    ensures
        r@ == region_result(q@, rows@),
{
    let mut entries: Vec<(i32, V)> = Vec::new();
    let mut i: usize = 0;
    while i < rows.len()
        invariant
            i <= rows@.len(),
            entries@ == region_entries(q@, rows@.subrange(0, i as int)),
        decreases rows@.len() - i,
    {
        proof {
            assert(rows@.subrange(0, i as int + 1).drop_last() =~= rows@.subrange(0, i as int));
        }
        let row = &rows[i];
        if q.keeps(row) {
            entries.push((row.year, row.value));
        }
        i = i + 1;
    }
    assert(rows@.subrange(0, i as int) =~= rows@);
    order_values(entries, ROW_CAP)
}

/// Whether any row of the table belongs to release `year`.
pub open spec fn release_present<V>(rows: Seq<RegionRow<V>>, year: i32) -> bool {
    exists|i: int| 0 <= i < rows.len() && #[trigger] rows[i].release_year == year
}

/// Whether release `year` has any row in the table. Never an error.
pub fn release_year_exists<V>(rows: &Vec<RegionRow<V>>, year: i32) -> (r: bool)
    ensures
        r == release_present(rows@, year),
{
    let mut i: usize = 0;
    while i < rows.len()
        invariant
            i <= rows@.len(),
            forall|j: int| 0 <= j < i ==> #[trigger] rows@[j].release_year != year,
        decreases rows@.len() - i,
    {
        if rows[i].release_year == year {
            return true;
        }
        i = i + 1;
    }
    false
}

/// An emissions query: the balancing-authority intensities at the place of one zip code.
pub struct EmissionsRequest {
    pub zip: i32,
    pub from: i32,
    pub to: i32,
    pub release_year: i32,
    pub case: String,
    pub rate: String,
}

impl EmissionsRequest {
    /// The query on the balancing-authority table for the authority `ba`.
    pub open spec fn filter_for(self, ba: Seq<char>) -> RegionFilter {
        RegionFilter {
            from: self.from,
            to: self.to,
            release_year: self.release_year,
            region: ba,
            case: self.case@,
            rate: self.rate@,
        }
    }
}

/// The second query of an emissions request, from the row that its zip code
/// resolved to; an unknown zip code ends the request with an error.
pub fn emissions_query(q: &EmissionsRequest, found: Option<&ZipInfo>) -> (r: Result<
    RegionRequest,
    ErrorResponse,
>)
    ensures
        found is None <==> r is Err,
        r matches Err(e) ==> e.error@ == EMISSIONS_ZIP_ERROR@,
        r matches Ok(b) ==> found matches Some(z) && b@ == q.filter_for(z.ba@),
{
    match found {
        None => Err(ErrorResponse::new(EMISSIONS_ZIP_ERROR)),
        Some(z) => Ok(
            RegionRequest {
                from: q.from,
                to: q.to,
                release_year: q.release_year,
                region: z.ba.clone(),
                case: q.case.clone(),
                rate: q.rate.clone(),
            },
        ),
    }
}

/// Runs an emissions query on the zip table and the balancing-authority table:
/// the intensities for the authority of the zip code, or an error where the zip
/// code has no row.
pub fn emissions<V: Copy>(q: &EmissionsRequest, zips: &Vec<ZipInfo>, rows: &Vec<RegionRow<V>>) -> (r:
    Result<Vec<V>, ErrorResponse>)
    ensures
        r is Err <==> zip_row(zips@, q.zip) is None,
        r matches Err(e) ==> e.error@ == EMISSIONS_ZIP_ERROR@,
        r matches Ok(v) ==> zip_row(zips@, q.zip) matches Some(z) && v@ == region_result(
            q.filter_for(z.ba@),
            rows@,
        ),
{
    let found = match find_zip(zips, q.zip) {
        Some(i) => Some(&zips[i]),
        None => None,
    };
    match emissions_query(q, found) {
        Err(e) => Err(e),
        Ok(b) => Ok(select_region(&b, rows)),
    }
}

} // verus!
