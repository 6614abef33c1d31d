//! Price escalation rates at the census division of a zip code.
use vstd::prelude::*;

use crate::order::{order_values, ordered_values, ROW_CAP};
use crate::tables::{
    entries_where, find_state, find_zip, state_row, zip_row, Division, EscalationRow, ZipInfo,
};

verus! {

/// Escalation rates of one release and case, for the division that a zip code lies
/// in, over the years `from ..= to`; of one sector, or of all where none is given.
pub struct EscalationRateRequest {
    pub from: i32,
    pub to: i32,
    pub zip: i32,
    pub sector: Option<String>,
    pub release_year: i32,
    pub case: String,
}

/// What an `EscalationRateRequest` asks for, with its text as character sequences.
pub struct EscalationFilter {
    pub from: i32,
    pub to: i32,
    pub zip: i32,
    pub sector: Option<Seq<char>>,
    pub release_year: i32,
    pub case: Seq<char>,
}

impl View for EscalationRateRequest {
    type V = EscalationFilter;

    open spec fn view(&self) -> EscalationFilter {
        EscalationFilter {
            from: self.from,
            to: self.to,
            zip: self.zip,
            sector: match self.sector {
                Some(s) => Some(s@),
                None => None,
            },
            release_year: self.release_year,
            case: self.case@,
        }
    }
}

impl EscalationFilter {
    /// Whether `row`, of division `division`, is one that the query selects.
    pub open spec fn keeps<V>(self, division: Seq<char>, row: EscalationRow<V>) -> bool {
        &&& self.from <= row.year <= self.to
        &&& row.release_year == self.release_year
        &&& row.division@ == division
        &&& row.case@ == self.case
        &&& (self.sector matches Some(s) ==> row.sector@ == s)
    }
}

/// The division of the state of zip code `zip`, where both lookups find a row.
pub open spec fn zip_division(zips: Seq<ZipInfo>, divisions: Seq<Division>, zip: i32) -> Option<
    Seq<char>,
> {
    match zip_row(zips, zip) {
        None => None,
        Some(z) => match state_row(divisions, z.state@) {
            None => None,
            Some(d) => Some(d.division@),
        },
    }
}

/// The year-tagged rows of division `division` that `f` selects, in table order.
pub open spec fn escalation_entries<V>(
    f: EscalationFilter,
    division: Seq<char>,
    rows: Seq<EscalationRow<V>>,
) -> Seq<(i32, EscalationRow<V>)> {
    entries_where(
        rows,
        |r: EscalationRow<V>| f.keeps(division, r),
        |r: EscalationRow<V>| (r.year, r),
    )
}

/// What an escalation query returns: nothing where the zip code resolves to no
/// division, else the selected rows in year order, at most `ROW_CAP` of them.
pub open spec fn escalation_result<V>(
    f: EscalationFilter,
    zips: Seq<ZipInfo>,
    divisions: Seq<Division>,
    rows: Seq<EscalationRow<V>>,
) -> Seq<EscalationRow<V>> {
    match zip_division(zips, divisions, f.zip) {
        None => seq![],
        Some(d) => ordered_values(escalation_entries(f, d, rows), ROW_CAP as int),
    }
}

impl EscalationRateRequest {
    /// Whether `row`, of division `division`, is one that this query selects.
    pub fn keeps<V>(&self, division: &String, row: &EscalationRow<V>) -> (r: bool)
        ensures
            r == self@.keeps(division@, *row),
    {
        let sector_ok = match &self.sector {
            Some(s) => row.sector == *s,
            None => true,
        };
        self.from <= row.year && row.year <= self.to && row.release_year == self.release_year
            && row.division == *division && row.case == self.case && sector_ok
    }
}

/// Runs an escalation query: resolves the zip code to its state and the state to
/// its division, then selects that division's rows.
pub fn escalation_rates<V: Copy>(
    q: &EscalationRateRequest,
    rows: &Vec<EscalationRow<V>>,
    divisions: &Vec<Division>,
    zips: &Vec<ZipInfo>,
) -> (r: Vec<EscalationRow<V>>)
    ensures
        r@ == escalation_result(q@, zips@, divisions@, rows@),
{
    let zi = match find_zip(zips, q.zip) {
        Some(i) => i,
        None => {
            return Vec::new();
        },
    };
    let di = match find_state(divisions, &zips[zi].state) {
        Some(i) => i,
        None => {
            return Vec::new();
        },
    };
    let division = &divisions[di].division;
    let mut entries: Vec<(i32, EscalationRow<V>)> = Vec::new();
    let mut i: usize = 0;
    while i < rows.len()
        invariant
            i <= rows@.len(),
            entries@ == escalation_entries(q@, division@, rows@.subrange(0, i as int)),
        decreases rows@.len() - i,
    {
        proof {
            assert(rows@.subrange(0, i as int + 1).drop_last() =~= rows@.subrange(0, i as int));
        }
        let row = &rows[i];
        if q.keeps(division, row) {
            entries.push((row.year, row.duplicate()));
        }
        i = i + 1;
    }
    assert(rows@.subrange(0, i as int) =~= rows@);
    order_values(entries, ROW_CAP)
}

} // verus!
