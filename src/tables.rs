//! Rows of the reference tables, with the columns that the queries read.
//!
//! Numeric payload columns are a type parameter `V`: the queries only select them.
use vstd::prelude::*;

verus! {

/// Regions of one zip code.
pub struct ZipInfo {
    pub zip: i32,
    pub ba: String,
    pub gea: String,
    pub state: String,
    pub padd: String,
    pub technobasin: String,
    pub reeds_ba: Option<String>,
}

impl ZipInfo {
    /// A copy of this row.
    pub fn duplicate(&self) -> (r: ZipInfo)
        ensures
            r == *self,
    {
        let reeds_ba = match &self.reeds_ba {
            Some(s) => Some(s.clone()),
            None => None,
        };
        ZipInfo {
            zip: self.zip,
            ba: self.ba.clone(),
            gea: self.gea.clone(),
            state: self.state.clone(),
            padd: self.padd.clone(),
            technobasin: self.technobasin.clone(),
            reeds_ba,
        }
    }
}

/// Census division and region of one state.
pub struct Division {
    pub state: String,
    pub division: String,
    pub region: String,
}

/// A row of a regional emissions-intensity table: balancing authority, PADD,
/// REEDS region or gas basin, as the table has it in `region`.
pub struct RegionRow<V> {
    pub release_year: i32,
    pub year: i32,
    pub case: String,
    pub rate: String,
    pub region: String,
    pub value: V,
}

/// A row of the escalation-rate table; `rates` holds its per-fuel columns.
pub struct EscalationRow<V> {
    pub release_year: i32,
    pub year: i32,
    pub division: String,
    pub sector: String,
    pub case: String,
    pub region: String,
    pub rates: V,
}

impl<V: Copy> EscalationRow<V> {
    /// A copy of this row.
    pub fn duplicate(&self) -> (r: EscalationRow<V>)
        ensures
            r == *self,
    {
        EscalationRow {
            release_year: self.release_year,
            year: self.year,
            division: self.division.clone(),
            sector: self.sector.clone(),
            case: self.case.clone(),
            region: self.region.clone(),
            rates: self.rates,
        }
    }
}

/// A row of the social-cost-of-carbon table.
pub struct SccRow<V> {
    pub year: i32,
    pub release_year: i32,
    pub three_percent_ninety_fifth_percentile: V,
    pub five_percent_average: V,
    pub three_percent_average: V,
}

/// A row of an energy-price or energy-price-index table.
pub struct PriceRow<V> {
    pub release_year: i32,
    pub year: i32,
    pub division: String,
    pub sector: String,
    pub case: String,
    pub region: String,
    pub propane: V,
    pub distillate_fuel_oil: V,
    pub residual_fuel_oil: V,
    pub natural_gas: V,
    pub electricity: V,
    pub coal: V,
}

/// A row of the discount-rate table; `factors` holds its real, nominal and
/// inflation columns.
pub struct DiscountRow<V> {
    pub release_year: i32,
    pub rate: String,
    pub year: i32,
    pub factors: V,
}

impl<V: Copy> DiscountRow<V> {
    /// A copy of this row.
    pub fn duplicate(&self) -> (r: DiscountRow<V>)
        ensures
            r == *self,
    {
        DiscountRow {
            release_year: self.release_year,
            rate: self.rate.clone(),
            year: self.year,
            factors: self.factors,
        }
    }
}

/// The year-tagged entries `entry(r)` of the rows `r` that `keep` accepts, in table order.
pub open spec fn entries_where<R, V>(
    rows: Seq<R>,
    keep: spec_fn(R) -> bool,
    entry: spec_fn(R) -> (i32, V),
) -> Seq<(i32, V)>
    decreases rows.len(),
{
    if rows.len() == 0 {
        seq![]
    } else {
        let e = entries_where(rows.drop_last(), keep, entry);
        if keep(rows.last()) {
            e.push(entry(rows.last()))
        } else {
            e
        }
    }
}

/// No row is kept where `keep` accepts none.
pub proof fn lemma_entries_none<R, V>(
    rows: Seq<R>,
    keep: spec_fn(R) -> bool,
    entry: spec_fn(R) -> (i32, V),
)
    requires
        forall|i: int| 0 <= i < rows.len() ==> !keep(#[trigger] rows[i]),
    ensures
        entries_where(rows, keep, entry).len() == 0,
    decreases rows.len(),
{
    if rows.len() > 0 {
        assert(!keep(rows[rows.len() - 1]));
        lemma_entries_none(rows.drop_last(), keep, entry);
    }
}

/// Every entry comes from a row that `keep` accepts.
pub proof fn lemma_entries_from<R, V>(
    rows: Seq<R>,
    keep: spec_fn(R) -> bool,
    entry: spec_fn(R) -> (i32, V),
)
    ensures
        forall|k: int|
            0 <= k < entries_where(rows, keep, entry).len() ==> exists|j: int|
                0 <= j < rows.len() && keep(rows[j]) && #[trigger] entries_where(rows, keep, entry)[k]
                    == entry(rows[j]),
    decreases rows.len(),
{
    if rows.len() > 0 {
        let t = rows.drop_last();
        lemma_entries_from(t, keep, entry);
        let e = entries_where(t, keep, entry);
        assert forall|k: int|
            0 <= k < entries_where(rows, keep, entry).len() implies exists|j: int|
                0 <= j < rows.len() && keep(rows[j]) && #[trigger] entries_where(rows, keep, entry)[k]
                    == entry(rows[j]) by {
            if k < e.len() {
                let j = choose|j: int| 0 <= j < t.len() && keep(t[j]) && #[trigger] e[k] == entry(t[j]);
                assert(rows[j] == t[j]);
            } else {
                assert(rows[rows.len() - 1] == rows.last());
            }
        }
    }
}

/// Whether `i` is the first position of `s` whose element `p` accepts.
pub open spec fn first_at<T>(s: Seq<T>, p: spec_fn(T) -> bool, i: int) -> bool {
    &&& 0 <= i < s.len()
    &&& p(s[i])
    &&& forall|j: int| 0 <= j < i ==> !p(#[trigger] s[j])
}

/// The first element of `s` that `p` accepts, if any.
pub open spec fn first_where<T>(s: Seq<T>, p: spec_fn(T) -> bool) -> Option<T> {
    if exists|i: int| first_at(s, p, i) {
        Some(s[choose|i: int| first_at(s, p, i)])
    } else {
        None
    }
}

/// Where `i` is the first match, `first_where` gives the element at `i`.
pub proof fn lemma_first_where<T>(s: Seq<T>, p: spec_fn(T) -> bool, i: int)
    requires
        first_at(s, p, i),
    ensures
        first_where(s, p) == Some(s[i]),
{
    let k = choose|k: int| first_at(s, p, k);
    assert(first_at(s, p, k));
    if k < i {
        assert(!p(s[k]));
    } else if i < k {
        assert(!p(s[i]));
    }
}

/// Where no element matches, `first_where` gives nothing.
pub proof fn lemma_first_where_none<T>(s: Seq<T>, p: spec_fn(T) -> bool)
    requires
        forall|j: int| 0 <= j < s.len() ==> !p(#[trigger] s[j]),
    ensures
        first_where(s, p) is None,
{
    if exists|i: int| first_at(s, p, i) {
        let k = choose|k: int| first_at(s, p, k);
        assert(p(s[k]));
    }
}

/// The rows of `zips` with zip code `zip`.
pub open spec fn zip_is(zip: i32) -> spec_fn(ZipInfo) -> bool {
    |z: ZipInfo| z.zip == zip
}

/// The row of state `state`.
pub open spec fn state_is(state: Seq<char>) -> spec_fn(Division) -> bool {
    |d: Division| d.state@ == state
}

/// The first row of `zips` for zip code `zip`: its key in the table.
pub open spec fn zip_row(zips: Seq<ZipInfo>, zip: i32) -> Option<ZipInfo> {
    first_where(zips, zip_is(zip))
}

/// The first row of `divisions` for state `state`: its key in the table.
pub open spec fn state_row(divisions: Seq<Division>, state: Seq<char>) -> Option<Division> {
    first_where(divisions, state_is(state))
}

/// The position of the row of zip code `zip`, if the table holds one.
pub fn find_zip(zips: &Vec<ZipInfo>, zip: i32) -> (r: Option<usize>)
    ensures
        r matches Some(i) ==> i < zips@.len() && zips@[i as int].zip == zip,
        r is None <==> zip_row(zips@, zip) is None,
        r matches Some(i) ==> zip_row(zips@, zip) == Some(zips@[i as int]),
{
    let mut i: usize = 0;
    while i < zips.len()
        invariant
            i <= zips@.len(),
            forall|j: int| 0 <= j < i ==> !zip_is(zip)(#[trigger] zips@[j]),
        decreases zips@.len() - i,
    {
        if zips[i].zip == zip {
            proof {
                lemma_first_where(zips@, zip_is(zip), i as int);
            }
            return Some(i);
        }
        i = i + 1;
    }
    proof {
        lemma_first_where_none(zips@, zip_is(zip));
    }
    None
}

/// The position of the row of state `state`, if the table holds one.
pub fn find_state(divisions: &Vec<Division>, state: &String) -> (r: Option<usize>)
    ensures
        r matches Some(i) ==> i < divisions@.len() && divisions@[i as int].state@ == state@,
        r is None <==> state_row(divisions@, state@) is None,
        r matches Some(i) ==> state_row(divisions@, state@) == Some(divisions@[i as int]),
{
    let mut i: usize = 0;
    while i < divisions.len()
        invariant
            i <= divisions@.len(),
            forall|j: int| 0 <= j < i ==> !state_is(state@)(#[trigger] divisions@[j]),
        decreases divisions@.len() - i,
    {
        if divisions[i].state == *state {
            proof {
                lemma_first_where(divisions@, state_is(state@), i as int);
            }
            return Some(i);
        }
        i = i + 1;
    }
    proof {
        lemma_first_where_none(divisions@, state_is(state@));
    }
    None
}

/// The rows of `zips` for zip code `zip`, in table order.
pub open spec fn rows_with_zip(zips: Seq<ZipInfo>, zip: i32) -> Seq<ZipInfo>
    decreases zips.len(),
{
    if zips.len() == 0 {
        seq![]
    } else {
        let e = rows_with_zip(zips.drop_last(), zip);
        if zips.last().zip == zip {
            e.push(zips.last())
        } else {
            e
        }
    }
}

/// The region rows of zip code `zip`.
pub fn zip_info(zips: &Vec<ZipInfo>, zip: i32) -> (r: Vec<ZipInfo>)
    ensures
        r@ == rows_with_zip(zips@, zip),
{
    let mut out: Vec<ZipInfo> = Vec::new();
    let mut i: usize = 0;
    while i < zips.len()
        invariant
            i <= zips@.len(),
            out@ == rows_with_zip(zips@.subrange(0, i as int), zip),
        decreases zips@.len() - i,
    {
        proof {
            assert(zips@.subrange(0, i as int + 1).drop_last() =~= zips@.subrange(0, i as int));
        }
        if zips[i].zip == zip {
            out.push(zips[i].duplicate());
        }
        i = i + 1;
        assert(out@ =~= rows_with_zip(zips@.subrange(0, i as int), zip));
    }
    assert(zips@.subrange(0, i as int) =~= zips@);
    assert(out@ =~= rows_with_zip(zips@, zip));
    out
}

/// The state codes of `divisions`, in table order.
pub fn states(divisions: &Vec<Division>) -> (r: Vec<String>)
    ensures
        r@ == divisions@.map_values(|d: Division| d.state),
{
    let mut out: Vec<String> = Vec::new();
    let mut i: usize = 0;
    while i < divisions.len()
        invariant
            i <= divisions@.len(),
            out@ == divisions@.subrange(0, i as int).map_values(|d: Division| d.state),
        decreases divisions@.len() - i,
    {
        out.push(divisions[i].state.clone());
        i = i + 1;
        assert(out@ =~= divisions@.subrange(0, i as int).map_values(|d: Division| d.state));
    }
    assert(divisions@.subrange(0, i as int) =~= divisions@);
    out
}

} // verus!
