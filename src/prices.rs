//! Social cost of carbon, energy prices and price indices, and discount rates.
//!
//! The SCC and energy-price queries pick the column to return from a closed set
//! of options; the rows they select do not depend on it.
use vstd::prelude::*;

use crate::order::{
    lemma_sort_len, order_values, ordered_values, sort_by_year, values_of, ROW_CAP,
};
use crate::tables::{entries_where, DiscountRow, PriceRow, SccRow};

verus! {

/// Discounting assumption under which the social cost of carbon is reported.
#[derive(Clone, Copy, Debug, PartialEq, Eq)]
pub enum SccOption {
    ThreePercentNinetyFifthPercentile,
    FivePercentAverage,
    ThreePercentAverage,
}

impl SccOption {
    /// The column of `row` that this option selects.
    pub open spec fn spec_column<V>(self, row: SccRow<V>) -> V {
        match self {
            SccOption::ThreePercentNinetyFifthPercentile => row.three_percent_ninety_fifth_percentile,
            SccOption::FivePercentAverage => row.five_percent_average,
            SccOption::ThreePercentAverage => row.three_percent_average,
        }
    }

    /// The column of `row` that this option selects.
    pub fn column<V: Copy>(&self, row: &SccRow<V>) -> (r: V)
        ensures
            r == self.spec_column(*row),
    {
        match self {
            SccOption::ThreePercentNinetyFifthPercentile => row.three_percent_ninety_fifth_percentile,
            SccOption::FivePercentAverage => row.five_percent_average,
            SccOption::ThreePercentAverage => row.three_percent_average,
        }
    }
}

/// Social cost of carbon of one release over the years `from ..= to`, under one
/// discounting assumption.
#[derive(Clone, Copy, Debug, PartialEq, Eq)]
pub struct SccRequest {
    pub from: i32,
    pub to: i32,
    pub release_year: i32,
    pub option: SccOption,
}

impl SccRequest {
    /// Whether `row` is one that the query selects.
    pub open spec fn spec_keeps<V>(self, row: SccRow<V>) -> bool {
        row.release_year == self.release_year && self.from <= row.year <= self.to
    }
}

/// The year-tagged values of the rows that `q` selects, in table order.
pub open spec fn scc_entries<V>(q: SccRequest, rows: Seq<SccRow<V>>) -> Seq<(i32, V)> {
    entries_where(rows, |r: SccRow<V>| q.spec_keeps(r), |r: SccRow<V>| (r.year, q.option.spec_column(r)))
}

/// Runs an SCC query: the selected column in year order, at most `ROW_CAP` values.
pub fn scc<V: Copy>(q: &SccRequest, rows: &Vec<SccRow<V>>) -> (r: Vec<V>)
    ensures
        r@ == ordered_values(scc_entries(*q, rows@), ROW_CAP as int),
{
    let mut entries: Vec<(i32, V)> = Vec::new();
    let mut i: usize = 0;
    while i < rows.len()
        invariant
            i <= rows@.len(),
            entries@ == scc_entries(*q, rows@.subrange(0, i as int)),
        decreases rows@.len() - i,
    {
        proof {
            assert(rows@.subrange(0, i as int + 1).drop_last() =~= rows@.subrange(0, i as int));
        }
        let row = &rows[i];
        if row.release_year == q.release_year && q.from <= row.year && row.year <= q.to {
            entries.push((row.year, q.option.column(row)));
        }
        i = i + 1;
    }
    assert(rows@.subrange(0, i as int) =~= rows@);
    order_values(entries, ROW_CAP)
}

/// Fuel whose price column an energy-price query returns.
#[derive(Clone, Copy, Debug, PartialEq, Eq)]
pub enum EnergyTypeOptions {
    DistillateFuelOil,
    ResidualFuelOil,
    NaturalGas,
    Electricity,
    Propane,
}

impl EnergyTypeOptions {
    /// The column of `row` that this fuel selects.
    pub open spec fn spec_column<V>(self, row: PriceRow<V>) -> V {
        match self {
            EnergyTypeOptions::DistillateFuelOil => row.distillate_fuel_oil,
            EnergyTypeOptions::ResidualFuelOil => row.residual_fuel_oil,
            EnergyTypeOptions::NaturalGas => row.natural_gas,
            EnergyTypeOptions::Electricity => row.electricity,
            EnergyTypeOptions::Propane => row.propane,
        }
    }

    /// The column of `row` that this fuel selects.
    pub fn column<V: Copy>(&self, row: &PriceRow<V>) -> (r: V)
        ensures
            r == self.spec_column(*row),
    {
        match self {
            EnergyTypeOptions::DistillateFuelOil => row.distillate_fuel_oil,
            EnergyTypeOptions::ResidualFuelOil => row.residual_fuel_oil,
            EnergyTypeOptions::NaturalGas => row.natural_gas,
            EnergyTypeOptions::Electricity => row.electricity,
            EnergyTypeOptions::Propane => row.propane,
        }
    }
}

/// Prices (or price indices) of one fuel, for one release, division, sector and
/// case, over the years `from ..= to`.
pub struct EnergyPriceRequest {
    pub from: i32,
    pub to: i32,
    pub release_year: i32,
    pub division: String,
    pub sector: String,
    pub fuel_type: EnergyTypeOptions,
    pub case: String,
}

/// What an `EnergyPriceRequest` asks for, with its text as character sequences.
pub struct EnergyPriceFilter {
    pub from: i32,
    pub to: i32,
    pub release_year: i32,
    pub division: Seq<char>,
    pub sector: Seq<char>,
    pub fuel_type: EnergyTypeOptions,
    pub case: Seq<char>,
}

impl View for EnergyPriceRequest {
    type V = EnergyPriceFilter;

    open spec fn view(&self) -> EnergyPriceFilter {
        EnergyPriceFilter {
            from: self.from,
            to: self.to,
            release_year: self.release_year,
            division: self.division@,
            sector: self.sector@,
            fuel_type: self.fuel_type,
            case: self.case@,
        }
    }
}

impl EnergyPriceFilter {
    /// Whether `row` is one that the query selects.
    pub open spec fn keeps<V>(self, row: PriceRow<V>) -> bool {
        &&& row.release_year == self.release_year
        &&& self.from <= row.year <= self.to
        &&& row.division@ == self.division
        &&& row.case@ == self.case
        &&& row.sector@ == self.sector
    }
}

/// The year-tagged values of the rows that `f` selects, in table order.
pub open spec fn price_entries<V>(f: EnergyPriceFilter, rows: Seq<PriceRow<V>>) -> Seq<(i32, V)> {
    entries_where(rows, |r: PriceRow<V>| f.keeps(r), |r: PriceRow<V>| (r.year, f.fuel_type.spec_column(r)))
}

impl EnergyPriceRequest {
    /// Whether `row` is one that this query selects.
    pub fn keeps<V>(&self, row: &PriceRow<V>) -> (r: bool)
        ensures
            r == self@.keeps(*row),
    {
        row.release_year == self.release_year && self.from <= row.year && row.year <= self.to
            && row.division == self.division && row.case == self.case && row.sector == self.sector
    }
}

/// Runs an energy-price query on a price or price-index table: the column of the
/// requested fuel in year order, at most `ROW_CAP` values.
pub fn energy_prices<V: Copy>(q: &EnergyPriceRequest, rows: &Vec<PriceRow<V>>) -> (r: Vec<V>)
    ensures
        r@ == ordered_values(price_entries(q@, rows@), ROW_CAP as int),
{
    let mut entries: Vec<(i32, V)> = Vec::new();
    let mut i: usize = 0;
    while i < rows.len()
        invariant
            i <= rows@.len(),
            entries@ == price_entries(q@, rows@.subrange(0, i as int)),
        decreases rows@.len() - i,
    {
        proof {
            assert(rows@.subrange(0, i as int + 1).drop_last() =~= rows@.subrange(0, i as int));
        }
        let row = &rows[i];
        if q.keeps(row) {
            entries.push((row.year, q.fuel_type.column(row)));
        }
        i = i + 1;
    }
    assert(rows@.subrange(0, i as int) =~= rows@);
    order_values(entries, ROW_CAP)
}

/// Discount factors of one release and rate schedule, for every year.
pub struct DiscountRateRequest {
    pub release_year: i32,
    pub rate: String,
}

/// The year-tagged rows of release `release_year` and schedule `rate`, in table order.
pub open spec fn discount_entries<V>(release_year: i32, rate: Seq<char>, rows: Seq<DiscountRow<V>>) -> Seq<
    (i32, DiscountRow<V>),
> {
    entries_where(rows, discount_keep(release_year, rate), |r: DiscountRow<V>| (r.year, r))
}

/// The rows of release `release_year` and schedule `rate`.
pub open spec fn discount_keep<V>(release_year: i32, rate: Seq<char>) -> spec_fn(DiscountRow<V>) -> bool {
    |r: DiscountRow<V>| r.release_year == release_year && r.rate@ == rate
}

/// Runs a discount-rate query: every selected row, in year order.
pub fn discount_rates<V: Copy>(q: &DiscountRateRequest, rows: &Vec<DiscountRow<V>>) -> (r: Vec<DiscountRow<V>>)
    ensures
        r@ == values_of(sort_by_year(discount_entries(q.release_year, q.rate@, rows@))),
{
    let mut entries: Vec<(i32, DiscountRow<V>)> = Vec::new();
    let mut i: usize = 0;
    while i < rows.len()
        invariant
            i <= rows@.len(),
            entries@.len() <= i,
            entries@ == discount_entries(q.release_year, q.rate@, rows@.subrange(0, i as int)),
        decreases rows@.len() - i,
    {
        proof {
            assert(rows@.subrange(0, i as int + 1).drop_last() =~= rows@.subrange(0, i as int));
        }
        let row = &rows[i];
        if row.release_year == q.release_year && row.rate == q.rate {
            entries.push((row.year, row.duplicate()));
        }
        i = i + 1;
    }
    assert(rows@.subrange(0, i as int) =~= rows@);
    proof {
        lemma_sort_len(entries@);
    }
    let n = entries.len();
    order_values(entries, n)
}

} // verus!
