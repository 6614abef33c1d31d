use backend::escalation::{escalation_rates, EscalationRateRequest};
use backend::order::{order_values, ROW_CAP};
use backend::prices::{
    discount_rates, energy_prices, scc, DiscountRateRequest, EnergyPriceRequest,
    EnergyTypeOptions, SccOption, SccRequest,
};
use backend::region::{
    emissions, emissions_query, release_year_exists, select_region, EmissionsRequest,
    RegionRequest, EMISSIONS_ZIP_ERROR,
};
use backend::release::{release_years, RELEASE_CAP};
use backend::tables::{
    find_state, find_zip, states, zip_info, DiscountRow, Division, EscalationRow, PriceRow,
    RegionRow, SccRow, ZipInfo,
};

fn ba_row(release_year: i32, year: i32, case: &str, rate: &str, ba: &str, value: f64) -> RegionRow<f64> {
    RegionRow {
        release_year,
        year,
        case: case.to_string(),
        rate: rate.to_string(),
        region: ba.to_string(),
        value,
    }
}

fn ba_table() -> Vec<RegionRow<f64>> {
    let mut rows = Vec::new();
    // Stored out of year order on purpose.
    for year in (2020..2051).rev() {
        rows.push(ba_row(2023, year, "Reference", "RTO", "PJM", 400.0 - (year - 2020) as f64));
        rows.push(ba_row(2023, year, "Reference", "RTO", "MISO", 500.0));
        rows.push(ba_row(2023, year, "High Growth", "RTO", "PJM", 300.0));
        rows.push(ba_row(2023, year, "Reference", "TOU", "PJM", 200.0));
        rows.push(ba_row(2022, year, "Reference", "RTO", "PJM", 100.0));
    }
    rows
}

fn pjm_request(from: i32, to: i32) -> RegionRequest {
    RegionRequest {
        from,
        to,
        release_year: 2023,
        region: "PJM".to_string(),
        case: "Reference".to_string(),
        rate: "RTO".to_string(),
    }
}

fn zip(zip: i32, ba: &str, state: &str) -> ZipInfo {
    ZipInfo {
        zip,
        ba: ba.to_string(),
        gea: "G".to_string(),
        state: state.to_string(),
        padd: "1".to_string(),
        technobasin: "T".to_string(),
        reeds_ba: Some("p1".to_string()),
    }
}

fn zips() -> Vec<ZipInfo> {
    vec![zip(20899, "PJM", "MD"), zip(55401, "MISO", "MN"), zip(33101, "FPL", "FL")]
}

#[test]
fn region_intensity_three_years_ascending() {
    let r = select_region(&pjm_request(2025, 2027), &ba_table());
    assert_eq!(r, vec![395.0, 394.0, 393.0]);
}

#[test]
fn region_reversed_range_is_empty() {
    let r = select_region(&pjm_request(2027, 2025), &ba_table());
    assert!(r.is_empty());
}

#[test]
fn region_single_year() {
    let r = select_region(&pjm_request(2030, 2030), &ba_table());
    assert_eq!(r, vec![390.0]);
}

#[test]
fn region_match_is_exact_not_case_insensitive() {
    let mut q = pjm_request(2025, 2027);
    q.case = "reference".to_string();
    assert!(select_region(&q, &ba_table()).is_empty());
}

#[test]
fn region_results_are_capped() {
    let mut rows = Vec::new();
    for year in 1900..2050 {
        rows.push(ba_row(2023, year, "Reference", "RTO", "PJM", year as f64));
    }
    let r = select_region(&pjm_request(1900, 2100), &rows);
    assert_eq!(r.len(), 80);
    assert_eq!(ROW_CAP, 80);
    assert_eq!(r[0], 1900.0);
    assert_eq!(r[79], 1979.0);
    let r = select_region(&pjm_request(1950, 2019), &rows);
    assert_eq!(r.len(), 70);
}

#[test]
fn order_values_is_stable_and_capped() {
    let entries = vec![(2030, 'a'), (2025, 'b'), (2030, 'c'), (2020, 'd')];
    assert_eq!(order_values(entries.clone(), 10), vec!['d', 'b', 'a', 'c']);
    assert_eq!(order_values(entries.clone(), 2), vec!['d', 'b']);
    assert!(order_values(entries, 0).is_empty());
}

#[test]
fn emissions_for_known_zip() {
    let q = EmissionsRequest {
        zip: 20899,
        from: 2025,
        to: 2026,
        release_year: 2023,
        case: "Reference".to_string(),
        rate: "RTO".to_string(),
    };
    let r = emissions(&q, &zips(), &ba_table()).ok().unwrap();
    assert_eq!(r, vec![395.0, 394.0]);
}

#[test]
fn emissions_unknown_zip_is_a_client_error() {
    let q = EmissionsRequest {
        zip: 99999,
        from: 2025,
        to: 2027,
        release_year: 2023,
        case: "Reference".to_string(),
        rate: "RTO".to_string(),
    };
    let e = emissions(&q, &zips(), &ba_table()).err().unwrap();
    assert_eq!(e.error, "Could not get requested emissions zip information");
    let e = emissions_query(&q, None).err().unwrap();
    assert_eq!(e.error, EMISSIONS_ZIP_ERROR);
}

#[test]
fn emissions_second_query_uses_resolved_authority() {
    let q = EmissionsRequest {
        zip: 55401,
        from: 2025,
        to: 2027,
        release_year: 2023,
        case: "Reference".to_string(),
        rate: "RTO".to_string(),
    };
    let table = zips();
    let b = emissions_query(&q, Some(&table[1])).ok().unwrap();
    assert_eq!(b.region, "MISO");
    assert_eq!((b.from, b.to, b.release_year), (2025, 2027, 2023));
    assert_eq!(b.case, "Reference");
    assert_eq!(b.rate, "RTO");
}

#[test]
fn release_year_existence() {
    let rows = ba_table();
    assert!(release_year_exists(&rows, 2023));
    assert!(release_year_exists(&rows, 2022));
    assert!(!release_year_exists(&rows, 2019));
    let empty: Vec<RegionRow<f64>> = Vec::new();
    assert!(!release_year_exists(&empty, 2023));
}

#[test]
fn release_spans_latest_first() {
    let mut rows = ba_table();
    rows.push(ba_row(2024, 2031, "Reference", "RTO", "PJM", 1.0));
    rows.push(ba_row(2024, 2029, "Reference", "RTO", "PJM", 1.0));
    let r = release_years(&rows);
    assert_eq!(r.len(), 3);
    assert_eq!((r[0].year, r[0].max, r[0].min), (2024, Some(2031), Some(2029)));
    assert_eq!((r[1].year, r[1].max, r[1].min), (2023, Some(2050), Some(2020)));
    assert_eq!((r[2].year, r[2].max, r[2].min), (2022, Some(2050), Some(2020)));
}

#[test]
fn release_spans_capped() {
    let mut rows = Vec::new();
    for k in 0..120 {
        rows.push(ba_row(1900 + k, 2000 + k, "Reference", "RTO", "PJM", 1.0));
    }
    let r = release_years(&rows);
    assert_eq!(RELEASE_CAP, 100);
    assert_eq!(r.len(), 100);
    assert_eq!(r[0].year, 2019);
    assert_eq!(r[99].year, 1920);
    let none: Vec<RegionRow<f64>> = Vec::new();
    assert!(release_years(&none).is_empty());
}

fn escalation_row(year: i32, division: &str, sector: &str, rates: f64) -> EscalationRow<f64> {
    EscalationRow {
        release_year: 2023,
        year,
        division: division.to_string(),
        sector: sector.to_string(),
        case: "Reference".to_string(),
        region: "Region".to_string(),
        rates,
    }
}

fn divisions() -> Vec<Division> {
    vec![
        Division { state: "MD".to_string(), division: "South Atlantic".to_string(), region: "South".to_string() },
        Division { state: "MN".to_string(), division: "West North Central".to_string(), region: "Midwest".to_string() },
    ]
}

fn escalation_table() -> Vec<EscalationRow<f64>> {
    let mut rows = Vec::new();
    for year in 2020..2030 {
        rows.push(escalation_row(year, "South Atlantic", "Commercial", year as f64));
        rows.push(escalation_row(year, "South Atlantic", "Residential", -(year as f64)));
        rows.push(escalation_row(year, "West North Central", "Commercial", 0.5));
    }
    rows
}

fn escalation_request(zip: i32, sector: Option<&str>) -> EscalationRateRequest {
    EscalationRateRequest {
        from: 2022,
        to: 2024,
        zip,
        sector: sector.map(|s| s.to_string()),
        release_year: 2023,
        case: "Reference".to_string(),
    }
}

#[test]
fn escalation_by_zip_and_sector() {
    let r = escalation_rates(&escalation_request(20899, Some("Commercial")), &escalation_table(), &divisions(), &zips());
    assert_eq!(r.iter().map(|e| e.rates).collect::<Vec<f64>>(), vec![2022.0, 2023.0, 2024.0]);
    assert!(r.iter().all(|e| e.sector == "Commercial" && e.division == "South Atlantic"));
    assert_eq!(r.iter().map(|e| e.year).collect::<Vec<i32>>(), vec![2022, 2023, 2024]);
}

#[test]
fn escalation_all_sectors() {
    let r = escalation_rates(&escalation_request(20899, None), &escalation_table(), &divisions(), &zips());
    assert_eq!(r.iter().map(|e| e.rates).collect::<Vec<f64>>(), vec![2022.0, -2022.0, 2023.0, -2023.0, 2024.0, -2024.0]);
    assert_eq!(r[1].sector, "Residential");
}

#[test]
fn escalation_unknown_zip_or_state_is_empty() {
    let r = escalation_rates(&escalation_request(11111, None), &escalation_table(), &divisions(), &zips());
    assert!(r.is_empty());
    // 33101 lies in FL, which has no division row.
    let r = escalation_rates(&escalation_request(33101, None), &escalation_table(), &divisions(), &zips());
    assert!(r.is_empty());
}

fn scc_table() -> Vec<SccRow<f64>> {
    let mut rows = Vec::new();
    for year in (2020..2030).rev() {
        rows.push(SccRow {
            year,
            release_year: 2023,
            three_percent_ninety_fifth_percentile: 1.0,
            five_percent_average: 2.0,
            three_percent_average: 3.0 + (year - 2020) as f64,
        });
    }
    rows
}

#[test]
fn scc_column_dispatch() {
    let q = SccRequest { from: 2021, to: 2022, release_year: 2023, option: SccOption::ThreePercentAverage };
    assert_eq!(scc(&q, &scc_table()), vec![4.0, 5.0]);
    let q = SccRequest { option: SccOption::FivePercentAverage, ..q };
    assert_eq!(scc(&q, &scc_table()), vec![2.0, 2.0]);
    let q = SccRequest { option: SccOption::ThreePercentNinetyFifthPercentile, ..q };
    assert_eq!(scc(&q, &scc_table()), vec![1.0, 1.0]);
    let q = SccRequest { release_year: 2022, ..q };
    assert!(scc(&q, &scc_table()).is_empty());
}

fn price_row(year: i32, sector: &str) -> PriceRow<Option<f64>> {
    PriceRow {
        release_year: 2023,
        year,
        division: "Pacific".to_string(),
        sector: sector.to_string(),
        case: "Reference".to_string(),
        region: "West".to_string(),
        propane: Some(1.0),
        distillate_fuel_oil: Some(2.0),
        residual_fuel_oil: None,
        natural_gas: Some(4.0),
        electricity: Some(year as f64),
        coal: Some(6.0),
    }
}

fn price_request(fuel_type: EnergyTypeOptions) -> EnergyPriceRequest {
    EnergyPriceRequest {
        from: 2024,
        to: 2025,
        release_year: 2023,
        division: "Pacific".to_string(),
        sector: "Industrial".to_string(),
        fuel_type,
        case: "Reference".to_string(),
    }
}

#[test]
fn energy_price_column_dispatch() {
    let rows: Vec<PriceRow<Option<f64>>> =
        (2020..2030).flat_map(|y| vec![price_row(y, "Industrial"), price_row(y, "Commercial")]).collect();
    assert_eq!(energy_prices(&price_request(EnergyTypeOptions::Electricity), &rows), vec![Some(2024.0), Some(2025.0)]);
    assert_eq!(energy_prices(&price_request(EnergyTypeOptions::ResidualFuelOil), &rows), vec![None, None]);
    assert_eq!(energy_prices(&price_request(EnergyTypeOptions::Propane), &rows), vec![Some(1.0), Some(1.0)]);
    assert_eq!(energy_prices(&price_request(EnergyTypeOptions::NaturalGas), &rows), vec![Some(4.0), Some(4.0)]);
    assert_eq!(energy_prices(&price_request(EnergyTypeOptions::DistillateFuelOil), &rows), vec![Some(2.0), Some(2.0)]);
}

#[test]
fn discount_rates_in_year_order_uncapped() {
    let mut rows = Vec::new();
    for year in (0..120).rev() {
        rows.push(DiscountRow { release_year: 2023, rate: "OMB".to_string(), year, factors: (year, 1.0) });
        rows.push(DiscountRow { release_year: 2023, rate: "DOE".to_string(), year, factors: (year, 2.0) });
    }
    let q = DiscountRateRequest { release_year: 2023, rate: "OMB".to_string() };
    let r = discount_rates(&q, &rows);
    assert_eq!(r.len(), 120);
    assert_eq!((r[0].year, r[0].factors), (0, (0, 1.0)));
    assert_eq!((r[119].year, r[119].factors), (119, (119, 1.0)));
    assert!(r.iter().all(|d| d.rate == "OMB" && d.release_year == 2023));
    assert!(r.windows(2).all(|w| w[0].year < w[1].year));
}

#[test]
fn zip_lookups() {
    let table = zips();
    assert_eq!(find_zip(&table, 55401), Some(1));
    assert_eq!(find_zip(&table, 1), None);
    let r = zip_info(&table, 33101);
    assert_eq!(r.len(), 1);
    assert_eq!(r[0].ba, "FPL");
    assert_eq!(r[0].reeds_ba, Some("p1".to_string()));
    assert!(zip_info(&table, 1).is_empty());
    assert_eq!(find_state(&divisions(), &"MN".to_string()), Some(1));
    assert_eq!(find_state(&divisions(), &"FL".to_string()), None);
}

#[test]
fn state_listing() {
    assert_eq!(states(&divisions()), vec!["MD".to_string(), "MN".to_string()]);
}
