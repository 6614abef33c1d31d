//! Client-error responses and their messages.
use vstd::prelude::*;

use crate::text::{decimal, push_decimal};

verus! {

/// Body of a client-error response: a human-readable message.
pub struct ErrorResponse {
    pub error: String,
}

impl ErrorResponse {
    /// An error response carrying `message`.
    pub fn new(message: &str) -> (r: ErrorResponse)
        ensures
            r.error@ == message@,
    {
        ErrorResponse { error: String::from_str(message) }
    }
}

/// A query of the service that failed in the store, with what the message names.
#[derive(Clone, Copy, Debug, PartialEq, Eq)]
pub enum QueryFailure {
    EscalationRates { from: i32, to: i32 },
    RegionCaseBa,
    RegionNatgas,
    RegionCasePropaneLng,
    RegionCaseOil,
    RegionCaseReeds,
    ZipInfo { zip: i32 },
    Emissions,
    Scc,
    States,
    EnergyPrices,
    EnergyPriceIndices,
    DiscountRates,
}

/// The message that reports `f`.
pub open spec fn failure_message(f: QueryFailure) -> Seq<char> {
    match f {
        QueryFailure::EscalationRates { from, to } => "Could not get escalation rates from "@ + decimal(
            from as int,
        ) + " to "@ + decimal(to as int),
        QueryFailure::RegionCaseBa => "Could not get emissions information"@,
        QueryFailure::RegionNatgas => "Could not get region natgas information"@,
        QueryFailure::RegionCasePropaneLng => "Could not get region case propane lng information"@,
        QueryFailure::RegionCaseOil => "Could not get region case oil information"@,
        QueryFailure::RegionCaseReeds => "Could not get region case reeds information"@,
        QueryFailure::ZipInfo { zip } => "Could not get region for zipcode "@ + decimal(zip as int),
        QueryFailure::Emissions => "Could not get requested emissions information"@,
        QueryFailure::Scc => "Could not get scc"@,
        QueryFailure::States => "Could not get states"@,
        QueryFailure::EnergyPrices => "Could not get energy prices"@,
        QueryFailure::EnergyPriceIndices => "Could not get energy price indices"@,
        QueryFailure::DiscountRates => "Could not get discount rates"@,
    }
}

impl QueryFailure {
    /// The client-error response that reports this failure.
    pub fn response(&self) -> (r: ErrorResponse)
        ensures
            r.error@ == failure_message(*self),
    {
        match *self {
            QueryFailure::EscalationRates { from, to } => {
                let mut s = String::from_str("Could not get escalation rates from ");
                push_decimal(&mut s, from);
                s.append(" to ");
                push_decimal(&mut s, to);
                ErrorResponse { error: s }
            },
            QueryFailure::RegionCaseBa => ErrorResponse::new("Could not get emissions information"),
            QueryFailure::RegionNatgas => ErrorResponse::new("Could not get region natgas information"),
            QueryFailure::RegionCasePropaneLng => ErrorResponse::new(
                "Could not get region case propane lng information",
            ),
            QueryFailure::RegionCaseOil => ErrorResponse::new("Could not get region case oil information"),
            QueryFailure::RegionCaseReeds => ErrorResponse::new(
                "Could not get region case reeds information",
            ),
            QueryFailure::ZipInfo { zip } => {
                let mut s = String::from_str("Could not get region for zipcode ");
                push_decimal(&mut s, zip);
                ErrorResponse { error: s }
            },
            QueryFailure::Emissions => ErrorResponse::new("Could not get requested emissions information"),
            QueryFailure::Scc => ErrorResponse::new("Could not get scc"),
            QueryFailure::States => ErrorResponse::new("Could not get states"),
            QueryFailure::EnergyPrices => ErrorResponse::new("Could not get energy prices"),
            QueryFailure::EnergyPriceIndices => ErrorResponse::new("Could not get energy price indices"),
            QueryFailure::DiscountRates => ErrorResponse::new("Could not get discount rates"),
        }
    }
}

/// Message of a failed release-span listing, followed by the store's own words.
pub fn release_years_error(detail: &str) -> (r: ErrorResponse)
    ensures
        r.error@ == "Could not get release years "@ + detail@,
{
    let mut s = String::from_str("Could not get release years ");
    s.append(detail);
    ErrorResponse { error: s }
}

/// Value of the authorization header that the forwarded calculation request carries.
pub fn authorization_header(api_key: &str) -> (r: String)
    ensures
        r@ == "Api-Key: "@ + api_key@,
{
    let mut s = String::from_str("Api-Key: ");
    s.append(api_key);
    s
}

} // verus!
