//! Query semantics and response protocol of a read-only service over energy-cost
//! and emissions-factor reference tables.
pub mod escalation;
pub mod laws;
pub mod order;
pub mod paging;
pub mod pattern;
pub mod prices;
pub mod region;
pub mod release;
pub mod response;
pub mod tables;
pub mod text;
