//! Public and non-public holidays observed in Germany and its regions:
//! a catalog of holiday kinds with their date rules (fixed dates,
//! Easter-relative dates and the day of repentance), the per-region
//! applicability table with its historical year gates, and point queries
//! from dates to holidays.

pub mod calendar;
pub mod easter;
pub mod holidays;
pub mod regions;
pub mod laws;
