//! Per-player combat statistics for a damage meter: the derived rates of one
//! record, the merge of two collections of records, and party membership.
//!
//! Every real-valued quantity (damage, seconds, fame, damage per second) is
//! held as a whole number of thousandths, so that all arithmetic is exact and
//! every rounding step is stated.

pub mod fields;
pub mod laws;
pub mod merge;
pub mod metrics;
pub mod model;
pub mod party;
pub mod statistics;

pub use merge::PlayerStatisticsVec;
pub use party::Party;
pub use statistics::PlayerStatistics;
