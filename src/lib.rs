//! Typed records for the league's public data feeds, and the aggregation of
//! "last two minutes" officiating reports into per-team call tallies.

pub mod schema;
pub mod tally;
pub mod index;
pub mod fetch;
pub mod games;
