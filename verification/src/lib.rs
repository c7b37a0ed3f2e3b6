//! Verified core of a match-history loss reporter.
//!
//! The library gathers a player's match identifiers page by page until the
//! server answers with an empty page, filters the fetched match records down
//! to the matches the player lost, and reduces the losses to the distinct
//! champions played.  Network calls and presentation live outside; the
//! library holds the pagination bookkeeping, the per-match qualification
//! rules, and the reporting reductions, each with a proved contract.

pub mod config;
pub mod paginator;
pub mod pipeline;
pub mod record;
pub mod report;
pub mod search;
