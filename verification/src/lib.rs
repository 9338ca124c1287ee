//! Decision logic of the workshop test helper: how the account table is
//! seeded in batches, how transfers between random accounts are picked, how
//! a closed-loop stress run is scheduled and summarised, how the sustained
//! load generator adapts its concurrency, and how each chapter's check is
//! judged.
pub mod setup;
pub mod text;
pub mod transfer;
pub mod accounts;
pub mod tally;
pub mod stress;
pub mod latency;
pub mod sustained;
pub mod cli;
pub mod chapters;
