//! The client: what it sends, what it counts, and what it reports.
pub mod runs;
pub mod stats;
