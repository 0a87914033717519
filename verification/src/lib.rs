//! Filtering, deduplication and recomposition of iCalendar documents.
//!
//! The pipeline takes a decoded calendar (top-level properties plus a
//! sequence of events, each an ordered property list), drops events that
//! match configurable blacklist rules, optionally removes duplicate events
//! by their (DTSTART, DTEND, SUMMARY) key, and rebuilds a minimal output
//! calendar that preserves each surviving event's property sequence.

pub mod model;
pub mod rules;
pub mod filter;
pub mod dedup;
pub mod recompose;
pub mod pipeline;
pub mod laws;
