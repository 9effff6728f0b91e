//! Disk-usage reporting: per-entry on-disk sizes, human-readable units,
//! proportional bars and a report ordered by size.

pub mod text;
pub mod units;
pub mod paint;
pub mod bar;
pub mod report;
