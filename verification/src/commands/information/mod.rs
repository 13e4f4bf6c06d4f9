//! Commands that only read the family rows.

pub mod relationship;
