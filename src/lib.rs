//! Archives the entries of a playlist into one playlist per calendar month.
//!
//! The decisions are made here and proved: which month an entry belongs to,
//! when a month's playlist must be created, when a failed remote call is
//! tried again, and in which order a month's items are added to its playlist
//! and removed from the source. The remote calls themselves are made by the
//! caller, which reports back what came of each.
pub mod month;
pub mod retry;
pub mod buckets;
pub mod callback;
pub mod moving;
pub mod pipeline;
