//! A visitor check-in counter: a cooldown rule on a per-session marker, a
//! date-partitioned ledger of visit counts, and the snapshot form in which
//! the ledger is stored between runs.

pub mod clock;
pub mod error;
pub mod cooldown;
pub mod ledger;
pub mod codec;
pub mod service;
