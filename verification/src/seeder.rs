//! Filling a development database: batch sizes for bulk inserts, unique
//! random values, random opening times, and random reservations that fit
//! their opening times and do not overlap.

pub mod batches;
pub mod dates;
pub mod random;
pub mod reservations;
pub mod unique;
