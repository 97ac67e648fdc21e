//! A persistent record store for a movie-ticket booking service.
//!
//! Movies and bookings are kept in two ordered tables keyed by identifiers
//! that two durable counters hand out. Records are stored in a binary format
//! whose decoding is proved to invert its encoding.
pub mod codec;
pub mod laws;
pub mod record;
pub mod storage;
pub mod store;
