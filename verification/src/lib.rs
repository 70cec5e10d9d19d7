//! A verified library for filtering streams of genomic alignment records
//! against a set of excluded genomic regions, together with the pure
//! per-record transforms (insertion-site coordinate shifting and
//! sample/spike-in classification) that surround the filter in a typical
//! processing pipeline.
//!
//! The concurrent pipeline around the filter — worker threads scanning one
//! chromosome each, a single writer draining their batches — lives outside
//! the library; every decision it takes (parsing the interval file, the
//! per-record retain test, batching, work dispatch, classification) is made
//! by verified functions here.
pub mod bed;
pub mod bytes;
pub mod filter;
pub mod regions;
pub mod shift;
pub mod split;
