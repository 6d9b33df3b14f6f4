//! A verified adapter over a pileup engine: per-column views of the reads
//! that overlap one reference position, and the pull protocol that walks the
//! columns one by one and releases the engine exactly once.

pub mod column;
pub mod pileups;
