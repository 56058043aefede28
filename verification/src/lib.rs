//! A network-interface throughput monitor library.
//!
//! The library holds the verified core of a terminal network monitor: a
//! store of last-seen cumulative per-interface byte counters, the
//! non-negative delta computation against fresh samples, human-readable
//! byte-rate formatting, and the rendering of one report per sampling
//! cycle. Reading the counters from the operating system, the terminal
//! loop and signal handling live outside the library.

pub mod cycle;
pub mod format;
pub mod report;
pub mod store;
pub mod subseq;
