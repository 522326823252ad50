//! Driver and batch-size optimizer for a batch-oriented vanity address search.
//!
//! The search engine itself is driven from outside; this library holds the
//! decisions: how batch sizes are aligned and enumerated, when a throughput
//! measurement is stable, how the best size is tracked, and when a result
//! sink stops the search.
pub mod align;
pub mod measure;
pub mod optimizer;
pub mod sink;
pub mod generate;
