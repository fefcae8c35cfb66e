//! One-off runs of scheduled batch workloads: the container merge engine, run
//! naming, the dispatch decisions and the listing projection.

pub mod dispatch;
pub mod listing;
pub mod merge;
pub mod model;
pub mod naming;
