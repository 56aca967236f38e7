//! A behavior-tree tick engine: composite flow nodes (sequences, fallbacks,
//! parallels and their memory variants) are advanced tick by tick against
//! scripted leaf outcomes, with per-node memory, a shared blackboard and an
//! ordered trace.

pub mod blackboard;
pub mod context;
pub mod flow;
pub mod forester;
pub mod keeper;
pub mod laws;
pub mod rtargs;
pub mod rtree;
pub mod runtime;
pub mod tracer;
