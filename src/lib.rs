//! Release-graph builder: release metadata, a content-addressed release cache,
//! the registry scanning decisions and the graph assembled from what a scan found.

pub mod release;
pub mod graph;
pub mod cache;
pub mod state;
pub mod registry;
pub mod scanner;
pub mod catalog;
pub mod extract;
