//! Core registries of a delay-tolerant-networking (DTN) node: the peers the
//! node knows about and how to reach them, the application endpoints and
//! convergence-layer transports the node composes into one identity, and the
//! node-wide delivery statistics.

pub mod eid;
pub mod peer;
pub mod node;
pub mod registry;
pub mod stats;
