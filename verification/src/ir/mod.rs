//! Graph-based intermediate representation.

pub mod graph;

pub use graph::{Edge, EdgeKind, GraphIR, IrView, Node, NodeFeatures, NodeId, NodeMetadata, Operation};
