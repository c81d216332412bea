//! A minimal spatial index: a quadtree over a fixed-point unit square.
//!
//! Values tagged with a 2-D position are inserted into a recursively
//! subdividing tree of quadrants; a full-tree traversal visits every stored
//! value together with its depth. Storage for internal nodes is granted by an
//! allocation strategy that records every four-slot block it hands out, so
//! the contracts can speak about how many blocks an operation consumed, and
//! teardown is offered in two disciplines: a structured recursive release,
//! and a bulk release restricted to value types that own no resources.

pub mod geometry;
pub mod laws;
pub mod node;
pub mod strategy;
pub mod tree;
