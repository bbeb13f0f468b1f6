//! A verified rendition of the visitor pattern over a small tree of
//! containers and fruit.
//!
//! The tree (`tree::Thing`) is a closed union of two container kinds and two
//! leaf kinds.  A traversal is driven by a `walk::Visitor`, whose per-variant
//! handlers decide whether and how to descend; the dispatchers in `walk`
//! perform exactly one dispatch step per node.  Two example visitors live in
//! `counters`: one that counts every leaf in the tree, and one that prunes
//! piles by leaving their step at its no-op default.

pub mod counters;
pub mod text;
pub mod tree;
pub mod walk;
