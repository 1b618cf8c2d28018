//! Two memory-management strategies for one toy statement/expression tree:
//! nodes that are owned and freed one by one ([`ast_boxed`]), and nodes that
//! borrow from a shared bump arena and are freed together ([`ast_bumped`]).
//!
//! Both strategies offer the same two algorithms, a seeded random tree builder
//! and an in-place rewrite that feeds a hash accumulator while it walks. Their
//! contracts are stated over one mathematical tree ([`model`]), so that what is
//! proved of it ([`laws`]) holds of both.
use vstd::prelude::*;

pub mod accumulator;
pub mod arena;
pub mod ast_boxed;
pub mod ast_bumped;
pub mod laws;
pub mod model;
pub mod random;
mod std_ext;

verus! {

/// The notional source position of a node: two integers with no order between
/// them.
pub type Span = std::ops::Range<usize>;

} // verus!
