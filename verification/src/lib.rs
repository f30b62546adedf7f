//! A collection of small verified utilities: a memoizing computation cache,
//! line-based text search, and assorted arithmetic and data-structure
//! exercises, each with a contract checked by Verus.

pub mod arith;
pub mod cache;
pub mod counter;
pub mod fib;
pub mod grep;
pub mod list;
pub mod production;
pub mod rect;
pub mod stats;
pub mod text;
pub mod workout;
