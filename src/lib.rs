//! Core of a compiler front end for a Haskell-like language: a type and
//! kind model with alpha-equivalence, the syntax trees, and a deriving
//! engine that writes `Eq` and `Ord` instances for algebraic data types.
pub mod types;
pub mod core_syntax;
pub mod module;
pub mod deriving;
pub mod semantics;
