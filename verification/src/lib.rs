//! A verified model of an arithmetic-circuit gadget proving `y = x^n` over
//! the pasta base field, where `n` is revealed through its public bit
//! decomposition and the computation is laid out as a constrained
//! square-and-multiply ladder.
//!
//! The crate models the constraint declaration (columns, selector and the
//! polynomial identities that must vanish on every active row), the
//! deterministic witness assignment that fills the table, and the equality
//! bindings that tie designated cells to the public-input vector.  The
//! polynomial-commitment backend that compiles and proves the constraint
//! system is out of scope; field arithmetic is delegated to the pasta curves
//! implementation behind a small set of trusted wrappers.

pub mod field;

pub mod expr;

pub mod circuit;

pub mod laws;

pub mod utils;

