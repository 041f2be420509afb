//! Procedural art from a small probabilistic expression grammar.
//!
//! The library holds the integer and structural logic: the seed hashes, the
//! linear congruential generator, the expression tree (constants are kept as
//! IEEE-754 single-precision bit patterns), the weighted grammar, the
//! post-order stack program, tree statistics and their report, shader source
//! emission, and the token structure of the formula text. Arithmetic on the
//! constants themselves is left to the caller.
pub mod hash;
pub mod rng;
pub mod node;
pub mod stats;
pub mod histogram;
pub mod literal;
pub mod grammar;
pub mod text;
pub mod codegen;
pub mod postfix;
pub mod report;
pub mod art;
pub mod tokens;
pub mod dsl;
