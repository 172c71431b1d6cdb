//! Circuit side of a commit / prove / verify protocol for a loot-box reveal.
//!
//! A circuit of add and multiply gates is built over BN254 scalar-field values
//! ([`circuit`], [`gadget`], [`loot_box`]), lowered to the sparse matrices
//! A, B, C of `A·z ∘ B·z = C·z` ([`compiler`]), checked for the shape that the
//! structural proof asserts — A and B strictly lower triangular past the input
//! rows, C diagonal ([`structure`]) — and sized for the evaluation domains of
//! the SNARK ([`setup`], [`indexer`]). [`witness`] refuses a witness that does
//! not satisfy the system before any proof is made for it.
pub mod circuit;
pub mod compiler;
pub mod error;
pub mod field;
pub mod gadget;
pub mod indexer;
pub mod loot_box;
pub mod setup;
pub mod structure;
pub mod witness;
