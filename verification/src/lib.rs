//! Commitment schemes that can be used natively and inside an arithmetic
//! circuit, and the lending protocol operations built on top of them.
//!
//! A scheme commits to a vector of field elements under a blinding scalar.
//! The protocol layer encodes baskets of collateral, loan terms and
//! nullifier inputs as such vectors and knows nothing of the backend that
//! commits to them; the factory hands out the backend asked for.

pub mod circuit;
pub mod encoding;
pub mod error;
pub mod factory;
pub mod field;
pub mod halo2_impl;
pub mod lending;
pub mod pedersen;
pub mod plonk_impl;
pub mod protocol;
pub mod scheme;
pub mod valuation;

pub use circuit::CommitmentCircuit;
pub use error::CommitmentError;
pub use factory::{CommitmentFactory, SchemeHandle, ZkSystem};
pub use field::FieldElement;
pub use lending::{CollateralCommitment, LoanCommitment};
pub use scheme::{CommitmentScheme, PedersenCommitment};
