//! Verifier-side claim-reduction engine for a multilinear polynomial
//! interactive-oracle-proof framework.
//!
//! The crate models polynomial oracles as a typed tree, reduces evaluation
//! claims about them recursively into primitive claims on committed
//! polynomials (evalcheck), batches those primitive claims for a joint
//! polynomial-commitment opening, and restates zerocheck and prodcheck
//! claims as sumcheck claims.

pub mod composition;
pub mod error;
pub mod evalcheck;
pub mod evalcheck_verify;
pub mod field;
pub mod multilinear;
pub mod oracle;
pub mod prodcheck;
pub mod zerocheck;
