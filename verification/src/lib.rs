//! Transforms a program model written against an allocation-friendly
//! account/instruction framework into an equivalent model for a minimal,
//! allocation-averse runtime convention.
//!
//! The pipeline is: source-form model -> relationship analysis (PDA seeds,
//! cross-program call shapes, record byte sizes) -> transformation (per
//! instruction: discriminator, account metadata, ordered validations, body
//! rewriting) -> target-form model.

pub mod analyzer;
pub mod base58;
pub mod codegen;
pub mod collections;
pub mod cpi_helpers;
pub mod idl;
pub mod ir;
pub mod layout;
pub mod parsing;
pub mod text;
pub mod transformer;
pub mod zero_copy;
