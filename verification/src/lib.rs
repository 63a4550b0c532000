//! Montgomery multiplication for the BN254 scalar field on four 64-bit limbs.

pub mod limb;
pub mod bigint;
pub mod field;
pub mod montgomery;
pub mod entropy;
pub mod cios;

pub use crate::cios::CIOS;
