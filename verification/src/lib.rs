//! Transaction inspection and phase-1 / phase-2 validation rules for Cardano
//! transactions, with machine-checked contracts.

pub mod common;
pub mod check_signatures;
pub mod crypto;
pub mod js_error;
pub mod js_value;
pub mod plutus;
pub mod text;
pub mod validators;
