pub mod common;
pub mod converter;
pub mod errors;
pub mod helpers;
pub mod input_contexts;
pub mod protocol_params;
pub mod validation;
pub mod value;
