pub mod errors;
pub mod hints;
pub mod validation;
