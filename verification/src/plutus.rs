pub mod decoder_tools;
pub mod models;
