pub mod auxiliary_data;
pub mod output;
pub mod collateral;
pub mod native_script_executor;
pub mod witness;
