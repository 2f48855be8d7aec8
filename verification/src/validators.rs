pub mod phase_1;
pub mod phase_2;
