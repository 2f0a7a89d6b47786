//! Checks in front of the device kernels.
pub mod answer_laws;
pub mod kernel_laws;
pub mod elementwise;
pub mod norm;
pub mod mix;
pub mod wkv;
pub mod fla;
