pub mod blas;
pub mod buffer;
pub mod buffers;
pub mod convert;
pub mod device;
pub mod error;
pub mod footprint;
pub mod kernels;
pub mod launch;
pub mod meaning;
pub mod memory;
pub mod model;
pub mod probe;
pub mod prof;
pub mod run;
pub mod runtime;
pub mod runtime_laws;
pub mod scratch;
pub mod shapes;
pub mod stream;
pub mod tensor;
pub mod tensor_file;
pub mod text;
pub mod timing;
