//! Decision logic of an audio/video decoder that turns media into tensors.
pub mod cast;
pub mod conversion;
pub mod conversion_laws;
pub mod decoder;
pub mod double;
pub mod ffi;
pub mod ffi_laws;
pub mod io;
pub mod s3_client;
pub mod text;
pub mod util;
