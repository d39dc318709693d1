//! Byte sources that a demuxer reads and seeks through.
pub mod cloud;
pub mod cloud_laws;
pub mod file;
pub mod file_laws;
pub mod memory;
pub mod seek;
pub mod source;
pub mod source_laws;
