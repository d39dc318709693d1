//! Names of objects in cloud storage.
pub mod ffmpeg;
pub mod gcs;
pub mod s3;
pub mod uri;
