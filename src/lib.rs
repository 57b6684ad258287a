//! Backend-agnostic object storage access: a capability interface that every
//! storage backend implements, path-bound object handles with cached metadata,
//! bounded readers, a seekable reader and a lazily started listing stream.

pub mod error;
pub mod ops;
pub mod accessor;
pub mod io;
pub mod memory;
pub mod object;
pub mod s3;
