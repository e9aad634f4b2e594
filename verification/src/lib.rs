//! Access control and bookkeeping behind a desktop tool that ranks audio samples.
//!
//! Every file operation that the user interface can ask for is gated by an
//! [`AllowedPaths`] registry: a location is served only when its resolved form
//! lies at or beneath a directory that the user picked. The crate holds the
//! decisions; touching the file system is left to the caller, which hands in
//! what it found as plain values.

pub mod access;
pub mod allowed_paths;
pub mod export;
pub mod path;
pub mod sample;
pub mod scan;

pub use allowed_paths::AllowedPaths;
pub use path::CanonicalPath;
pub use sample::Sample;
