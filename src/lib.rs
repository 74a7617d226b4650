//! Pre-flight check of parachain validation code: a pinned view of chain
//! storage, resolution of the code set, bounded decompression of untrusted
//! blobs, the client side of the preparation host, and the orchestration of
//! one precheck run.

pub mod error;
pub mod decompress;
pub mod skip;
pub mod storage;
pub mod resolve;
pub mod snapshot;
pub mod host;
pub mod precheck;
pub mod worker;
pub mod params;

