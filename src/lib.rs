//! Streaming random data for network throughput tests: fast seedable
//! generators, a length-bounded chunked byte stream, a per-chunk deadline
//! guard, byte accounting that reports exactly once, and the request rules
//! of the download server.
pub mod block;
pub mod guard;
pub mod lehmer64;
pub mod logger;
pub mod randomstream;
pub mod remoteip;
pub mod server;
