//! A remote file system: a FUSE client that mirrors a directory tree kept by
//! an HTTP file server, and the server's request logic.
//!
//! The library holds the decisions of both sides; the network, the FUSE
//! session and the disk are driven by the program around it.

pub mod sys;
pub mod flags;
pub mod text;
pub mod range;
pub mod path;
pub mod model;
pub mod api;
pub mod cache;
pub mod listing;
pub mod remote_fs;
pub mod server;
