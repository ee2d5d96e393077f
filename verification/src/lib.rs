//! Mirrors a local directory tree into a remote folder service.
//!
//! The library holds the decisions of the mirror: which requests to build, how
//! replies are judged, how the shared credential is renewed, in which order the
//! tree is walked and which files become upload jobs. Transport, the file system
//! and threads belong to the program around it.

pub mod call;
pub mod config;
pub mod credential;
pub mod error;
pub mod json;
pub mod queue;
pub mod remote;
pub mod tree;
pub mod walker;
