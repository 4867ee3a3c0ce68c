//! Serving a read-only virtual filesystem from a backend that only knows
//! "what data lives where".
//!
//! The crate holds the decisions of such a server:
//!
//! - [`async_filesystem`]: the operations of a backend, and the adapter that
//!   answers each kernel callback with the reply for the backend's outcome;
//! - [`directory`]: filling the size-limited buffer of a directory listing;
//! - [`listing`]: listings that can be resumed after any row;
//! - [`content`]: the window of a file that a read returns;
//! - [`identity`]: handing out node identities for paths and remembering them;
//! - [`mount`]: the life of a mount session, up to its orderly shutdown;
//! - [`hello`], [`opendal_fs`], [`conversion`], [`helpers`]: backends, as far
//!   as they decide anything: one file in memory, an object store, tables;
//! - [`config`], [`device`]: settings and events of the device tools.
//!
//! Everything here is plain computation.  Waiting for the kernel, for
//! storage and for the runtime is left to the caller, who hands in what came
//! back and carries out what is decided.

pub mod async_filesystem;
pub mod attr;
pub mod config;
pub mod content;
pub mod conversion;
pub mod device;
pub mod directory;
pub mod errors;
pub mod hello;
pub mod helpers;
pub mod identity;
pub mod listing;
pub mod mount;
pub mod opendal_fs;
pub mod text;
