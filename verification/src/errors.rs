//! What can go wrong while mounting or serving.

use vstd::prelude::*;

verus! {

#[verifier::external_type_specification]
#[verifier::external_body]
pub struct ExIoError(std::io::Error);

/// The failures of the serving core and of the backends that ship with it.
#[derive(Debug)]
pub enum AsyncFilesystemError {
    /// The operating system refused to mount or to unmount.
    MountError(std::io::Error),
    /// No node has the given identity, or no child of it has the name asked
    /// for.
    NotFound(u64),
    /// The node with the given identity is not a directory.
    NotADirectory(u64),
    /// The node with the given identity is a directory, not a file.
    NotAFile(u64),
    /// A file name, given here as raw bytes, is not valid text.
    InvalidName(Vec<u8>),
}

/// The status code that every failed callback is answered with: "no such
/// entry".
pub const ENOENT: i32 = 2;

} // verus!
