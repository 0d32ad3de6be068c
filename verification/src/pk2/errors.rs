//! The failures of reading an archive.

use vstd::prelude::*;

verus! {

/// What can go wrong while an archive is opened and indexed.
#[derive(Debug)]
pub enum Error {
    /// The header's signature, version or checksum is not the expected one.
    InvalidHeader(&'static str),
    /// A lower-level input or output failure, with its description.
    IO(String),
    /// A block could not be read in full, or a chain of blocks or
    /// directories runs in a circle.
    InvalidBlock(&'static str),
}

} // verus!
