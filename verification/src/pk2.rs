//! The PK2 archive format: header, entries, blocks, directories.

pub mod archive;
pub mod block;
pub mod constants;
pub mod directory;
pub mod entry;
pub mod errors;
pub mod header;
pub mod keyed;
pub mod util;
