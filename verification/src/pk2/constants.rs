//! Sizes and fixed byte strings of the PK2 format.

use vstd::prelude::*;
use vstd::pervasive::unreached;

verus! {

use crate::blowfish::{spec_key_schedule, spec_salted_key, Blowfish};

/// Size in bytes of one directory entry on disk.
pub const ENTRY_SIZE: usize = 128;

/// Number of entries in one block.
pub const ENTRIES_PER_BLOCK: usize = 20;

/// Size in bytes of one block on disk: twenty entries.
pub const BLOCK_SIZE: usize = 2560;

/// Size in bytes of the archive header.
pub const HEADER_SIZE: usize = 256;

/// The archive format version this library reads.
pub const VERSION: u32 = 0x0100_0002;

/// First byte of the names `.` and `..`.
pub const DOT: u8 = 0x2E;

/// The base key of every PK2 archive, as text.
pub const KEY: &'static str = "169841";

/// The base key of every PK2 archive: the ASCII digits `169841`.
pub const KEY_BYTES: [u8; 6] = [
    0x31, 0x36, 0x39, 0x38, 0x34, 0x31,
];

/// The salt that is folded into the base key.
pub const SALT: [u8; 10] = [
    0x03, 0xF8, 0xE4, 0x44, 0x88, 0x99, 0x3F, 0x64, 0xFE, 0x35,
];

/// The plaintext whose encryption an encrypted archive carries as checksum:
/// the ASCII text `Joymax Pak File` and one zero byte.
pub const CHECKSUM: [u8; 16] = [
    0x4A, 0x6F, 0x79, 0x6D, 0x61, 0x78, 0x20, 0x50,
    0x61, 0x6B, 0x20, 0x46, 0x69, 0x6C, 0x65, 0x00,
];

/// The signature every archive starts with: the ASCII text
/// `JoyMax File Manager!`, a line feed, and nine zero bytes.
pub const SIGNATURE: [u8; 30] = [
    0x4A, 0x6F, 0x79, 0x4D, 0x61, 0x78, 0x20, 0x46, 0x69, 0x6C,
    0x65, 0x20, 0x4D, 0x61, 0x6E, 0x61, 0x67, 0x65, 0x72, 0x21,
    0x0A, 0x00, 0x00, 0x00, 0x00, 0x00, 0x00, 0x00, 0x00, 0x00,
];

/// The key schedule all PK2 data is encrypted under.
#[verifier::opaque]
pub open spec fn spec_pk2_schedule() -> Seq<u32> {
    spec_key_schedule(spec_salted_key(KEY_BYTES@, SALT@))
}

/// Builds the cipher all PK2 data is encrypted under.
pub fn blowfish() -> (cipher: Blowfish)
    ensures
        cipher@ == spec_pk2_schedule(),
{
    reveal(spec_pk2_schedule);
    let key: [u8; 6] = KEY_BYTES;
    let salt: [u8; 10] = SALT;
    match Blowfish::new(key.as_slice(), salt.as_slice()) {
        Ok(cipher) => cipher,
        Err(_) => unreached(),
    }
}

} // verus!
