//! One 128-byte directory entry.
//!
//! On disk an entry holds, in order: the kind (1 byte), the name (81 bytes,
//! EUC-KR, padded with zero bytes), the access, create and modify times
//! (64 bits each), the position (64 bits), the size (32 bits), the offset of
//! the next block of the chain (64 bits) and 2 bytes of padding. All numbers
//! are little endian.

use encoding::{DecoderTrap, Encoding};
use vstd::prelude::*;
use vstd::slice::slice_subrange;
use vstd::string::StrSliceExecFns;

verus! {

use crate::pk2::constants::ENTRY_SIZE;
use crate::pk2::util::{
    as_u32_le,
    as_u64_le,
    copy_bytes,
    lemma_u32_le_range,
    lemma_u64_le_range,
    spec_u32_le,
    spec_u64_le,
};

/// Kind byte of an empty slot.
pub const KIND_EMPTY: u8 = 0;

/// Kind byte of a directory.
pub const KIND_DIR: u8 = 1;

/// Kind byte of a file.
pub const KIND_FILE: u8 = 2;

/// Byte representation of an [Entry]'s type.
#[derive(Debug, Clone, Copy, PartialEq, Eq, Structural)]
pub enum EntryType {
    Empty,
    Dir,
    File,
}

/// The type that a kind byte stands for.
pub open spec fn spec_entry_type(val: u8) -> EntryType
    recommends
        val <= 2,
{
    if val == 0 {
        EntryType::Empty
    } else if val == 1 {
        EntryType::Dir
    } else {
        EntryType::File
    }
}

impl EntryType {
    /// The type that a kind byte stands for. Only 0, 1 and 2 are kind bytes.
    pub fn from(val: u8) -> (t: EntryType)
        requires
            val <= 2,
        ensures
            t == spec_entry_type(val),
    {
        if val == KIND_EMPTY {
            EntryType::Empty
        } else if val == KIND_DIR {
            EntryType::Dir
        } else {
            EntryType::File
        }
    }

    /// The kind byte of the type.
    pub fn as_u8(&self) -> (val: u8)
        ensures
            val <= 2,
            spec_entry_type(val) == *self,
    {
        match self {
            EntryType::Empty => KIND_EMPTY,
            EntryType::Dir => KIND_DIR,
            EntryType::File => KIND_FILE,
        }
    }

    /// The name of the type: `Empty`, `Directory` or `File`.
    pub fn to_string(&self) -> (name: String)
        ensures
            *self == EntryType::Empty ==> name@ == "Empty"@,
            *self == EntryType::Dir ==> name@ == "Directory"@,
            *self == EntryType::File ==> name@ == "File"@,
    {
        match self {
            EntryType::Empty => "Empty".to_owned(),
            EntryType::Dir => "Directory".to_owned(),
            EntryType::File => "File".to_owned(),
        }
    }
}

/// Raw entry structure in the PK2 archive. Can represent a directory, file or empty entry (see [EntryType]).
#[derive(Debug, Clone, Copy)]
pub struct Entry {
    pub typ: u8,
    pub name: [u8; 81],
    pub access_time: u64,
    pub create_time: u64,
    pub modify_time: u64,
    pub position: u64,
    pub size: u32,
    pub next_chain: u64,
    pub padding: [u8; 2],
}

/// The fields of an entry as mathematical values.
pub ghost struct EntryModel {
    pub typ: u8,
    pub name: Seq<u8>,
    pub access_time: u64,
    pub create_time: u64,
    pub modify_time: u64,
    pub position: u64,
    pub size: u32,
    pub next_chain: u64,
    pub padding: Seq<u8>,
}

impl View for Entry {
    type V = EntryModel;

    open spec fn view(&self) -> EntryModel {
        EntryModel {
            typ: self.typ,
            name: self.name@,
            access_time: self.access_time,
            create_time: self.create_time,
            modify_time: self.modify_time,
            position: self.position,
            size: self.size,
            next_chain: self.next_chain,
            padding: self.padding@,
        }
    }
}

/// The entry that 128 bytes spell.
pub open spec fn spec_parse_entry(buf: Seq<u8>) -> EntryModel
    recommends
        buf.len() == 128,
{
    EntryModel {
        typ: buf[0],
        name: buf.subrange(1, 82),
        access_time: spec_u64_le(buf.subrange(82, 90)) as u64,
        create_time: spec_u64_le(buf.subrange(90, 98)) as u64,
        modify_time: spec_u64_le(buf.subrange(98, 106)) as u64,
        position: spec_u64_le(buf.subrange(106, 114)) as u64,
        size: spec_u32_le(buf.subrange(114, 118)) as u32,
        next_chain: spec_u64_le(buf.subrange(118, 126)) as u64,
        padding: buf.subrange(126, 128),
    }
}

/// The text that a run of bytes decodes to as Windows code page 949, the
/// encoding that goes by the label `euc-kr`, with U+FFFD in place of every
/// sequence that is not valid.
pub uninterp spec fn euc_kr_decoded(bytes: Seq<u8>) -> Seq<char>;

/// `text` without the NUL characters at its end.
pub open spec fn spec_trim_nul(text: Seq<char>) -> Seq<char>
    decreases text.len(),
{
    if text.len() > 0 && text.last() == '\0' {
        spec_trim_nul(text.drop_last())
    } else {
        text
    }
}

/// The path segment that a name field spells.
pub open spec fn spec_path_of(name: Seq<u8>) -> Seq<char> {
    spec_trim_nul(euc_kr_decoded(name))
}

/// Calls `decode` of the `encoding` crate on its Windows-949 encoding with
/// the replacing trap. The contract names the decoded text; with that trap the
/// call returns no error.
#[verifier::external_body]
fn decode_euc_kr(bytes: &[u8]) -> (text: String)
    ensures
        text@ == euc_kr_decoded(bytes@),
{
    match encoding::all::WINDOWS_949.decode(bytes, DecoderTrap::Replace) {
        Ok(text) => text,
        Err(_) => String::new(),
    }
}

/// Drops the NUL characters at the end of `text`.
pub fn trim_nul(text: &str) -> (trimmed: String)
    ensures
        trimmed@ == spec_trim_nul(text@),
{
    let mut n: usize = text.unicode_len();
    assert(text@.subrange(0, n as int) =~= text@);
    while n > 0 && text.get_char(n - 1) == '\0'
        invariant
            n <= text@.len(),
            spec_trim_nul(text@) == spec_trim_nul(text@.subrange(0, n as int)),
        decreases n,
    {
        assert(text@.subrange(0, n as int).drop_last() =~= text@.subrange(0, n - 1));
        n = n - 1;
    }
    text.substring_char(0, n).to_owned()
}

/// Decodes a path from EUC-KR: invalid sequences become U+FFFD, and the NUL
/// characters at the end are dropped.
pub fn decode_path(bytes: &[u8]) -> (path: String)
    ensures
        path@ == spec_path_of(bytes@),
{
    let text: String = decode_euc_kr(bytes);
    trim_nul(text.as_str())
}

impl Entry {
    /// Reads an entry from its 128 bytes.
    pub fn from(buf: &[u8]) -> (entry: Entry)
        requires
            buf@.len() == ENTRY_SIZE,
        ensures
            entry@ == spec_parse_entry(buf@),
    {
        proof {
            lemma_u64_le_range(buf@.subrange(82, 90));
            lemma_u64_le_range(buf@.subrange(90, 98));
            lemma_u64_le_range(buf@.subrange(98, 106));
            lemma_u64_le_range(buf@.subrange(106, 114));
            lemma_u32_le_range(buf@.subrange(114, 118));
            lemma_u64_le_range(buf@.subrange(118, 126));
        }
        Entry {
            typ: buf[0],
            name: copy_bytes::<81>(buf, 1),
            access_time: as_u64_le(slice_subrange(buf, 82, 90)),
            create_time: as_u64_le(slice_subrange(buf, 90, 98)),
            modify_time: as_u64_le(slice_subrange(buf, 98, 106)),
            position: as_u64_le(slice_subrange(buf, 106, 114)),
            size: as_u32_le(slice_subrange(buf, 114, 118)),
            next_chain: as_u64_le(slice_subrange(buf, 118, 126)),
            padding: copy_bytes::<2>(buf, 126),
        }
    }

    /// Whether the entry is a directory.
    pub fn is_dir(&self) -> (r: bool)
        ensures
            r == (self.typ == 1),
    {
        self.typ == KIND_DIR
    }

    /// Whether the entry is a file.
    pub fn is_file(&self) -> (r: bool)
        ensures
            r == (self.typ == 2),
    {
        self.typ == KIND_FILE
    }

    /// Whether the entry is an empty slot.
    pub fn is_empty(&self) -> (r: bool)
        ensures
            r == (self.typ == 0),
    {
        self.typ == KIND_EMPTY
    }

    /// The entry's name as a path segment: the name field decoded from
    /// EUC-KR, without the NUL characters at its end.
    pub fn path_buf(&self) -> (path: String)
        ensures
            path@ == spec_path_of(self.name@),
    {
        decode_path(self.name.as_slice())
    }
}

} // verus!
