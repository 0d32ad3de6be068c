//! The 256-byte prelude of an archive.
//!
//! On disk the header holds, in order: the signature (30 bytes), the version
//! (32 bits, little endian), the encryption flag (1 byte), the checksum
//! (16 bytes) and 205 reserved bytes.

use vstd::prelude::*;

verus! {

use crate::blowfish::spec_encrypt;
use crate::pk2::constants::{blowfish, spec_pk2_schedule, CHECKSUM, HEADER_SIZE, SIGNATURE, VERSION};
use crate::pk2::errors::Error;
use crate::pk2::util::{
    as_u32_le,
    copy_bytes,
    lemma_u32_le_decode_encode,
    lemma_u32_le_encode_decode,
    lemma_u32_le_range,
    spec_u32_le,
    spec_u32_le_bytes,
    u32_le_bytes,
};

/// Represents the raw header of a PK2 archive, which is used to verify the integrity of an archive.
pub struct Header {
    pub signature: [u8; 30],
    pub version: u32,
    pub encrypted: bool,
    pub checksum: [u8; 16],
    pub reserved: [u8; 205],
}

/// The fields of a header as mathematical values.
pub ghost struct HeaderModel {
    pub signature: Seq<u8>,
    pub version: u32,
    pub encrypted: bool,
    pub checksum: Seq<u8>,
    pub reserved: Seq<u8>,
}

impl View for Header {
    type V = HeaderModel;

    open spec fn view(&self) -> HeaderModel {
        HeaderModel {
            signature: self.signature@,
            version: self.version,
            encrypted: self.encrypted,
            checksum: self.checksum@,
            reserved: self.reserved@,
        }
    }
}

/// Offset of the version field.
pub const VERSION_AT: usize = 30;

/// Offset of the encryption flag.
pub const FLAG_AT: usize = 34;

/// Offset of the checksum.
pub const CHECKSUM_AT: usize = 35;

/// Offset of the reserved bytes, and number of bytes that verification reads.
pub const RESERVED_AT: usize = 51;

/// Number of leading checksum bytes that verification compares.
pub const CHECKSUM_PREFIX: usize = 3;

/// The header that 256 bytes spell.
pub open spec fn spec_parse_header(buf: Seq<u8>) -> HeaderModel
    recommends
        buf.len() == 256,
{
    HeaderModel {
        signature: buf.subrange(0, 30),
        version: spec_u32_le(buf.subrange(30, 34)) as u32,
        encrypted: buf[34] == 1,
        checksum: buf.subrange(35, 51),
        reserved: buf.subrange(51, 256),
    }
}

/// The byte that spells the encryption flag.
pub open spec fn spec_flag_byte(encrypted: bool) -> u8 {
    if encrypted {
        1
    } else {
        0
    }
}

/// The bytes that spell a header.
pub open spec fn spec_header_bytes(h: HeaderModel) -> Seq<u8> {
    h.signature + spec_u32_le_bytes(h.version) + seq![spec_flag_byte(h.encrypted)] + h.checksum
        + h.reserved
}

/// Whether the fields have the lengths of the on-disk layout.
pub open spec fn spec_header_wf(h: HeaderModel) -> bool {
    &&& h.signature.len() == 30
    &&& h.checksum.len() == 16
    &&& h.reserved.len() == 205
}

/// The outcome of the signature and version check: the signature is compared
/// first.
pub open spec fn spec_verify_signature(h: HeaderModel) -> Result<(), Error> {
    if h.signature != SIGNATURE@ {
        Err(Error::InvalidHeader("Invalid signature"))
    } else if h.version != VERSION {
        Err(Error::InvalidHeader("Invalid version"))
    } else {
        Ok(())
    }
}

/// What an encrypted archive's checksum starts with: the first bytes of the
/// encrypted checksum plaintext.
pub open spec fn spec_expected_checksum() -> Seq<u8> {
    spec_encrypt(spec_pk2_schedule(), CHECKSUM@)
}

/// Whether the first three checksum bytes are the expected ones.
pub open spec fn spec_checksum_matches(checksum: Seq<u8>) -> bool {
    forall|i: int| 0 <= i < 3 ==> checksum[i] == spec_expected_checksum()[i]
}

/// The outcome of the checksum check. An archive that is not encrypted
/// passes; of an encrypted one only the first three bytes are compared.
pub open spec fn spec_verify_checksum(h: HeaderModel) -> Result<(), Error> {
    if !h.encrypted || spec_checksum_matches(h.checksum) {
        Ok(())
    } else {
        Err(Error::InvalidHeader("Checksum is invalid"))
    }
}

/// The outcome of verification: signature, then version, then checksum; the
/// first mismatch is reported.
pub open spec fn spec_verify(h: HeaderModel) -> Result<(), Error> {
    match spec_verify_signature(h) {
        Err(e) => Err(e),
        Ok(_) => spec_verify_checksum(h),
    }
}

/// Parsing the bytes of a header gives the header back.
pub proof fn lemma_parse_header_bytes(h: HeaderModel)
    requires
        spec_header_wf(h),
    ensures
        spec_header_bytes(h).len() == 256,
        spec_parse_header(spec_header_bytes(h)) == h,
{
    let b = spec_header_bytes(h);
    lemma_u32_le_decode_encode(h.version);
    assert(b.subrange(0, 30) =~= h.signature);
    assert(b.subrange(30, 34) =~= spec_u32_le_bytes(h.version));
    assert(b.subrange(35, 51) =~= h.checksum);
    assert(b.subrange(51, 256) =~= h.reserved);
}

/// Writing a parsed header out again gives the bytes it was parsed from, but
/// for the flag byte, which is written as 0 or 1.
pub proof fn lemma_header_bytes_parse(buf: Seq<u8>)
    requires
        buf.len() == 256,
    ensures
        spec_header_wf(spec_parse_header(buf)),
        spec_header_bytes(spec_parse_header(buf)) == buf.update(
            34,
            spec_flag_byte(buf[34] == 1),
        ),
        buf[34] <= 1 ==> spec_header_bytes(spec_parse_header(buf)) == buf,
{
    let h = spec_parse_header(buf);
    let v = buf.subrange(30, 34);
    lemma_u32_le_range(v);
    lemma_u32_le_encode_decode(v);
    assert(spec_header_bytes(h) =~= buf.update(34, spec_flag_byte(buf[34] == 1)));
    if buf[34] <= 1 {
        assert(buf.update(34, spec_flag_byte(buf[34] == 1)) =~= buf);
    }
}

/// Verification reads the first 51 bytes only: two headers that agree there
/// verify alike.
pub proof fn lemma_verify_reads_prefix(a: Seq<u8>, b: Seq<u8>)
    requires
        a.len() == 256,
        b.len() == 256,
        a.subrange(0, 51) == b.subrange(0, 51),
    ensures
        spec_verify(spec_parse_header(a)) == spec_verify(spec_parse_header(b)),
{
    let pa = a.subrange(0, 51);
    let pb = b.subrange(0, 51);
    assert(a.subrange(0, 30) =~= pa.subrange(0, 30));
    assert(b.subrange(0, 30) =~= pb.subrange(0, 30));
    assert(a.subrange(30, 34) =~= pa.subrange(30, 34));
    assert(b.subrange(30, 34) =~= pb.subrange(30, 34));
    assert(a.subrange(35, 51) =~= pa.subrange(35, 51));
    assert(b.subrange(35, 51) =~= pb.subrange(35, 51));
    assert(a[34] == pa[34]);
    assert(b[34] == pb[34]);
}

impl Header {
    /// Reads a header from its 256 bytes.
    pub fn from(buf: &[u8]) -> (header: Header)
        requires
            buf@.len() == HEADER_SIZE,
        ensures
            header@ == spec_parse_header(buf@),
    {
        let signature: [u8; 30] = copy_bytes::<30>(buf, 0);
        let version_bytes: [u8; 4] = copy_bytes::<4>(buf, VERSION_AT);
        let checksum: [u8; 16] = copy_bytes::<16>(buf, CHECKSUM_AT);
        let reserved: [u8; 205] = copy_bytes::<205>(buf, RESERVED_AT);
        proof {
            lemma_u32_le_range(buf@.subrange(30, 34));
        }
        Header {
            signature,
            version: as_u32_le(version_bytes.as_slice()),
            encrypted: buf[FLAG_AT] == 1,
            checksum,
            reserved,
        }
    }

    /// Writes the header as its 256 bytes.
    pub fn to_bytes(&self) -> (out: Vec<u8>)
        ensures
            out@ == spec_header_bytes(self@),
            out@.len() == HEADER_SIZE,
    {
        let mut out: Vec<u8> = Vec::with_capacity(HEADER_SIZE);
        let mut i: usize = 0;
        while i < 30
            invariant
                i <= 30,
                out@ == self.signature@.subrange(0, i as int),
            decreases 30 - i,
        {
            out.push(self.signature[i]);
            i = i + 1;
        }
        let version: [u8; 4] = u32_le_bytes(self.version);
        out.push(version[0]);
        out.push(version[1]);
        out.push(version[2]);
        out.push(version[3]);
        out.push(if self.encrypted { 1u8 } else { 0u8 });
        assert(out@ =~= self.signature@ + spec_u32_le_bytes(self.version) + seq![
            spec_flag_byte(self.encrypted),
        ]);
        let ghost head = out@;
        i = 0;
        while i < 16
            invariant
                i <= 16,
                out@ == head + self.checksum@.subrange(0, i as int),
            decreases 16 - i,
        {
            out.push(self.checksum[i]);
            i = i + 1;
        }
        let ghost middle = out@;
        assert(middle =~= head + self.checksum@);
        i = 0;
        while i < 205
            invariant
                i <= 205,
                out@ == middle + self.reserved@.subrange(0, i as int),
            decreases 205 - i,
        {
            out.push(self.reserved[i]);
            i = i + 1;
        }
        assert(out@ =~= middle + self.reserved@);
        out
    }

    /// Checks the checksum of an encrypted archive against the encrypted
    /// checksum plaintext, on the first three bytes.
    pub fn verify_checksum(&self) -> (r: Result<(), Error>)
        ensures
            r == spec_verify_checksum(self@),
    {
        if !self.encrypted {
            return Ok(());
        }
        let mut encrypted_checksum: [u8; 16] = CHECKSUM;
        let cipher = blowfish();
        cipher.encrypt(&mut encrypted_checksum);
        let mut i: usize = 0;
        while i < CHECKSUM_PREFIX
            invariant
                i <= 3,
                self.encrypted,
                encrypted_checksum@ == spec_expected_checksum(),
                forall|j: int| 0 <= j < i ==> self.checksum@[j] == spec_expected_checksum()[j],
            decreases 3 - i,
        {
            if encrypted_checksum[i] != self.checksum[i] {
                assert(self.checksum@[i as int] != spec_expected_checksum()[i as int]);
                return Err(Error::InvalidHeader("Checksum is invalid"));
            }
            i = i + 1;
        }
        Ok(())
    }

    /// Checks the signature, then the version.
    pub fn verify_signature(&self) -> (r: Result<(), Error>)
        ensures
            r == spec_verify_signature(self@),
    {
        let expected: [u8; 30] = SIGNATURE;
        let mut i: usize = 0;
        while i < 30
            invariant
                i <= 30,
                expected@ == SIGNATURE@,
                forall|j: int| 0 <= j < i ==> self.signature@[j] == SIGNATURE@[j],
            decreases 30 - i,
        {
            if self.signature[i] != expected[i] {
                return Err(Error::InvalidHeader("Invalid signature"));
            }
            i = i + 1;
        }
        assert(self.signature@ =~= SIGNATURE@);
        if self.version != VERSION {
            Err(Error::InvalidHeader("Invalid version"))
        } else {
            Ok(())
        }
    }

    /// Verifies the header: signature, version, checksum. The first mismatch
    /// is reported.
    pub fn verify(&self) -> (r: Result<(), Error>)
        ensures
            r == spec_verify(self@),
    {
        match self.verify_signature() {
            Err(e) => Err(e),
            Ok(_) => self.verify_checksum(),
        }
    }
}

} // verus!
