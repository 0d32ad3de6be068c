use rustyroad::pk2::constants::{blowfish, CHECKSUM, SIGNATURE, VERSION};
use rustyroad::pk2::entry::{decode_path, trim_nul, Entry, EntryType};
use rustyroad::pk2::errors::Error;
use rustyroad::pk2::header::Header;
use rustyroad::pk2::keyed::{find_key, join_path, put};
use rustyroad::pk2::util::{as_u32_le, as_u64_le, copy_bytes, u32_le_bytes, u64_le_bytes};

fn header_bytes(version: u32, flag: u8, checksum: &[u8; 16]) -> Vec<u8> {
    let mut bytes = Vec::new();
    bytes.extend_from_slice(&SIGNATURE);
    bytes.extend_from_slice(&version.to_le_bytes());
    bytes.push(flag);
    bytes.extend_from_slice(checksum);
    bytes.extend((0..205u32).map(|i| (i % 251) as u8));
    bytes
}

fn good_checksum() -> [u8; 16] {
    let mut checksum = CHECKSUM;
    blowfish().encrypt(&mut checksum);
    checksum
}

fn entry_bytes(kind: u8, name: &[u8]) -> [u8; 128] {
    let mut bytes = [0u8; 128];
    bytes[0] = kind;
    bytes[1..1 + name.len()].copy_from_slice(name);
    bytes[82..90].copy_from_slice(&0x0102_0304_0506_0708u64.to_le_bytes());
    bytes[90..98].copy_from_slice(&0x1112_1314_1516_1718u64.to_le_bytes());
    bytes[98..106].copy_from_slice(&0x2122_2324_2526_2728u64.to_le_bytes());
    bytes[106..114].copy_from_slice(&0x0000_0000_0001_0000u64.to_le_bytes());
    bytes[114..118].copy_from_slice(&0xDEAD_BEEFu32.to_le_bytes());
    bytes[118..126].copy_from_slice(&0x3000u64.to_le_bytes());
    bytes[126] = 0xAB;
    bytes[127] = 0xCD;
    bytes
}

#[test]
fn u32_le_reads_least_significant_byte_first() {
    assert_eq!(as_u32_le(&[0x78, 0x56, 0x34, 0x12]), 0x1234_5678);
    assert_eq!(as_u32_le(&[0xFF, 0xFF, 0xFF, 0xFF]), u32::MAX);
    assert_eq!(as_u32_le(&[0x02, 0x00, 0x00, 0x01, 0x99]), 0x0100_0002);
}

#[test]
fn u64_le_reads_least_significant_byte_first() {
    assert_eq!(
        as_u64_le(&[0xEF, 0xCD, 0xAB, 0x89, 0x67, 0x45, 0x23, 0x01]),
        0x0123_4567_89AB_CDEF
    );
    assert_eq!(as_u64_le(&[0xFF; 8]), u64::MAX);
    assert_eq!(as_u64_le(&[0, 0, 0, 0, 1, 0, 0, 0]), 0x1_0000_0000);
}

#[test]
fn le_decoders_invert_their_encoders() {
    for v in [0u32, 1, 0xFF, 0x100, 0x0100_0002, 0xDEAD_BEEF, u32::MAX] {
        assert_eq!(u32_le_bytes(v), v.to_le_bytes());
        assert_eq!(as_u32_le(&u32_le_bytes(v)), v);
    }
    for v in [0u64, 1, 0xFFFF_FFFF, 0x1_0000_0000, 0x0123_4567_89AB_CDEF, u64::MAX] {
        assert_eq!(u64_le_bytes(v), v.to_le_bytes());
        assert_eq!(as_u64_le(&u64_le_bytes(v)), v);
    }
    assert_eq!(u32_le_bytes(as_u32_le(&[9, 8, 7, 6])), [9, 8, 7, 6]);
    assert_eq!(u64_le_bytes(as_u64_le(&[1, 2, 3, 4, 5, 6, 7, 8])), [1, 2, 3, 4, 5, 6, 7, 8]);
}

#[test]
fn copy_bytes_takes_the_run_at_the_offset() {
    let src = [10u8, 11, 12, 13, 14, 15];
    assert_eq!(copy_bytes::<3>(&src, 2), [12, 13, 14]);
    assert_eq!(copy_bytes::<0>(&src, 6), []);
}

#[test]
fn header_fields_are_read_at_their_offsets() {
    let checksum = [7u8; 16];
    let bytes = header_bytes(0x0A0B_0C0D, 1, &checksum);
    let header = Header::from(&bytes);
    assert_eq!(header.signature, SIGNATURE);
    assert_eq!(header.version, 0x0A0B_0C0D);
    assert!(header.encrypted);
    assert_eq!(header.checksum, checksum);
    assert_eq!(header.reserved[0], 0);
    assert_eq!(header.reserved[204], 204);
    let plain = Header::from(&header_bytes(VERSION, 0, &checksum));
    assert!(!plain.encrypted);
    let odd = Header::from(&header_bytes(VERSION, 2, &checksum));
    assert!(!odd.encrypted);
}

#[test]
fn header_round_trips_its_bytes() {
    let bytes = header_bytes(VERSION, 1, &good_checksum());
    assert_eq!(Header::from(&bytes).to_bytes(), bytes);
    let plain = header_bytes(VERSION, 0, &[0u8; 16]);
    assert_eq!(Header::from(&plain).to_bytes(), plain);
    let mut odd = header_bytes(VERSION, 7, &[0u8; 16]);
    let written = Header::from(&odd).to_bytes();
    odd[34] = 0;
    assert_eq!(written, odd);
}

#[test]
fn verify_accepts_encrypted_header_with_matching_checksum() {
    let header = Header::from(&header_bytes(0x0100_0002, 1, &good_checksum()));
    assert!(header.verify().is_ok());
    assert!(header.verify_signature().is_ok());
    assert!(header.verify_checksum().is_ok());
}

#[test]
fn verify_rejects_other_version() {
    let header = Header::from(&header_bytes(0x0100_0001, 1, &good_checksum()));
    assert!(matches!(header.verify(), Err(Error::InvalidHeader("Invalid version"))));
}

#[test]
fn verify_rejects_other_signature_first() {
    let mut bytes = header_bytes(0x0100_0001, 1, &[0u8; 16]);
    bytes[29] = 1;
    let header = Header::from(&bytes);
    assert!(matches!(header.verify(), Err(Error::InvalidHeader("Invalid signature"))));
    assert!(matches!(header.verify_signature(), Err(Error::InvalidHeader("Invalid signature"))));
}

#[test]
fn verify_compares_three_checksum_bytes() {
    let good = good_checksum();
    let mut tail_differs = good;
    for byte in tail_differs[3..].iter_mut() {
        *byte ^= 0xFF;
    }
    assert!(Header::from(&header_bytes(VERSION, 1, &tail_differs)).verify().is_ok());
    for i in 0..3 {
        let mut bad = good;
        bad[i] ^= 1;
        let header = Header::from(&header_bytes(VERSION, 1, &bad));
        assert!(matches!(header.verify(), Err(Error::InvalidHeader("Checksum is invalid"))));
        assert!(matches!(
            header.verify_checksum(),
            Err(Error::InvalidHeader("Checksum is invalid"))
        ));
    }
}

#[test]
fn verify_skips_checksum_of_plain_archive() {
    let header = Header::from(&header_bytes(VERSION, 0, &[0x55; 16]));
    assert!(header.verify().is_ok());
}

#[test]
fn verify_reads_the_first_51_bytes_only() {
    let mut bytes = header_bytes(VERSION, 1, &good_checksum());
    for byte in bytes[51..].iter_mut() {
        *byte = !*byte;
    }
    assert!(Header::from(&bytes).verify().is_ok());
    let mut bad = header_bytes(VERSION, 1, &[0u8; 16]);
    let before = format!("{:?}", Header::from(&bad).verify());
    for byte in bad[51..].iter_mut() {
        *byte = 0xEE;
    }
    assert_eq!(format!("{:?}", Header::from(&bad).verify()), before);
}

#[test]
fn entry_fields_are_read_at_their_offsets() {
    let entry = Entry::from(&entry_bytes(2, b"file.txt"));
    assert_eq!(entry.typ, 2);
    assert_eq!(&entry.name[..8], b"file.txt");
    assert!(entry.name[8..].iter().all(|b| *b == 0));
    assert_eq!(entry.access_time, 0x0102_0304_0506_0708);
    assert_eq!(entry.create_time, 0x1112_1314_1516_1718);
    assert_eq!(entry.modify_time, 0x2122_2324_2526_2728);
    assert_eq!(entry.position, 0x1_0000);
    assert_eq!(entry.size, 0xDEAD_BEEF);
    assert_eq!(entry.next_chain, 0x3000);
    assert_eq!(entry.padding, [0xAB, 0xCD]);
}

#[test]
fn entry_kind_predicates() {
    let empty = Entry::from(&entry_bytes(0, b""));
    let dir = Entry::from(&entry_bytes(1, b"dir"));
    let file = Entry::from(&entry_bytes(2, b"file"));
    let other = Entry::from(&entry_bytes(3, b"odd"));
    assert!(empty.is_empty() && !empty.is_dir() && !empty.is_file());
    assert!(!dir.is_empty() && dir.is_dir() && !dir.is_file());
    assert!(!file.is_empty() && !file.is_dir() && file.is_file());
    assert!(!other.is_empty() && !other.is_dir() && !other.is_file());
}

#[test]
fn entry_type_of_kind_byte() {
    assert_eq!(EntryType::from(0), EntryType::Empty);
    assert_eq!(EntryType::from(1), EntryType::Dir);
    assert_eq!(EntryType::from(2), EntryType::File);
    assert_eq!(EntryType::Empty.as_u8(), 0);
    assert_eq!(EntryType::Dir.as_u8(), 1);
    assert_eq!(EntryType::File.as_u8(), 2);
    assert_eq!(EntryType::Empty.to_string(), "Empty");
    assert_eq!(EntryType::Dir.to_string(), "Directory");
    assert_eq!(EntryType::File.to_string(), "File");
}

#[test]
fn path_is_decoded_from_euc_kr() {
    assert_eq!(Entry::from(&entry_bytes(2, b"Media.pk2")).path_buf(), "Media.pk2");
    let korean = Entry::from(&entry_bytes(1, &[0xC7, 0xD1, 0xB1, 0xDB]));
    assert_eq!(korean.path_buf(), "\u{D55C}\u{AE00}");
    let mixed = Entry::from(&entry_bytes(2, &[b'a', 0xC7, 0xD1, b'.', b'x']));
    assert_eq!(mixed.path_buf(), "a\u{D55C}.x");
}

#[test]
fn path_replaces_invalid_sequences() {
    let entry = Entry::from(&entry_bytes(2, &[b'a', 0xFF, b'b']));
    assert_eq!(entry.path_buf(), "a\u{FFFD}b");
}

#[test]
fn path_keeps_inner_nul_and_drops_trailing_nul() {
    let entry = Entry::from(&entry_bytes(2, &[b'a', 0, b'b']));
    assert_eq!(entry.path_buf(), "a\u{0}b");
    assert_eq!(Entry::from(&entry_bytes(1, b"")).path_buf(), "");
    let mut full = [b'x'; 81];
    full[80] = b'y';
    let long = Entry::from(&entry_bytes(2, &full));
    assert_eq!(long.path_buf().chars().count(), 81);
    assert!(long.path_buf().ends_with('y'));
}

#[test]
fn trim_nul_drops_only_trailing_nul() {
    assert_eq!(trim_nul("abc\0\0"), "abc");
    assert_eq!(trim_nul("\0abc"), "\0abc");
    assert_eq!(trim_nul("\0\0"), "");
    assert_eq!(trim_nul(""), "");
    assert_eq!(trim_nul("\u{D55C}\0"), "\u{D55C}");
}

#[test]
fn join_path_puts_a_slash_between() {
    assert_eq!(join_path("", "name"), "name");
    assert_eq!(join_path("dir", "name"), "dir/name");
    assert_eq!(join_path("a/b", ""), "a/b/");
    assert_eq!(join_path("", ""), "");
}

#[test]
fn put_replaces_the_value_under_a_key() {
    let mut list: Vec<(String, u32)> = Vec::new();
    put(&mut list, "a".to_string(), 1);
    put(&mut list, "b".to_string(), 2);
    put(&mut list, "a".to_string(), 3);
    assert_eq!(list, vec![("a".to_string(), 3), ("b".to_string(), 2)]);
    assert_eq!(find_key(&list, &"a".to_string()), 0);
    assert_eq!(find_key(&list, &"b".to_string()), 1);
    assert_eq!(find_key(&list, &"c".to_string()), 2);
}

#[test]
fn decode_path_decodes_and_trims() {
    assert_eq!(decode_path(b"Data\0\0\0"), "Data");
    assert_eq!(decode_path(&[0xC7, 0xD1, 0xB1, 0xDB, 0, 0]), "\u{D55C}\u{AE00}");
    assert_eq!(decode_path(&[0xC7]), "\u{FFFD}");
    assert_eq!(decode_path(&[0x80, b'a']), "\u{FFFD}a");
    assert_eq!(decode_path(&[]), "");
}
