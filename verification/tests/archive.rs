use rustyroad::pk2::archive::Archive;
use rustyroad::pk2::block::{offset_seen, read_block, read_block_with};
use rustyroad::pk2::constants::{blowfish, CHECKSUM, SIGNATURE, VERSION};
use rustyroad::pk2::directory::{read_payload, Directory, ExtractStep, Listed};
use rustyroad::pk2::entry::Entry;
use rustyroad::pk2::errors::Error;

const EMPTY: u8 = 0;
const DIR: u8 = 1;
const FILE: u8 = 2;

fn entry(kind: u8, name: &[u8], position: u64, size: u32, next_chain: u64) -> [u8; 128] {
    let mut bytes = [0u8; 128];
    bytes[0] = kind;
    bytes[1..1 + name.len()].copy_from_slice(name);
    bytes[106..114].copy_from_slice(&position.to_le_bytes());
    bytes[114..118].copy_from_slice(&size.to_le_bytes());
    bytes[118..126].copy_from_slice(&next_chain.to_le_bytes());
    bytes
}

/// A block of the given entries, filled up with empty slots, encrypted. The
/// last slot carries `next_chain` where the entries leave it free.
fn block(entries: &[[u8; 128]], next_chain: u64) -> Vec<u8> {
    assert!(entries.len() <= 20);
    let mut plain = Vec::new();
    for e in entries {
        plain.extend_from_slice(e);
    }
    while plain.len() < 2560 {
        plain.extend_from_slice(&entry(EMPTY, b"", 0, 0, 0));
    }
    if entries.len() < 20 {
        plain[19 * 128 + 118..19 * 128 + 126].copy_from_slice(&next_chain.to_le_bytes());
    }
    blowfish().encrypt(&mut plain);
    plain
}

fn header() -> Vec<u8> {
    let mut checksum = CHECKSUM;
    blowfish().encrypt(&mut checksum);
    let mut bytes = Vec::new();
    bytes.extend_from_slice(&SIGNATURE);
    bytes.extend_from_slice(&VERSION.to_le_bytes());
    bytes.push(1);
    bytes.extend_from_slice(&checksum);
    bytes.resize(256, 0);
    bytes
}

fn place(image: &mut Vec<u8>, at: usize, bytes: &[u8]) {
    if image.len() < at + bytes.len() {
        image.resize(at + bytes.len(), 0);
    }
    image[at..at + bytes.len()].copy_from_slice(bytes);
}

fn names(entries: &[Entry]) -> Vec<String> {
    entries.iter().map(|e| e.path_buf()).collect()
}

fn keys<V>(list: &[(String, V)]) -> Vec<String> {
    list.iter().map(|p| p.0.clone()).collect()
}

/// Header, root block at 256 with `a.txt` and `sub`, block of `sub` at 2816
/// with `b.bin` and the empty file `none`, payloads from 5376 on.
fn small_archive() -> Vec<u8> {
    let mut image = header();
    place(
        &mut image,
        256,
        &block(
            &[
                entry(DIR, b".", 256, 0, 0),
                entry(FILE, b"a.txt", 5376, 5, 0),
                entry(DIR, b"sub", 2816, 0, 0),
            ],
            0,
        ),
    );
    place(
        &mut image,
        2816,
        &block(
            &[
                entry(DIR, b".", 2816, 0, 0),
                entry(DIR, b"..", 256, 0, 0),
                entry(FILE, b"b.bin", 5381, 3, 0),
                entry(FILE, b"none", 5384, 0, 0),
            ],
            0,
        ),
    );
    place(&mut image, 5376, b"hello\x01\x02\x03");
    image
}

#[test]
fn read_block_drops_empty_slots() {
    let mut image = vec![0u8; 256];
    place(
        &mut image,
        256,
        &block(
            &[
                entry(FILE, b"one", 1, 1, 0),
                entry(EMPTY, b"", 0, 0, 0),
                entry(DIR, b"two", 2, 0, 0),
                entry(EMPTY, b"gone", 9, 9, 0),
                entry(FILE, b"three", 3, 3, 0),
            ],
            0,
        ),
    );
    let entries = read_block(&image, 256).unwrap();
    assert_eq!(names(&entries), ["one", "two", "three"]);
    assert!(entries.iter().all(|e| e.typ == 1 || e.typ == 2));
    assert_eq!(entries[2].position, 3);
    assert_eq!(entries[2].size, 3);
}

#[test]
fn read_block_of_empty_directory_yields_nothing() {
    let mut image = vec![0u8; 256];
    place(&mut image, 256, &block(&[], 0));
    assert!(read_block(&image, 256).unwrap().is_empty());
}

#[test]
fn read_block_follows_the_chain() {
    let mut first: Vec<[u8; 128]> = Vec::new();
    for i in 0..19 {
        first.push(entry(FILE, format!("f{}", i).as_bytes(), i, 1, 0));
    }
    let mut second: Vec<[u8; 128]> = Vec::new();
    for i in 0..5 {
        second.push(entry(FILE, format!("g{}", i).as_bytes(), 100 + i, 1, 0));
    }
    let mut image = vec![0u8; 256];
    place(&mut image, 256, &block(&first, 0x3000));
    place(&mut image, 0x3000, &block(&second, 0));
    let entries = read_block(&image, 256).unwrap();
    assert_eq!(entries.len(), 24);
    let mut expected: Vec<String> = (0..19).map(|i| format!("f{}", i)).collect();
    expected.extend((0..5).map(|i| format!("g{}", i)));
    assert_eq!(names(&entries), expected);
}

#[test]
fn read_block_follows_the_chain_of_a_full_block() {
    let mut first: Vec<[u8; 128]> = Vec::new();
    for i in 0..19 {
        first.push(entry(FILE, format!("f{}", i).as_bytes(), i, 1, 0));
    }
    first.push(entry(DIR, b"last", 7, 0, 5376));
    let mut image = vec![0u8; 256];
    place(&mut image, 256, &block(&first, 0));
    place(&mut image, 5376, &block(&[entry(FILE, b"tail", 1, 1, 0)], 0));
    let entries = read_block(&image, 256).unwrap();
    assert_eq!(entries.len(), 21);
    assert_eq!(entries[19].path_buf(), "last");
    assert_eq!(entries[20].path_buf(), "tail");
}

#[test]
fn read_block_rejects_short_block() {
    let mut image = vec![0u8; 256];
    place(&mut image, 256, &block(&[], 0));
    image.pop();
    assert!(matches!(read_block(&image, 256), Err(Error::InvalidBlock("wrong block size"))));
    assert!(matches!(read_block(&image, 1 << 40), Err(Error::InvalidBlock("wrong block size"))));
    assert!(matches!(read_block(&image, u64::MAX), Err(Error::InvalidBlock("wrong block size"))));
    assert!(matches!(read_block(&[], 0), Err(Error::InvalidBlock("wrong block size"))));
}

#[test]
fn read_block_rejects_chain_into_missing_block() {
    let mut image = vec![0u8; 256];
    place(&mut image, 256, &block(&[entry(FILE, b"a", 0, 0, 0)], 0x9000));
    assert!(matches!(read_block(&image, 256), Err(Error::InvalidBlock("wrong block size"))));
}

#[test]
fn read_block_rejects_cyclic_chain() {
    let mut image = vec![0u8; 256];
    place(&mut image, 256, &block(&[entry(FILE, b"a", 0, 0, 0)], 2816));
    place(&mut image, 2816, &block(&[entry(FILE, b"b", 0, 0, 0)], 256));
    assert!(matches!(read_block(&image, 256), Err(Error::InvalidBlock("cyclic block chain"))));
    let mut own = vec![0u8; 256];
    place(&mut own, 256, &block(&[], 256));
    assert!(matches!(read_block(&own, 256), Err(Error::InvalidBlock("cyclic block chain"))));
}

#[test]
fn open_indexes_the_tree() {
    let archive = Archive::open(small_archive()).unwrap();
    let root = archive.root();
    assert_eq!(root.entry.path_buf(), "");
    assert_eq!(root.entry.position, 256);
    assert_eq!(keys(&root.entries), ["a.txt", "sub"]);
    assert_eq!(keys(&root.directories), ["sub"]);
    let sub = &root.directories[0].1;
    assert_eq!(sub.entry.path_buf(), "sub");
    assert_eq!(keys(&sub.entries), ["sub/b.bin", "sub/none"]);
    assert!(sub.directories.is_empty());
    assert!(archive.header.encrypted);
    assert_eq!(archive.header.version, VERSION);
}

#[test]
fn directory_is_looked_up_by_key() {
    let archive = Archive::open(small_archive()).unwrap();
    let root = archive.root();
    assert_eq!(root.get_entry(&"a.txt".to_string()).unwrap().size, 5);
    assert_eq!(root.get_entry(&"sub".to_string()).unwrap().typ, 1);
    assert!(root.get_entry(&"b.bin".to_string()).is_none());
    assert!(root.get_entry(&".".to_string()).is_none());
    let sub = root.get_directory(&"sub".to_string()).unwrap();
    assert_eq!(sub.entry.position, 2816);
    assert_eq!(sub.get_entry(&"sub/b.bin".to_string()).unwrap().position, 5381);
    assert!(sub.get_entry(&"b.bin".to_string()).is_none());
    assert!(root.get_directory(&"a.txt".to_string()).is_none());
    assert!(sub.get_directory(&"..".to_string()).is_none());
}

#[test]
fn open_lists_no_dot_entries() {
    let archive = Archive::open(small_archive()).unwrap();
    let root = archive.root();
    let sub = &root.directories[0].1;
    for (_, e) in root.entries.iter().chain(sub.entries.iter()) {
        assert_ne!(e.name[0], 0x2E);
        assert_ne!(e.typ, 0);
    }
}

#[test]
fn open_rejects_short_image() {
    assert!(matches!(
        Archive::open(vec![0u8; 255]),
        Err(Error::InvalidHeader("Header length too short"))
    ));
}

#[test]
fn open_rejects_bad_header() {
    let mut image = small_archive();
    image[30] = 1;
    assert!(matches!(Archive::open(image), Err(Error::InvalidHeader("Invalid version"))));
    let mut image = small_archive();
    image[0] = b'j';
    assert!(matches!(Archive::open(image), Err(Error::InvalidHeader("Invalid signature"))));
    let mut image = small_archive();
    image[35] ^= 0x80;
    assert!(matches!(Archive::open(image), Err(Error::InvalidHeader("Checksum is invalid"))));
}

#[test]
fn open_rejects_archive_without_blocks() {
    assert!(matches!(Archive::open(header()), Err(Error::InvalidBlock("wrong block size"))));
}

#[test]
fn open_rejects_archive_without_root_link() {
    let mut image = header();
    place(&mut image, 256, &block(&[entry(FILE, b"a", 0, 0, 0), entry(FILE, b".x", 0, 0, 0)], 0));
    assert!(matches!(
        Archive::open(image),
        Err(Error::InvalidBlock("root directory not found"))
    ));
}

#[test]
fn empty_directory_has_no_children() {
    let mut image = header();
    place(
        &mut image,
        256,
        &block(&[entry(DIR, b".", 256, 0, 0), entry(DIR, b"empty", 2816, 0, 0)], 0),
    );
    place(&mut image, 2816, &block(&[], 0));
    let archive = Archive::open(image).unwrap();
    let empty = &archive.root().directories[0].1;
    assert!(empty.entries.is_empty());
    assert!(empty.directories.is_empty());
    assert!(empty.print_entries().is_empty());
    assert_eq!(empty.extract("e", &archive.image), vec![ExtractStep::CreateDir("e".to_string())]);
}

#[test]
fn open_decodes_korean_names() {
    let mut image = header();
    place(
        &mut image,
        256,
        &block(
            &[
                entry(DIR, b".", 256, 0, 0),
                entry(DIR, &[0xC7, 0xD1], 2816, 0, 0),
            ],
            0,
        ),
    );
    place(
        &mut image,
        2816,
        &block(&[entry(DIR, b"..", 256, 0, 0), entry(FILE, &[0xB1, 0xDB, b'.', b't'], 0, 0, 0)], 0),
    );
    let archive = Archive::open(image).unwrap();
    let root = archive.root();
    assert_eq!(keys(&root.entries), ["\u{D55C}"]);
    assert_eq!(keys(&root.directories), ["\u{D55C}"]);
    assert_eq!(keys(&root.directories[0].1.entries), ["\u{D55C}/\u{AE00}.t"]);
}

#[test]
fn expand_expands_the_last_directory_of_equal_names() {
    let mut image = header();
    place(
        &mut image,
        256,
        &block(
            &[
                entry(DIR, b".", 256, 0, 0),
                entry(DIR, b"d", 0x50_0000, 0, 0),
                entry(DIR, b"d", 2816, 0, 0),
            ],
            0,
        ),
    );
    place(&mut image, 2816, &block(&[entry(FILE, b"inside", 0, 0, 0)], 0));
    let archive = Archive::open(image).unwrap();
    let root = archive.root();
    assert_eq!(keys(&root.directories), ["d"]);
    assert_eq!(root.directories[0].1.entry.position, 2816);
    assert_eq!(keys(&root.directories[0].1.entries), ["d/inside"]);
}

#[test]
fn expand_propagates_failure_below() {
    let mut image = header();
    place(
        &mut image,
        256,
        &block(&[entry(DIR, b".", 256, 0, 0), entry(DIR, b"lost", 0x10_0000, 0, 0)], 0),
    );
    assert!(matches!(Archive::open(image), Err(Error::InvalidBlock("wrong block size"))));
}

#[test]
fn expand_rejects_directory_cycle() {
    let mut image = header();
    place(
        &mut image,
        256,
        &block(&[entry(DIR, b".", 256, 0, 0), entry(DIR, b"a", 2816, 0, 0)], 0),
    );
    place(&mut image, 2816, &block(&[entry(DIR, b"back", 256, 0, 0)], 0));
    assert!(matches!(Archive::open(image), Err(Error::InvalidBlock("cyclic directory"))));
    let mut own = header();
    place(
        &mut own,
        256,
        &block(&[entry(DIR, b".", 256, 0, 0), entry(DIR, b"self", 256, 0, 0)], 0),
    );
    assert!(matches!(Archive::open(own), Err(Error::InvalidBlock("cyclic directory"))));
}

#[test]
fn expand_leaves_directory_unchanged_on_failure() {
    let image = vec![0u8; 300];
    let mut dir = Directory::from(Entry::from(&entry(DIR, b"d", 256, 0, 0)));
    assert!(matches!(dir.expand(&image), Err(Error::InvalidBlock("wrong block size"))));
    assert!(dir.entries.is_empty());
    assert!(dir.directories.is_empty());
}

#[test]
fn expand_keeps_the_last_of_equal_names() {
    let mut image = header();
    place(
        &mut image,
        256,
        &block(
            &[
                entry(DIR, b".", 256, 0, 0),
                entry(FILE, b"same", 1, 10, 0),
                entry(FILE, b"other", 2, 20, 0),
                entry(FILE, b"same", 3, 30, 0),
            ],
            0,
        ),
    );
    let archive = Archive::open(image).unwrap();
    let root = archive.root();
    assert_eq!(keys(&root.entries), ["same", "other"]);
    assert_eq!(root.entries[0].1.size, 30);
    assert_eq!(root.entries[1].1.size, 20);
}

#[test]
fn expand_adds_to_what_the_directory_holds() {
    let image = small_archive();
    let mut dir = Directory::from(Entry::from(&entry(DIR, b"sub", 2816, 0, 0)));
    dir.expand(&image).unwrap();
    dir.expand(&image).unwrap();
    assert_eq!(keys(&dir.entries), ["sub/b.bin", "sub/none"]);
}

#[test]
fn print_entries_lists_directories_before_files() {
    let archive = Archive::open(small_archive()).unwrap();
    assert_eq!(
        archive.root().print_entries(),
        vec![
            Listed::Dir("sub".to_string()),
            Listed::File("sub/b.bin".to_string()),
            Listed::File("sub/none".to_string()),
            Listed::File("a.txt".to_string()),
        ]
    );
}

#[test]
fn extract_plans_directories_and_files() {
    let archive = Archive::open(small_archive()).unwrap();
    assert_eq!(
        archive.extract_all("out"),
        vec![
            ExtractStep::CreateDir("out".to_string()),
            ExtractStep::WriteFile {
                path: "out/a.txt".to_string(),
                data: b"hello".to_vec(),
                complete: true
            },
            ExtractStep::CreateDir("out/sub".to_string()),
            ExtractStep::WriteFile {
                path: "out/sub/b.bin".to_string(),
                data: vec![1, 2, 3],
                complete: true
            },
            ExtractStep::WriteFile {
                path: "out/sub/none".to_string(),
                data: Vec::new(),
                complete: true
            },
        ]
    );
}

#[test]
fn extract_writes_empty_file_for_size_zero() {
    let archive = Archive::open(small_archive()).unwrap();
    let steps = archive.root().directories[0].1.extract("x", &archive.image);
    assert_eq!(
        steps[2],
        ExtractStep::WriteFile { path: "x/none".to_string(), data: Vec::new(), complete: true }
    );
}

#[test]
fn payload_is_taken_in_the_clear() {
    let image: Vec<u8> = (0..=255u8).collect();
    assert_eq!(read_payload(&image, 10, 4), (vec![10, 11, 12, 13], true));
    assert_eq!(read_payload(&image, 0, 0), (Vec::new(), true));
    assert_eq!(read_payload(&image, 256, 0), (Vec::new(), true));
    assert_eq!(read_payload(&image, 252, 4), (vec![252, 253, 254, 255], true));
}

#[test]
fn payload_past_the_end_is_zero_filled() {
    let image: Vec<u8> = (0..=255u8).collect();
    assert_eq!(read_payload(&image, 254, 4), (vec![254, 255, 0, 0], false));
    assert_eq!(read_payload(&image, 300, 2), (vec![0, 0], false));
    assert_eq!(read_payload(&image, u64::MAX, 1), (vec![0], false));
    assert_eq!(read_payload(&image, 257, 0), (Vec::new(), false));
}

#[test]
fn read_block_is_at_hand_among_the_utilities() {
    let image = small_archive();
    let entries = rustyroad::pk2::util::read_block(&image, 256).unwrap();
    assert_eq!(names(&entries), [".", "a.txt", "sub"]);
}

#[test]
fn offset_seen_finds_recorded_offsets() {
    let seen = vec![256u64, 2816, 5376];
    assert!(offset_seen(&seen, 256));
    assert!(offset_seen(&seen, 5376));
    assert!(!offset_seen(&seen, 0));
    assert!(!offset_seen(&Vec::new(), 256));
}

#[test]
fn read_block_with_reads_as_read_block_does() {
    let image = small_archive();
    let cipher = blowfish();
    let with = read_block_with(&cipher, &image, 2816).unwrap();
    let without = read_block(&image, 2816).unwrap();
    assert_eq!(names(&with), names(&without));
    assert_eq!(names(&with), [".", "..", "b.bin", "none"]);
    assert!(matches!(
        read_block_with(&cipher, &image, 1 << 20),
        Err(Error::InvalidBlock("wrong block size"))
    ));
}

#[test]
fn expand_with_refuses_recorded_positions() {
    let image = small_archive();
    let cipher = blowfish();
    let mut dir = Directory::from(Entry::from(&entry(DIR, b"sub", 2816, 0, 0)));
    assert!(matches!(
        dir.expand_with(&cipher, &image, &vec![256, 2816]),
        Err(Error::InvalidBlock("cyclic directory"))
    ));
    assert!(dir.entries.is_empty());
    dir.expand_with(&cipher, &image, &vec![256]).unwrap();
    assert_eq!(keys(&dir.entries), ["sub/b.bin", "sub/none"]);
}

#[test]
fn index_reads_the_tree_without_the_header() {
    let mut image = small_archive();
    for byte in image[..256].iter_mut() {
        *byte = 0;
    }
    let root = Archive::index(&image).unwrap();
    assert_eq!(keys(&root.entries), ["a.txt", "sub"]);
    assert_eq!(keys(&root.directories), ["sub"]);
    assert!(Archive::open(image).is_err());
}
