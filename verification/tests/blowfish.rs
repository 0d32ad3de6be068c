use rustyroad::blowfish::tables::pi_word;
use rustyroad::blowfish::{Blowfish, KeyError};
use rustyroad::pk2::constants::{blowfish, CHECKSUM, KEY, KEY_BYTES, SALT};

fn sample(len: usize) -> Vec<u8> {
    (0..len).map(|i| (i * 7 + 3) as u8).collect()
}

#[test]
fn zero_key_encrypts_zero_block() {
    let cipher = Blowfish::new(&[0u8; 8], &[]).unwrap();
    let mut block = [0u8; 8];
    cipher.encrypt(&mut block);
    assert_eq!(block, [0x45, 0x97, 0xF9, 0x4E, 0x78, 0xDD, 0x98, 0x61]);
}

#[test]
fn ones_key_encrypts_ones_block() {
    let cipher = Blowfish::new(&[0xFFu8; 8], &[]).unwrap();
    let mut block = [0xFFu8; 8];
    cipher.encrypt(&mut block);
    assert_eq!(block, [0xD5, 0x6F, 0x86, 0x51, 0x8A, 0xCB, 0x5E, 0xB8]);
}

#[test]
fn long_key_encrypts_text_block() {
    let cipher = Blowfish::new(b"abcdefghijklmnopqrstuvwxyz", &[]).unwrap();
    // The words 0x424C4F57 and 0x46495348, least significant byte first.
    let mut block = *b"WOLBHSIF";
    cipher.encrypt(&mut block);
    assert_eq!(block, [0xFE, 0xD0, 0x4E, 0x32, 0x03, 0xA2, 0x13, 0xF4]);
}

#[test]
fn pk2_cipher_encrypts_checksum_text() {
    let cipher = blowfish();
    let mut text = CHECKSUM;
    cipher.encrypt(&mut text);
    assert_eq!(
        text,
        [
            0xd8, 0xda, 0x30, 0xcf, 0x32, 0xe6, 0x71, 0xfc, 0xf8, 0x58, 0x15, 0x38, 0x9c, 0x47,
            0x3a, 0xf7
        ]
    );
}

#[test]
fn pk2_cipher_is_keyed_by_key_and_salt() {
    assert_eq!(&KEY_BYTES, b"169841");
    assert_eq!(KEY.as_bytes(), KEY_BYTES);
    assert_eq!(SALT, [0x03, 0xF8, 0xE4, 0x44, 0x88, 0x99, 0x3F, 0x64, 0xFE, 0x35]);
    let salted = Blowfish::new(&KEY_BYTES, &SALT).unwrap();
    let plain = Blowfish::new(&[0x32, 0xCE, 0xDD, 0x7C, 0xBC, 0xA8], &[]).unwrap();
    let mut a = sample(64);
    let mut b = sample(64);
    let mut c = sample(64);
    salted.encrypt(&mut a);
    plain.encrypt(&mut b);
    blowfish().encrypt(&mut c);
    assert_eq!(a, b);
    assert_eq!(a, c);
}

#[test]
fn salt_changes_the_key() {
    let without = Blowfish::new(&KEY_BYTES, &[]).unwrap();
    let with = Blowfish::new(&KEY_BYTES, &SALT).unwrap();
    let mut a = sample(16);
    let mut b = sample(16);
    without.encrypt(&mut a);
    with.encrypt(&mut b);
    assert_ne!(a, b);
}

#[test]
fn salt_beyond_the_key_is_not_used() {
    let short = Blowfish::new(&KEY_BYTES, &SALT[..6]).unwrap();
    let long = Blowfish::new(&KEY_BYTES, &SALT).unwrap();
    let part = Blowfish::new(&KEY_BYTES, &SALT[..2]).unwrap();
    let manual = Blowfish::new(&[0x31 ^ 0x03, 0x36 ^ 0xF8, 0x39, 0x38, 0x34, 0x31], &[]).unwrap();
    let mut a = sample(8);
    let mut b = sample(8);
    let mut c = sample(8);
    let mut d = sample(8);
    short.encrypt(&mut a);
    long.encrypt(&mut b);
    part.encrypt(&mut c);
    manual.encrypt(&mut d);
    assert_eq!(a, b);
    assert_eq!(c, d);
    assert_ne!(a, c);
}

#[test]
fn decrypt_undoes_encrypt() {
    let cipher = blowfish();
    for len in [0usize, 8, 16, 2560, 4096] {
        let plain = sample(len);
        let mut buf = plain.clone();
        cipher.encrypt(&mut buf);
        if len > 0 {
            assert_ne!(buf, plain);
        }
        cipher.decrypt(&mut buf);
        assert_eq!(buf, plain);
    }
}

#[test]
fn encrypt_undoes_decrypt() {
    let cipher = Blowfish::new(b"another key", b"salt").unwrap();
    let data = sample(128);
    let mut buf = data.clone();
    cipher.decrypt(&mut buf);
    assert_ne!(buf, data);
    cipher.encrypt(&mut buf);
    assert_eq!(buf, data);
}

#[test]
fn blocks_are_encrypted_on_their_own() {
    let cipher = blowfish();
    let mut two = sample(16);
    let mut first = sample(16)[..8].to_vec();
    let mut second = sample(16)[8..].to_vec();
    cipher.encrypt(&mut two);
    cipher.encrypt(&mut first);
    cipher.encrypt(&mut second);
    assert_eq!(&two[..8], &first[..]);
    assert_eq!(&two[8..], &second[..]);
    let mut same = [5u8; 24];
    cipher.encrypt(&mut same);
    assert_eq!(same[..8], same[8..16]);
    assert_eq!(same[..8], same[16..]);
}

#[test]
fn short_key_is_refused() {
    assert!(matches!(Blowfish::new(&[], &[]), Err(KeyError::TooShort)));
    assert!(matches!(Blowfish::new(&[1, 2, 3], &SALT), Err(KeyError::TooShort)));
    assert!(Blowfish::new(&[1, 2, 3, 4], &[]).is_ok());
}

#[test]
fn long_key_is_refused() {
    assert!(Blowfish::new(&[7u8; 56], &[]).is_ok());
    assert!(matches!(Blowfish::new(&[7u8; 57], &[]), Err(KeyError::TooLong)));
}

#[test]
fn table_starts_with_the_digits_of_pi() {
    assert_eq!(pi_word(0), 0x243F_6A88);
    assert_eq!(pi_word(1), 0x85A3_08D3);
    assert_eq!(pi_word(17), 0x8979_FB1B);
    assert_eq!(pi_word(18), 0xD131_0BA6);
    assert_eq!(pi_word(1041), 0x3AC3_72E6);
}
