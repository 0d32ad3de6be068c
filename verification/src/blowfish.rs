//! The Blowfish block cipher in ECB mode.
//!
//! A key schedule is a table of 1042 words: the permutation array of 18 words
//! followed by four substitution boxes of 256 words each. A block of eight
//! bytes is read as two 32-bit words, each least significant byte first, which
//! is the byte order the PK2 format uses.

use vstd::prelude::*;
use vstd::slice::slice_subrange;

pub mod tables;

verus! {

use crate::blowfish::tables::{pi_word, spec_pi_word};
use crate::pk2::util::{
    as_u32_le,
    lemma_u32_le_decode_encode,
    lemma_u32_le_encode_decode,
    lemma_u32_le_range,
    spec_u32_le,
    spec_u32_le_bytes,
    u32_le_bytes,
};

/// Shortest key the cipher accepts, in bytes.
pub const MIN_KEY_LEN: usize = 4;

/// Longest key the cipher accepts, in bytes.
pub const MAX_KEY_LEN: usize = 56;

/// Why a key was refused.
#[derive(Debug, Clone, Copy, PartialEq, Eq, Structural)]
pub enum KeyError {
    /// The key has fewer than four bytes.
    TooShort,
    /// The key has more than 56 bytes.
    TooLong,
}

/// The round function: the four bytes of `x`, most significant first, each
/// select a word from one substitution box; the words are combined by
/// addition modulo 2^32 and exclusive or.
pub open spec fn spec_round_function(t: Seq<u32>, x: u32) -> u32 {
    let a = t[18 + (x >> 24) as int];
    let b = t[274 + ((x >> 16) & 0xff) as int];
    let c = t[530 + ((x >> 8) & 0xff) as int];
    let d = t[786 + (x & 0xff) as int];
    vstd::wrapping::u32_specs::wrapping_add(vstd::wrapping::u32_specs::wrapping_add(a, b) ^ c, d)
}

/// The two halves of a block after the first `n` encryption rounds.
pub open spec fn spec_encrypt_rounds(t: Seq<u32>, l: u32, r: u32, n: nat) -> (u32, u32)
    decreases n,
{
    if n == 0 {
        (l, r)
    } else {
        let (pl, pr) = spec_encrypt_rounds(t, l, r, (n - 1) as nat);
        let x = pl ^ t[n - 1];
        (pr ^ spec_round_function(t, x), x)
    }
}

/// The two halves of a block after the first `n` decryption rounds, which
/// walk the permutation array from its end.
pub open spec fn spec_decrypt_rounds(t: Seq<u32>, l: u32, r: u32, n: nat) -> (u32, u32)
    decreases n,
{
    if n == 0 {
        (l, r)
    } else {
        let (pl, pr) = spec_decrypt_rounds(t, l, r, (n - 1) as nat);
        let x = pl ^ t[18 - n];
        (pr ^ spec_round_function(t, x), x)
    }
}

/// Encryption of one block, given as two words.
pub open spec fn spec_encrypt_block(t: Seq<u32>, l: u32, r: u32) -> (u32, u32) {
    let (a, b) = spec_encrypt_rounds(t, l, r, 16);
    (b ^ t[17], a ^ t[16])
}

/// Decryption of one block, given as two words.
pub open spec fn spec_decrypt_block(t: Seq<u32>, l: u32, r: u32) -> (u32, u32) {
    let (a, b) = spec_decrypt_rounds(t, l, r, 16);
    (b ^ t[0], a ^ t[1])
}

/// The two words of an eight-byte block.
pub open spec fn spec_block_words(block: Seq<u8>) -> (u32, u32)
    recommends
        block.len() == 8,
{
    (spec_u32_le(block) as u32, spec_u32_le(block.subrange(4, 8)) as u32)
}

/// The eight bytes of a block of two words.
pub open spec fn spec_words_block(w: (u32, u32)) -> Seq<u8> {
    spec_u32_le_bytes(w.0) + spec_u32_le_bytes(w.1)
}

/// Encryption of one eight-byte block.
pub open spec fn spec_encrypt_bytes(t: Seq<u32>, block: Seq<u8>) -> Seq<u8>
    recommends
        block.len() == 8,
{
    let (l, r) = spec_block_words(block);
    spec_words_block(spec_encrypt_block(t, l, r))
}

/// Decryption of one eight-byte block.
pub open spec fn spec_decrypt_bytes(t: Seq<u32>, block: Seq<u8>) -> Seq<u8>
    recommends
        block.len() == 8,
{
    let (l, r) = spec_block_words(block);
    spec_words_block(spec_decrypt_block(t, l, r))
}

/// The eight-byte block of `data` that byte `i` lies in.
pub open spec fn spec_block_of(data: Seq<u8>, i: int) -> Seq<u8> {
    data.subrange(i / 8 * 8, i / 8 * 8 + 8)
}

/// ECB encryption: every eight-byte block of `data` is encrypted on its own.
pub open spec fn spec_encrypt(t: Seq<u32>, data: Seq<u8>) -> Seq<u8>
    recommends
        data.len() % 8 == 0,
{
    Seq::new(data.len(), |i: int| spec_encrypt_bytes(t, spec_block_of(data, i))[i % 8])
}

/// ECB decryption: every eight-byte block of `data` is decrypted on its own.
pub open spec fn spec_decrypt(t: Seq<u32>, data: Seq<u8>) -> Seq<u8>
    recommends
        data.len() % 8 == 0,
{
    Seq::new(data.len(), |i: int| spec_decrypt_bytes(t, spec_block_of(data, i))[i % 8])
}

/// Word `i` of the key stream: four key bytes, most significant first, taken
/// from the key as if it repeated without end.
pub open spec fn spec_key_word(key: Seq<u8>, i: int) -> u32
    recommends
        key.len() > 0,
{
    let n = key.len() as int;
    (key[(4 * i) % n] as int * 0x100_0000 + key[(4 * i + 1) % n] as int * 0x1_0000 + key[(4 * i
        + 2) % n] as int * 0x100 + key[(4 * i + 3) % n] as int) as u32
}

/// The table before the schedule runs: the digits of pi, with the key stream
/// folded into the permutation array.
pub open spec fn spec_keyed_table(key: Seq<u8>) -> Seq<u32> {
    Seq::new(
        1042,
        |i: int|
            if i < 18 {
                spec_pi_word(i) ^ spec_key_word(key, i)
            } else {
                spec_pi_word(i)
            },
    )
}

/// The table and the running block after `n` steps of the schedule. Each step
/// encrypts the running block under the table as it stands and stores the two
/// resulting words in the next two places of the table.
pub open spec fn spec_schedule_steps(t0: Seq<u32>, n: nat) -> (Seq<u32>, u32, u32)
    decreases n,
{
    if n == 0 {
        (t0, 0u32, 0u32)
    } else {
        let (t, l, r) = spec_schedule_steps(t0, (n - 1) as nat);
        let (el, er) = spec_encrypt_block(t, l, r);
        (t.update(2 * (n - 1), el).update(2 * (n - 1) + 1, er), el, er)
    }
}

/// The key schedule of `key`.
pub open spec fn spec_key_schedule(key: Seq<u8>) -> Seq<u32> {
    spec_schedule_steps(spec_keyed_table(key), 521).0
}

/// The key that is scheduled for a base key and a salt: each key byte is
/// combined by exclusive or with the salt byte at the same place, where the
/// salt has one. The result is as long as the base key.
pub open spec fn spec_salted_key(key: Seq<u8>, salt: Seq<u8>) -> Seq<u8> {
    Seq::new(
        key.len(),
        |i: int|
            if i < salt.len() {
                key[i] ^ salt[i]
            } else {
                key[i]
            },
    )
}

/// Splitting a block into words and joining the words again gives the block.
pub proof fn lemma_words_of_block(block: Seq<u8>)
    requires
        block.len() == 8,
    ensures
        spec_words_block(spec_block_words(block)) == block,
{
    let lo = block.subrange(0, 4);
    let hi = block.subrange(4, 8);
    lemma_u32_le_range(lo);
    lemma_u32_le_range(hi);
    lemma_u32_le_encode_decode(lo);
    lemma_u32_le_encode_decode(hi);
    assert(spec_u32_le(block) == spec_u32_le(lo));
    assert(lo + hi =~= block);
}

/// Joining two words into a block and splitting it again gives the words.
pub proof fn lemma_block_of_words(l: u32, r: u32)
    ensures
        spec_words_block((l, r)).len() == 8,
        spec_block_words(spec_words_block((l, r))) == (l, r),
{
    lemma_u32_le_decode_encode(l);
    lemma_u32_le_decode_encode(r);
    let block = spec_words_block((l, r));
    assert(block.subrange(4, 8) =~= spec_u32_le_bytes(r));
    assert(spec_u32_le(block) == spec_u32_le(spec_u32_le_bytes(l)));
}

/// After `m` decryption rounds on an encrypted block, the state is that of the
/// encryption `m` rounds before its end, up to two words of the permutation
/// array.
proof fn lemma_rounds_unwind(t: Seq<u32>, l: u32, r: u32, m: nat)
    requires
        m <= 16,
    ensures
        ({
            let c = spec_encrypt_block(t, l, r);
            let e = spec_encrypt_rounds(t, l, r, (16 - m) as nat);
            spec_decrypt_rounds(t, c.0, c.1, m) == (e.1 ^ t[17 - m], e.0 ^ t[16 - m])
        }),
    decreases m,
{
    if m > 0 {
        lemma_rounds_unwind(t, l, r, (m - 1) as nat);
        let c = spec_encrypt_block(t, l, r);
        let k: int = 17 - m;
        // State of the encryption after k rounds and after k - 1 rounds.
        let ek = spec_encrypt_rounds(t, l, r, k as nat);
        let ej = spec_encrypt_rounds(t, l, r, (k - 1) as nat);
        let x = ej.0 ^ t[k - 1];
        let f = spec_round_function(t, x);
        assert(ek == (ej.1 ^ f, x));
        let d = spec_decrypt_rounds(t, c.0, c.1, (m - 1) as nat);
        assert(d == (ek.1 ^ t[k + 1], ek.0 ^ t[k]));
        let here = t[k];
        let next = t[k + 1];
        let y = d.0 ^ next;
        assert(y == x) by (bit_vector)
            requires
                y == (x ^ next) ^ next,
        ;
        let a = ej.1;
        let z = d.1 ^ f;
        assert(z == a ^ here) by (bit_vector)
            requires
                z == ((a ^ f) ^ here) ^ f,
        ;
    }
}

/// Decrypting an encrypted block gives the block back.
pub proof fn lemma_decrypt_encrypt_block(t: Seq<u32>, l: u32, r: u32)
    ensures
        ({
            let c = spec_encrypt_block(t, l, r);
            spec_decrypt_block(t, c.0, c.1) == (l, r)
        }),
{
    lemma_rounds_unwind(t, l, r, 16);
    let first = t[0];
    let second = t[1];
    assert((l ^ first) ^ first == l) by (bit_vector);
    assert((r ^ second) ^ second == r) by (bit_vector);
}

/// After `m` encryption rounds on a decrypted block, the state is that of the
/// decryption `m` rounds before its end, up to two words of the permutation
/// array.
proof fn lemma_rounds_rewind(t: Seq<u32>, l: u32, r: u32, m: nat)
    requires
        m <= 16,
    ensures
        ({
            let c = spec_decrypt_block(t, l, r);
            let d = spec_decrypt_rounds(t, l, r, (16 - m) as nat);
            spec_encrypt_rounds(t, c.0, c.1, m) == (d.1 ^ t[m as int], d.0 ^ t[m as int + 1])
        }),
    decreases m,
{
    if m > 0 {
        lemma_rounds_rewind(t, l, r, (m - 1) as nat);
        let c = spec_decrypt_block(t, l, r);
        let k: int = 17 - m;
        // State of the decryption after k rounds and after k - 1 rounds.
        let dk = spec_decrypt_rounds(t, l, r, k as nat);
        let dj = spec_decrypt_rounds(t, l, r, (k - 1) as nat);
        let x = dj.0 ^ t[18 - k];
        let f = spec_round_function(t, x);
        assert(dk == (dj.1 ^ f, x));
        let e = spec_encrypt_rounds(t, c.0, c.1, (m - 1) as nat);
        assert(e == (dk.1 ^ t[m - 1], dk.0 ^ t[m as int]));
        let pa = t[m - 1];
        let pb = t[m as int];
        let y = e.0 ^ pa;
        assert(y == x) by (bit_vector)
            requires
                y == (x ^ pa) ^ pa,
        ;
        let a = dj.1;
        let z = e.1 ^ f;
        assert(z == a ^ pb) by (bit_vector)
            requires
                z == ((a ^ f) ^ pb) ^ f,
        ;
    }
}

/// Encrypting a decrypted block gives the block back.
pub proof fn lemma_encrypt_decrypt_block(t: Seq<u32>, l: u32, r: u32)
    ensures
        ({
            let c = spec_decrypt_block(t, l, r);
            spec_encrypt_block(t, c.0, c.1) == (l, r)
        }),
{
    lemma_rounds_rewind(t, l, r, 16);
    let before_last = t[16];
    let last = t[17];
    assert((l ^ last) ^ last == l) by (bit_vector);
    assert((r ^ before_last) ^ before_last == r) by (bit_vector);
}

/// ECB law: decrypting what was encrypted under the same key schedule gives
/// the data back, for every buffer made of whole blocks.
pub proof fn lemma_decrypt_encrypt(t: Seq<u32>, data: Seq<u8>)
    requires
        data.len() % 8 == 0,
    ensures
        spec_encrypt(t, data).len() == data.len(),
        spec_decrypt(t, spec_encrypt(t, data)) == data,
{
    let enc = spec_encrypt(t, data);
    let dec = spec_decrypt(t, enc);
    assert forall|i: int| 0 <= i < data.len() implies dec[i] == data[i] by {
        let base = i / 8 * 8;
        let block = spec_block_of(data, i);
        let (l, r) = spec_block_words(block);
        let c = spec_encrypt_block(t, l, r);
        assert(spec_block_of(enc, i) =~= spec_words_block(c)) by {
            lemma_block_of_words(c.0, c.1);
            assert forall|j: int| 0 <= j < 8 implies spec_block_of(enc, i)[j] == spec_words_block(
                c,
            )[j] by {
                assert((base + j) / 8 * 8 == base);
                assert((base + j) % 8 == j);
                assert(spec_block_of(data, base + j) == block);
            }
        }
        lemma_block_of_words(c.0, c.1);
        lemma_decrypt_encrypt_block(t, l, r);
        lemma_words_of_block(block);
        assert(block[i % 8] == data[i]);
    }
    assert(dec =~= data);
}

/// ECB law: encrypting what was decrypted under the same key schedule gives
/// the data back, for every buffer made of whole blocks.
pub proof fn lemma_encrypt_decrypt(t: Seq<u32>, data: Seq<u8>)
    requires
        data.len() % 8 == 0,
    ensures
        spec_decrypt(t, data).len() == data.len(),
        spec_encrypt(t, spec_decrypt(t, data)) == data,
{
    let dec = spec_decrypt(t, data);
    let enc = spec_encrypt(t, dec);
    assert forall|i: int| 0 <= i < data.len() implies enc[i] == data[i] by {
        let base = i / 8 * 8;
        let block = spec_block_of(data, i);
        let (l, r) = spec_block_words(block);
        let c = spec_decrypt_block(t, l, r);
        assert(spec_block_of(dec, i) =~= spec_words_block(c)) by {
            lemma_block_of_words(c.0, c.1);
            assert forall|j: int| 0 <= j < 8 implies spec_block_of(dec, i)[j] == spec_words_block(
                c,
            )[j] by {
                assert((base + j) / 8 * 8 == base);
                assert((base + j) % 8 == j);
                assert(spec_block_of(data, base + j) == block);
            }
        }
        lemma_block_of_words(c.0, c.1);
        lemma_encrypt_decrypt_block(t, l, r);
        lemma_words_of_block(block);
        assert(block[i % 8] == data[i]);
    }
    assert(enc =~= data);
}

/// The words of the block that starts at byte `k` are spelled by the four
/// bytes from `k` on and the four bytes from `k + 4` on.
proof fn lemma_block_words_at(data: Seq<u8>, k: int)
    requires
        0 <= k,
        k + 8 <= data.len(),
    ensures
        spec_block_words(data.subrange(k, k + 8)) == (
            spec_u32_le(data.subrange(k, k + 4)) as u32,
            spec_u32_le(data.subrange(k + 4, k + 8)) as u32,
        ),
{
    let block = data.subrange(k, k + 8);
    assert(block.subrange(4, 8) =~= data.subrange(k + 4, k + 8));
}

/// A Blowfish cipher: a key schedule.
pub struct Blowfish {
    words: [u32; 1042],
}

impl View for Blowfish {
    type V = Seq<u32>;

    /// The key schedule: the permutation array, then the substitution boxes.
    closed spec fn view(&self) -> Seq<u32> {
        self.words@
    }
}

fn round_function(t: &[u32; 1042], x: u32) -> (r: u32)
    ensures
        r == spec_round_function(t@, x),
{
    assert((x >> 24) < 256 && ((x >> 16) & 0xff) < 256 && ((x >> 8) & 0xff) < 256 && (x & 0xff)
        < 256) by (bit_vector);
    let a: u32 = t[18 + (x >> 24) as usize];
    let b: u32 = t[274 + ((x >> 16) & 0xff) as usize];
    let c: u32 = t[530 + ((x >> 8) & 0xff) as usize];
    let d: u32 = t[786 + (x & 0xff) as usize];
    (a.wrapping_add(b) ^ c).wrapping_add(d)
}

fn encrypt_block(t: &[u32; 1042], l: u32, r: u32) -> (c: (u32, u32))
    ensures
        c == spec_encrypt_block(t@, l, r),
{
    let mut cl: u32 = l;
    let mut cr: u32 = r;
    let mut i: usize = 0;
    while i < 16
        invariant
            i <= 16,
            (cl, cr) == spec_encrypt_rounds(t@, l, r, i as nat),
        decreases 16 - i,
    {
        let x: u32 = cl ^ t[i];
        let y: u32 = cr ^ round_function(t, x);
        cl = y;
        cr = x;
        i = i + 1;
    }
    (cr ^ t[17], cl ^ t[16])
}

fn decrypt_block(t: &[u32; 1042], l: u32, r: u32) -> (c: (u32, u32))
    ensures
        c == spec_decrypt_block(t@, l, r),
{
    let mut cl: u32 = l;
    let mut cr: u32 = r;
    let mut i: usize = 0;
    while i < 16
        invariant
            i <= 16,
            (cl, cr) == spec_decrypt_rounds(t@, l, r, i as nat),
        decreases 16 - i,
    {
        let x: u32 = cl ^ t[17 - i];
        let y: u32 = cr ^ round_function(t, x);
        cl = y;
        cr = x;
        i = i + 1;
    }
    (cr ^ t[0], cl ^ t[1])
}

/// The key-stream word `i` of a key.
fn key_word(key: &Vec<u8>, i: usize) -> (w: u32)
    requires
        0 < key@.len() <= 56,
        i < 18,
    ensures
        w == spec_key_word(key@, i as int),
{
    let n: usize = key.len();
    let b0: u8 = key[(4 * i) % n];
    let b1: u8 = key[(4 * i + 1) % n];
    let b2: u8 = key[(4 * i + 2) % n];
    let b3: u8 = key[(4 * i + 3) % n];
    assert(((b0 as u32) << 24) | ((b1 as u32) << 16) | ((b2 as u32) << 8) | (b3 as u32) == b0
        * 0x100_0000 + b1 * 0x1_0000 + b2 * 0x100 + b3) by (bit_vector);
    ((b0 as u32) << 24) | ((b1 as u32) << 16) | ((b2 as u32) << 8) | (b3 as u32)
}

/// The base key combined with the salt.
fn salted_key(key: &[u8], salt: &[u8]) -> (out: Vec<u8>)
    ensures
        out@ == spec_salted_key(key@, salt@),
{
    let mut out: Vec<u8> = Vec::new();
    let mut i: usize = 0;
    while i < key.len()
        invariant
            i <= key@.len(),
            out@.len() == i,
            forall|j: int| 0 <= j < i ==> out@[j] == spec_salted_key(key@, salt@)[j],
        decreases key@.len() - i,
    {
        if i < salt.len() {
            out.push(key[i] ^ salt[i]);
        } else {
            out.push(key[i]);
        }
        i = i + 1;
    }
    assert(out@ =~= spec_salted_key(key@, salt@));
    out
}

/// Runs the key schedule for a key of valid length.
fn key_schedule(key: &Vec<u8>) -> (t: [u32; 1042])
    requires
        4 <= key@.len() <= 56,
    ensures
        t@ == spec_key_schedule(key@),
{
    let mut t: [u32; 1042] = [0u32; 1042];
    let mut i: usize = 0;
    while i < 1042
        invariant
            i <= 1042,
            4 <= key@.len() <= 56,
            forall|j: int| 0 <= j < i ==> t@[j] == spec_keyed_table(key@)[j],
        decreases 1042 - i,
    {
        let w: u32 = if i < 18 {
            pi_word(i) ^ key_word(key, i)
        } else {
            pi_word(i)
        };
        t[i] = w;
        i = i + 1;
    }
    assert(t@ =~= spec_keyed_table(key@));
    let ghost t0 = t@;
    let mut l: u32 = 0;
    let mut r: u32 = 0;
    let mut k: usize = 0;
    while k < 521
        invariant
            k <= 521,
            t0.len() == 1042,
            (t@, l, r) == spec_schedule_steps(t0, k as nat),
        decreases 521 - k,
    {
        let c = encrypt_block(&t, l, r);
        l = c.0;
        r = c.1;
        t[2 * k] = l;
        t[2 * k + 1] = r;
        k = k + 1;
    }
    t
}

/// The two words of the block that starts at byte `at` of `buf`.
fn load_words(buf: &[u8], at: usize) -> (w: (u32, u32))
    requires
        at + 8 <= buf@.len(),
    ensures
        w == spec_block_words(buf@.subrange(at as int, at + 8)),
{
    let n: usize = buf.len();
    assert(at + 8 <= n);
    proof {
        lemma_block_words_at(buf@, at as int);
    }
    let l: u32 = as_u32_le(slice_subrange(buf, at, at + 4));
    let r: u32 = as_u32_le(slice_subrange(buf, at + 4, at + 8));
    (l, r)
}

/// Writes the eight bytes of a block of two words into `buf` from byte `at` on.
fn store_words(buf: &mut [u8], at: usize, w: (u32, u32))
    requires
        at + 8 <= old(buf)@.len(),
    ensures
        final(buf)@.len() == old(buf)@.len(),
        forall|i: int|
            0 <= i < old(buf)@.len() ==> final(buf)@[i] == if at <= i < at + 8 {
                spec_words_block(w)[i - at]
            } else {
                old(buf)@[i]
            },
{
    let n: usize = buf.len();
    assert(at + 8 <= n);
    let lo: [u8; 4] = u32_le_bytes(w.0);
    let hi: [u8; 4] = u32_le_bytes(w.1);
    buf[at] = lo[0];
    buf[at + 1] = lo[1];
    buf[at + 2] = lo[2];
    buf[at + 3] = lo[3];
    buf[at + 4] = hi[0];
    buf[at + 5] = hi[1];
    buf[at + 6] = hi[2];
    buf[at + 7] = hi[3];
}

impl Blowfish {
    /// Builds the cipher for a base key and a salt.
    ///
    /// The key must have 4 to 56 bytes. Each key byte is combined by exclusive
    /// or with the salt byte at the same place, where there is one, and the
    /// result is scheduled.
    pub fn new(key: &[u8], salt: &[u8]) -> (r: Result<Blowfish, KeyError>)
        ensures
            key@.len() < 4 <==> r == Err::<Blowfish, KeyError>(KeyError::TooShort),
            key@.len() > 56 <==> r == Err::<Blowfish, KeyError>(KeyError::TooLong),
            4 <= key@.len() <= 56 <==> r is Ok,
            r is Ok ==> r->Ok_0@ == spec_key_schedule(spec_salted_key(key@, salt@)),
    {
        if key.len() < MIN_KEY_LEN {
            return Err(KeyError::TooShort);
        }
        if key.len() > MAX_KEY_LEN {
            return Err(KeyError::TooLong);
        }
        let mixed: Vec<u8> = salted_key(key, salt);
        let words: [u32; 1042] = key_schedule(&mixed);
        Ok(Blowfish { words })
    }

    /// Encrypts `buf` in place, block by block.
    pub fn encrypt(&self, buf: &mut [u8])
        requires
            old(buf)@.len() % 8 == 0,
        ensures
            final(buf)@ == spec_encrypt(self@, old(buf)@),
    {
        let ghost input = buf@;
        let n: usize = buf.len();
        let mut k: usize = 0;
        while k < n
            invariant
                k <= n,
                k % 8 == 0,
                n % 8 == 0,
                buf@.len() == n,
                input.len() == n,
                forall|i: int| 0 <= i < k ==> buf@[i] == spec_encrypt(self@, input)[i],
                forall|i: int| k <= i < n ==> buf@[i] == input[i],
            decreases n - k,
        {
            let ghost block = input.subrange(k as int, k + 8);
            assert(buf@.subrange(k as int, k + 8) =~= block);
            let w = load_words(buf, k);
            let c = encrypt_block(&self.words, w.0, w.1);
            store_words(buf, k, c);
            proof {
                assert forall|i: int| k <= i < k + 8 implies buf@[i] == spec_encrypt(
                    self@,
                    input,
                )[i] by {
                    assert(i / 8 * 8 == k);
                    assert(i % 8 == i - k);
                    assert(spec_block_of(input, i) == block);
                }
            }
            k = k + 8;
        }
        assert(buf@ =~= spec_encrypt(self@, input));
    }

    /// Decrypts `buf` in place, block by block.
    pub fn decrypt(&self, buf: &mut [u8])
        requires
            old(buf)@.len() % 8 == 0,
        ensures
            final(buf)@ == spec_decrypt(self@, old(buf)@),
    {
        let ghost input = buf@;
        let n: usize = buf.len();
        let mut k: usize = 0;
        while k < n
            invariant
                k <= n,
                k % 8 == 0,
                n % 8 == 0,
                buf@.len() == n,
                input.len() == n,
                forall|i: int| 0 <= i < k ==> buf@[i] == spec_decrypt(self@, input)[i],
                forall|i: int| k <= i < n ==> buf@[i] == input[i],
            decreases n - k,
        {
            let ghost block = input.subrange(k as int, k + 8);
            assert(buf@.subrange(k as int, k + 8) =~= block);
            let w = load_words(buf, k);
            let c = decrypt_block(&self.words, w.0, w.1);
            store_words(buf, k, c);
            proof {
                assert forall|i: int| k <= i < k + 8 implies buf@[i] == spec_decrypt(
                    self@,
                    input,
                )[i] by {
                    assert(i / 8 * 8 == k);
                    assert(i % 8 == i - k);
                    assert(spec_block_of(input, i) == block);
                }
            }
            k = k + 8;
        }
        assert(buf@ =~= spec_decrypt(self@, input));
    }
}

} // verus!
