use vstd::prelude::*;

use crate::frozen::{bytes_content, freeze};
use crate::le_bytes::{
    lemma_u32_bytes_round_trip, lemma_u32_le_round_trip, push_u32_le, read_u16_le, read_u32_le,
    u16_le_at, u32_le_at, u32_le_bytes,
};

verus! {

/// A 128-bit XTEA key as four 32-bit words.
pub type XTEAKey = [u32; 4];

/// The 64 round keys of an expanded XTEA key.
pub type XTEARoundKeys = [u32; 64];

/// The XTEA key schedule constant.
pub const XTEA_DELTA: u32 = 0x9E3779B9;

/// The number of Feistel cycles per block.
pub const XTEA_NUM_ROUNDS: usize = 32;

/// The size in bytes of one cipher block.
pub const XTEA_BLOCK_SIZE: usize = 8;

/// Errors of [`decrypt`].
#[derive(Debug, Clone, Copy, PartialEq, Eq, Structural)]
pub enum XTEADecryptError {
    /// The ciphertext length is not a multiple of 8.
    InvalidBlockSize,
    /// The inner length header promises more bytes than were decrypted.
    InnerLengthTooLarge { inner_length: usize, buffer_length: usize },
    /// A block could not be read as two 32-bit words.
    InvalidBytes,
}

/// The key-schedule sum before cycle `i`: `i * delta` modulo 2^32.
pub open spec fn cycle_sum(i: nat) -> u32
    decreases i,
{
    if i == 0 {
        0
    } else {
        cycle_sum((i - 1) as nat).wrapping_add(XTEA_DELTA)
    }
}

/// The mixing function of the Feistel network.
pub open spec fn feistel(v: u32) -> u32 {
    ((v << 4) ^ (v >> 5)).wrapping_add(v)
}

/// The round key that updates the first word.
pub open spec fn round_key_first(sum: u32, key: XTEAKey) -> u32 {
    sum.wrapping_add(key[(sum & 3) as int])
}

/// The round key that updates the second word.
pub open spec fn round_key_second(sum: u32, key: XTEAKey) -> u32 {
    sum.wrapping_add(key[((sum >> 11) & 3) as int])
}

/// One encryption cycle on the block `v`, entered with key-schedule sum `sum`.
pub open spec fn encipher_cycle(v: (u32, u32), sum: u32, key: XTEAKey) -> (u32, u32) {
    let v0 = v.0.wrapping_add(feistel(v.1) ^ round_key_first(sum, key));
    let v1 = v.1.wrapping_add(feistel(v0) ^ round_key_second(sum.wrapping_add(XTEA_DELTA), key));
    (v0, v1)
}

/// One decryption cycle on the block `v`, entered with key-schedule sum `sum`.
pub open spec fn decipher_cycle(v: (u32, u32), sum: u32, key: XTEAKey) -> (u32, u32) {
    let v1 = v.1.wrapping_sub(feistel(v.0) ^ round_key_second(sum, key));
    let v0 = v.0.wrapping_sub(feistel(v1) ^ round_key_first(sum.wrapping_sub(XTEA_DELTA), key));
    (v0, v1)
}

/// The first `n` encryption cycles applied to `v`.
pub open spec fn encipher_cycles(v: (u32, u32), n: nat, key: XTEAKey) -> (u32, u32)
    decreases n,
{
    if n == 0 {
        v
    } else {
        encipher_cycle(encipher_cycles(v, (n - 1) as nat, key), cycle_sum((n - 1) as nat), key)
    }
}

/// Decryption cycles `n` down to 1 applied to `v`.
pub open spec fn decipher_cycles(v: (u32, u32), n: nat, key: XTEAKey) -> (u32, u32)
    decreases n,
{
    if n == 0 {
        v
    } else {
        decipher_cycles(decipher_cycle(v, cycle_sum(n), key), (n - 1) as nat, key)
    }
}

/// XTEA encryption of one block.
pub open spec fn encipher_block(v: (u32, u32), key: XTEAKey) -> (u32, u32) {
    encipher_cycles(v, XTEA_NUM_ROUNDS as nat, key)
}

/// XTEA decryption of one block.
pub open spec fn decipher_block(v: (u32, u32), key: XTEAKey) -> (u32, u32) {
    decipher_cycles(v, XTEA_NUM_ROUNDS as nat, key)
}

/// The block held by the 8 bytes of `s` at `at`.
pub open spec fn block_at(s: Seq<u8>, at: int) -> (u32, u32) {
    (u32_le_at(s, at), u32_le_at(s, at + 4))
}

/// The 8 bytes of a block.
pub open spec fn block_bytes(v: (u32, u32)) -> Seq<u8> {
    u32_le_bytes(v.0) + u32_le_bytes(v.1)
}

/// The first `n` blocks of `s`, each encrypted (when `enc`) or decrypted
/// with `key`.
pub open spec fn map_blocks(s: Seq<u8>, n: nat, key: XTEAKey, enc: bool) -> Seq<u8>
    decreases n,
{
    if n == 0 {
        Seq::empty()
    } else {
        let v = block_at(s, 8 * (n - 1));
        map_blocks(s, (n - 1) as nat, key, enc) + block_bytes(
            if enc {
                encipher_block(v, key)
            } else {
                decipher_block(v, key)
            },
        )
    }
}

/// `m` right-padded with zero bytes to a multiple of 8.
pub open spec fn zero_padded(m: Seq<u8>) -> Seq<u8> {
    m + Seq::new(((8 - m.len() % 8) % 8) as nat, |i: int| 0u8)
}

/// The XTEA ciphertext of `m`: its zero-padded blocks, each encrypted.
pub open spec fn xtea_encrypt(m: Seq<u8>, key: XTEAKey) -> Seq<u8> {
    let p = zero_padded(m);
    map_blocks(p, p.len() / 8, key, true)
}

/// The blocks of `c`, each decrypted (`c.len()` a multiple of 8).
pub open spec fn xtea_decrypt_blocks(c: Seq<u8>, key: XTEAKey) -> Seq<u8> {
    map_blocks(c, c.len() / 8, key, false)
}

/// The outcome of decrypting `c`: the decrypted bytes cut after the inner
/// length header and the length it gives, or the error.
pub open spec fn xtea_decrypt(c: Seq<u8>, key: XTEAKey) -> Result<Seq<u8>, XTEADecryptError> {
    if c.len() % 8 != 0 {
        Err(XTEADecryptError::InvalidBlockSize)
    } else {
        let d = xtea_decrypt_blocks(c, key);
        if d.len() < 2 {
            Err(XTEADecryptError::InnerLengthTooLarge { inner_length: 0, buffer_length: c.len() as usize })
        } else if u16_le_at(d, 0) + 2 > d.len() {
            Err(
                XTEADecryptError::InnerLengthTooLarge {
                    inner_length: u16_le_at(d, 0) as usize,
                    buffer_length: c.len() as usize,
                },
            )
        } else {
            Ok(d.take(u16_le_at(d, 0) + 2))
        }
    }
}

proof fn lemma_map_blocks_len(s: Seq<u8>, n: nat, key: XTEAKey, enc: bool)
    ensures
        map_blocks(s, n, key, enc).len() == 8 * n,
    decreases n,
{
    if n > 0 {
        lemma_map_blocks_len(s, (n - 1) as nat, key, enc);
    }
}

proof fn lemma_map_blocks_prefix(s: Seq<u8>, t: Seq<u8>, n: nat, key: XTEAKey, enc: bool)
    requires
        8 * n <= s.len(),
        8 * n <= t.len(),
        forall|i: int| 0 <= i < 8 * n ==> s[i] == t[i],
    ensures
        map_blocks(s, n, key, enc) == map_blocks(t, n, key, enc),
    decreases n,
{
    if n > 0 {
        lemma_map_blocks_prefix(s, t, (n - 1) as nat, key, enc);
        let at = 8 * (n - 1);
        assert(s[at] == t[at] && s[at + 1] == t[at + 1] && s[at + 2] == t[at + 2] && s[at + 3]
            == t[at + 3]);
        assert(s[at + 4] == t[at + 4] && s[at + 5] == t[at + 5] && s[at + 6] == t[at + 6] && s[at
            + 7] == t[at + 7]);
    }
}

proof fn lemma_wrapping_add_sub(x: u32, y: u32)
    ensures
        x.wrapping_add(y).wrapping_sub(y) == x,
{
}

proof fn lemma_cycle_inverse(v: (u32, u32), sum: u32, key: XTEAKey)
    ensures
        decipher_cycle(encipher_cycle(v, sum, key), sum.wrapping_add(XTEA_DELTA), key) == v,
{
    let e = encipher_cycle(v, sum, key);
    let s1 = sum.wrapping_add(XTEA_DELTA);
    lemma_wrapping_add_sub(sum, XTEA_DELTA);
    lemma_wrapping_add_sub(v.1, feistel(e.0) ^ round_key_second(s1, key));
    lemma_wrapping_add_sub(v.0, feistel(v.1) ^ round_key_first(sum, key));
}

proof fn lemma_cycles_inverse(v: (u32, u32), n: nat, key: XTEAKey)
    ensures
        decipher_cycles(encipher_cycles(v, n, key), n, key) == v,
    decreases n,
{
    if n > 0 {
        let prev = encipher_cycles(v, (n - 1) as nat, key);
        lemma_cycle_inverse(prev, cycle_sum((n - 1) as nat), key);
        lemma_cycles_inverse(v, (n - 1) as nat, key);
    }
}

/// Decrypting an encrypted block gives the block back.
pub proof fn lemma_block_round_trip(v: (u32, u32), key: XTEAKey)
    ensures
        decipher_block(encipher_block(v, key), key) == v,
{
    lemma_cycles_inverse(v, XTEA_NUM_ROUNDS as nat, key);
}

proof fn lemma_block_bytes_at(pre: Seq<u8>, v: (u32, u32))
    ensures
        block_at(pre + block_bytes(v), pre.len() as int) == v,
{
    let s = pre + block_bytes(v);
    let at = pre.len() as int;
    lemma_u32_le_round_trip(v.0);
    lemma_u32_le_round_trip(v.1);
    assert(s.subrange(at, at + 4) =~= u32_le_bytes(v.0));
    assert(s.subrange(at + 4, at + 8) =~= u32_le_bytes(v.1));
    assert(u32_le_at(s, at) == u32_le_at(u32_le_bytes(v.0), 0));
    assert(u32_le_at(s, at + 4) == u32_le_at(u32_le_bytes(v.1), 0));
}

proof fn lemma_block_bytes_of(s: Seq<u8>, at: int)
    requires
        0 <= at,
        at + 8 <= s.len(),
    ensures
        block_bytes(block_at(s, at)) =~= s.subrange(at, at + 8),
{
    lemma_u32_bytes_round_trip(s, at);
    lemma_u32_bytes_round_trip(s, at + 4);
}

proof fn lemma_decrypt_encrypted_blocks(p: Seq<u8>, n: nat, key: XTEAKey)
    requires
        8 * n <= p.len(),
    ensures
        map_blocks(map_blocks(p, n, key, true), n, key, false) == p.take(8 * n as int),
    decreases n,
{
    if n == 0 {
        assert(p.take(0int) =~= Seq::<u8>::empty());
    } else {
        let m = (n - 1) as nat;
        let e = map_blocks(p, n, key, true);
        let e_prev = map_blocks(p, m, key, true);
        let v = block_at(p, 8 * m as int);
        lemma_map_blocks_len(p, m, key, true);
        lemma_map_blocks_len(p, n, key, true);
        lemma_map_blocks_prefix(e, e_prev, m, key, false);
        lemma_decrypt_encrypted_blocks(p, m, key);
        lemma_block_bytes_at(e_prev, encipher_block(v, key));
        lemma_block_round_trip(v, key);
        lemma_block_bytes_of(p, 8 * m as int);
        assert(p.take(8 * n as int) =~= p.take(8 * m as int) + p.subrange(8 * m as int, 8 * n as int));
    }
}

/// The ciphertext is block-aligned and no shorter than the plaintext.
pub proof fn lemma_encrypt_alignment(m: Seq<u8>, key: XTEAKey)
    ensures
        xtea_encrypt(m, key).len() % 8 == 0,
        xtea_encrypt(m, key).len() >= m.len(),
{
    let p = zero_padded(m);
    lemma_map_blocks_len(p, p.len() / 8, key, true);
}

/// Decryption undoes encryption for every plaintext whose first two bytes
/// give, little-endian, the number of bytes after them.
pub proof fn lemma_encrypt_decrypt_round_trip(m: Seq<u8>, key: XTEAKey)
    requires
        m.len() >= 2,
        u16_le_at(m, 0) == m.len() - 2,
    ensures
        xtea_decrypt(xtea_encrypt(m, key), key) == Ok::<Seq<u8>, XTEADecryptError>(m),
{
    let p = zero_padded(m);
    let n = p.len() / 8;
    let c = xtea_encrypt(m, key);
    lemma_map_blocks_len(p, n, key, true);
    assert(c.len() / 8 == n);
    lemma_decrypt_encrypted_blocks(p, n, key);
    assert(p.take(8 * n as int) =~= p);
    let d = xtea_decrypt_blocks(c, key);
    assert(d == p);
    assert(d[0] == m[0] && d[1] == m[1]);
    assert(d.take(m.len() as int) =~= m);
}

/// Entry `i` of the expanded key: for `i = 2 c` the key that cycle `c` adds
/// to the first word, for `i = 2 c + 1` the one it adds to the second word.
pub open spec fn expanded_round_key(i: int, key: XTEAKey) -> u32 {
    if i % 2 == 0 {
        round_key_first(cycle_sum((i / 2) as nat), key)
    } else {
        round_key_second(cycle_sum((i / 2 + 1) as nat), key)
    }
}

/// Expands `key` into the 64 round keys of the 32 cycles.
pub fn expand_key(key: &XTEAKey) -> (r: XTEARoundKeys)
    ensures
        forall|i: int| 0 <= i < 64 ==> #[trigger] r[i] == expanded_round_key(i, *key),
{
    let mut expanded = [0u32; 64];
    let mut sum: u32 = 0;
    let mut next_sum: u32 = sum.wrapping_add(XTEA_DELTA);
    assert(cycle_sum(0) == 0);
    let mut i: usize = 0;
    while i < 64
        invariant
            i % 2 == 0,
            i <= 64,
            sum == cycle_sum((i / 2) as nat),
            next_sum == cycle_sum((i / 2 + 1) as nat),
            forall|j: int| 0 <= j < i ==> #[trigger] expanded[j] == expanded_round_key(j, *key),
        decreases 64 - i,
    {
        expanded[i] = sum.wrapping_add(key_word(key, sum));
        expanded[i + 1] = next_sum.wrapping_add(key_word(key, next_sum >> 11));
        sum = next_sum;
        next_sum = next_sum.wrapping_add(XTEA_DELTA);
        i += 2;
    }
    expanded
}

fn key_word(key: &XTEAKey, sel: u32) -> (r: u32)
    ensures
        r == key[(sel & 3) as int],
{
    assert(sel & 3 < 4) by (bit_vector);
    key[(sel & 3) as usize]
}

fn encipher_words(v0: u32, v1: u32, key: &XTEAKey) -> (r: (u32, u32))
    ensures
        r == encipher_block((v0, v1), *key),
{
    let mut v0 = v0;
    let mut v1 = v1;
    let ghost start = (v0, v1);
    let mut sum: u32 = 0;
    let mut i: usize = 0;
    while i < XTEA_NUM_ROUNDS
        invariant
            i <= XTEA_NUM_ROUNDS,
            sum == cycle_sum(i as nat),
            (v0, v1) == encipher_cycles(start, i as nat, *key),
        decreases XTEA_NUM_ROUNDS - i,
    {
        v0 = v0.wrapping_add(
            ((v1 << 4) ^ (v1 >> 5)).wrapping_add(v1) ^ (sum.wrapping_add(key_word(key, sum))),
        );
        sum = sum.wrapping_add(XTEA_DELTA);
        v1 = v1.wrapping_add(
            ((v0 << 4) ^ (v0 >> 5)).wrapping_add(v0) ^ (sum.wrapping_add(
                key_word(key, sum >> 11),
            )),
        );
        i += 1;
    }
    (v0, v1)
}

fn decipher_words(v0: u32, v1: u32, key: &XTEAKey) -> (r: (u32, u32))
    ensures
        r == decipher_block((v0, v1), *key),
{
    let mut v0 = v0;
    let mut v1 = v1;
    let ghost start = (v0, v1);
    let mut sum: u32 = XTEA_DELTA.wrapping_mul(XTEA_NUM_ROUNDS as u32);
    proof {
        reveal_with_fuel(cycle_sum, 33);
    }
    assert(sum == cycle_sum(32));
    let mut i: usize = 0;
    while i < XTEA_NUM_ROUNDS
        invariant
            i <= XTEA_NUM_ROUNDS,
            sum == cycle_sum((XTEA_NUM_ROUNDS - i) as nat),
            decipher_cycles((v0, v1), (XTEA_NUM_ROUNDS - i) as nat, *key) == decipher_block(
                start,
                *key,
            ),
        decreases XTEA_NUM_ROUNDS - i,
    {
        let ghost n = (XTEA_NUM_ROUNDS - i) as nat;
        assert(cycle_sum((n - 1) as nat).wrapping_add(XTEA_DELTA).wrapping_sub(XTEA_DELTA)
            == cycle_sum((n - 1) as nat)) by {
            lemma_wrapping_add_sub(cycle_sum((n - 1) as nat), XTEA_DELTA);
        }
        v1 = v1.wrapping_sub(
            ((v0 << 4) ^ (v0 >> 5)).wrapping_add(v0) ^ (sum.wrapping_add(
                key_word(key, sum >> 11),
            )),
        );
        sum = sum.wrapping_sub(XTEA_DELTA);
        v0 = v0.wrapping_sub(
            ((v1 << 4) ^ (v1 >> 5)).wrapping_add(v1) ^ (sum.wrapping_add(key_word(key, sum))),
        );
        i += 1;
    }
    (v0, v1)
}

/// Encrypts `plaintext` with `key`: the plaintext is right-padded with zero
/// bytes to a multiple of 8 and each 8-byte block is encrypted in turn.
pub fn encrypt(plaintext: &[u8], key: &XTEAKey) -> (r: bytes::Bytes)
    requires
        plaintext@.len() + 8 <= usize::MAX,
    ensures
        bytes_content(r) == xtea_encrypt(plaintext@, *key),
{
    let mut padded: Vec<u8> = Vec::with_capacity(plaintext.len() + 8);
    let mut i: usize = 0;
    while i < plaintext.len()
        invariant
            i <= plaintext@.len(),
            padded@ == plaintext@.take(i as int),
        decreases plaintext@.len() - i,
    {
        padded.push(plaintext[i]);
        i += 1;
    }
    let padding_len = (XTEA_BLOCK_SIZE - plaintext.len() % XTEA_BLOCK_SIZE) % XTEA_BLOCK_SIZE;
    let mut j: usize = 0;
    while j < padding_len
        invariant
            j <= padding_len,
            padding_len == (8 - plaintext@.len() % 8) % 8,
            padded@ == plaintext@ + Seq::new(j as nat, |k: int| 0u8),
        decreases padding_len - j,
    {
        padded.push(0u8);
        j += 1;
        assert(padded@ =~= plaintext@ + Seq::new(j as nat, |k: int| 0u8));
    }
    assert(padded@ =~= zero_padded(plaintext@));
    let ghost p = padded@;
    assert(p.len() % 8 == 0) by {
        let m = plaintext@.len();
        assert(p.len() == m + (8 - m % 8) % 8);
    }
    let n_blocks = padded.len() / XTEA_BLOCK_SIZE;
    assert(p.len() == 8 * n_blocks);
    let mut ciphertext: Vec<u8> = Vec::with_capacity(padded.len());
    let mut b: usize = 0;
    while b < n_blocks
        invariant
            padded@ == p,
            p.len() == 8 * n_blocks,
            b <= n_blocks,
            ciphertext@ == map_blocks(p, b as nat, *key, true),
        decreases n_blocks - b,
    {
        assert(b * 8 + 8 <= p.len()) by (nonlinear_arith)
            requires b < n_blocks, p.len() == 8 * n_blocks;
        let at = b * XTEA_BLOCK_SIZE;
        let v0 = read_u32_le(padded.as_slice(), at);
        let v1 = read_u32_le(padded.as_slice(), at + 4);
        let (e0, e1) = encipher_words(v0, v1, key);
        push_u32_le(&mut ciphertext, e0);
        push_u32_le(&mut ciphertext, e1);
        b += 1;
        assert(ciphertext@ =~= map_blocks(p, b as nat, *key, true));
    }
    freeze(ciphertext)
}

/// Decrypts `ciphertext` with `key`, then cuts the result after the inner
/// length header (two little-endian bytes at its start) and the number of
/// bytes that header gives.
pub fn decrypt(ciphertext: &[u8], key: &XTEAKey) -> (r: Result<bytes::Bytes, XTEADecryptError>)
    ensures
        match (r, xtea_decrypt(ciphertext@, *key)) {
            (Ok(b), Ok(d)) => bytes_content(b) == d,
            (Err(e), Err(f)) => e == f,
            _ => false,
        },
{
    if ciphertext.len() % XTEA_BLOCK_SIZE != 0 {
        return Err(XTEADecryptError::InvalidBlockSize);
    }
    let ghost c = ciphertext@;
    let n_blocks = ciphertext.len() / XTEA_BLOCK_SIZE;
    let mut decrypted: Vec<u8> = Vec::with_capacity(ciphertext.len());
    let mut b: usize = 0;
    while b < n_blocks
        invariant
            ciphertext@ == c,
            c.len() == 8 * n_blocks,
            c.len() == ciphertext.len(),
            b <= n_blocks,
            decrypted@ == map_blocks(c, b as nat, *key, false),
        decreases n_blocks - b,
    {
        assert(b * 8 + 8 <= c.len()) by (nonlinear_arith)
            requires b < n_blocks, c.len() == 8 * n_blocks;
        let at = b * XTEA_BLOCK_SIZE;
        let v0 = read_u32_le(ciphertext, at);
        let v1 = read_u32_le(ciphertext, at + 4);
        let (d0, d1) = decipher_words(v0, v1, key);
        push_u32_le(&mut decrypted, d0);
        push_u32_le(&mut decrypted, d1);
        b += 1;
        assert(decrypted@ =~= map_blocks(c, b as nat, *key, false));
    }
    if decrypted.len() < 2 {
        return Err(
            XTEADecryptError::InnerLengthTooLarge {
                inner_length: 0,
                buffer_length: ciphertext.len(),
            },
        );
    }
    let inner_length = read_u16_le(decrypted.as_slice(), 0) as usize;
    if inner_length + 2 > decrypted.len() {
        return Err(
            XTEADecryptError::InnerLengthTooLarge {
                inner_length,
                buffer_length: ciphertext.len(),
            },
        );
    }
    decrypted.truncate(inner_length + 2);
    Ok(freeze(decrypted))
}

} // verus!
