//! The SHA-256 digest, as FIPS 180-4 defines it.

use vstd::prelude::*;

verus! {

/// The bits of `x` moved to the right by `n` places, those that leave come back on the left.
pub open spec fn rotr(x: u32, n: u32) -> u32 {
    (x >> n) | (x << ((32 - n) as u32))
}

fn rotate_right(x: u32, n: u32) -> (r: u32)
    requires
        0 < n < 32,
    ensures
        r == rotr(x, n),
{
    (x >> n) | (x << (32 - n))
}

/// The function that FIPS 180-4 calls Σ0.
pub open spec fn big_sigma0(x: u32) -> u32 {
    rotr(x, 2) ^ rotr(x, 13) ^ rotr(x, 22)
}

/// The function that FIPS 180-4 calls Σ1.
pub open spec fn big_sigma1(x: u32) -> u32 {
    rotr(x, 6) ^ rotr(x, 11) ^ rotr(x, 25)
}

/// The function that FIPS 180-4 calls σ0.
pub open spec fn small_sigma0(x: u32) -> u32 {
    rotr(x, 7) ^ rotr(x, 18) ^ (x >> 3u32)
}

/// The function that FIPS 180-4 calls σ1.
pub open spec fn small_sigma1(x: u32) -> u32 {
    rotr(x, 17) ^ rotr(x, 19) ^ (x >> 10u32)
}

/// The function that FIPS 180-4 calls Ch.
pub open spec fn choice(x: u32, y: u32, z: u32) -> u32 {
    (x & y) ^ (!x & z)
}

/// The function that FIPS 180-4 calls Maj.
pub open spec fn majority(x: u32, y: u32, z: u32) -> u32 {
    (x & y) ^ (x & z) ^ (y & z)
}

/// The sum of two words, without the carry out of the highest bit.
pub open spec fn plus(a: u32, b: u32) -> u32 {
    ((a + b) % 0x1_0000_0000) as u32
}

fn sum(a: u32, b: u32) -> (r: u32)
    ensures
        r == plus(a, b),
{
    a.wrapping_add(b)
}

/// The constants of the rounds.
pub open spec fn round_constants() -> Seq<u32> {
    seq![
        0x428a2f98u32, 0x71374491u32, 0xb5c0fbcfu32, 0xe9b5dba5u32, 0x3956c25bu32, 0x59f111f1u32, 0x923f82a4u32, 0xab1c5ed5u32,
        0xd807aa98u32, 0x12835b01u32, 0x243185beu32, 0x550c7dc3u32, 0x72be5d74u32, 0x80deb1feu32, 0x9bdc06a7u32, 0xc19bf174u32,
        0xe49b69c1u32, 0xefbe4786u32, 0x0fc19dc6u32, 0x240ca1ccu32, 0x2de92c6fu32, 0x4a7484aau32, 0x5cb0a9dcu32, 0x76f988dau32,
        0x983e5152u32, 0xa831c66du32, 0xb00327c8u32, 0xbf597fc7u32, 0xc6e00bf3u32, 0xd5a79147u32, 0x06ca6351u32, 0x14292967u32,
        0x27b70a85u32, 0x2e1b2138u32, 0x4d2c6dfcu32, 0x53380d13u32, 0x650a7354u32, 0x766a0abbu32, 0x81c2c92eu32, 0x92722c85u32,
        0xa2bfe8a1u32, 0xa81a664bu32, 0xc24b8b70u32, 0xc76c51a3u32, 0xd192e819u32, 0xd6990624u32, 0xf40e3585u32, 0x106aa070u32,
        0x19a4c116u32, 0x1e376c08u32, 0x2748774cu32, 0x34b0bcb5u32, 0x391c0cb3u32, 0x4ed8aa4au32, 0x5b9cca4fu32, 0x682e6ff3u32,
        0x748f82eeu32, 0x78a5636fu32, 0x84c87814u32, 0x8cc70208u32, 0x90befffau32, 0xa4506cebu32, 0xbef9a3f7u32, 0xc67178f2u32,
    ]
}

fn round_constant(i: usize) -> (r: u32)
    requires
        i < 64,
    ensures
        r == round_constants()[i as int],
{
    let table: [u32; 64] = [
        0x428a2f98, 0x71374491, 0xb5c0fbcf, 0xe9b5dba5, 0x3956c25b, 0x59f111f1, 0x923f82a4, 0xab1c5ed5,
        0xd807aa98, 0x12835b01, 0x243185be, 0x550c7dc3, 0x72be5d74, 0x80deb1fe, 0x9bdc06a7, 0xc19bf174,
        0xe49b69c1, 0xefbe4786, 0x0fc19dc6, 0x240ca1cc, 0x2de92c6f, 0x4a7484aa, 0x5cb0a9dc, 0x76f988da,
        0x983e5152, 0xa831c66d, 0xb00327c8, 0xbf597fc7, 0xc6e00bf3, 0xd5a79147, 0x06ca6351, 0x14292967,
        0x27b70a85, 0x2e1b2138, 0x4d2c6dfc, 0x53380d13, 0x650a7354, 0x766a0abb, 0x81c2c92e, 0x92722c85,
        0xa2bfe8a1, 0xa81a664b, 0xc24b8b70, 0xc76c51a3, 0xd192e819, 0xd6990624, 0xf40e3585, 0x106aa070,
        0x19a4c116, 0x1e376c08, 0x2748774c, 0x34b0bcb5, 0x391c0cb3, 0x4ed8aa4a, 0x5b9cca4f, 0x682e6ff3,
        0x748f82ee, 0x78a5636f, 0x84c87814, 0x8cc70208, 0x90befffa, 0xa4506ceb, 0xbef9a3f7, 0xc67178f2,
    ];
    assert(table@ == round_constants());
    table[i]
}

/// The working variables.
#[derive(Clone, Copy, Debug, PartialEq, Eq, Structural)]
pub struct Words {
    pub a: u32,
    pub b: u32,
    pub c: u32,
    pub d: u32,
    pub e: u32,
    pub f: u32,
    pub g: u32,
    pub h: u32,
}

/// The hash value before the first block.
pub open spec fn initial_hash() -> Words {
    Words {
        a: 0x6a09e667,
        b: 0xbb67ae85,
        c: 0x3c6ef372,
        d: 0xa54ff53a,
        e: 0x510e527f,
        f: 0x9b05688c,
        g: 0x1f83d9ab,
        h: 0x5be0cd19,
    }
}

/// How many bytes of zeros the padding has.
pub open spec fn zeros(len: nat) -> nat {
    ((119 - len % 64) % 64) as nat
}

/// A byte of a number, counted from the lowest.
pub open spec fn byte_at(n: nat, scale: nat) -> u8 {
    ((n / scale) % 256) as u8
}

/// A number as eight bytes, the highest first.
pub open spec fn eight_bytes(n: nat) -> Seq<u8> {
    seq![
        byte_at(n, 0x100_0000_0000_0000),
        byte_at(n, 0x1_0000_0000_0000),
        byte_at(n, 0x100_0000_0000),
        byte_at(n, 0x1_0000_0000),
        byte_at(n, 0x100_0000),
        byte_at(n, 0x1_0000),
        byte_at(n, 0x100),
        byte_at(n, 1),
    ]
}

/// A message with its padding: a one bit, zeros, and the length in bits, in whole blocks.
pub open spec fn padded(message: Seq<u8>) -> Seq<u8> {
    message + seq![0x80u8] + Seq::new(zeros(message.len()), |i: int| 0u8) + eight_bytes(
        message.len() * 8,
    )
}

/// The word that four bytes make, the highest first.
pub open spec fn word_at(bytes: Seq<u8>, i: int) -> u32 {
    (bytes[i] * 0x100_0000 + bytes[i + 1] * 0x1_0000 + bytes[i + 2] * 0x100 + bytes[i + 3]) as u32
}

/// The schedule of a block.
pub open spec fn schedule(block: Seq<u8>, t: nat) -> u32
    decreases t,
{
    if t < 16 {
        word_at(block, 4 * t as int)
    } else {
        plus(
            plus(
                plus(schedule(block, (t - 16) as nat), small_sigma0(schedule(block, (t - 15) as nat))),
                schedule(block, (t - 7) as nat),
            ),
            small_sigma1(schedule(block, (t - 2) as nat)),
        )
    }
}

/// One round.
pub open spec fn round(s: Words, k: u32, w: u32) -> Words {
    let t1 = plus(plus(plus(plus(s.h, big_sigma1(s.e)), choice(s.e, s.f, s.g)), k), w);
    let t2 = plus(big_sigma0(s.a), majority(s.a, s.b, s.c));
    Words {
        a: plus(t1, t2),
        b: s.a,
        c: s.b,
        d: s.c,
        e: plus(s.d, t1),
        f: s.e,
        g: s.f,
        h: s.g,
    }
}

/// The working variables after `n` rounds.
pub open spec fn rounds(hash: Words, block: Seq<u8>, n: nat) -> Words
    decreases n,
{
    if n == 0 {
        hash
    } else {
        round(
            rounds(hash, block, (n - 1) as nat),
            round_constants()[n - 1],
            schedule(block, (n - 1) as nat),
        )
    }
}

/// The hash value after one more block.
pub open spec fn compressed(hash: Words, block: Seq<u8>) -> Words {
    let s = rounds(hash, block, 64);
    Words {
        a: plus(hash.a, s.a),
        b: plus(hash.b, s.b),
        c: plus(hash.c, s.c),
        d: plus(hash.d, s.d),
        e: plus(hash.e, s.e),
        f: plus(hash.f, s.f),
        g: plus(hash.g, s.g),
        h: plus(hash.h, s.h),
    }
}

/// The hash value after `n` blocks.
pub open spec fn hash_of(message: Seq<u8>, n: nat) -> Words
    decreases n,
{
    if n == 0 {
        initial_hash()
    } else {
        compressed(
            hash_of(message, (n - 1) as nat),
            message.subrange(64 * (n - 1), 64 * n as int),
        )
    }
}

/// A word as four bytes, the highest first.
pub open spec fn four_bytes(x: u32) -> Seq<u8> {
    seq![
        byte_at(x as nat, 0x100_0000),
        byte_at(x as nat, 0x1_0000),
        byte_at(x as nat, 0x100),
        byte_at(x as nat, 1),
    ]
}

/// The digest of a message.
pub open spec fn digest(message: Seq<u8>) -> Seq<u8> {
    let p = padded(message);
    words_bytes(hash_of(p, p.len() / 64))
}

/// The words of a hash value as bytes.
pub open spec fn words_bytes(s: Words) -> Seq<u8> {
    four_bytes(s.a) + four_bytes(s.b) + four_bytes(s.c) + four_bytes(s.d) + four_bytes(s.e)
        + four_bytes(s.f) + four_bytes(s.g) + four_bytes(s.h)
}

proof fn lemma_whole_blocks(len: nat)
    ensures
        (len + 1 + zeros(len) + 8) % 64 == 0,
{
    let r = len % 64;
    assert(zeros(len) == if r <= 55 {
        55 - r
    } else {
        119 - r
    });
}

fn push_zeros(out: &mut Vec<u8>, count: usize)
    ensures
        final(out)@ == old(out)@ + Seq::new(count as nat, |i: int| 0u8),
{
    let ghost before = out@;
    assert(before == before + Seq::new(0, |i: int| 0u8));
    for i in 0..count
        invariant
            out@ == before + Seq::new(i as nat, |i: int| 0u8),
    {
        out.push(0);
        assert(out@ == before + Seq::new((i + 1) as nat, |i: int| 0u8));
    }
}

fn push_length(out: &mut Vec<u8>, bits: u64)
    ensures
        final(out)@ == old(out)@ + eight_bytes(bits as nat),
{
    out.push(((bits / 0x100_0000_0000_0000) % 256) as u8);
    out.push(((bits / 0x1_0000_0000_0000) % 256) as u8);
    out.push(((bits / 0x100_0000_0000) % 256) as u8);
    out.push(((bits / 0x1_0000_0000) % 256) as u8);
    out.push(((bits / 0x100_0000) % 256) as u8);
    out.push(((bits / 0x1_0000) % 256) as u8);
    out.push(((bits / 0x100) % 256) as u8);
    out.push((bits % 256) as u8);
    assert(out@ == old(out)@ + eight_bytes(bits as nat));
}

fn pad(data: &[u8]) -> (r: Vec<u8>)
    requires
        data@.len() * 8 <= u64::MAX,
    ensures
        r@ == padded(data@),
        r@.len() % 64 == 0,
{
    let n: usize = data.len();
    let mut out: Vec<u8> = Vec::new();
    out.extend_from_slice(data);
    out.push(0x80);
    assert(out@ == data@ + seq![0x80u8]);
    push_zeros(&mut out, (119 - n % 64) % 64);
    push_length(&mut out, n as u64 * 8);
    proof {
        lemma_whole_blocks(data@.len());
    }
    out
}

fn word(bytes: &Vec<u8>, i: usize) -> (r: u32)
    requires
        i + 3 < bytes@.len(),
    ensures
        r == word_at(bytes@, i as int),
{
    assert(i + 3 < bytes.len());
    bytes[i] as u32 * 0x100_0000 + bytes[i + 1] as u32 * 0x1_0000 + bytes[i + 2] as u32 * 0x100
        + bytes[i + 3] as u32
}

fn make_schedule(bytes: &Vec<u8>, start: usize) -> (r: Vec<u32>)
    requires
        start + 64 <= bytes@.len(),
    ensures
        r@.len() == 64,
        forall|t: int|
            0 <= t < 64 ==> #[trigger] r@[t] == schedule(
                bytes@.subrange(start as int, start + 64),
                t as nat,
            ),
{
    let mut w: Vec<u32> = Vec::new();
    let total: usize = bytes.len();
    let ghost block = bytes@.subrange(start as int, start + 64);
    for t in 0..16usize
        invariant
            start + 64 <= bytes@.len() == total,
            block == bytes@.subrange(start as int, start + 64),
            w@.len() == t,
            forall|k: int| 0 <= k < t ==> #[trigger] w@[k] == schedule(block, k as nat),
    {
        w.push(word(bytes, start + 4 * t));
    }
    for t in 16..64usize
        invariant
            w@.len() == t,
            forall|k: int| 0 <= k < t ==> #[trigger] w@[k] == schedule(block, k as nat),
    {
        let x: u32 = w[t - 15];
        let y: u32 = w[t - 2];
        let s0: u32 = rotate_right(x, 7) ^ rotate_right(x, 18) ^ (x >> 3u32);
        let s1: u32 = rotate_right(y, 17) ^ rotate_right(y, 19) ^ (y >> 10u32);
        let next: u32 = sum(sum(sum(w[t - 16], s0), w[t - 7]), s1);
        w.push(next);
    }
    w
}

fn do_round(s: Words, k: u32, w: u32) -> (r: Words)
    ensures
        r == round(s, k, w),
{
    let s1: u32 = rotate_right(s.e, 6) ^ rotate_right(s.e, 11) ^ rotate_right(s.e, 25);
    let ch: u32 = (s.e & s.f) ^ (!s.e & s.g);
    let t1: u32 = sum(sum(sum(sum(s.h, s1), ch), k), w);
    let s0: u32 = rotate_right(s.a, 2) ^ rotate_right(s.a, 13) ^ rotate_right(s.a, 22);
    let maj: u32 = (s.a & s.b) ^ (s.a & s.c) ^ (s.b & s.c);
    let t2: u32 = sum(s0, maj);
    Words {
        a: sum(t1, t2),
        b: s.a,
        c: s.b,
        d: s.c,
        e: sum(s.d, t1),
        f: s.e,
        g: s.f,
        h: s.g,
    }
}

fn compress(hash: Words, bytes: &Vec<u8>, start: usize) -> (r: Words)
    requires
        start + 64 <= bytes@.len(),
    ensures
        r == compressed(hash, bytes@.subrange(start as int, start + 64)),
{
    let w = make_schedule(bytes, start);
    let ghost block = bytes@.subrange(start as int, start + 64);
    let mut s = hash;
    for t in 0..64usize
        invariant
            w@.len() == 64,
            forall|k: int| 0 <= k < 64 ==> #[trigger] w@[k] == schedule(block, k as nat),
            s == rounds(hash, block, t as nat),
    {
        s = do_round(s, round_constant(t), w[t]);
    }
    Words {
        a: sum(hash.a, s.a),
        b: sum(hash.b, s.b),
        c: sum(hash.c, s.c),
        d: sum(hash.d, s.d),
        e: sum(hash.e, s.e),
        f: sum(hash.f, s.f),
        g: sum(hash.g, s.g),
        h: sum(hash.h, s.h),
    }
}

fn push_word(out: &mut Vec<u8>, x: u32)
    ensures
        final(out)@ == old(out)@ + four_bytes(x),
{
    out.push(((x / 0x100_0000) % 256) as u8);
    out.push(((x / 0x1_0000) % 256) as u8);
    out.push(((x / 0x100) % 256) as u8);
    out.push((x % 256) as u8);
    assert(out@ == old(out)@ + four_bytes(x));
}

fn to_array(v: &Vec<u8>) -> (r: [u8; 32])
    requires
        v@.len() == 32,
    ensures
        r@ == v@,
{
    let r: [u8; 32] = [
        v[0], v[1], v[2], v[3], v[4], v[5], v[6], v[7],
        v[8], v[9], v[10], v[11], v[12], v[13], v[14], v[15],
        v[16], v[17], v[18], v[19], v[20], v[21], v[22], v[23],
        v[24], v[25], v[26], v[27], v[28], v[29], v[30], v[31],
    ];
    assert(r@ == v@);
    r
}

fn hash_bytes(s: Words) -> (r: [u8; 32])
    ensures
        r@ == words_bytes(s),
{
    let mut out: Vec<u8> = Vec::new();
    push_word(&mut out, s.a);
    push_word(&mut out, s.b);
    push_word(&mut out, s.c);
    push_word(&mut out, s.d);
    push_word(&mut out, s.e);
    push_word(&mut out, s.f);
    push_word(&mut out, s.g);
    push_word(&mut out, s.h);
    to_array(&out)
}

/// The digest of some bytes, of fewer than 2^61.
#[verifier::rlimit(60)]
pub fn sha256_digest(data: &[u8]) -> (r: [u8; 32])
    requires
        data@.len() * 8 <= u64::MAX,
    ensures
        r@ == digest(data@),
{
    let message = pad(data);
    let blocks: usize = message.len() / 64;
    let mut hash = Words {
        a: 0x6a09e667,
        b: 0xbb67ae85,
        c: 0x3c6ef372,
        d: 0xa54ff53a,
        e: 0x510e527f,
        f: 0x9b05688c,
        g: 0x1f83d9ab,
        h: 0x5be0cd19,
    };
    let total: usize = message.len();
    for i in 0..blocks
        invariant
            total == message@.len(),
            blocks == total / 64,
            hash == hash_of(message@, i as nat),
    {
        assert(64 * i + 64 <= total) by (nonlinear_arith)
            requires
                i < blocks,
                blocks == total / 64,
        ;
        hash = compress(hash, &message, 64 * i);
    }
    hash_bytes(hash)
}

/// A digest under way.
#[derive(Debug)]
pub struct Sha256 {
    data: Vec<u8>,
}

impl View for Sha256 {
    type V = Seq<u8>;

    closed spec fn view(&self) -> Seq<u8> {
        self.data@
    }
}

impl Sha256 {
    /// A digest of nothing yet.
    pub fn new() -> (r: Sha256)
        ensures
            r@ == Seq::<u8>::empty(),
    {
        Sha256 { data: Vec::new() }
    }

    /// Adds bytes.
    pub fn write(&mut self, bytes: &[u8])
        ensures
            final(self)@ == old(self)@ + bytes@,
    {
        self.data.extend_from_slice(bytes);
    }

    /// The digest of all bytes that were added, of fewer than 2^61.
    pub fn finalize(self) -> (r: [u8; 32])
        requires
            self@.len() * 8 <= u64::MAX,
        ensures
            r@ == digest(self@),
    {
        sha256_digest(self.data.as_slice())
    }
}

} // verus!
