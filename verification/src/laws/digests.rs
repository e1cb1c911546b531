//! How a message is made ready for its digest.

use vstd::prelude::*;

use crate::ws::sha256::{self, Sha256};

verus! {

/// The number that eight bytes stand for, the highest first.
#[verifier::opaque]
pub open spec fn number_in(b: Seq<u8>) -> int {
    b[0] * 0x100_0000_0000_0000 + b[1] * 0x1_0000_0000_0000 + b[2] * 0x100_0000_0000 + b[3]
        * 0x1_0000_0000 + b[4] * 0x100_0000 + b[5] * 0x1_0000 + b[6] * 0x100 + b[7]
}

#[verifier::rlimit(60)]
proof fn lemma_tail(n: nat)
    requires
        n < 0x1_0000_0000_0000_0000,
    ensures
        sha256::eight_bytes(n).len() == 8,
        number_in(sha256::eight_bytes(n)) == n,
{
    let a = n / 0x100;
    let b = n / 0x1_0000;
    let c = n / 0x100_0000;
    let d = n / 0x1_0000_0000;
    let e = n / 0x100_0000_0000;
    let f = n / 0x1_0000_0000_0000;
    let g = n / 0x100_0000_0000_0000;
    assert(b == a / 256);
    assert(c == b / 256);
    assert(d == c / 256);
    assert(e == d / 256);
    assert(f == e / 256);
    assert(g == f / 256);
    assert(g < 256);
    reveal(number_in);
    let s = sha256::eight_bytes(n);
    assert(s[0] == g % 256 && s[1] == f % 256 && s[2] == e % 256 && s[3] == d % 256);
    assert(s[4] == c % 256 && s[5] == b % 256 && s[6] == a % 256 && s[7] == n % 256);
}

proof fn lemma_whole(len: nat)
    ensures
        (len + 1 + sha256::zeros(len) + 8) % 64 == 0,
        sha256::zeros(len) < 64,
{
    let r = len % 64;
    assert(sha256::zeros(len) == if r <= 55 {
        55 - r
    } else {
        119 - r
    });
}

proof fn lemma_pieces(m: Seq<u8>, z: nat, tail: Seq<u8>)
    requires
        tail.len() == 8,
    ensures
        ({
            let p = m + seq![0x80u8] + Seq::new(z, |i: int| 0u8) + tail;
            let n = p.len() as int;
            &&& n == m.len() + 1 + z + 8
            &&& m.is_prefix_of(p)
            &&& p[m.len() as int] == 0x80
            &&& forall|i: int| m.len() < i < n - 8 ==> #[trigger] p[i] == 0
            &&& p.subrange(n - 8, n) == tail
        }),
{
    let p = m + seq![0x80u8] + Seq::new(z, |i: int| 0u8) + tail;
    assert(p.take(m.len() as int) == m);
    assert(p.subrange(p.len() - 8, p.len() as int) == tail);
}

/// A message is filled up with one bit, as few zeros as make whole blocks, and its length in bits.
#[verifier::rlimit(60)]
pub proof fn law_padding(message: Seq<u8>)
    requires
        message.len() * 8 < 0x1_0000_0000_0000_0000,
    ensures
        ({
            let p = sha256::padded(message);
            let n = p.len() as int;
            &&& n % 64 == 0
            &&& message.len() + 9 <= n < message.len() + 73
            &&& message.is_prefix_of(p)
            &&& p[message.len() as int] == 0x80
            &&& forall|i: int| message.len() < i < n - 8 ==> #[trigger] p[i] == 0
            &&& number_in(p.subrange(n - 8, n)) == message.len() * 8
        }),
{
    let tail = sha256::eight_bytes(message.len() * 8);
    lemma_tail(message.len() * 8);
    lemma_whole(message.len());
    lemma_pieces(message, sha256::zeros(message.len()), tail);
    assert(sha256::padded(message) == message + seq![0x80u8] + Seq::new(
        sha256::zeros(message.len()),
        |i: int| 0u8,
    ) + tail);
}

/// A word is read from its four bytes as it was written.
#[verifier::rlimit(60)]
pub proof fn law_words(x: u32)
    ensures
        sha256::word_at(sha256::four_bytes(x), 0) == x,
{
    let n = x as nat;
    let a = n / 0x100;
    let b = n / 0x1_0000;
    let c = n / 0x100_0000;
    assert(b == a / 256);
    assert(c == b / 256);
    assert(c < 256);
}

/// A digest under way is that of all bytes that were added to it.
pub proof fn law_digest_under_way(h: &mut Sha256, bytes: &[u8], made: Sha256, r: [u8; 32], data: &[u8])
    ensures
        call_ensures(Sha256::new, (), made) ==> made@.len() == 0,
        call_ensures(Sha256::write, (h, bytes), ()) ==> final(h)@ == old(h)@ + bytes@,
        call_ensures(Sha256::finalize, (made,), r) && call_ensures(sha256::sha256_digest, (data,), r)
            ==> r@ == sha256::digest(made@) && r@ == sha256::digest(data@),
{
}

} // verus!
