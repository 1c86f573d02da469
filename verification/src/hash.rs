//! Content hashing: SHA-256 digests, shown as short lowercase hex ids.

use vstd::prelude::*;
use sha2::{Digest, Sha256};
use crate::text::{hex_padded, append_chars, hex_of, zero_pad};

verus! {

/// The SHA-256 digest of `data`.
pub uninterp spec fn sha256_of(data: Seq<u8>) -> Seq<u8>;

/// `Sha256::digest`: the 32-byte digest of `data`.
#[verifier::external_body]
pub(crate) fn sha256(data: &[u8]) -> (r: Vec<u8>)
    ensures
        r@ == sha256_of(data@),
        r@.len() == 32,
{
    Sha256::digest(data).to_vec()
}

/// Each byte as two lowercase hex digits (what `{:02x}` prints), joined.
pub open spec fn hex_bytes(bs: Seq<u8>) -> Seq<char>
    decreases bs.len(),
{
    if bs.len() == 0 {
        Seq::empty()
    } else {
        hex_bytes(bs.drop_last()) + zero_pad(hex_of(bs.last() as nat), 2)
    }
}

/// Two hex digits per byte.
pub proof fn lemma_hex_bytes_len(bs: Seq<u8>)
    ensures
        hex_bytes(bs).len() == 2 * bs.len(),
    decreases bs.len(),
{
    if bs.len() > 0 {
        lemma_hex_bytes_len(bs.drop_last());
        let b = bs.last() as nat;
        if b >= 16 {
            assert(b / 16 < 16);
            assert(hex_of(b / 16).len() == 1);
        }
        assert(hex_of(b).len() <= 2);
    }
}

/// The first `n` bytes of the SHA-256 of `data`, in hex.
pub open spec fn short_hash(data: Seq<u8>, n: nat) -> Seq<char> {
    hex_bytes(sha256_of(data).take(n as int))
}

/// The first `n` digest bytes of `data`, as `2 * n` hex digits.
pub fn short_hash_hex(data: &[u8], n: usize) -> (r: Vec<char>)
    requires
        n <= 32,
    ensures
        r@ == short_hash(data@, n as nat),
        r@.len() == 2 * n,
{
    let digest = sha256(data);
    let mut out: Vec<char> = Vec::new();
    let mut i: usize = 0;
    assert(digest@.take(0) =~= Seq::<u8>::empty());
    while i < n
        invariant
            out@.len() == 2 * i,
            i <= n <= 32,
            digest@ == sha256_of(data@),
            digest@.len() == 32,
            out@ == hex_bytes(digest@.take(i as int)),
        decreases n - i,
    {
        let h = hex_padded(digest[i] as u64, 2);
        proof {
            let b = digest@[i as int] as nat;
            if b >= 16 {
                assert(b / 16 < 16);
                assert(hex_of(b / 16).len() == 1);
            }
            assert(hex_of(b).len() <= 2);
        }
        append_chars(&mut out, &h);
        assert(digest@.take(i + 1).drop_last() =~= digest@.take(i as int));
        assert(digest@.take(i + 1).last() == digest@[i as int]);
        i = i + 1;
    }
    out
}

} // verus!
