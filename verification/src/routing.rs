//! Key-to-shard routing: a deterministic rolling hash over the key's bytes.

use vstd::prelude::*;

verus! {

/// Rolling hash over a byte sequence: fold each byte `b` into the
/// accumulator as `(h * 31 + b) mod n`, starting from 0.
pub open spec fn spec_hash(bytes: Seq<u8>, n: int) -> int
    recommends
        n >= 1,
    decreases bytes.len(),
{
    if bytes.len() == 0 {
        0
    } else {
        (spec_hash(bytes.drop_last(), n) * 31 + bytes.last()) % n
    }
}

/// The shard a key belongs to: the rolling hash of the key's UTF-8 bytes.
/// A pure function of the key and the shard count alone, so every call on
/// the same key routes to the same shard.
pub open spec fn spec_route(key: Seq<char>, n: int) -> int {
    spec_hash(vstd::utf8::encode_utf8(key), n)
}

/// The rolling hash of any byte sequence is a valid index into `n` shards.
pub proof fn lemma_hash_in_range(bytes: Seq<u8>, n: int)
    requires
        n >= 1,
    ensures
        0 <= spec_hash(bytes, n) < n,
    decreases bytes.len(),
{
    if bytes.len() > 0 {
        lemma_hash_in_range(bytes.drop_last(), n);
    }
}

/// Law: a key's route is always inside `[0, n)`, for every key and every
/// shard count `n >= 1`.
pub proof fn lemma_route_in_range(key: Seq<char>, n: int)
    requires
        n >= 1,
    ensures
        0 <= spec_route(key, n) < n,
{
    lemma_hash_in_range(vstd::utf8::encode_utf8(key), n);
}

/// Computes the shard index a key routes to. The result is exactly
/// `spec_route` of the key, so repeated calls with the same key and the
/// same shard count always land on the same shard.
pub fn hash_key(key: &str, num_shards: usize) -> (r: usize)
    requires
        num_shards >= 1,
    ensures
        r == spec_route(key@, num_shards as int),
        r < num_shards,
{
    let bytes: &[u8] = key.as_bytes();
    let n: u128 = num_shards as u128;
    let mut hash: u128 = 0;
    let mut i: usize = 0;
    while i < bytes.len()
        invariant
            i <= bytes@.len(),
            n == num_shards as u128,
            num_shards >= 1,
            bytes@ == vstd::utf8::encode_utf8(key@),
            hash == spec_hash(bytes@.subrange(0, i as int), num_shards as int),
            hash < n,
        decreases bytes@.len() - i,
    {
        let b: u128 = bytes[i] as u128;
        hash = (hash * 31 + b) % n;
        proof {
            let pre = bytes@.subrange(0, i as int);
            let post = bytes@.subrange(0, i + 1 as int);
            assert(post.drop_last() =~= pre);
            assert(post.last() == bytes@[i as int]);
        }
        i = i + 1;
    }
    proof {
        assert(bytes@.subrange(0, bytes@.len() as int) =~= bytes@);
    }
    hash as usize
}

} // verus!
