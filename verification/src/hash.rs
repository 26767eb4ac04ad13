//! Content hashing for rendered block artifacts.
//!
//! A block's hash is the hash of its rendered artifact's bytes, so
//! visually identical output always hashes identically regardless of
//! superficial source differences.  The hash is the 64-bit FNV-1a
//! function, fully specified here so that every reported hash is
//! independently recomputable.

use vstd::prelude::*;

verus! {

/// FNV-1a 64-bit offset basis.
pub const FNV_OFFSET: u64 = 0xcbf29ce484222325;

/// FNV-1a 64-bit prime.
pub const FNV_PRIME: u64 = 0x100000001b3;

/// One FNV-1a step: xor the byte in, then multiply by the prime mod 2^64.
pub open spec fn fnv_step(h: u64, b: u8) -> u64 {
    vstd::wrapping::u64_specs::wrapping_mul(h ^ (b as u64), FNV_PRIME)
}

/// FNV-1a folded over `s`, starting from state `h`.
pub open spec fn fnv_from(h: u64, s: Seq<u8>) -> u64
    decreases s.len(),
{
    if s.len() == 0 {
        h
    } else {
        fnv_from(fnv_step(h, s[0]), s.drop_first())
    }
}

/// The FNV-1a hash of a byte sequence.
pub open spec fn fnv(s: Seq<u8>) -> u64 {
    fnv_from(FNV_OFFSET, s)
}

/// Folding one more byte onto the end of the sequence is one more step.
pub proof fn lemma_fnv_from_push(h: u64, s: Seq<u8>, b: u8)
    ensures
        fnv_from(h, s.push(b)) == fnv_step(fnv_from(h, s), b),
    decreases s.len(),
{
    reveal_with_fuel(fnv_from, 3);
    if s.len() == 0 {
        assert(s.push(b)[0] == b);
        assert(s.push(b).drop_first() =~= Seq::<u8>::empty());
    } else {
        assert(s.push(b)[0] == s[0]);
        assert(s.push(b).drop_first() =~= s.drop_first().push(b));
        lemma_fnv_from_push(fnv_step(h, s[0]), s.drop_first(), b);
        assert(fnv_from(h, s.push(b)) == fnv_from(fnv_step(h, s[0]), s.drop_first().push(b)));
    }
}

/// Extend a running FNV-1a state by one byte.
pub fn fnv_push(h: u64, b: u8) -> (r: u64)
    ensures
        r == fnv_step(h, b),
{
    (h ^ (b as u64)).wrapping_mul(FNV_PRIME)
}

/// Extend a running FNV-1a state by a slice of bytes.
pub fn fnv_extend(h0: u64, bytes: &[u8]) -> (r: u64)
    ensures
        r == fnv_from(h0, bytes@),
{
    let mut h = h0;
    let n = bytes.len();
    assert(bytes@.take(0) =~= Seq::<u8>::empty());
    for i in 0..n
        invariant
            n == bytes@.len(),
            h == fnv_from(h0, bytes@.take(i as int)),
    {
        proof {
            lemma_fnv_from_push(h0, bytes@.take(i as int), bytes@[i as int]);
            assert(bytes@.take(i as int).push(bytes@[i as int]) =~= bytes@.take(i + 1));
        }
        h = fnv_push(h, bytes[i]);
    }
    proof {
        assert(bytes@.take(n as int) =~= bytes@);
    }
    h
}

/// The eight little-endian bytes of a 64-bit value.
pub open spec fn u64_le(n: u64) -> Seq<u8> {
    Seq::new(8, |i: int| ((n >> ((8 * i) as u64)) & 0xff) as u8)
}

/// Append the eight little-endian bytes of `n`.
pub fn append_u64_le(out: &mut Vec<u8>, n: u64)
    ensures
        final(out)@ == old(out)@ + u64_le(n),
{
    let ghost base = out@;
    for i in 0..8usize
        invariant
            out@ == base + u64_le(n).take(i as int),
    {
        let shift: u64 = (8 * i) as u64;
        let b: u8 = ((n >> shift) & 0xff) as u8;
        proof {
            assert(u64_le(n).take(i as int).push(u64_le(n)[i as int]) =~= u64_le(n).take(
                i + 1,
            ));
        }
        out.push(b);
    }
    proof {
        assert(u64_le(n).take(8) =~= u64_le(n));
    }
}

/// The hash of a string is the FNV-1a hash of its UTF-8 bytes.
pub open spec fn spec_hash_str(s: Seq<char>) -> u64 {
    fnv(vstd::utf8::encode_utf8(s))
}

/// Hash of a rendered artifact, as attached to every emitted block.
pub fn hash_svg(svg: &str) -> (r: u64)
    ensures
        r == spec_hash_str(svg@),
{
    fnv_extend(FNV_OFFSET, svg.as_bytes())
}

} // verus!
