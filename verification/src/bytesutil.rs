//! Little-endian byte building and reading helpers shared by the blob, the
//! frame codec and the message codec.

use crate::account::{pubkey_bytes, slice_subrange, Pubkey};
use vstd::bytes::{
    spec_u32_from_le_bytes, spec_u32_to_le_bytes, spec_u64_from_le_bytes, spec_u64_to_le_bytes,
    u32_from_le_bytes, u32_to_le_bytes, u64_from_le_bytes, u64_to_le_bytes,
};
use vstd::prelude::*;

verus! {

/// A sequence of `n` zero bytes.
pub open spec fn zero_bytes(n: int) -> Seq<u8> {
    Seq::new(n as nat, |i: int| 0u8)
}

pub fn push_u8(v: &mut Vec<u8>, x: u8)
    ensures
        final(v)@ == old(v)@.push(x),
{
    v.push(x);
}

pub fn push_u32_le(v: &mut Vec<u8>, x: u32)
    ensures
        final(v)@ == old(v)@ + spec_u32_to_le_bytes(x),
{
    let mut b = u32_to_le_bytes(x);
    v.append(&mut b);
}

pub fn push_u64_le(v: &mut Vec<u8>, x: u64)
    ensures
        final(v)@ == old(v)@ + spec_u64_to_le_bytes(x),
{
    let mut b = u64_to_le_bytes(x);
    v.append(&mut b);
}

pub fn push_bytes(v: &mut Vec<u8>, src: &[u8])
    ensures
        final(v)@ == old(v)@ + src@,
{
    let mut i: usize = 0;
    while i < src.len()
        invariant
            i <= src@.len(),
            v@ == old(v)@ + src@.take(i as int),
        decreases src@.len() - i,
    {
        v.push(src[i]);
        proof {
            assert(old(v)@ + src@.take(i + 1) =~= (old(v)@ + src@.take(i as int)).push(
                src@[i as int],
            ));
        }
        i = i + 1;
    }
    proof {
        assert(src@.take(src@.len() as int) =~= src@);
    }
}

pub fn push_zeros(v: &mut Vec<u8>, n: usize)
    ensures
        final(v)@ == old(v)@ + zero_bytes(n as int),
{
    let mut i: usize = 0;
    while i < n
        invariant
            i <= n,
            v@ == old(v)@ + zero_bytes(i as int),
        decreases n - i,
    {
        v.push(0u8);
        proof {
            assert(old(v)@ + zero_bytes(i + 1) =~= (old(v)@ + zero_bytes(i as int)).push(0u8));
        }
        i = i + 1;
    }
}

pub fn push_pubkey(v: &mut Vec<u8>, pk: &Pubkey)
    ensures
        final(v)@ == old(v)@ + pubkey_bytes(*pk),
{
    let mut b = pk.to_bytes();
    v.append(&mut b);
}

pub fn read_u8(v: &Vec<u8>, i: usize) -> (r: u8)
    requires
        i < v@.len(),
    ensures
        r == v@[i as int],
{
    v[i]
}

pub fn read_u32_le(v: &Vec<u8>, i: usize) -> (r: u32)
    requires
        i + 4 <= v@.len(),
    ensures
        r == spec_u32_from_le_bytes(v@.subrange(i as int, i + 4)),
{
    // naming the length brings `v@.len() <= usize::MAX` into scope
    let _n: usize = v.len();
    u32_from_le_bytes(slice_subrange(v.as_slice(), i, i + 4))
}

pub fn read_u64_le(v: &Vec<u8>, i: usize) -> (r: u64)
    requires
        i + 8 <= v@.len(),
    ensures
        r == spec_u64_from_le_bytes(v@.subrange(i as int, i + 8)),
{
    let _n: usize = v.len();
    u64_from_le_bytes(slice_subrange(v.as_slice(), i, i + 8))
}

pub fn read_pubkey(v: &Vec<u8>, i: usize) -> (r: Pubkey)
    requires
        i + 32 <= v@.len(),
    ensures
        pubkey_bytes(r) == v@.subrange(i as int, i + 32),
{
    let _n: usize = v.len();
    Pubkey::from_bytes(slice_subrange(v.as_slice(), i, i + 32))
}

/// Copy `v[i..i + n]` out as a fresh vector.
pub fn read_bytes(v: &Vec<u8>, i: usize, n: usize) -> (r: Vec<u8>)
    requires
        i + n <= v@.len(),
    ensures
        r@ == v@.subrange(i as int, i + n),
{
    let nv: usize = v.len();
    let mut r: Vec<u8> = Vec::new();
    let mut k: usize = 0;
    while k < n
        invariant
            k <= n,
            i + n <= nv == v@.len(),
            r@ == v@.subrange(i as int, i + k),
        decreases n - k,
    {
        r.push(v[i + k]);
        proof {
            assert(v@.subrange(i as int, i + k + 1) =~= v@.subrange(i as int, i + k as int).push(
                v@[i + k],
            ));
        }
        k = k + 1;
    }
    r
}

/// Overwrite `v[at + k] = src[k]` for `k < src.len()`, leaving every other
/// byte unchanged.
pub fn write_bytes(v: &mut Vec<u8>, at: usize, src: &[u8])
    requires
        at + src@.len() <= old(v)@.len(),
    ensures
        final(v)@.len() == old(v)@.len(),
        final(v)@.subrange(at as int, at + src@.len()) == src@,
        forall|k: int| 0 <= k < at ==> final(v)@[k] == old(v)@[k],
        forall|k: int| at + src@.len() <= k < final(v)@.len() ==> final(v)@[k] == old(v)@[k],
{
    let nv: usize = v.len();
    let mut k: usize = 0;
    while k < src.len()
        invariant
            k <= src@.len(),
            at + src@.len() <= nv == v@.len(),
            v@.len() == old(v)@.len(),
            forall|j: int| 0 <= j < k ==> v@[at + j] == src@[j],
            forall|j: int| 0 <= j < at ==> v@[j] == old(v)@[j],
            forall|j: int| at + k <= j < v@.len() ==> v@[j] == old(v)@[j],
        decreases src@.len() - k,
    {
        v[at + k] = src[k];
        k = k + 1;
    }
    proof {
        assert(v@.subrange(at as int, at + src@.len()) =~= src@);
    }
}

/// Overwrite 8 bytes at `at` with the little-endian form of `x`.
pub fn write_u64_le(v: &mut Vec<u8>, at: usize, x: u64)
    requires
        at + 8 <= old(v)@.len(),
    ensures
        final(v)@.len() == old(v)@.len(),
        final(v)@.subrange(at as int, at + 8) == spec_u64_to_le_bytes(x),
        forall|k: int| 0 <= k < at ==> final(v)@[k] == old(v)@[k],
        forall|k: int| at + 8 <= k < final(v)@.len() ==> final(v)@[k] == old(v)@[k],
{
    let b = u64_to_le_bytes(x);
    write_bytes(v, at, b.as_slice());
}

/// Overwrite 32 bytes at `at` with the wire form of `pk`.
pub fn write_pubkey(v: &mut Vec<u8>, at: usize, pk: &Pubkey)
    requires
        at + 32 <= old(v)@.len(),
    ensures
        final(v)@.len() == old(v)@.len(),
        final(v)@.subrange(at as int, at + 32) == pubkey_bytes(*pk),
        forall|k: int| 0 <= k < at ==> final(v)@[k] == old(v)@[k],
        forall|k: int| at + 32 <= k < final(v)@.len() ==> final(v)@[k] == old(v)@[k],
{
    let b = pk.to_bytes();
    write_bytes(v, at, b.as_slice());
}

} // verus!
