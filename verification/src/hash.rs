//! Tuples of bits and the family of hash functions that addresses a Bloom
//! filter with them.
//!
//! Two conventions are fixed here, and the Bloom filters of a trained model
//! are only meaningful under exactly these:
//!
//! * A tuple is read as a binary number whose least significant digit is the
//!   tuple's first bit.
//! * Hash function number `j` of the family with parameter `p` sends a tuple
//!   value `v` to `((v * a + b) mod p) mod m`, where `m` is the size of the
//!   filter, `a = 1 + j mod (p - 1)` (or `1` when `p` is `1`) and
//!   `b = j mod p`.

use vstd::prelude::*;
use vstd::arithmetic::power2::{lemma2_to64, lemma_pow2_strictly_increases, lemma_pow2_unfold, pow2};

verus! {

/// The widest tuple whose value fits the integer it is packed into.
pub const MAX_TUPLE_WIDTH: usize = 64;

/// A bit as a binary digit.
pub open spec fn bit_value(b: bool) -> nat {
    if b { 1 } else { 0 }
}

/// The number a tuple stands for: its first bit is the least significant digit.
pub open spec fn tuple_value(bits: Seq<bool>) -> nat
    decreases bits.len(),
{
    if bits.len() == 0 {
        0
    } else {
        bit_value(bits[0]) + 2 * tuple_value(bits.drop_first())
    }
}

/// The multiplier `a` of hash function `j` in the family with parameter `p`.
pub open spec fn spec_hash_multiplier(j: nat, p: nat) -> nat {
    if p <= 1 { 1 } else { 1 + j % ((p - 1) as nat) }
}

/// The offset `b` of hash function `j` in the family with parameter `p`.
pub open spec fn spec_hash_offset(j: nat, p: nat) -> nat {
    j % p
}

/// The address that hash function `j` gives tuple value `v` in a filter of
/// `m` entries.
pub open spec fn spec_hash_address(v: nat, j: nat, p: nat, m: nat) -> nat {
    ((v * spec_hash_multiplier(j, p) + spec_hash_offset(j, p)) % p) % m
}

/// Every address lies inside the filter.
pub proof fn lemma_hash_address_bound(v: nat, j: nat, p: nat, m: nat)
    requires
        m > 0,
    ensures
        spec_hash_address(v, j, p, m) < m,
{
}

/// Packs the `width` bits that start at `start` into a number.
pub fn pack_tuple(bits: &Vec<bool>, start: usize, width: usize) -> (v: u64)
    requires
        width <= MAX_TUPLE_WIDTH,
        start + width <= bits.len(),
    ensures
        v == tuple_value(bits@.subrange(start as int, start + width)),
{
    let mut v: u64 = 0;
    let mut t: usize = width;
    proof {
        lemma2_to64();
    }
    while t > 0
        invariant
            t <= width <= MAX_TUPLE_WIDTH,
            start + width <= bits.len(),
            v == tuple_value(bits@.subrange(start + t, start + width)),
            v < pow2((width - t) as nat),
        decreases t,
    {
        t = t - 1;
        let digit: u64 = if bits[start + t] { 1 } else { 0 };
        proof {
            let e = (width - t - 1) as nat;
            let tail = bits@.subrange(start + t + 1, start + width);
            let whole = bits@.subrange(start + t, start + width);
            assert(whole.drop_first() =~= tail);
            assert(whole[0] == bits@[start + t]);
            lemma_pow2_unfold(e + 1);
            lemma2_to64();
            if e + 1 < 64 {
                lemma_pow2_strictly_increases(e + 1, 64);
            }
        }
        v = 2 * v + digit;
    }
    v
}

/// The multiplier of hash function `j`.
pub fn hash_multiplier(j: usize, p: u64) -> (a: u64)
    ensures
        a == spec_hash_multiplier(j as nat, p as nat),
        p > 1 ==> 1 <= a < p,
{
    if p <= 1 {
        1
    } else {
        1 + (j as u64) % (p - 1)
    }
}

/// The offset of hash function `j`.
pub fn hash_offset(j: usize, p: u64) -> (b: u64)
    requires
        p > 0,
    ensures
        b == spec_hash_offset(j as nat, p as nat),
        b < p,
{
    (j as u64) % p
}

/// The address that hash function `j` gives tuple value `v` in a filter of
/// `m` entries.
pub fn hash_address(v: u64, j: usize, p: u64, m: usize) -> (a: usize)
    requires
        p > 0,
        m > 0,
    ensures
        a == spec_hash_address(v as nat, j as nat, p as nat, m as nat),
        a < m,
{
    let mult: u64 = hash_multiplier(j, p);
    let off: u64 = hash_offset(j, p);
    assert(v * mult + off <= u128::MAX) by (nonlinear_arith)
        requires
            0 <= v <= 0xffff_ffff_ffff_ffff,
            0 <= mult <= 0xffff_ffff_ffff_ffff,
            0 <= off <= 0xffff_ffff_ffff_ffff,
    ;
    let wide: u128 = (v as u128) * (mult as u128) + (off as u128);
    let folded: u128 = (wide % (p as u128)) % (m as u128);
    folded as usize
}

/// The addresses that the first `h` hash functions give tuple value `v`, in
/// the order of the functions.
pub fn hash_addresses(v: u64, h: usize, p: u64, m: usize) -> (addresses: Vec<usize>)
    requires
        p > 0,
        m > 0,
    ensures
        addresses.len() == h,
        forall|j: int|
            0 <= j < h ==> addresses[j] == spec_hash_address(
                v as nat,
                j as nat,
                p as nat,
                m as nat,
            ),
        forall|j: int| 0 <= j < h ==> addresses[j] < m,
{
    let mut addresses: Vec<usize> = Vec::new();
    let mut j: usize = 0;
    while j < h
        invariant
            j <= h,
            p > 0,
            m > 0,
            addresses.len() == j,
            forall|i: int|
                0 <= i < j ==> addresses[i] == spec_hash_address(
                    v as nat,
                    i as nat,
                    p as nat,
                    m as nat,
                ),
            forall|i: int| 0 <= i < j ==> addresses[i] < m,
        decreases h - j,
    {
        addresses.push(hash_address(v, j, p, m));
        j = j + 1;
    }
    addresses
}

} // verus!
