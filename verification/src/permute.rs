//! The fixed reordering of feature bits that a model was trained with.
//!
//! An order is a row of indices. Applying it gathers: the bit at position `i`
//! of the result is the bit at position `order[i]` of the input. A model only
//! accepts an order that is a permutation of the positions, and such an order
//! can be undone.

use vstd::prelude::*;
use vstd::seq_lib::seq_to_set_is_finite;
use vstd::set_lib::{lemma_int_range, lemma_subset_equality, set_int_range};
use crate::tensor::IndexRow;

verus! {

/// `order` lists every position below `n` exactly once.
pub open spec fn is_permutation(order: Seq<u64>, n: nat) -> bool {
    &&& order.len() == n
    &&& forall|i: int| 0 <= i < n ==> order[i] < n
    &&& forall|i: int, j: int| 0 <= i < j < n ==> order[i] != order[j]
}

/// The gather of `bits` along `order`.
pub open spec fn spec_permute(bits: Seq<bool>, order: Seq<u64>) -> Seq<bool> {
    Seq::new(order.len(), |i: int| bits[order[i] as int])
}

/// The place at which `order` lists position `j`.
pub open spec fn position_of(order: Seq<u64>, j: int) -> int {
    choose|i: int| 0 <= i < order.len() && order[i] == j
}

/// The scatter that undoes a gather along `order`: the bit that the gather
/// took from position `j` is put back there.
pub open spec fn spec_unpermute(permuted: Seq<bool>, order: Seq<u64>) -> Seq<bool> {
    Seq::new(order.len(), |j: int| permuted[position_of(order, j)])
}

/// A permutation reaches every position: listing each position at most once
/// in as many places as there are positions leaves none out.
pub proof fn lemma_permutation_is_onto(order: Seq<u64>, n: nat, j: int)
    requires
        is_permutation(order, n),
        0 <= j < n,
    ensures
        0 <= position_of(order, j) < n,
        order[position_of(order, j)] == j,
{
    let listed = order.map_values(|x: u64| x as int);
    assert(listed.no_duplicates()) by {
        assert forall|a: int, b: int|
            0 <= a < listed.len() && 0 <= b < listed.len() && a != b implies listed[a]
            != listed[b] by {
            if a < b {
                assert(order[a] != order[b]);
            } else {
                assert(order[b] != order[a]);
            }
        }
    }
    listed.unique_seq_to_set();
    seq_to_set_is_finite(listed);
    lemma_int_range(0, n as int);
    let all = set_int_range(0, n as int);
    assert(listed.to_set().subset_of(all)) by {
        assert forall|x: int| listed.to_set().contains(x) implies all.contains(x) by {
            let a = choose|a: int| 0 <= a < listed.len() && listed[a] == x;
            assert(order[a] < n);
        }
    }
    lemma_subset_equality(listed.to_set(), all);
    assert(all.contains(j));
    assert(listed.to_set().contains(j));
    let a = choose|a: int| 0 <= a < listed.len() && listed[a] == j;
    assert(0 <= a < order.len() && order[a] == j);
}

/// The place of a listed position is the place where it is listed.
pub proof fn lemma_position_of_listed(order: Seq<u64>, n: nat, i: int)
    requires
        is_permutation(order, n),
        0 <= i < n,
    ensures
        position_of(order, order[i] as int) == i,
{
    let j = order[i] as int;
    lemma_permutation_is_onto(order, n, j);
    let k = position_of(order, j);
    if k < i {
        assert(order[k] != order[i]);
    } else if i < k {
        assert(order[i] != order[k]);
    }
}

/// Round trip: undoing the permutation of a bit sequence gives the sequence
/// back, and permuting what was undone gives that back too.
pub proof fn lemma_permute_round_trip(bits: Seq<bool>, order: Seq<u64>)
    requires
        is_permutation(order, bits.len()),
    ensures
        spec_unpermute(spec_permute(bits, order), order) == bits,
        spec_permute(spec_unpermute(bits, order), order) == bits,
{
    let n = bits.len();
    assert forall|j: int| 0 <= j < n implies spec_unpermute(spec_permute(bits, order), order)[j]
        == bits[j] by {
        lemma_permutation_is_onto(order, n, j);
    }
    assert(spec_unpermute(spec_permute(bits, order), order) =~= bits);
    assert forall|i: int| 0 <= i < n implies spec_permute(spec_unpermute(bits, order), order)[i]
        == bits[i] by {
        lemma_position_of_listed(order, n, i);
    }
    assert(spec_permute(spec_unpermute(bits, order), order) =~= bits);
}

/// A vector of `n` cleared flags.
fn cleared(n: usize) -> (flags: Vec<bool>)
    ensures
        flags.len() == n,
        forall|i: int| 0 <= i < n ==> !flags[i],
{
    let mut flags: Vec<bool> = Vec::new();
    let mut i: usize = 0;
    while i < n
        invariant
            i <= n,
            flags.len() == i,
            forall|k: int| 0 <= k < i ==> !flags[k],
        decreases n - i,
    {
        flags.push(false);
        i = i + 1;
    }
    flags
}

/// Decides whether `order` is a permutation of the positions below `n`.
pub fn check_permutation(order: &IndexRow, n: usize) -> (ok: bool)
    ensures
        ok == is_permutation(order@, n as nat),
{
    if order.len() != n {
        return false;
    }
    let mut seen: Vec<bool> = cleared(n);
    let mut i: usize = 0;
    while i < n
        invariant
            i <= n,
            order@.len() == n,
            seen.len() == n,
            forall|a: int| 0 <= a < i ==> order@[a] < n,
            forall|a: int, b: int| 0 <= a < b < i ==> order@[a] != order@[b],
            forall|j: int|
                0 <= j < n ==> (seen[j] <==> exists|a: int| 0 <= a < i && order@[a] == j),
        decreases n - i,
    {
        let target: u64 = order.get(i);
        if target >= n as u64 {
            assert(!(order@[i as int] < n));
            return false;
        }
        let slot: usize = target as usize;
        if seen[slot] {
            proof {
                let a = choose|a: int| 0 <= a < i && order@[a] == slot;
                assert(order@[a] == order@[i as int]);
            }
            return false;
        }
        seen.set(slot, true);
        proof {
            assert forall|j: int| 0 <= j < n implies (seen[j] <==> exists|a: int|
                0 <= a < i + 1 && order@[a] == j) by {
                if j == slot {
                    assert(order@[i as int] == j);
                } else if seen[j] {
                    let a = choose|a: int| 0 <= a < i && order@[a] == j;
                    assert(0 <= a < i + 1 && order@[a] == j);
                } else {
                    if exists|a: int| 0 <= a < i + 1 && order@[a] == j {
                        let a = choose|a: int| 0 <= a < i + 1 && order@[a] == j;
                        assert(a < i);
                    }
                }
            }
        }
        i = i + 1;
    }
    true
}

/// Gathers `bits` along `order`.
pub fn permute(bits: &Vec<bool>, order: &IndexRow) -> (permuted: Vec<bool>)
    requires
        forall|i: int| 0 <= i < order@.len() ==> order@[i] < bits.len(),
    ensures
        permuted@ == spec_permute(bits@, order@),
{
    let n: usize = order.len();
    let mut permuted: Vec<bool> = Vec::new();
    let mut i: usize = 0;
    while i < n
        invariant
            i <= n,
            n == order@.len(),
            permuted.len() == i,
            forall|k: int| 0 <= k < order@.len() ==> order@[k] < bits.len(),
            forall|k: int| 0 <= k < i ==> permuted[k] == bits[order@[k] as int],
        decreases n - i,
    {
        let source: usize = order.get(i) as usize;
        permuted.push(bits[source]);
        i = i + 1;
    }
    assert(permuted@ =~= spec_permute(bits@, order@));
    permuted
}

/// Undoes a gather along `order`.
pub fn unpermute(permuted: &Vec<bool>, order: &IndexRow) -> (bits: Vec<bool>)
    requires
        is_permutation(order@, permuted.len() as nat),
    ensures
        bits@ == spec_unpermute(permuted@, order@),
{
    let n: usize = order.len();
    let mut bits: Vec<bool> = cleared(n);
    let mut i: usize = 0;
    while i < n
        invariant
            i <= n,
            n == permuted.len(),
            bits.len() == n,
            is_permutation(order@, n as nat),
            forall|k: int| 0 <= k < i ==> bits[order@[k] as int] == permuted[k],
        decreases n - i,
    {
        let target: usize = order.get(i) as usize;
        let bit: bool = permuted[i];
        proof {
            assert forall|k: int| 0 <= k < i implies order@[k] != target by {
                assert(order@[k] != order@[i as int]);
            }
        }
        bits.set(target, bit);
        i = i + 1;
    }
    proof {
        assert forall|j: int| 0 <= j < n implies bits[j] == permuted[position_of(order@, j)] by {
            lemma_permutation_is_onto(order@, n as nat, j);
        }
        assert(bits@ =~= spec_unpermute(permuted@, order@));
    }
    bits
}

} // verus!
