//! Pairings: for each particle the index of the partner it meets in one
//! round. A round of the simulation pairs the particles by a random
//! permutation of their indices.

use crate::random::shuffle;
use rand::rngs::StdRng;
use vstd::prelude::*;
use vstd::seq_lib::{to_multiset_contains, to_multiset_len};

verus! {

/// `perm` names a partner among `n` particles for each of them.
pub open spec fn is_pairing(perm: Seq<usize>, n: int) -> bool {
    perm.len() == n && forall|i: int| 0 <= i < n ==> #[trigger] perm[i] < n
}

/// `perm` is a permutation of the indices below `n`.
pub open spec fn is_permutation(perm: Seq<usize>, n: int) -> bool {
    is_pairing(perm, n) && perm.no_duplicates()
}

/// Every round names a partner among `n` particles for each of them.
pub open spec fn are_pairings(rounds: Seq<Seq<usize>>, n: int) -> bool {
    forall|r: int| 0 <= r < rounds.len() ==> is_pairing(#[trigger] rounds[r], n)
}

/// Every round is a permutation of the indices below `n`.
pub open spec fn are_permutations(rounds: Seq<Seq<usize>>, n: int) -> bool {
    forall|r: int| 0 <= r < rounds.len() ==> is_permutation(#[trigger] rounds[r], n)
}

/// Any rearrangement of the indices `0, 1, ..` in order is a permutation.
proof fn lemma_rearranged_indices(indices: Seq<usize>, perm: Seq<usize>)
    requires
        forall|i: int| 0 <= i < indices.len() ==> indices[i] == i,
        perm.to_multiset() == indices.to_multiset(),
    ensures
        is_permutation(perm, indices.len() as int),
{
    to_multiset_len(indices);
    to_multiset_len(perm);
    assert(indices.no_duplicates());
    indices.lemma_multiset_has_no_duplicates();
    perm.lemma_multiset_has_no_duplicates_conv();
    assert forall|i: int| 0 <= i < perm.len() implies #[trigger] perm[i] < indices.len() by {
        assert(perm.contains(perm[i]));
        to_multiset_contains(perm, perm[i]);
        to_multiset_contains(indices, perm[i]);
        let j = choose|j: int| 0 <= j < indices.len() && indices[j] == perm[i];
        assert(indices[j] == j);
    }
}

/// The indices below `n`, in order.
pub fn identity(n: usize) -> (indices: Vec<usize>)
    ensures
        indices@.len() == n,
        forall|i: int| 0 <= i < n ==> indices[i] == i,
{
    let mut indices: Vec<usize> = Vec::new();
    let mut i: usize = 0;
    while i < n
        invariant
            i <= n,
            indices@.len() == i,
            forall|k: int| 0 <= k < i ==> indices[k] == k,
        decreases n - i,
    {
        indices.push(i);
        i = i + 1;
    }
    indices
}

/// Whether `perm` names a partner among `n` particles for each of them.
pub fn check_pairing(perm: &Vec<usize>, n: usize) -> (ok: bool)
    ensures
        ok == is_pairing(perm@, n as int),
{
    if perm.len() != n {
        return false;
    }
    let mut i: usize = 0;
    while i < n
        invariant
            i <= n,
            perm@.len() == n,
            forall|k: int| 0 <= k < i ==> #[trigger] perm[k] < n,
        decreases n - i,
    {
        if perm[i] >= n {
            return false;
        }
        i = i + 1;
    }
    true
}

/// Draws a permutation of the indices below `n`.
pub fn random_permutation(n: usize, rng: &mut StdRng) -> (perm: Vec<usize>)
    ensures
        is_permutation(perm@, n as int),
{
    let mut indices = identity(n);
    let ghost ordered = indices@;
    shuffle(&mut indices, rng);
    proof {
        lemma_rearranged_indices(ordered, indices@);
    }
    indices
}

} // verus!
