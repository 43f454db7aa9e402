use vstd::arithmetic::div_mod::{
    lemma_add_mod_noop, lemma_mod_add_multiples_vanish, lemma_small_mod,
};
use vstd::prelude::*;

verus! {

/// The slot `k` steps after `current` in a ring of `n` slots.
pub open spec fn ring_at(current: int, k: int, n: int) -> int {
    (current + k) % n
}

/// The skybox that comes after `current` in a ring of `supported.len()`
/// skyboxes, skipping those whose texture format the device cannot show.
///
/// It is the first supported one at `current + k` (mod the ring's size) for
/// `k` in `1..=len`; where none is supported, the walk ends on `current`.
pub fn next_cubemap_index(current: usize, supported: &Vec<bool>) -> (r: usize)
    requires
        current < supported@.len(),
    ensures
        r < supported@.len(),
        exists|k: int|
            1 <= k <= supported@.len() && r == #[trigger] ring_at(
                current as int,
                k,
                supported@.len() as int,
            ) && (supported@[r as int] || k == supported@.len()) && forall|j: int|
                1 <= j < k ==> !#[trigger] supported@[ring_at(
                    current as int,
                    j,
                    supported@.len() as int,
                )],
{
    let n = supported.len();
    let mut new_index = current;
    let mut k: usize = 0;
    proof {
        lemma_small_mod(current as nat, n as nat);
    }
    while k < n
        invariant
            n == supported@.len(),
            current < n,
            k <= n,
            new_index == ring_at(current as int, k as int, n as int),
            forall|j: int| 1 <= j <= k ==> !#[trigger] supported@[ring_at(current as int, j, n as int)],
        decreases n - k,
    {
        proof {
            lemma_mod_step(current as int, k as int, n as int);
        }
        new_index = (new_index + 1) % n;
        k = k + 1;
        if supported[new_index] {
            assert(new_index == ring_at(current as int, k as int, n as int));
            return new_index;
        }
    }
    proof {
        assert(new_index == ring_at(current as int, n as int, n as int));
        assert((current + n) % (n as int) == current) by {
            lemma_mod_add_multiples_vanish(current as int, n as int);
            lemma_small_mod(current as nat, n as nat);
        }
    }
    new_index
}

/// One more step around a ring of `n`: `((c + k) % n + 1) % n == (c + k + 1) % n`.
proof fn lemma_mod_step(c: int, k: int, n: int)
    requires
        0 <= c,
        0 <= k,
        0 < n,
    ensures
        ((c + k) % n + 1) % n == (c + k + 1) % n,
{
    lemma_add_mod_noop(c + k, 1, n);
    if n > 1 {
        lemma_small_mod(1, n as nat);
    }
}

} // verus!
