//! The deterministic draw that orders entries before the first round.

use vstd::prelude::*;
use vstd::wrapping::u64_specs;

verus! {

broadcast use vstd::multiset::group_multiset_axioms;

/// The position that slot `i` is swapped with, for a draw seeded by `seed`.
pub open spec fn swap_slot(seed: u64, i: nat) -> int {
    (u64_specs::wrapping_add(u64_specs::wrapping_mul(seed, (i + 1) as u64), i as u64) % ((i + 1) as u64)) as int
}

/// The draw applied to slots `i`, `i - 1`, …, `1`, in that order.
pub open spec fn shuffle_down<A>(s: Seq<A>, seed: u64, i: int) -> Seq<A>
    decreases i,
{
    if i <= 0 || i >= s.len() {
        s
    } else {
        let j = swap_slot(seed, i as nat);
        shuffle_down(s.update(i, s[j]).update(j, s[i]), seed, i - 1)
    }
}

/// The whole draw: every slot from the last down to the second.
pub open spec fn shuffled<A>(s: Seq<A>, seed: u64) -> Seq<A> {
    shuffle_down(s, seed, s.len() - 1)
}

proof fn lemma_swap_slot_in_range(seed: u64, i: nat)
    requires
        i + 1 <= u64::MAX,
    ensures
        0 <= swap_slot(seed, i) <= i,
{
}

proof fn lemma_swap_keeps_multiset<A>(s: Seq<A>, i: int, j: int)
    requires
        0 <= i < s.len(),
        0 <= j < s.len(),
    ensures
        s.update(i, s[j]).update(j, s[i]).to_multiset() == s.to_multiset(),
        s.update(i, s[j]).update(j, s[i]).len() == s.len(),
{
    broadcast use {vstd::seq_lib::to_multiset_update, vstd::seq_lib::to_multiset_contains};

    let m = s.to_multiset();
    let s1 = s.update(i, s[j]);
    assert(s1[j] == s[j]);
    assert(s.contains(s[i]));
    assert(m.count(s[i]) > 0);
    let m1 = m.insert(s[j]).remove(s[i]);
    assert(s1.to_multiset() == m1);
    assert(m1.count(s[j]) > 0) by {
        if s[j] == s[i] {
            assert(m.insert(s[j]).count(s[j]) == m.count(s[j]) + 1);
        }
    }
    assert(s1.update(j, s[i]).to_multiset() == m1.insert(s[i]).remove(s[j]));
    assert(m1.insert(s[i]).remove(s[j]) =~= m);
}

/// The draw is a permutation: it keeps every entry, as often as it occurred.
pub proof fn lemma_shuffle_down_permutes<A>(s: Seq<A>, seed: u64, i: int)
    requires
        s.len() <= u64::MAX,
    ensures
        shuffle_down(s, seed, i).len() == s.len(),
        shuffle_down(s, seed, i).to_multiset() == s.to_multiset(),
    decreases i,
{
    if 0 < i < s.len() {
        let j = swap_slot(seed, i as nat);
        lemma_swap_slot_in_range(seed, i as nat);
        lemma_swap_keeps_multiset(s, i, j);
        lemma_shuffle_down_permutes(s.update(i, s[j]).update(j, s[i]), seed, i - 1);
    }
}

/// Law: the draw reorders the entries without losing, adding or duplicating any.
pub proof fn lemma_shuffle_permutes<A>(s: Seq<A>, seed: u64)
    requires
        s.len() <= u64::MAX,
    ensures
        shuffled(s, seed).len() == s.len(),
        shuffled(s, seed).to_multiset() == s.to_multiset(),
{
    lemma_shuffle_down_permutes(s, seed, s.len() - 1);
}

proof fn lemma_slot_without_wrap(seed: u64, i: nat)
    requires
        seed * (i + 1) + i <= u64::MAX,
        i + 1 <= u64::MAX,
    ensures
        swap_slot(seed, i) == i,
{
    let m = (i + 1) as int;
    assert(seed * (i + 1) <= u64::MAX) by (nonlinear_arith)
        requires seed * (i + 1) + i <= u64::MAX;
    assert(u64_specs::wrapping_mul(seed, (i + 1) as u64) == seed * (i + 1)) by (nonlinear_arith)
        requires seed * (i + 1) <= u64::MAX, 0 <= seed * (i + 1);
    let w = u64_specs::wrapping_mul(seed, (i + 1) as u64);
    assert(u64_specs::wrapping_add(w, i as u64) == seed * m + i);
    assert((seed * m + i) % m == i) by (nonlinear_arith)
        requires 0 <= i < m, seed >= 0;
    assert(((i + 1) as u64) as int == m);
}

/// Law: as long as `(seed + 1) × (number of entries)` fits in 64 bits, no
/// swap of the draw moves anything (each slot is swapped with itself), so the
/// entries keep their order. Only a wrapping multiplication reorders them.
pub proof fn lemma_draw_keeps_order_without_wrap<A>(s: Seq<A>, seed: u64, i: int)
    requires
        i < s.len(),
        (seed + 1) * s.len() <= u64::MAX,
    ensures
        shuffle_down(s, seed, i) == s,
    decreases i,
{
    if 0 < i {
        assert(seed * (i + 1) + i <= (seed + 1) * s.len()) by (nonlinear_arith)
            requires 0 <= i, i + 1 <= s.len(), seed >= 0;
        assert(i + 1 <= (seed + 1) * s.len()) by (nonlinear_arith)
            requires 0 <= i, i + 1 <= s.len(), seed >= 0;
        lemma_slot_without_wrap(seed, i as nat);
        assert(s.update(i, s[i]).update(i, s[i]) =~= s);
        lemma_draw_keeps_order_without_wrap(s, seed, i - 1);
    }
}

/// Shuffles `entries` in place with the draw seeded by `seed`: for each slot `i`
/// from the last down to 1, swap it with slot
/// `(seed * (i + 1) + i) mod 2^64 mod (i + 1)` (wrapping arithmetic).
pub fn shuffle_entries(entries: &mut Vec<String>, seed: u64)
    ensures
        final(entries)@ == shuffled(old(entries)@, seed),
        final(entries)@.len() == old(entries)@.len(),
        final(entries)@.to_multiset() == old(entries)@.to_multiset(),
{
    let ghost orig = entries@;
    let n = entries.len();
    proof {
        lemma_shuffle_permutes(orig, seed);
    }
    let mut k: usize = n;
    while k > 1
        invariant
            n == orig.len(),
            entries@.len() == n,
            k <= n,
            shuffle_down(entries@, seed, k as int - 1) == shuffled(orig, seed),
        decreases k,
    {
        let i = k - 1;
        let step = (i + 1) as u64;
        let j = (seed.wrapping_mul(step).wrapping_add(i as u64) % step) as usize;
        proof {
            lemma_swap_slot_in_range(seed, i as nat);
            assert(j as int == swap_slot(seed, i as nat));
        }
        let ai = entries[i].clone();
        let aj = entries[j].clone();
        entries.set(i, aj);
        entries.set(j, ai);
        k = i;
    }
}

} // verus!
