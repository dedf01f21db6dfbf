//! Sampling: the first rows of the current order, or a seeded random choice.
//!
//! The random choice is pinned down completely. The generator is SplitMix64:
//! the state advances by the constant `0x9E3779B97F4A7C15` modulo 2^64 and is
//! then scrambled by two rounds of xor-shift and multiplication. The choice is
//! a partial Fisher-Yates shuffle: step `i` draws a number `d` and swaps row
//! `i` with row `i + d % (n - i)`; after `k` steps the first `k` rows are the
//! sample. The same seed and the same rows give the same sample, in the same
//! order, on every machine.

use crate::value::{key_in_range, Key};
use vstd::prelude::*;

verus! {

/// The seed of a random sample.
#[derive(Clone, Copy, Debug, PartialEq, Eq, Structural)]
pub struct Seed(pub u64);

/// How to sample: the first `k` rows, or `k` rows chosen by a seed.
#[derive(Clone, Copy, Debug, PartialEq, Eq, Structural)]
pub enum SampleSpec {
    Top(usize),
    Random(usize, Seed),
}

/// Multiplication modulo 2^64.
pub open spec fn wrap_mul(a: u64, b: u64) -> u64 {
    ((a * b) % 0x1_0000_0000_0000_0000) as u64
}

/// Addition modulo 2^64.
pub open spec fn wrap_add(a: u64, b: u64) -> u64 {
    ((a + b) % 0x1_0000_0000_0000_0000) as u64
}

/// The generator's next state.
pub open spec fn advance(state: u64) -> u64 {
    wrap_add(state, 0x9E37_79B9_7F4A_7C15)
}

/// The number the generator gives out in state `z`.
pub open spec fn scramble(z: u64) -> u64 {
    let a = wrap_mul(z ^ (z >> 30), 0xBF58_476D_1CE4_E5B9);
    let b = wrap_mul(a ^ (a >> 27), 0x94D0_49BB_1331_11EB);
    b ^ (b >> 31)
}

fn times(a: u64, b: u64) -> (p: u64)
    ensures
        p == wrap_mul(a, b),
{
    assert(a * b <= 0xffff_ffff_ffff_ffff * 0xffff_ffff_ffff_ffff) by (nonlinear_arith)
        requires
            0 <= a <= 0xffff_ffff_ffff_ffff,
            0 <= b <= 0xffff_ffff_ffff_ffff,
    ;
    let wide: u128 = (a as u128) * (b as u128);
    (wide % 0x1_0000_0000_0000_0000) as u64
}

fn plus(a: u64, b: u64) -> (p: u64)
    ensures
        p == wrap_add(a, b),
{
    let wide: u128 = (a as u128) + (b as u128);
    (wide % 0x1_0000_0000_0000_0000) as u64
}

/// Advances the generator.
pub fn next_state(state: u64) -> (s: u64)
    ensures
        s == advance(state),
{
    plus(state, 0x9E37_79B9_7F4A_7C15)
}

/// The number given out in state `z`.
pub fn output(z: u64) -> (d: u64)
    ensures
        d == scramble(z),
{
    let a = times(z ^ (z >> 30), 0xBF58_476D_1CE4_E5B9);
    let b = times(a ^ (a >> 27), 0x94D0_49BB_1331_11EB);
    b ^ (b >> 31)
}

/// The low 64 bits of a rank's number.
pub open spec fn key_bits(k: Key) -> u64 {
    ((k.num + 0x1_0000_0000_0000_0000) % 0x1_0000_0000_0000_0000) as u64
}

/// The seed that a group with key `k` samples with: the seed of the
/// specification mixed with the key, so that groups do not all make the same
/// choices.
pub open spec fn group_seed(seed: u64, k: Key) -> u64 {
    scramble(wrap_add(scramble(seed ^ key_bits(k)), k.tag as u64))
}

/// Derives the seed of one group.
pub fn seed_for_group(seed: u64, k: Key) -> (s: u64)
    requires
        key_in_range(k),
    ensures
        s == group_seed(seed, k),
{
    let shifted: i128 = k.num + 0x1_0000_0000_0000_0000;
    let bits: u64 = ((shifted as u128) % 0x1_0000_0000_0000_0000) as u64;
    output(plus(output(seed ^ bits), k.tag as u64))
}

/// The smaller of a requested size and what is there.
pub open spec fn clamp(k: int, n: int) -> int {
    if k < n {
        k
    } else {
        n
    }
}

/// The first `k` rows, or all of them where there are fewer.
pub open spec fn top(rows: Seq<usize>, k: int) -> Seq<usize> {
    rows.take(clamp(k, rows.len() as int))
}

/// `rows` with the rows at `i` and `j` exchanged.
pub open spec fn swap(rows: Seq<usize>, i: int, j: int) -> Seq<usize> {
    rows.update(i, rows[j]).update(j, rows[i])
}

/// The row that step `i` exchanges row `i` with, in generator state `state`.
pub open spec fn partner(n: int, i: int, state: u64) -> int {
    i + (scramble(state) as int) % (n - i)
}

/// `rows` after the shuffle steps `i..k`, the generator standing at `state`
/// before step `i`.
pub open spec fn shuffle(rows: Seq<usize>, k: int, state: u64, i: int) -> Seq<usize>
    decreases k - i,
{
    if i < 0 || i >= k || i >= rows.len() {
        rows
    } else {
        let s = advance(state);
        shuffle(swap(rows, i, partner(rows.len() as int, i, s)), k, s, i + 1)
    }
}

/// The random sample of `k` rows for a seed: the first `k` rows after `k`
/// shuffle steps, or all rows, shuffled, where there are fewer.
pub open spec fn random(rows: Seq<usize>, k: int, seed: u64) -> Seq<usize> {
    let m = clamp(k, rows.len() as int);
    shuffle(rows, m, seed, 0).take(m)
}

/// What a sample specification selects from `rows`.
pub open spec fn sample(rows: Seq<usize>, spec: SampleSpec) -> Seq<usize> {
    match spec {
        SampleSpec::Top(k) => top(rows, k as int),
        SampleSpec::Random(k, seed) => random(rows, k as int, seed.0),
    }
}

/// Takes the first `k` rows.
pub fn take_top(rows: Vec<usize>, k: usize) -> (out: Vec<usize>)
    ensures
        out@ == top(rows@, k as int),
{
    let mut out = rows;
    if k < out.len() {
        out.truncate(k);
    }
    assert(out@ =~= top(rows@, k as int));
    out
}

/// Takes a random sample of `k` rows.
pub fn take_random(rows: Vec<usize>, k: usize, seed: u64) -> (out: Vec<usize>)
    ensures
        out@ == random(rows@, k as int, seed),
{
    let mut out = rows;
    let n = out.len();
    let m = if k < n {
        k
    } else {
        n
    };
    let mut state = seed;
    let mut i: usize = 0;
    while i < m
        invariant
            i <= m <= n,
            n == out.len(),
            n == rows.len(),
            shuffle(rows@, m as int, seed, 0) == shuffle(out@, m as int, state, i as int),
        decreases m - i,
    {
        state = next_state(state);
        let d = output(state);
        let span: u64 = (n - i) as u64;
        let j = i + ((d % span) as usize);
        let a = out[i];
        let b = out[j];
        out.set(i, b);
        out.set(j, a);
        i += 1;
    }
    out.truncate(m);
    out
}

/// Applies a sample specification.
pub fn take_sample(rows: Vec<usize>, spec: SampleSpec) -> (out: Vec<usize>)
    ensures
        out@ == sample(rows@, spec),
{
    match spec {
        SampleSpec::Top(k) => take_top(rows, k),
        SampleSpec::Random(k, seed) => take_random(rows, k, seed.0),
    }
}

/// A shuffle rearranges the rows: it keeps every row, each as often as before.
pub proof fn lemma_shuffle_keeps_rows(rows: Seq<usize>, k: int, state: u64, i: int)
    ensures
        shuffle(rows, k, state, i).len() == rows.len(),
        shuffle(rows, k, state, i).to_multiset() == rows.to_multiset(),
    decreases k - i,
{
    broadcast use vstd::seq_lib::group_to_multiset_ensures;
    broadcast use vstd::multiset::group_multiset_axioms;

    if i < 0 || i >= k || i >= rows.len() {
    } else {
        let s = advance(state);
        let j = partner(rows.len() as int, i, s);
        let next = swap(rows, i, j);
        lemma_shuffle_keeps_rows(next, k, s, i + 1);
        let mid = rows.update(i, rows[j]);
        assert(mid.to_multiset() == rows.to_multiset().insert(rows[j]).remove(rows[i]));
        assert(next.to_multiset() == mid.to_multiset().insert(rows[i]).remove(mid[j]));
        assert(next.to_multiset() =~= rows.to_multiset());
    }
}

/// Sampling is without replacement and clamped: a sample has as many rows as
/// were asked for, or all of them where there are fewer, and holds no row
/// more often than the rows it was drawn from.
pub proof fn lemma_sample_is_selection(rows: Seq<usize>, spec: SampleSpec)
    ensures
        sample(rows, spec).len() == match spec {
            SampleSpec::Top(k) => clamp(k as int, rows.len() as int),
            SampleSpec::Random(k, _) => clamp(k as int, rows.len() as int),
        },
        sample(rows, spec).to_multiset().subset_of(rows.to_multiset()),
{
    broadcast use vstd::multiset::group_multiset_axioms;

    match spec {
        SampleSpec::Top(k) => {
            let m = clamp(k as int, rows.len() as int);
            assert(rows =~= rows.take(m) + rows.skip(m));
            vstd::seq_lib::lemma_multiset_commutative(rows.take(m), rows.skip(m));
        },
        SampleSpec::Random(k, seed) => {
            let m = clamp(k as int, rows.len() as int);
            let all = shuffle(rows, m, seed.0, 0);
            lemma_shuffle_keeps_rows(rows, m, seed.0, 0);
            assert(all =~= all.take(m) + all.skip(m));
            vstd::seq_lib::lemma_multiset_commutative(all.take(m), all.skip(m));
        },
    }
}

} // verus!
