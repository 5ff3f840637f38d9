//! A tiny deterministic PRNG (SplitMix64).
//!
//! Procedural scenes need reproducible randomness, not cryptographic quality,
//! and pinning the algorithm here means a seeded scene stays identical across
//! machines and crate updates.

use vstd::prelude::*;
use vstd::wrapping::u64_specs::{wrapping_add, wrapping_mul};
use vstd::arithmetic::div_mod::{lemma_mul_mod_noop_left, lemma_mul_mod_noop_right, lemma_small_mod};
use vstd::arithmetic::mul::lemma_mul_is_associative;

verus! {

/// The SplitMix64 increment.
pub open spec fn golden() -> u64 {
    0x9E37_79B9_7F4A_7C15u64
}

/// The state that follows `s`.
pub open spec fn step(s: u64) -> u64 {
    wrapping_add(s, golden())
}

/// The SplitMix64 output function.
pub open spec fn mix(z: u64) -> u64 {
    let a = wrapping_mul(z ^ (z >> 30u64), 0xBF58_476D_1CE4_E5B9u64);
    let b = wrapping_mul(a ^ (a >> 27u64), 0x94D0_49BB_1331_11EBu64);
    b ^ (b >> 31u64)
}

/// The value drawn from state `s`.
pub open spec fn output(s: u64) -> u64 {
    mix(step(s))
}

/// The state a generator seeded with `seed` starts in.
pub open spec fn seeded(seed: u64) -> u64 {
    wrapping_add(seed, golden())
}

/// `below(n)` from state `s`: the new state and a value in `0..n` (0 when
/// `n == 0`, without drawing).
pub open spec fn draw_below(s: u64, n: nat) -> (u64, nat) {
    if n == 0 {
        (s, 0)
    } else {
        (step(s), (output(s) as nat) % n)
    }
}

/// `range(lo, hi)` from state `s`: the new state and a value in `lo..=hi`
/// (`lo` when `hi <= lo`, without drawing).
pub open spec fn draw_range(s: u64, lo: int, hi: int) -> (u64, int) {
    if hi <= lo {
        (s, lo)
    } else {
        let (s2, v) = draw_below(s, (hi - lo + 1) as nat);
        (s2, lo + v)
    }
}

/// `chance(percent)` from state `s`.
pub open spec fn draw_chance(s: u64, percent: nat) -> (u64, bool) {
    (step(s), (output(s) as nat) % 100 < percent)
}

#[derive(Debug, Clone)]
pub struct Rng(u64);

impl View for Rng {
    type V = u64;

    closed spec fn view(&self) -> u64 {
        self.0
    }
}

impl Rng {
    pub fn new(seed: u64) -> (r: Self)
        ensures
            r@ == seeded(seed),
    {
        Rng(seed.wrapping_add(0x9E37_79B9_7F4A_7C15))
    }

    pub fn next_u64(&mut self) -> (v: u64)
        ensures
            final(self)@ == step(old(self)@),
            v == output(old(self)@),
    {
        self.0 = self.0.wrapping_add(0x9E37_79B9_7F4A_7C15);
        let mut z = self.0;
        z = (z ^ (z >> 30)).wrapping_mul(0xBF58_476D_1CE4_E5B9);
        z = (z ^ (z >> 27)).wrapping_mul(0x94D0_49BB_1331_11EB);
        z ^ (z >> 31)
    }

    /// Uniform in `0..n`. Returns 0 when `n == 0`.
    pub fn below(&mut self, n: usize) -> (v: usize)
        ensures
            (final(self)@, v as nat) == draw_below(old(self)@, n as nat),
            n > 0 ==> v < n,
            n == 0 ==> v == 0,
    {
        if n == 0 {
            0
        } else {
            (self.next_u64() % n as u64) as usize
        }
    }

    /// Uniform in `lo..=hi`.
    pub fn range(&mut self, lo: i32, hi: i32) -> (v: i32)
        requires
            hi - lo < i32::MAX,
        ensures
            (final(self)@, v as int) == draw_range(old(self)@, lo as int, hi as int),
            hi <= lo ==> v == lo,
            lo <= hi ==> lo <= v <= hi,
    {
        if hi <= lo {
            return lo;
        }
        let n = (hi - lo + 1) as usize;
        let d = self.below(n);
        lo + d as i32
    }

    pub fn chance(&mut self, percent: u32) -> (b: bool)
        ensures
            (final(self)@, b) == draw_chance(old(self)@, percent as nat),
    {
        (self.next_u64() % 100) < percent as u64
    }

    pub fn pick<'a, T>(&mut self, items: &'a [T]) -> (r: &'a T)
        requires
            items.len() > 0,
        ensures
            final(self)@ == draw_below(old(self)@, items.len() as nat).0,
            *r == items@[draw_below(old(self)@, items.len() as nat).1 as int],
    {
        &items[self.below(items.len())]
    }
}

} // verus!

verus! {

/// What `below` returns is below its bound.
pub proof fn lemma_draw_below(s: u64, n: nat)
    ensures
        n > 0 ==> draw_below(s, n).1 < n,
        n == 0 ==> draw_below(s, n).1 == 0,
{
    if n > 0 {
        let o = output(s) as nat;
        assert(o % n < n) by (nonlinear_arith)
            requires
                n > 0,
        ;
    }
}

/// What `range` returns lies in its range.
pub proof fn lemma_draw_range(s: u64, lo: int, hi: int)
    ensures
        lo <= hi ==> lo <= draw_range(s, lo, hi).1 <= hi,
        hi <= lo ==> draw_range(s, lo, hi).1 == lo,
{
    if hi > lo {
        lemma_draw_below(s, (hi - lo + 1) as nat);
    }
}

proof fn lemma_mix_steps_injective(x: u64, y: u64)
    ensures
        x ^ (x >> 30u64) == y ^ (y >> 30u64) ==> x == y,
        x ^ (x >> 27u64) == y ^ (y >> 27u64) ==> x == y,
        x ^ (x >> 31u64) == y ^ (y >> 31u64) ==> x == y,
{
    assert(x ^ (x >> 30u64) == y ^ (y >> 30u64) ==> x == y) by (bit_vector);
    assert(x ^ (x >> 27u64) == y ^ (y >> 27u64) ==> x == y) by (bit_vector);
    assert(x ^ (x >> 31u64) == y ^ (y >> 31u64) ==> x == y) by (bit_vector);
}

proof fn lemma_odd_mul_injective(x: u64, y: u64, c: u64, inv: u64)
    requires
        (c as int * inv as int) % 0x1_0000_0000_0000_0000 == 1,
        wrapping_mul(x, c) == wrapping_mul(y, c),
    ensures
        x == y,
{
    let m: int = 0x1_0000_0000_0000_0000;
    let k: int = c as int * inv as int;
    // Multiplying both sides by the inverse brings back each factor.
    assert forall|z: u64| #[trigger] wrapping_mul(z, c) as int * inv as int % m == z as int by {
        lemma_mul_mod_noop_left(z as int * c as int, inv as int, m);
        lemma_mul_is_associative(z as int, c as int, inv as int);
        lemma_mul_mod_noop_right(z as int, k, m);
        assert(z as int * 1 == z as int);
        lemma_small_mod(z as nat, m as nat);
    }
    assert(wrapping_mul(x, c) as int * inv as int % m == x as int);
    assert(wrapping_mul(y, c) as int * inv as int % m == y as int);
}

/// Seeding is one to one: generators seeded differently draw different first
/// values (each step of SplitMix64 can be undone).
pub proof fn different_seeds_draw_differently(a: u64, b: u64)
    requires
        a != b,
    ensures
        output(seeded(a)) != output(seeded(b)),
{
    let za = step(seeded(a));
    let zb = step(seeded(b));
    assert(za != zb);
    let c1 = 0xBF58_476D_1CE4_E5B9u64;
    let c2 = 0x94D0_49BB_1331_11EBu64;
    assert((c1 as int * 0x96de1b173f119089int) % 0x1_0000_0000_0000_0000 == 1);
    assert((c2 as int * 0x319642b2d24d8ec3int) % 0x1_0000_0000_0000_0000 == 1);
    if mix(za) == mix(zb) {
        let aa = wrapping_mul(za ^ (za >> 30u64), c1);
        let ab = wrapping_mul(zb ^ (zb >> 30u64), c1);
        let ba = wrapping_mul(aa ^ (aa >> 27u64), c2);
        let bb = wrapping_mul(ab ^ (ab >> 27u64), c2);
        lemma_mix_steps_injective(ba, bb);
        lemma_odd_mul_injective(aa ^ (aa >> 27u64), ab ^ (ab >> 27u64), c2, 0x319642b2d24d8ec3u64);
        lemma_mix_steps_injective(aa, ab);
        lemma_odd_mul_injective(za ^ (za >> 30u64), zb ^ (zb >> 30u64), c1, 0x96de1b173f119089u64);
        lemma_mix_steps_injective(za, zb);
    }
}

} // verus!
