//! Rounding a requested capacity up to a power of two.
//!
//! A ring indexes its slots with a bit mask, so its capacity is always a
//! power of two: the least one that holds the requested number of slots.

use vstd::prelude::*;
use vstd::arithmetic::power2::is_pow2;

verus! {

/// The largest power of two that a machine word holds: its top bit alone.
pub const MAX_CAPACITY: usize = usize::MAX / 2 + 1;

/// The largest capacity is a power of two.
pub proof fn lemma_max_capacity_is_pow2()
    ensures
        is_pow2(MAX_CAPACITY as int),
{
    assert(0x8000_0000u64 & ((0x8000_0000u64 - 1) as u64) == 0) by (bit_vector);
    assert(0x8000_0000_0000_0000u64 & ((0x8000_0000_0000_0000u64 - 1) as u64) == 0)
        by (bit_vector);
    lemma_single_bit_is_pow2(MAX_CAPACITY as u64);
}

/// `r` is the least power of two that is not below `n`.
pub open spec fn least_power_of_two_from(r: int, n: int) -> bool {
    &&& is_pow2(r)
    &&& n <= r
    &&& forall|p: int| is_pow2(p) && n <= p ==> r <= p
}

/// `x` with every bit below its highest set bit set as well.
spec fn smear(x: u64) -> u64 {
    let a = x | (x >> 1);
    let b = a | (a >> 2);
    let c = b | (b >> 4);
    let d = c | (c >> 8);
    let e = d | (d >> 16);
    e | (e >> 32)
}

/// `smear` without its last step, which changes nothing below 2^32.
spec fn smear_half(x: u64) -> u64 {
    let a = x | (x >> 1);
    let b = a | (a >> 2);
    let c = b | (b >> 4);
    let d = c | (c >> 8);
    d | (d >> 16)
}

proof fn lemma_smear(x: u64)
    by (bit_vector)
    requires
        x < 0x8000_0000_0000_0000,
    ensures
        smear(x) < 0x8000_0000_0000_0000,
        x <= smear(x),
        ((smear(x) + 1) as u64) & smear(x) == 0,
        (smear(x) + 1) / 2 <= x,
        x < 0x8000_0000 ==> smear(x) < 0x8000_0000 && smear_half(x) == smear(x),
{
}

proof fn lemma_halve_single_bit(r: u64)
    by (bit_vector)
    requires
        r > 1,
        r & ((r - 1) as u64) == 0,
    ensures
        r % 2 == 0,
        (r / 2) & ((r / 2 - 1) as u64) == 0,
{
}

/// A non-zero word that shares no bit with its predecessor is a power of two.
pub proof fn lemma_single_bit_is_pow2(r: u64)
    requires
        r != 0,
        r & ((r - 1) as u64) == 0,
    ensures
        is_pow2(r as int),
    decreases r,
{
    reveal(is_pow2);
    if r > 1 {
        lemma_halve_single_bit(r);
        lemma_single_bit_is_pow2(r / 2);
    }
}

/// No power of two lies strictly between a power of two and its half.
pub proof fn lemma_pow2_above_half(p: int, r: int)
    requires
        is_pow2(p),
        is_pow2(r),
        r / 2 < p,
    ensures
        r <= p,
    decreases r,
{
    reveal(is_pow2);
    if r > 1 && p > 1 {
        lemma_pow2_above_half(p / 2, r / 2);
    }
}

/// Of two powers of two the smaller divides the larger.
pub proof fn lemma_pow2_divides(p: int, q: int)
    requires
        is_pow2(p),
        is_pow2(q),
        p <= q,
    ensures
        q % p == 0,
    decreases q,
{
    reveal(is_pow2);
    if p == q {
        vstd::arithmetic::div_mod::lemma_mod_self_0(p);
    } else {
        if q / 2 < p {
            lemma_pow2_above_half(p, q);
        }
        lemma_pow2_divides(p, q / 2);
        vstd::arithmetic::div_mod::lemma_fundamental_div_mod(q / 2, p);
        let k = (q / 2) / p;
        assert(q == (2 * k) * p + 0) by (nonlinear_arith)
            requires
                q == 2 * (q / 2),
                q / 2 == p * k,
        ;
        vstd::arithmetic::div_mod::lemma_fundamental_div_mod_converse(q, p, 2 * k, 0);
    }
}

/// At most one number is the least power of two from `n`: the rounding of a
/// capacity is a function of the request.
pub proof fn lemma_rounding_is_unique(a: int, b: int, n: int)
    requires
        least_power_of_two_from(a, n),
        least_power_of_two_from(b, n),
    ensures
        a == b,
{
}

/// A power of two rounds to itself.
pub proof fn lemma_rounding_fixes_powers(n: int)
    requires
        is_pow2(n),
    ensures
        least_power_of_two_from(n, n),
{
}

/// Rounds `u` up to the next power of two; a power of two is left as it is.
pub fn round_up_to_power_of_two(u: usize) -> (r: usize)
    requires
        1 <= u <= MAX_CAPACITY,
    ensures
        least_power_of_two_from(r as int, u as int),
        r <= MAX_CAPACITY,
{
    let ghost n = u;
    let ghost x = (u - 1) as u64;
    let mut u: usize = u;
    u -= 1;
    proof {
        lemma_smear(x);
    }
    u |= u >> 1;
    u |= u >> 2;
    u |= u >> 4;
    u |= u >> 8;
    u |= u >> 16;
    if usize::BITS > 32 {
        u |= u >> 32;
    }
    u += 1;
    proof {
        lemma_single_bit_is_pow2(u as u64);
        assert forall|p: int| is_pow2(p) && n <= p implies u <= p by {
            lemma_pow2_above_half(p, u as int);
        }
    }
    u
}

} // verus!
