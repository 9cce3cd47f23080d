//! Powers of two and their logarithms, as used to size a tree from a capacity.

pub mod zeroed;

use vstd::arithmetic::power2::{
    lemma2_to64, lemma2_to64_rest, lemma_pow2_pos, lemma_pow2_strictly_increases,
    lemma_pow2_unfold, pow2,
};
use vstd::bits::lemma_u64_shl_is_mul;
use vstd::prelude::*;

verus! {

/// The largest value that `next_power_of_two` can round up within a `u64`.
pub const MAX_ROUNDABLE: u64 = 0x8000_0000_0000_0000;

/// `n` is `2^e` for some exponent `e`.
pub open spec fn is_power_of_two(n: nat) -> bool {
    exists|e: nat| pow2(e) == n
}

/// The least exponent `e` with `n <= 2^e`.
pub open spec fn ceil_log_two(n: nat) -> nat
    decreases n,
{
    if n <= 1 {
        0
    } else {
        1 + ceil_log_two((n + 1) / 2)
    }
}

/// The smallest power of two that is at least `n`.
pub open spec fn spec_next_power_of_two(n: nat) -> nat {
    pow2(ceil_log_two(n))
}

/// `ceil_log_two(n)` is the least exponent whose power of two reaches `n`:
/// `2^e` reaches `n` exactly when `e` is at least `ceil_log_two(n)`.
pub proof fn lemma_ceil_log_two_is_least(n: nat, e: nat)
    ensures
        n <= pow2(e) <==> ceil_log_two(n) <= e,
    decreases n,
{
    lemma_pow2_pos(e);
    if n <= 1 {
    } else if e == 0 {
        lemma2_to64();
    } else {
        lemma_pow2_unfold(e);
        lemma_ceil_log_two_is_least((n + 1) / 2, (e - 1) as nat);
    }
}

/// Powers of two grow with their exponent.
pub proof fn lemma_pow2_monotonic(a: nat, b: nat)
    requires
        a <= b,
    ensures
        pow2(a) <= pow2(b),
{
    if a < b {
        lemma_pow2_strictly_increases(a, b);
    }
}

/// A power of two below `2^64` has an exponent below 64.
pub proof fn lemma_pow2_fits_u64(e: nat)
    ensures
        pow2(e) <= u64::MAX <==> e < 64,
{
    lemma2_to64_rest();
    if e < 64 {
        lemma_pow2_monotonic(e, 63);
    } else {
        lemma_pow2_monotonic(64, e);
    }
}

/// `spec_next_power_of_two(n)` is a power of two, reaches `n`, and no smaller
/// power of two does.
pub proof fn lemma_next_power_of_two_is_least(n: nat)
    ensures
        is_power_of_two(spec_next_power_of_two(n)),
        n <= spec_next_power_of_two(n),
        forall|q: nat| #[trigger] is_power_of_two(q) && n <= q ==> spec_next_power_of_two(n) <= q,
{
    let c = ceil_log_two(n);
    lemma_ceil_log_two_is_least(n, c);
    assert forall|q: nat| #[trigger] is_power_of_two(q) && n <= q implies pow2(c) <= q by {
        let e = choose|e: nat| pow2(e) == q;
        lemma_ceil_log_two_is_least(n, e);
        lemma_pow2_monotonic(c, e);
    }
}

/// Two powers of two are equal only if their exponents are.
pub proof fn lemma_pow2_injective(a: nat, b: nat)
    requires
        pow2(a) == pow2(b),
    ensures
        a == b,
{
    if a < b {
        lemma_pow2_strictly_increases(a, b);
    } else if b < a {
        lemma_pow2_strictly_increases(b, a);
    }
}

/// Two to the power of `exponent`.
pub fn power_of_two(exponent: u8) -> (p: u64)
    requires
        exponent < 64,
    ensures
        p == pow2(exponent as nat),
{
    proof {
        lemma_pow2_fits_u64(exponent as nat);
        lemma_u64_shl_is_mul(1, exponent as u64);
    }
    1u64 << (exponent as u64)
}

/// Rounds `n` up to a power of two; zero rounds up to one.
pub fn next_power_of_two(n: u64) -> (p: u64)
    requires
        n <= MAX_ROUNDABLE,
    ensures
        p == spec_next_power_of_two(n as nat),
        is_power_of_two(p as nat),
        n <= p,
        forall|q: nat| #[trigger] is_power_of_two(q) && n <= q ==> p <= q,
{
    let mut p: u64 = 1;
    let ghost mut e: nat = 0;
    proof {
        lemma2_to64();
    }
    while p < n
        invariant
            n <= MAX_ROUNDABLE,
            p == pow2(e),
            e == 0 || pow2((e - 1) as nat) < n,
            e <= 63,
        decreases 64 - e,
    {
        proof {
            lemma2_to64_rest();
            lemma_pow2_unfold(e + 1);
            if e >= 63 {
                lemma_pow2_monotonic(63, e);
            }
        }
        p = p * 2;
        proof {
            e = e + 1;
        }
    }
    proof {
        lemma_ceil_log_two_is_least(n as nat, e);
        if e > 0 {
            lemma_ceil_log_two_is_least(n as nat, (e - 1) as nat);
        }
        lemma_next_power_of_two_is_least(n as nat);
    }
    p
}

/// The exponent of a power of two.
pub fn log_base_two(p: u64) -> (e: u64)
    requires
        is_power_of_two(p as nat),
    ensures
        pow2(e as nat) == p,
        e < 64,
{
    let ghost k: nat = choose|k: nat| pow2(k) == p as nat;
    proof {
        lemma_pow2_fits_u64(k);
    }
    let mut q: u64 = p;
    let mut e: u64 = 0;
    while q > 1
        invariant
            k < 64,
            e <= k,
            q == pow2((k - e) as nat),
            pow2(k) == p,
        decreases q,
    {
        proof {
            if e == k {
                lemma2_to64();
            }
            lemma_pow2_unfold((k - e) as nat);
        }
        q = q / 2;
        e = e + 1;
    }
    proof {
        if e < k {
            lemma_pow2_strictly_increases(0, (k - e) as nat);
            lemma2_to64();
        }
    }
    e
}

} // verus!
