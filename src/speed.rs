//! The gravity interval of each level, on a clock of whole nanoseconds.
//!
//! At level `L` a piece falls one row every `(0.8 - 0.007 (L - 1)) ^ (L - 1)`
//! seconds. Here the base is kept in thousandths and the power is taken one
//! factor at a time, each product truncated to whole nanoseconds. Level 1
//! gives one second whatever the base, since the exponent is zero. Where the
//! base would drop to zero or below, it counts as zero.

use vstd::prelude::*;

verus! {

/// The base of the power at `level`, in thousandths, floored at zero.
pub open spec fn speed_factor(level: int) -> int {
    let b = 800 - 7 * (level - 1);
    if b > 0 {
        b
    } else {
        0
    }
}

/// One second in nanoseconds, multiplied `n` times by `factor / 1000`, each
/// product truncated.
pub open spec fn scaled_interval(factor: int, n: nat) -> int
    decreases n,
{
    if n == 0 {
        1_000_000_000
    } else {
        scaled_interval(factor, (n - 1) as nat) * factor / 1000
    }
}

/// The gravity interval at `level`, in nanoseconds.
pub open spec fn fall_interval(level: int) -> int {
    scaled_interval(speed_factor(level), (level - 1) as nat)
}

/// Once the interval reaches zero it stays zero.
proof fn lemma_zero_stays(factor: int, i: nat, k: nat)
    requires
        i <= k,
        scaled_interval(factor, i) == 0,
    ensures
        scaled_interval(factor, k) == 0,
    decreases k - i,
{
    if i < k {
        lemma_zero_stays(factor, i, (k - 1) as nat);
    }
}

/// Returns the gravity interval at `level`, in nanoseconds.
pub fn drop_speed(level: u32) -> (r: u64)
    requires
        level >= 1,
    ensures
        r == fall_interval(level as int),
{
    let k: u32 = level - 1;
    let factor: u64 = if k < 115 {
        800 - 7 * k as u64
    } else {
        0
    };
    assert(factor == speed_factor(level as int));
    let mut v: u64 = 1_000_000_000;
    let mut i: u32 = 0;
    while i < k && v > 0
        invariant
            i <= k,
            factor < 1000,
            v <= 1_000_000_000,
            v == scaled_interval(factor as int, i as nat),
        decreases k - i,
    {
        assert(v * factor / 1000 <= v) by (nonlinear_arith)
            requires
                factor < 1000,
        ;
        v = v * factor / 1000;
        i = i + 1;
    }
    proof {
        if i < k {
            lemma_zero_stays(factor as int, i as nat, k as nat);
        }
    }
    v
}

} // verus!
