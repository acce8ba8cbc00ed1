//! Deterministic Elo-style rating update.
//!
//! After a decided contest the winner gains and the loser loses the same
//! amount, `delta = round(k * (1 - E))`, where the winner's expected score
//! is `E = 1 / (1 + 10^((loser - winner) / 400))`.  The power of ten is
//! evaluated in fixed-point arithmetic with six decimal places, so the
//! update is deterministic and bit-exact; every division rounds half up.
//! The score difference is clamped to `[-2000, 2000]`, beyond which the
//! expected outcome is within rounding distance of certainty.

use vstd::arithmetic::div_mod::lemma_div_denominator;
use vstd::arithmetic::div_mod::lemma_div_multiples_vanish;
use vstd::arithmetic::mul::lemma_mul_inequality;
use vstd::prelude::*;

verus! {

/// Fixed-point scale: values carry six decimal places.
pub const FP_SCALE: u64 = 1_000_000;

/// Half the scale, added before dividing so that division rounds half up.
pub const FP_HALF: u64 = 500_000;

/// Cap on intermediate fixed-point factors.  The factors of the clamped
/// computation stay below 20_000_000, so the cap is never reached; it makes
/// the arithmetic total without widening the integer type.
pub const FP_CAP: u64 = 100_000_000;

/// Largest score difference that still influences the update.
pub const DIFF_CLAMP: i64 = 2000;

/// `10^(1/400)` scaled by [`FP_SCALE`].
pub const POW10_C0: u64 = 1_005_773;

/// `10^(2/400)` scaled by [`FP_SCALE`].
pub const POW10_C1: u64 = 1_011_579;

/// `10^(4/400)` scaled by [`FP_SCALE`].
pub const POW10_C2: u64 = 1_023_293;

/// `10^(8/400)` scaled by [`FP_SCALE`].
pub const POW10_C3: u64 = 1_047_129;

/// `10^(16/400)` scaled by [`FP_SCALE`].
pub const POW10_C4: u64 = 1_096_478;

/// `10^(32/400)` scaled by [`FP_SCALE`].
pub const POW10_C5: u64 = 1_202_264;

/// `10^(64/400)` scaled by [`FP_SCALE`].
pub const POW10_C6: u64 = 1_445_440;

/// `10^(128/400)` scaled by [`FP_SCALE`].
pub const POW10_C7: u64 = 2_089_296;

/// `10^(256/400)` scaled by [`FP_SCALE`].
pub const POW10_C8: u64 = 4_365_158;

/// Fixed-point product, rounded half up.
pub open spec fn fp_mul(a: int, b: int) -> int {
    (a * b + FP_HALF) / (FP_SCALE as int)
}

/// Clamp an intermediate factor into `[0, FP_CAP]`.  Neither bound is
/// reached by the clamped computation; the clamp keeps the arithmetic
/// total.
pub open spec fn fp_clamp(a: int) -> int {
    if a > FP_CAP {
        FP_CAP as int
    } else if a < 0 {
        0
    } else {
        a
    }
}

/// `10^q` for `0 <= q <= 10`.
pub open spec fn pow10(q: int) -> int {
    if q <= 0 {
        1
    } else if q == 1 {
        10
    } else if q == 2 {
        100
    } else if q == 3 {
        1_000
    } else if q == 4 {
        10_000
    } else if q == 5 {
        100_000
    } else if q == 6 {
        1_000_000
    } else if q == 7 {
        10_000_000
    } else if q == 8 {
        100_000_000
    } else if q == 9 {
        1_000_000_000
    } else {
        10_000_000_000
    }
}

/// `10^(r/400)` scaled by [`FP_SCALE`], for `0 <= r < 400`: the product of
/// the precomputed `10^(2^i/400)` factors selected by the bits of `r`, one
/// rounded fixed-point multiplication per set bit, highest bit first.
pub open spec fn pow10_frac(r: int) -> int {
    let f0: int = FP_SCALE as int;
    let f1: int = if (r / 256) % 2 == 1 { fp_clamp(fp_mul(f0, POW10_C8 as int)) } else { f0 };
    let f2: int = if (r / 128) % 2 == 1 { fp_clamp(fp_mul(f1, POW10_C7 as int)) } else { f1 };
    let f3: int = if (r / 64) % 2 == 1 { fp_clamp(fp_mul(f2, POW10_C6 as int)) } else { f2 };
    let f4: int = if (r / 32) % 2 == 1 { fp_clamp(fp_mul(f3, POW10_C5 as int)) } else { f3 };
    let f5: int = if (r / 16) % 2 == 1 { fp_clamp(fp_mul(f4, POW10_C4 as int)) } else { f4 };
    let f6: int = if (r / 8) % 2 == 1 { fp_clamp(fp_mul(f5, POW10_C3 as int)) } else { f5 };
    let f7: int = if (r / 4) % 2 == 1 { fp_clamp(fp_mul(f6, POW10_C2 as int)) } else { f6 };
    let f8: int = if (r / 2) % 2 == 1 { fp_clamp(fp_mul(f7, POW10_C1 as int)) } else { f7 };
    if r % 2 == 1 { fp_clamp(fp_mul(f8, POW10_C0 as int)) } else { f8 }
}

/// Score difference `loser - winner`, clamped to
/// `[-DIFF_CLAMP, DIFF_CLAMP]`.
pub open spec fn elo_diff(winner: int, loser: int) -> int {
    let d: int = loser - winner;
    if d > DIFF_CLAMP {
        DIFF_CLAMP as int
    } else if d < -(DIFF_CLAMP as int) {
        -(DIFF_CLAMP as int)
    } else {
        d
    }
}

/// `10^(d/400)` scaled by [`FP_SCALE`], for a clamped difference `d`:
/// `d/400` is split into integer part `q - 5` and fractional part `r/400`
/// by shifting `d` into `[0, 4000]`.
pub open spec fn elo_power(d: int) -> int {
    let e: int = d + DIFF_CLAMP;
    let q: int = e / 400;
    let r: int = e % 400;
    (pow10_frac(r) * pow10(q) + 50_000) / 100_000
}

/// The amount the winner gains and the loser loses:
/// `round(k * p / (FP_SCALE + p))` with `p = elo_power(loser - winner)`,
/// which is `round(k * (1 - E))` for the winner's expected score `E`.
pub open spec fn elo_delta(k: int, winner: int, loser: int) -> int {
    let p: int = elo_power(elo_diff(winner, loser));
    let den: int = FP_SCALE + p;
    (k * p + den / 2) / den
}

/// Rating overflow: the update would leave the score's unsigned range.
#[derive(Clone, Copy, Debug, PartialEq, Eq, Structural)]
pub enum EloError {
    Overflow,
}

/// The rating calculator; `k` bounds how much one contest moves a score.
#[derive(Clone, Copy, Debug, PartialEq, Eq, Structural)]
pub struct EloRank {
    /// Gain factor of the update.
    pub k: u32,
}

/// The factor product stays within `[0, FP_CAP]`.
proof fn lemma_pow10_frac_bounds(r: int)
    ensures
        0 <= pow10_frac(r) <= FP_CAP,
{
}

/// The scaled power of ten lies between `10` (difference `-2000`) and
/// `FP_CAP * 10^10 / 10^5` (difference `2000`).
pub proof fn lemma_elo_power_bounds(d: int)
    ensures
        0 <= elo_power(d) <= 10_000_000_000_000,
{
    let e: int = d + DIFF_CLAMP;
    let q: int = e / 400;
    let r: int = e % 400;
    lemma_pow10_frac_bounds(r);
    assert(1 <= pow10(q) <= 10_000_000_000);
    assert(0 <= pow10_frac(r) * pow10(q) <= 1_000_000_000_000_000_000) by (nonlinear_arith)
        requires
            0 <= pow10_frac(r) <= 100_000_000,
            1 <= pow10(q) <= 10_000_000_000,
    ;
    assert(0 <= (pow10_frac(r) * pow10(q) + 50_000) / 100_000 <= 10_000_000_000_000)
        by (nonlinear_arith)
        requires
            0 <= pow10_frac(r) * pow10(q) <= 1_000_000_000_000_000_000,
    ;
}

/// The update moves a score by at most `k`, in either direction.
pub proof fn lemma_elo_delta_bounded(k: int, winner: int, loser: int)
    requires
        k >= 0,
    ensures
        0 <= elo_delta(k, winner, loser) <= k,
{
    let p: int = elo_power(elo_diff(winner, loser));
    let den: int = FP_SCALE + p;
    lemma_elo_power_bounds(elo_diff(winner, loser));
    lemma_mul_inequality(p, den, k);
    assert(k * p == p * k && k * den == den * k) by (nonlinear_arith);
    assert(0 <= (k * p + den / 2) / den <= k) by (nonlinear_arith)
        requires
            k * p <= k * den,
            0 <= p,
            den == FP_SCALE + p,
            k >= 0,
    ;
}

/// With equal scores the expected outcome is even, and the winner gains
/// exactly half of `k`, rounded half up.
pub proof fn lemma_elo_equal_scores(k: int, s: int)
    requires
        k >= 0,
    ensures
        elo_delta(k, s, s) == (k + 1) / 2,
{
    assert(elo_diff(s, s) == 0);
    assert(elo_power(0) == FP_SCALE);
    let scale: int = FP_SCALE as int;
    assert(k * scale + (2 * scale) / 2 == (k + 1) * scale);
    lemma_div_multiples_vanish(k + 1, scale);
    assert(((k + 1) * scale) / scale == k + 1);
    lemma_div_denominator((k + 1) * scale, scale, 2);
    assert(((k + 1) * scale) / (scale * 2) == (k + 1) / 2);
    assert(elo_delta(k, s, s) == ((k + 1) * scale) / (2 * scale));
}

/// One rounded fixed-point multiplication of the factor product, clamped
/// into `[0, FP_CAP]`.
fn fp_mul_step(a: u64, b: u64) -> (r: u64)
    requires
        a <= FP_CAP,
        b <= 5_000_000,
    ensures
        r == fp_clamp(fp_mul(a as int, b as int)),
        r <= FP_CAP,
{
    proof {
        assert(a * b <= 500_000_000_000_000) by (nonlinear_arith)
            requires
                a <= 100_000_000,
                b <= 5_000_000,
        ;
    }
    let prod: u64 = a * b + FP_HALF;
    let v: u64 = prod / FP_SCALE;
    if v > FP_CAP {
        FP_CAP
    } else {
        v
    }
}

/// `10^q` for `0 <= q <= 10`.
fn pow10_exec(q: u64) -> (r: u64)
    requires
        q <= 10,
    ensures
        r == pow10(q as int),
{
    if q == 0 {
        1
    } else if q == 1 {
        10
    } else if q == 2 {
        100
    } else if q == 3 {
        1_000
    } else if q == 4 {
        10_000
    } else if q == 5 {
        100_000
    } else if q == 6 {
        1_000_000
    } else if q == 7 {
        10_000_000
    } else if q == 8 {
        100_000_000
    } else if q == 9 {
        1_000_000_000
    } else {
        10_000_000_000
    }
}

/// The factor product of [`pow10_frac`], one clamped multiplication per
/// set bit of `r`, highest bit first.
#[verifier::rlimit(60)]
fn pow10_frac_exec(r: u64) -> (f: u64)
    ensures
        f == pow10_frac(r as int),
        f <= FP_CAP,
{
    let mut f: u64 = FP_SCALE;
    if (r / 256) % 2 == 1 {
        f = fp_mul_step(f, POW10_C8);
    }
    if (r / 128) % 2 == 1 {
        f = fp_mul_step(f, POW10_C7);
    }
    if (r / 64) % 2 == 1 {
        f = fp_mul_step(f, POW10_C6);
    }
    if (r / 32) % 2 == 1 {
        f = fp_mul_step(f, POW10_C5);
    }
    if (r / 16) % 2 == 1 {
        f = fp_mul_step(f, POW10_C4);
    }
    if (r / 8) % 2 == 1 {
        f = fp_mul_step(f, POW10_C3);
    }
    if (r / 4) % 2 == 1 {
        f = fp_mul_step(f, POW10_C2);
    }
    if (r / 2) % 2 == 1 {
        f = fp_mul_step(f, POW10_C1);
    }
    if r % 2 == 1 {
        f = fp_mul_step(f, POW10_C0);
    }
    f
}

impl EloRank {
    /// New scores after a decided contest: the winner's score rises by
    /// `delta = elo_delta(k, winner, looser)`, the loser's falls by the
    /// same `delta`.  Fails exactly when the winner's new score would
    /// overflow `u32` or the loser's would fall below zero.
    #[verifier::rlimit(60)]
    pub fn calculate(&self, winner: u32, looser: u32) -> (r: Result<(u32, u32), EloError>)
        ensures
            ({
                let delta: int = elo_delta(self.k as int, winner as int, looser as int);
                match r {
                    Ok((w, l)) => {
                        &&& winner + delta <= u32::MAX
                        &&& delta <= looser
                        &&& w == winner + delta
                        &&& l == looser - delta
                    },
                    Err(e) => {
                        &&& e == EloError::Overflow
                        &&& (winner + delta > u32::MAX || delta > looser)
                    },
                }
            }),
    {
        let d_raw: i64 = (looser as i64) - (winner as i64);
        let d: i64 = if d_raw > DIFF_CLAMP {
            DIFF_CLAMP
        } else if d_raw < -DIFF_CLAMP {
            -DIFF_CLAMP
        } else {
            d_raw
        };
        assert(d == elo_diff(winner as int, looser as int));
        let e: u64 = (d + DIFF_CLAMP) as u64;
        let q: u64 = e / 400;
        let r: u64 = e % 400;

        let f: u64 = pow10_frac_exec(r);
        let pw: u64 = pow10_exec(q);
        proof {
            assert(f * pw <= 1_000_000_000_000_000_000) by (nonlinear_arith)
                requires
                    f <= 100_000_000,
                    0 <= pw <= 10_000_000_000,
            ;
        }
        let p: u64 = (f * pw + 50_000) / 100_000;
        assert(p == elo_power(d as int));
        proof {
            lemma_elo_power_bounds(d as int);
        }

        let den: u64 = FP_SCALE + p;
        proof {
            assert((self.k as int) * (p as int) <= 0x1_0000_0000 * 10_000_000_000_000)
                by (nonlinear_arith)
                requires
                    self.k <= 0x1_0000_0000,
                    0 <= p <= 10_000_000_000_000,
            ;
        }
        let num: u128 = (self.k as u128) * (p as u128) + ((den / 2) as u128);
        let delta_wide: u128 = num / (den as u128);
        proof {
            lemma_elo_delta_bounded(self.k as int, winner as int, looser as int);
        }
        let delta: u32 = delta_wide as u32;
        assert(delta == elo_delta(self.k as int, winner as int, looser as int));

        if winner > u32::MAX - delta {
            return Err(EloError::Overflow);
        }
        if looser < delta {
            return Err(EloError::Overflow);
        }
        Ok((winner + delta, looser - delta))
    }
}

} // verus!
