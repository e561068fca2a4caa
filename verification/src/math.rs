use vstd::prelude::*;
use vstd::arithmetic::div_mod::{
    lemma_div_is_ordered, lemma_div_multiples_vanish, lemma_fundamental_div_mod, lemma_mod_bound,
};
use vstd::arithmetic::mul::{lemma_mul_inequality, lemma_mul_is_commutative};

verus! {

/// Multiplication commutes.
pub proof fn lemma_mul_comm(a: int, b: int)
    ensures
        a * b == b * a,
{
    lemma_mul_is_commutative(a, b);
}

/// The product of two values below `2^64` fits in 128 bits.
pub proof fn lemma_u64_product_fits(a: int, b: int)
    by (nonlinear_arith)
    requires
        0 <= a <= 0xffff_ffff_ffff_ffff,
        0 <= b <= 0xffff_ffff_ffff_ffff,
    ensures
        0 <= a * b <= 0xffff_ffff_ffff_ffff_ffff_ffff_ffff_ffff,
{
}

/// Floor division stays within one divisor of the dividend:
/// `d * (x / d) <= x < d * (x / d) + d`.
pub proof fn lemma_div_bounds(x: int, d: int)
    requires
        0 <= x,
        0 < d,
    ensures
        d * (x / d) <= x,
        x < d * (x / d) + d,
{
    lemma_fundamental_div_mod(x, d);
    lemma_mod_bound(x, d);
}

/// A running sum of at most `2^64` terms below `2^64` stays within
/// 128 bits at every step.
pub proof fn lemma_sum_step_fits(total: int, term: int, k: int, m: int)
    by (nonlinear_arith)
    requires
        0 <= total <= k * m,
        0 <= term <= m,
        0 <= k,
        k + 1 <= 0x1_0000_0000_0000_0000,
        0 <= m <= 0xffff_ffff_ffff_ffff,
    ensures
        total + term <= (k + 1) * m,
        total + term <= 0xffff_ffff_ffff_ffff_ffff_ffff_ffff_ffff,
{
}

/// A market-wide value total, enlarged by one more balance and scaled
/// by a ratio denominator, still fits in 128 bits when the registry
/// is bounded.
pub proof fn lemma_value_scale_fits(value: int, len: int, scale: int)
    by (nonlinear_arith)
    requires
        0 <= value <= len * 0xffff_ffff_ffff_ffff,
        0 <= len <= 1024,
        0 <= scale <= 10000,
    ensures
        (value + 0xffff_ffff_ffff_ffff) * scale <= 0xffff_ffff_ffff_ffff_ffff_ffff_ffff_ffff,
        value * scale <= 0xffff_ffff_ffff_ffff_ffff_ffff_ffff_ffff,
{
}

/// Scaling by a ratio at most one never grows a quantity:
/// `(a * s) / v <= a` whenever `s <= v`.
pub proof fn lemma_scale_down(a: int, s: int, v: int)
    requires
        0 <= a,
        0 <= s <= v,
        0 < v,
    ensures
        (a * s) / v <= a,
{
    lemma_mul_inequality(s, v, a);
    lemma_mul_comm(a, s);
    lemma_mul_comm(a, v);
    lemma_div_is_ordered(a * s, a * v, v);
    lemma_div_multiples_vanish(a, v);
}

/// Floor division is monotone in the dividend.
pub proof fn lemma_div_mono(x: int, y: int, d: int)
    requires
        x <= y,
        0 < d,
    ensures
        x / d <= y / d,
{
    lemma_div_is_ordered(x, y, d);
}

/// `(d * x) / d == x` for a positive divisor.
pub proof fn lemma_div_exact(x: int, d: int)
    requires
        0 <= x,
        0 < d,
    ensures
        (x * d) / d == x,
        (d * x) / d == x,
{
    lemma_div_multiples_vanish(x, d);
    lemma_mul_comm(x, d);
}

/// Multiplying the smaller side of an inequality keeps it:
/// `a <= b` gives `a * c <= b * c`.
pub proof fn lemma_mul_mono(a: int, b: int, c: int)
    requires
        a <= b,
        0 <= c,
    ensures
        a * c <= b * c,
        c * a <= c * b,
{
    lemma_mul_inequality(a, b, c);
    lemma_mul_comm(a, c);
    lemma_mul_comm(b, c);
}

} // verus!
