//! Fixed-point units and the offset reduction used by the tile-placement
//! algorithm, together with the arithmetic lemmas the rest of the crate
//! builds on.

use vstd::prelude::*;

verus! {

/// Nano-units per logical unit: positions and widths are `i64` multiples of
/// `1 / SCALE` of a logical unit.
pub const SCALE: i64 = 1_000_000_000;

/// Width of the viewport in nano-units (the logical interval [-1, 1]).
pub const VIEW_SPAN: i64 = 2_000_000_000;

/// Largest tile width a layer may be built with (1000 logical units).
pub const MAX_BLOCK_WIDTH: i64 = 1_000_000_000_000;

/// Largest magnitude of a scroll speed, in nano-units per microsecond
/// (one nano-unit per microsecond is 0.001 logical units per second).
pub const MAX_SPEED: i64 = 1_000_000_000;

/// Largest time delta fed to a single update, in microseconds (1000 s).
pub const MAX_DELTA_US: u64 = 1_000_000_000;

/// Largest magnitude the stored scroll offset is allowed to reach.
pub const MAX_OFFSET: i64 = 4_000_000_000_000_000_000;

/// The tiling window's reduction: the remainder of `a` by `b`, shifted into
/// `(-b, 0]`. Keeping the reduction non-positive keeps the first tile's
/// leading edge at or before the viewport's left edge whatever the offset's
/// sign (a bare truncating remainder would leave a positive offset's
/// reduction positive and open a gap at the left edge), and it makes the
/// reduction periodic in `b` across zero.
pub open spec fn mod_window(a: int, b: int) -> int
    recommends
        b > 0,
{
    let m0 = a % b;
    if m0 == 0 {
        0
    } else {
        m0 - b
    }
}

/// The reduction lies in the window `(-b, 0]`, for every `a`.
pub proof fn lemma_mod_window_range(a: int, b: int)
    requires
        b > 0,
    ensures
        -b < mod_window(a, b) <= 0,
{
    vstd::arithmetic::div_mod::lemma_mod_bound(a, b);
}

/// Shifting by any whole number of tile widths leaves the reduction
/// unchanged, whatever the signs involved.
pub proof fn lemma_mod_window_periodic(a: int, b: int, k: int)
    requires
        b > 0,
    ensures
        mod_window(a + k * b, b) == mod_window(a, b),
{
    lemma_mod_multiple_cancel(a, b, k);
}

/// The Euclidean remainder ignores added multiples of the divisor.
proof fn lemma_mod_multiple_cancel(a: int, b: int, k: int)
    requires
        b > 0,
    ensures
        (a + k * b) % b == a % b,
{
    vstd::arithmetic::div_mod::lemma_mod_multiples_vanish(k, a, b);
    assert(b * k + a == a + k * b) by (nonlinear_arith);
}

/// The Euclidean remainder of zero is zero.
proof fn lemma_zero_mod(b: int)
    requires
        b > 0,
    ensures
        0int % b == 0,
{
    vstd::arithmetic::div_mod::lemma_fundamental_div_mod_converse_mod(0, b, 0, 0);
}

/// A value already inside the window is its own reduction.
pub proof fn lemma_mod_window_small(a: int, b: int)
    requires
        b > 0,
        -b < a <= 0,
    ensures
        mod_window(a, b) == a,
{
    lemma_zero_mod(b);
    if a < 0 {
        vstd::arithmetic::div_mod::lemma_small_mod((a + b) as nat, b as nat);
        lemma_mod_multiple_cancel(a, b, 1);
    }
}

/// A whole number of tile widths reduces to zero.
pub proof fn lemma_mod_window_multiple(b: int, k: int)
    requires
        b > 0,
    ensures
        mod_window(k * b, b) == 0,
{
    lemma_zero_mod(b);
    lemma_mod_multiple_cancel(0, b, k);
}

/// The executable form of `mod_window`, computed over non-negative operands
/// only, where the machine's remainder agrees with the Euclidean one.
pub fn mod_window_i64(a: i64, b: i64) -> (m: i64)
    requires
        1 <= b,
        -0x7fff_ffff_ffff_ffff <= a,
    ensures
        m == mod_window(a as int, b as int),
        -b < m <= 0,
{
    proof {
        lemma_mod_window_range(a as int, b as int);
        vstd::arithmetic::div_mod::lemma_mod_bound(a as int, b as int);
        vstd::arithmetic::div_mod::lemma_mod_bound(-(a as int), b as int);
        lemma_mod_neg_flip(a as int, b as int);
    }
    if a >= 0 {
        let r = ((a as u64) % (b as u64)) as i64;
        if r == 0 {
            0
        } else {
            r - b
        }
    } else {
        -((((-a) as u64) % (b as u64)) as i64)
    }
}

/// Negating the dividend flips its Euclidean remainder across the divisor:
/// `(-a) % b` is `0` when `a % b` is, and `b - a % b` otherwise.
proof fn lemma_mod_neg_flip(a: int, b: int)
    requires
        b > 0,
    ensures
        a % b == 0 ==> (-a) % b == 0,
        a % b != 0 ==> (-a) % b == b - a % b,
{
    let q = a / b;
    let m0 = a % b;
    vstd::arithmetic::div_mod::lemma_fundamental_div_mod(a, b);
    vstd::arithmetic::div_mod::lemma_mod_bound(a, b);
    if m0 == 0 {
        assert(-a == (-q) * b + 0) by (nonlinear_arith)
            requires
                a == b * q + 0,
        ;
        vstd::arithmetic::div_mod::lemma_fundamental_div_mod_converse_mod(-a, b, -q, 0);
    } else {
        assert(-a == (-q - 1) * b + (b - m0)) by (nonlinear_arith)
            requires
                a == b * q + m0,
        ;
        vstd::arithmetic::div_mod::lemma_fundamental_div_mod_converse_mod(-a, b, -q - 1, b - m0);
    }
}

} // verus!
