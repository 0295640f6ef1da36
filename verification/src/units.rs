//! Integer units for lengths, coordinates and blending.
//!
//! Lengths (widths, heights, paddings, spacings) are `u64` values that are
//! kept at or below [`LEN_MAX`]. `LEN_MAX` itself acts as the "unbounded"
//! length: arithmetic saturates there, so it absorbs additions the way an
//! infinite bound would. Coordinates are `i64` values clamped to
//! `[-COORD_MAX, COORD_MAX]`; within that range ordinary arithmetic and the
//! clamped helpers agree, and the range is wide enough that no realistic
//! screen geometry ever reaches the clamp.

use vstd::prelude::*;

verus! {

/// The largest representable length; also serves as the unbounded ("grow as
/// far as offered") upper bound of a size range.
pub const LEN_MAX: u64 = 0x100_0000_0000;

/// The largest magnitude of a representable coordinate.
pub const COORD_MAX: i64 = 0x1000_0000_0000_0000;

/// A length is valid when it does not exceed [`LEN_MAX`].
pub open spec fn len_ok(a: u64) -> bool {
    a <= LEN_MAX
}

/// A coordinate is valid when its magnitude does not exceed [`COORD_MAX`].
pub open spec fn coord_ok(a: i64) -> bool {
    -(COORD_MAX as int) <= a <= COORD_MAX as int
}

/// Subtraction saturating at zero, over mathematical integers.
pub open spec fn sub0(a: int, b: int) -> int {
    if a >= b {
        a - b
    } else {
        0
    }
}

/// Caps a mathematical length at [`LEN_MAX`].
pub open spec fn cap_len(x: int) -> int {
    if x > LEN_MAX as int {
        LEN_MAX as int
    } else {
        x
    }
}

/// Clamps a mathematical coordinate into `[-COORD_MAX, COORD_MAX]`.
pub open spec fn cap_coord(x: int) -> int {
    if x > COORD_MAX as int {
        COORD_MAX as int
    } else if x < -(COORD_MAX as int) {
        -(COORD_MAX as int)
    } else {
        x
    }
}

/// Length addition, saturating at [`LEN_MAX`].
pub fn ladd(a: u64, b: u64) -> (r: u64)
    requires
        len_ok(a),
        len_ok(b),
    ensures
        r == cap_len(a + b),
        len_ok(r),
{
    let s = a + b;
    if s > LEN_MAX {
        LEN_MAX
    } else {
        s
    }
}

/// Length subtraction, saturating at zero.
pub fn lsub(a: u64, b: u64) -> (r: u64)
    requires
        len_ok(a),
    ensures
        r == if a >= b { a - b } else { 0 },
        len_ok(r),
{
    if a >= b {
        a - b
    } else {
        0
    }
}

/// The smaller of two lengths.
pub fn lmin(a: u64, b: u64) -> (r: u64)
    ensures
        r == if a <= b { a as int } else { b as int },
{
    if a <= b {
        a
    } else {
        b
    }
}

/// The larger of two lengths.
pub fn lmax(a: u64, b: u64) -> (r: u64)
    ensures
        r == if a >= b { a as int } else { b as int },
{
    if a >= b {
        a
    } else {
        b
    }
}

/// Clamps `x` into `[lo, hi]`; `hi` wins when the bounds cross, matching the
/// behaviour of clamping to the upper bound last.
pub open spec fn spec_clamp(x: int, lo: int, hi: int) -> int {
    if x < lo {
        if lo > hi {
            hi
        } else {
            lo
        }
    } else if x > hi {
        hi
    } else {
        x
    }
}

/// Clamps a length into `[lo, hi]` (lower bound applied first).
pub fn lclamp(x: u64, lo: u64, hi: u64) -> (r: u64)
    ensures
        r == spec_clamp(x as int, lo as int, hi as int),
{
    let y = if x < lo {
        lo
    } else {
        x
    };
    if y > hi {
        hi
    } else {
        y
    }
}

/// Coordinate addition, clamped into the valid coordinate range.
pub fn cadd(a: i64, b: i64) -> (r: i64)
    requires
        coord_ok(a),
        -2 * (COORD_MAX as int) <= b <= 2 * (COORD_MAX as int),
    ensures
        r == cap_coord(a + b),
        coord_ok(r),
{
    let s = a + b;
    if s > COORD_MAX {
        COORD_MAX
    } else if s < -COORD_MAX {
        -COORD_MAX
    } else {
        s
    }
}

/// A non-negative rational factor, used for scaling size bounds.
#[derive(Clone, Copy, Debug, PartialEq, Eq, Structural)]
pub struct Frac {
    /// Numerator.
    pub num: u32,
    /// Denominator; a valid factor has a positive denominator.
    pub den: u32,
}

impl Frac {
    /// A valid factor has a positive denominator.
    pub open spec fn wf(self) -> bool {
        self.den >= 1
    }

    /// The factor `num / den`.
    pub fn new(num: u32, den: u32) -> (r: Frac)
        requires
            den >= 1,
        ensures
            r == (Frac { num, den }),
            r.wf(),
    {
        Frac { num, den }
    }
}

/// `l * num / den`, capped at [`LEN_MAX`]. A length already at `LEN_MAX` is
/// treated as unbounded and stays there regardless of the factor.
pub open spec fn spec_scale_len(l: int, f: Frac) -> int {
    if l >= LEN_MAX as int {
        LEN_MAX as int
    } else {
        cap_len((l * f.num) / f.den as int)
    }
}

/// Scales a length by a rational factor; the unbounded length stays unbounded.
pub fn scale_len(l: u64, f: Frac) -> (r: u64)
    requires
        len_ok(l),
        f.wf(),
    ensures
        r == spec_scale_len(l as int, f),
        len_ok(r),
{
    if l >= LEN_MAX {
        LEN_MAX
    } else {
        assert((l as int) * (f.num as int) <= (LEN_MAX as int) * 0xffff_ffff) by (nonlinear_arith)
            requires
                0 <= l <= LEN_MAX as int,
                0 <= f.num <= 0xffff_ffffu32,
        ;
        let wide: u128 = (l as u128) * (f.num as u128) / (f.den as u128);
        if wide > LEN_MAX as u128 {
            LEN_MAX
        } else {
            wide as u64
        }
    }
}

/// A progress fraction in `[0, 1]`: `num / den` with `num <= den`.
#[derive(Clone, Copy, Debug, PartialEq, Eq, Structural)]
pub struct Ratio {
    /// Numerator; never exceeds the denominator.
    pub num: u64,
    /// Denominator; always positive.
    pub den: u64,
}

impl Ratio {
    /// A valid ratio has a positive denominator and a numerator at most the
    /// denominator.
    pub open spec fn wf(self) -> bool {
        1 <= self.den && self.num <= self.den
    }

    /// Whether this ratio is exactly zero.
    pub open spec fn spec_is_zero(self) -> bool {
        self.num == 0
    }

    /// Whether this ratio is exactly one.
    pub open spec fn spec_is_one(self) -> bool {
        self.num == self.den
    }

    /// The zero ratio.
    pub fn zero() -> (r: Ratio)
        ensures
            r == (Ratio { num: 0, den: 1 }),
            r.wf(),
            r.spec_is_zero(),
            !r.spec_is_one(),
    {
        Ratio { num: 0, den: 1 }
    }

    /// The unit ratio.
    pub fn one() -> (r: Ratio)
        ensures
            r == (Ratio { num: 1, den: 1 }),
            r.wf(),
            r.spec_is_one(),
    {
        Ratio { num: 1, den: 1 }
    }

    /// Whether this ratio is exactly one.
    pub fn is_one(&self) -> (r: bool)
        ensures
            r == self.spec_is_one(),
    {
        self.num == self.den
    }
}

/// Interpolates between two color channels by `num / den`.
pub fn lerp_u8(a: u8, b: u8, num: u64, den: u64) -> (r: u8)
    requires
        num <= den,
        den >= 1,
    ensures
        r == spec_lerp_len(a as int, b as int, num as int, den as int),
{
    if b >= a {
        assert(((b - a) as int) * (num as int) <= 255 * 0xffff_ffff_ffff_ffff)
            by (nonlinear_arith)
            requires
                0 <= b - a <= 255,
                0 <= num <= 0xffff_ffff_ffff_ffffu64,
        ;
        let d = ((b - a) as u128) * (num as u128) / (den as u128);
        assert(((b - a) * num) / (den as int) <= b - a) by (nonlinear_arith)
            requires
                num <= den,
                den >= 1,
                b >= a,
        ;
        a + (d as u8)
    } else {
        assert(((a - b) as int) * (num as int) <= 255 * 0xffff_ffff_ffff_ffff)
            by (nonlinear_arith)
            requires
                0 <= a - b <= 255,
                0 <= num <= 0xffff_ffff_ffff_ffffu64,
        ;
        let d = ((a - b) as u128) * (num as u128) / (den as u128);
        assert(((a - b) * num) / (den as int) <= a - b) by (nonlinear_arith)
            requires
                num <= den,
                den >= 1,
                a >= b,
        ;
        a - (d as u8)
    }
}

/// Interpolates between two coordinates by `num / den`.
pub fn lerp_coord(a: i64, b: i64, num: u64, den: u64) -> (r: i64)
    requires
        coord_ok(a),
        coord_ok(b),
        num <= den,
        den >= 1,
    ensures
        r == spec_lerp_len(a as int, b as int, num as int, den as int),
        coord_ok(r),
{
    if b >= a {
        let diff = (b - a) as u64;
        assert((diff as int) * (num as int) <= 0xffff_ffff_ffff_ffff * 0xffff_ffff_ffff_ffff)
            by (nonlinear_arith)
            requires
                0 <= diff <= 0xffff_ffff_ffff_ffffu64,
                0 <= num <= 0xffff_ffff_ffff_ffffu64,
        ;
        let d = (diff as u128) * (num as u128) / (den as u128);
        assert((diff * num) / (den as int) <= diff) by (nonlinear_arith)
            requires
                num <= den,
                den >= 1,
                0 <= diff,
        ;
        a + ((d as u64) as i64)
    } else {
        let diff = (a - b) as u64;
        assert((diff as int) * (num as int) <= 0xffff_ffff_ffff_ffff * 0xffff_ffff_ffff_ffff)
            by (nonlinear_arith)
            requires
                0 <= diff <= 0xffff_ffff_ffff_ffffu64,
                0 <= num <= 0xffff_ffff_ffff_ffffu64,
        ;
        let d = (diff as u128) * (num as u128) / (den as u128);
        assert((diff * num) / (den as int) <= diff) by (nonlinear_arith)
            requires
                num <= den,
                den >= 1,
                0 <= diff,
        ;
        a - ((d as u64) as i64)
    }
}

/// `a * b / c`, capped at [`LEN_MAX`].
pub open spec fn spec_muldiv_len(a: int, b: int, c: int) -> int {
    cap_len((a * b) / c)
}

/// Multiplies two lengths and divides by a third, capping at [`LEN_MAX`].
pub fn muldiv_len(a: u64, b: u64, c: u64) -> (r: u64)
    requires
        len_ok(a),
        len_ok(b),
        c >= 1,
    ensures
        r == spec_muldiv_len(a as int, b as int, c as int),
        len_ok(r),
{
    assert((a as int) * (b as int) <= (LEN_MAX as int) * (LEN_MAX as int)) by (nonlinear_arith)
        requires
            0 <= a <= LEN_MAX as int,
            0 <= b <= LEN_MAX as int,
    ;
    let wide: u128 = (a as u128) * (b as u128) / (c as u128);
    if wide > LEN_MAX as u128 {
        LEN_MAX
    } else {
        wide as u64
    }
}

/// Linear interpolation between two lengths: `a + (b - a) * num / den`,
/// written over non-negative differences so that the rounding always
/// truncates the magnitude of the travelled distance.
pub open spec fn spec_lerp_len(a: int, b: int, num: int, den: int) -> int {
    if b >= a {
        a + ((b - a) * num) / den
    } else {
        a - ((a - b) * num) / den
    }
}

/// Interpolates between lengths `a` and `b` by `num / den`.
pub fn lerp_len(a: u64, b: u64, num: u64, den: u64) -> (r: u64)
    requires
        len_ok(a),
        len_ok(b),
        num <= den,
        den >= 1,
    ensures
        r == spec_lerp_len(a as int, b as int, num as int, den as int),
        len_ok(r),
{
    if b >= a {
        assert(((b - a) as int) * (num as int) <= (LEN_MAX as int) * 0xffff_ffff_ffff_ffff)
            by (nonlinear_arith)
            requires
                0 <= b - a <= LEN_MAX as int,
                0 <= num <= 0xffff_ffff_ffff_ffffu64,
        ;
        let d: u128 = ((b - a) as u128) * (num as u128) / (den as u128);
        assert(((b - a) * num) / (den as int) <= b - a) by (nonlinear_arith)
            requires
                num <= den,
                den >= 1,
                b >= a,
        ;
        a + (d as u64)
    } else {
        assert(((a - b) as int) * (num as int) <= (LEN_MAX as int) * 0xffff_ffff_ffff_ffff)
            by (nonlinear_arith)
            requires
                0 <= a - b <= LEN_MAX as int,
                0 <= num <= 0xffff_ffff_ffff_ffffu64,
        ;
        let d: u128 = ((a - b) as u128) * (num as u128) / (den as u128);
        assert(((a - b) * num) / (den as int) <= a - b) by (nonlinear_arith)
            requires
                num <= den,
                den >= 1,
                a >= b,
        ;
        a - (d as u64)
    }
}

} // verus!
