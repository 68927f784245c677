//! Coordinate math on integer millimeter coordinates, plus small grid and
//! averaging utilities.
//!
//! Angles are stored in millidegrees so that every quantity the core reasons
//! about is a plain integer. Converting between the spherical and Cartesian
//! representations needs trigonometry and is done by the embedding
//! application; everything here is exact integer arithmetic.

use vstd::prelude::*;

verus! {

/// A point in Cartesian coordinates, in integer millimeters.
#[derive(Debug, Clone, Copy, PartialEq, Eq, Structural)]
pub struct CoordsCartesian {
    /// The distance to the origin on the x-axis (mm).
    pub x: i32,
    /// The distance to the origin on the y-axis (mm).
    pub y: i32,
    /// The distance to the origin on the z-axis (mm).
    pub z: i32,
}

/// The squared Euclidean distance between two Cartesian points.
pub open spec fn sq_dist(a: CoordsCartesian, b: CoordsCartesian) -> int {
    (a.x - b.x) * (a.x - b.x) + (a.y - b.y) * (a.y - b.y) + (a.z - b.z) * (a.z - b.z)
}

/// The square root of `s`, rounded down to an integer.
pub open spec fn sqrt_floor(s: int) -> int {
    choose|r: int| r >= 0 && #[trigger] (r * r) <= s < (r + 1) * (r + 1)
}

/// `sqrt_floor` is pinned down by its defining property.
pub proof fn lemma_sqrt_floor_is(s: int, r: int)
    requires
        r >= 0,
        r * r <= s,
        s < (r + 1) * (r + 1),
    ensures
        sqrt_floor(s) == r,
{
    assert(r >= 0 && r * r <= s < (r + 1) * (r + 1));
    let picked = choose|c: int| c >= 0 && #[trigger] (c * c) <= s < (c + 1) * (c + 1);
    assert(picked >= 0 && picked * picked <= s < (picked + 1) * (picked + 1));
    assert(picked == r) by (nonlinear_arith)
        requires
            r >= 0,
            picked >= 0,
            r * r <= s < (r + 1) * (r + 1),
            picked * picked <= s < (picked + 1) * (picked + 1),
    ;
}

impl CoordsCartesian {
    /// The origin.
    pub fn zero() -> (r: Self)
        ensures
            r.x == 0 && r.y == 0 && r.z == 0,
    {
        Self { x: 0, y: 0, z: 0 }
    }

    /// The Euclidean distance to `other`, rounded down to whole millimeters.
    pub fn dist_to(&self, other: &Self) -> (d: u64)
        ensures
            d * d <= sq_dist(*self, *other) < (d + 1) * (d + 1),
            d == sqrt_floor(sq_dist(*self, *other)),
    {
        let dx: i128 = self.x as i128 - other.x as i128;
        let dy: i128 = self.y as i128 - other.y as i128;
        let dz: i128 = self.z as i128 - other.z as i128;
        proof {
            lemma_square_bounds(dx as int, 0x1_0000_0000);
            lemma_square_bounds(dy as int, 0x1_0000_0000);
            lemma_square_bounds(dz as int, 0x1_0000_0000);
        }
        let sq: u128 = (dx * dx + dy * dy + dz * dz) as u128;
        let r = isqrt_u128(sq);
        proof {
            // r * r <= sq < 3 * 2^64 < (2^33)^2, so r < 2^33 and fits in u64.
            lemma_sqrt_fits(r as int, sq as int, 0x2_0000_0000);
            lemma_sqrt_floor_is(sq as int, r as int);
        }
        r as u64
    }
}

/// `0 <= v * v <= bound * bound` whenever `-bound <= v <= bound`.
proof fn lemma_square_bounds(v: int, bound: int)
    requires
        -bound <= v <= bound,
        0 <= bound,
    ensures
        0 <= v * v <= bound * bound,
{
    assert(0 <= v * v <= bound * bound) by (nonlinear_arith)
        requires
            -bound <= v <= bound,
            0 <= bound,
    ;
}

/// If `r * r <= s < cap * cap` then `r < cap`.
proof fn lemma_sqrt_fits(r: int, s: int, cap: int)
    requires
        0 <= r,
        0 < cap,
        r * r <= s,
        s < cap * cap,
    ensures
        r < cap,
{
    assert(r < cap) by (nonlinear_arith)
        requires
            0 <= r,
            0 < cap,
            r * r <= s,
            s < cap * cap,
    ;
}

/// The integer square root: the largest `r` with `r * r <= s`.
fn isqrt_u128(s: u128) -> (r: u128)
    ensures
        r * r <= s < (r + 1) * (r + 1),
{
    let mut lo: u128 = 0;
    let mut hi: u128 = 0x1_0000_0000_0000_0000;
    proof {
        assert(s < hi * hi) by (nonlinear_arith)
            requires
                hi == 0x1_0000_0000_0000_0000,
                s <= u128::MAX,
        ;
    }
    while lo + 1 < hi
        invariant
            lo < hi <= 0x1_0000_0000_0000_0000,
            lo * lo <= s,
            s < hi * hi,
        decreases hi - lo,
    {
        let mid = lo + (hi - lo) / 2;
        proof {
            assert(lo < mid < hi);
            assert(mid * mid <= u128::MAX) by (nonlinear_arith)
                requires
                    0 <= mid < 0x1_0000_0000_0000_0000,
            ;
        }
        if mid * mid <= s {
            lo = mid;
        } else {
            hi = mid;
        }
    }
    lo
}

/// A position in spherical coordinates, in mathematical naming convention:
/// radial distance, azimuth and zenith.
#[derive(Debug, Clone, Copy, PartialEq, Eq, Structural)]
pub struct CoordsSpherical {
    /// Distance to the origin (mm).
    pub r: i32,
    /// Angle with respect to the x-axis (azimuth), in millidegrees.
    pub theta: i32,
    /// Angle with respect to the polar / z-axis (zenith), in millidegrees.
    pub phi: i32,
}

impl CoordsSpherical {
    /// The invalid coordinates as a spec value.
    pub open spec fn invalid_spec() -> CoordsSpherical {
        CoordsSpherical { r: -1i32, theta: 0i32, phi: 0i32 }
    }

    /// Invalid coordinates: `r` is set to `-1`.
    pub fn invalid() -> (c: Self)
        ensures
            c == Self::invalid_spec(),
            c.is_invalid_spec(),
    {
        Self { r: -1, theta: 0, phi: 0 }
    }

    /// Whether the coordinate is invalid, that is `r < 0`.
    pub open spec fn is_invalid_spec(&self) -> bool {
        self.r < 0
    }

    /// Checks if the coordinate is invalid (`r` is < `0`).
    pub fn is_invalid(&self) -> (inv: bool)
        ensures
            inv == self.is_invalid_spec(),
    {
        self.r < 0
    }

    /// Origin coordinates: `r`, `theta` and `phi` are all `0`.
    pub fn zero() -> (c: Self)
        ensures
            c.r == 0 && c.theta == 0 && c.phi == 0,
    {
        Self { r: 0, theta: 0, phi: 0 }
    }
}

/// Transposes the given matrix.
pub fn matrix_2d_transpose<const ROWS: usize, const COLS: usize, T>(
    matrix: [[T; COLS]; ROWS],
) -> (transposed: [[T; ROWS]; COLS]) where T: Copy + Default
    ensures
        forall|i: int, j: int|
            0 <= i < COLS && 0 <= j < ROWS ==> transposed@[i]@[j] == matrix@[j]@[i],
{
    let mut transposed: [[T; ROWS]; COLS] = [[T::default(); ROWS]; COLS];

    for i in 0..COLS
        invariant
            forall|a: int, b: int|
                0 <= a < i && 0 <= b < ROWS ==> transposed@[a]@[b] == matrix@[b]@[a],
    {
        let mut row: [T; ROWS] = [T::default(); ROWS];
        for j in 0..ROWS
            invariant
                i < COLS,
                forall|b: int| 0 <= b < j ==> row@[b] == matrix@[b]@[i as int],
                forall|a: int, b: int|
                    0 <= a < i && 0 <= b < ROWS ==> transposed@[a]@[b] == matrix@[b]@[a],
        {
            row[j] = matrix[j][i];
        }
        transposed[i] = row;
    }

    transposed
}

/// Rotates the matrix 90 degrees in clockwise direction.
pub fn matrix_2d_rotate_90deg<const ROWS: usize, const COLS: usize, T>(
    matrix: [[T; COLS]; ROWS],
) -> (rotated: [[T; ROWS]; COLS]) where T: Copy + Default
    ensures
        forall|i: int, j: int|
            0 <= i < COLS && 0 <= j < ROWS ==> rotated@[i]@[j] == matrix@[ROWS - 1 - j]@[i],
{
    matrix_2d_reverse_rows(matrix_2d_transpose(matrix))
}

/// Rotates the matrix 180 degrees.
pub fn matrix_2d_rotate_180deg<const ROWS: usize, const COLS: usize, T>(
    matrix: [[T; COLS]; ROWS],
) -> (rotated: [[T; COLS]; ROWS]) where T: Copy + Default
    ensures
        forall|i: int, j: int|
            0 <= i < ROWS && 0 <= j < COLS ==> rotated@[i]@[j] == matrix@[ROWS - 1 - i]@[COLS - 1
                - j],
{
    matrix_2d_reverse_rows(matrix_2d_reverse_cols(matrix))
}

/// Rotates the matrix 270 degrees in clockwise direction.
pub fn matrix_2d_rotate_270deg<const ROWS: usize, const COLS: usize, T>(
    matrix: [[T; COLS]; ROWS],
) -> (rotated: [[T; ROWS]; COLS]) where T: Copy + Default
    ensures
        forall|i: int, j: int|
            0 <= i < COLS && 0 <= j < ROWS ==> rotated@[i]@[j] == matrix@[j]@[COLS - 1 - i],
{
    matrix_2d_reverse_cols(matrix_2d_transpose(matrix))
}

/// Mirror / reverse the columns of the matrix.
pub fn matrix_2d_reverse_cols<const ROWS: usize, const COLS: usize, T>(
    matrix: [[T; COLS]; ROWS],
) -> (reversed: [[T; COLS]; ROWS]) where T: Copy + Default
    ensures
        forall|i: int| 0 <= i < ROWS ==> reversed@[i] == matrix@[ROWS - 1 - i],
{
    let mut reversed: [[T; COLS]; ROWS] = [[T::default(); COLS]; ROWS];

    for i in 0..ROWS
        invariant
            forall|a: int| 0 <= a < i ==> reversed@[a] == matrix@[ROWS - 1 - a],
    {
        reversed[i] = matrix[ROWS - 1 - i];
    }

    reversed
}

/// Mirror / reverse the rows of the matrix.
pub fn matrix_2d_reverse_rows<const ROWS: usize, const COLS: usize, T>(
    matrix: [[T; COLS]; ROWS],
) -> (reversed: [[T; COLS]; ROWS]) where T: Copy + Default
    ensures
        forall|i: int, j: int|
            0 <= i < ROWS && 0 <= j < COLS ==> reversed@[i]@[j] == matrix@[i]@[COLS - 1 - j],
{
    let mut reversed: [[T; COLS]; ROWS] = [[T::default(); COLS]; ROWS];

    for i in 0..ROWS
        invariant
            forall|a: int, b: int|
                0 <= a < i && 0 <= b < COLS ==> reversed@[a]@[b] == matrix@[a]@[COLS - 1 - b],
    {
        let mut row: [T; COLS] = [T::default(); COLS];
        for j in 0..COLS
            invariant
                i < ROWS,
                forall|b: int| 0 <= b < j ==> row@[b] == matrix@[i as int]@[COLS - 1 - b],
                forall|a: int, b: int|
                    0 <= a < i && 0 <= b < COLS ==> reversed@[a]@[b] == matrix@[a]@[COLS - 1 - b],
        {
            row[j] = matrix[i][COLS - 1 - j];
        }
        reversed[i] = row;
    }

    reversed
}

/// The sum of `s[i..j]`.
pub open spec fn range_sum(s: Seq<i32>, i: int, j: int) -> int
    decreases j - i,
{
    if i >= j {
        0
    } else {
        s[i] + range_sum(s, i + 1, j)
    }
}

/// Integer division truncating toward zero, as the `/` operator of the
/// machine integer types computes it.
pub open spec fn trunc_div(a: int, b: int) -> int {
    if a >= 0 {
        a / b
    } else {
        -((-a) / b)
    }
}

/// Yields the moving averages of a sequence of samples: the first value is
/// the average of the first `window_size` samples, and each further value
/// moves the window one sample to the right. Averages are rounded toward
/// zero to whole units.
#[derive(Debug, Clone)]
pub struct MovingAvg {
    samples: Vec<i32>,
    window_size: u32,
    pos: usize,
}

impl MovingAvg {
    /// The samples the averages are taken over.
    pub closed spec fn samples_spec(&self) -> Seq<i32> {
        self.samples@
    }

    /// The width of the averaging window.
    pub closed spec fn window_spec(&self) -> int {
        self.window_size as int
    }

    /// The start of the window the next call to `next` averages.
    pub closed spec fn pos_spec(&self) -> int {
        self.pos as int
    }

    /// A new moving average over the given samples with the given window size.
    pub fn new(samples: Vec<i32>, window_size: u32) -> (avg: Self)
        ensures
            avg.samples_spec() == samples@,
            avg.window_spec() == window_size,
            avg.pos_spec() == 0,
    {
        Self { samples, window_size, pos: 0 }
    }

    /// The next average: the samples from the current window start for
    /// `window_size` samples, summed and divided by `window_size`. Returns
    /// `None` once the window no longer fits in the remaining samples, or
    /// when the window is empty.
    pub fn next(&mut self) -> (avg: Option<i32>)
        ensures
            old(self).window_spec() > 0 && old(self).pos_spec() + old(self).window_spec() <= old(
                self,
            ).samples_spec().len() ==> ({
                &&& avg == Some(
                    (trunc_div(
                        range_sum(
                            old(self).samples_spec(),
                            old(self).pos_spec(),
                            old(self).pos_spec() + old(self).window_spec(),
                        ),
                        old(self).window_spec(),
                    )) as i32,
                )
                &&& final(self).pos_spec() == old(self).pos_spec() + 1
            }),
            !(old(self).window_spec() > 0 && old(self).pos_spec() + old(self).window_spec() <= old(
                self,
            ).samples_spec().len()) ==> avg is None && *final(self) == *old(self),
            final(self).samples_spec() == old(self).samples_spec(),
            final(self).window_spec() == old(self).window_spec(),
    {
        if self.window_size == 0 {
            return None;
        }
        let w = self.window_size as usize;
        if self.pos >= self.samples.len() || w > self.samples.len() - self.pos {
            return None;
        }
        let ghost s = self.samples@;
        let ghost start = self.pos as int;
        let mut sum: i128 = 0;
        let mut k: usize = self.pos;
        while k < self.pos + w
            invariant
                self.pos + w <= self.samples.len(),
                self.pos <= k <= self.pos + w,
                s == self.samples@,
                start == self.pos as int,
                sum == range_sum(s, start, k as int),
                -0x8000_0000 * (k - start) <= sum <= 0x7FFF_FFFF * (k - start),
            decreases self.pos + w - k,
        {
            proof {
                lemma_range_sum_step(s, start, k as int);
            }
            sum = sum + self.samples[k] as i128;
            k = k + 1;
        }
        let wd = self.window_size as u128;
        let q: i128 = if sum >= 0 {
            ((sum as u128) / wd) as i128
        } else {
            -(((-sum) as u128 / wd) as i128)
        };
        proof {
            lemma_trunc_div_bounds(sum as int, wd as int, 0x8000_0000, 0x7FFF_FFFF);
        }
        self.pos = self.pos + 1;
        Some(q as i32)
    }
}

/// Unfolds `range_sum` one step at its right end.
proof fn lemma_range_sum_step(s: Seq<i32>, i: int, k: int)
    requires
        i <= k,
    ensures
        range_sum(s, i, k + 1) == range_sum(s, i, k) + s[k],
    decreases k - i,
{
    if i < k {
        lemma_range_sum_step(s, i + 1, k);
        assert(range_sum(s, i, k + 1) == s[i] + range_sum(s, i + 1, k + 1));
        assert(range_sum(s, i, k) == s[i] + range_sum(s, i + 1, k));
    } else {
        assert(range_sum(s, i, k) == 0);
        assert(range_sum(s, i + 1, k + 1) == 0);
        assert(range_sum(s, i, k + 1) == s[i] + range_sum(s, i + 1, k + 1));
    }
}

/// Division of `i64` values truncating toward zero.
pub(crate) fn trunc_div_i64(a: i64, b: i64) -> (q: i64)
    requires
        b >= 1,
        a > i64::MIN,
    ensures
        q == trunc_div(a as int, b as int),
{
    if a >= 0 {
        proof {
            vstd::arithmetic::div_mod::lemma_div_nonincreasing(a as int, b as int);
            vstd::arithmetic::div_mod::lemma_div_pos_is_pos(a as int, b as int);
        }
        ((a as u64) / (b as u64)) as i64
    } else {
        proof {
            vstd::arithmetic::div_mod::lemma_div_nonincreasing(-a as int, b as int);
            vstd::arithmetic::div_mod::lemma_div_pos_is_pos(-a as int, b as int);
        }
        -(((-a) as u64 / (b as u64)) as i64)
    }
}

/// Division of `i128` values truncating toward zero.
pub(crate) fn trunc_div_i128(a: i128, b: i128) -> (q: i128)
    requires
        b >= 1,
        a > i128::MIN,
    ensures
        q == trunc_div(a as int, b as int),
{
    if a >= 0 {
        proof {
            vstd::arithmetic::div_mod::lemma_div_nonincreasing(a as int, b as int);
            vstd::arithmetic::div_mod::lemma_div_pos_is_pos(a as int, b as int);
        }
        ((a as u128) / (b as u128)) as i128
    } else {
        proof {
            vstd::arithmetic::div_mod::lemma_div_nonincreasing(-a as int, b as int);
            vstd::arithmetic::div_mod::lemma_div_pos_is_pos(-a as int, b as int);
        }
        -(((-a) as u128 / (b as u128)) as i128)
    }
}

/// A product divided by its own positive factor: truncating division is
/// exact, `trunc_div(k * a, k) == a`.
pub proof fn lemma_trunc_div_exact(a: int, k: int)
    requires
        k >= 1,
    ensures
        trunc_div(k * a, k) == a,
{
    if a >= 0 {
        vstd::arithmetic::div_mod::lemma_div_multiples_vanish(a, k);
    } else {
        assert(-(k * a) == k * (-a)) by (nonlinear_arith);
        vstd::arithmetic::div_mod::lemma_div_multiples_vanish(-a, k);
        assert(k * a < 0) by (nonlinear_arith)
            requires
                k >= 1,
                a < 0,
        ;
    }
}

/// The magnitude of a product is bounded by the product of the magnitudes.
pub(crate) proof fn lemma_mul_abs_bound(a: int, b: int, ba: int, bb: int)
    requires
        -ba <= a <= ba,
        -bb <= b <= bb,
        0 <= ba,
        0 <= bb,
    ensures
        -(ba * bb) <= a * b <= ba * bb,
{
    assert(-(ba * bb) <= a * b <= ba * bb) by (nonlinear_arith)
        requires
            -ba <= a <= ba,
            -bb <= b <= bb,
            0 <= ba,
            0 <= bb,
    ;
}

/// An average stays within the bounds of the values averaged: a quotient of
/// `a` with `-(lo * b) <= a <= hi * b` lies within `[-lo, hi]`.
pub(crate) proof fn lemma_trunc_div_bounds(a: int, b: int, lo: int, hi: int)
    requires
        b >= 1,
        lo >= 0,
        hi >= 0,
        -(lo * b) <= a <= hi * b,
    ensures
        -lo <= trunc_div(a, b) <= hi,
{
    if a >= 0 {
        vstd::arithmetic::div_mod::lemma_div_pos_is_pos(a, b);
        vstd::arithmetic::div_mod::lemma_div_is_ordered(a, hi * b, b);
        vstd::arithmetic::div_mod::lemma_div_multiples_vanish(hi, b);
        assert(hi * b == b * hi) by (nonlinear_arith);
    } else {
        vstd::arithmetic::div_mod::lemma_div_pos_is_pos(-a, b);
        vstd::arithmetic::div_mod::lemma_div_is_ordered(-a, lo * b, b);
        vstd::arithmetic::div_mod::lemma_div_multiples_vanish(lo, b);
        assert(lo * b == b * lo) by (nonlinear_arith);
    }
}

} // verus!
