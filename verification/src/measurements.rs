//! Sensor measurements and hand localization over the zone grid.
//!
//! A measurement is a fixed grid of per-zone distance readings in integer
//! millimeters; a negative reading means the zone saw no return. The
//! localizer anchors on the zone with the smallest positive reading and
//! averages the valid zones around it, weighted by their distance to the
//! anchor.

use vstd::prelude::*;

use crate::math::CoordsSpherical;
use crate::math::CoordsCartesian;
use crate::math::trunc_div;
use crate::math::trunc_div_i64;

verus! {

/// The recognized hand state.
///
/// A found hand carries its position both in spherical coordinates and as
/// the equivalent Cartesian point; the Cartesian form is produced by the
/// caller's trigonometric front-end and is read by the swipe detection.
#[derive(Debug, Clone, Copy, PartialEq, Eq, Structural)]
pub enum HandState {
    /// No hand was found.
    HandNotFound,
    /// Hand was found with this position.
    HandFound {
        /// The hand position in spherical coordinates.
        hand_pos: CoordsSpherical,
        /// The same position as a Cartesian point (mm).
        hand_pos_cart: CoordsCartesian,
    },
}

impl HandState {
    /// A found hand always carries a strictly positive radial distance.
    pub open spec fn wf(self) -> bool {
        self matches HandState::HandFound { hand_pos, .. } ==> hand_pos.r > 0
    }
}

/// Configurable sensor parameters. Different for every sensor.
#[derive(Debug, Clone, Copy, PartialEq, Eq, Structural)]
pub struct SensorParams {
    /// The horizontal FOV of the sensor, in millidegrees.
    pub fov_horizontal: i32,
    /// The vertical FOV of the sensor, in millidegrees.
    pub fov_vertical: i32,
}

impl SensorParams {
    /// The default parameters for the ST VL53L5CX TOF-Sensor.
    pub fn default_vl53l5cx() -> (p: Self)
        ensures
            p.fov_horizontal == 45_000,
            p.fov_vertical == 45_000,
    {
        // The VL53L5CX has a diagonal FOV of 63 deg, so the horizontal and
        // vertical FOV are both 63 / sqrt(2) = 45 degrees.
        Self { fov_horizontal: 45_000, fov_vertical: 45_000 }
    }
}

/// Represents a sensor measurement coming from the TOF sensor.
///
/// Expects that the zones are already rotated and mirrored, so that the zone
/// with index \[0\]\[0\] is the top left corner when looking at the sensor.
#[derive(Debug, Clone, Copy)]
pub struct SensorMeasurement<const RES_X: usize, const RES_Y: usize> {
    /// The measured distances of each zone, in millimeters.
    ///
    /// Invalid distance measurements are represented by value -1.
    pub zone_dist: [[i32; RES_X]; RES_Y],
    /// The time of the measurement in milliseconds. Must be monotonically increasing.
    pub time_ms: u32,
}

impl<const RES_X: usize, const RES_Y: usize> SensorMeasurement<RES_X, RES_Y> {
    /// The reading of the zone in row `y`, column `x`.
    pub open spec fn zone(self, y: int, x: int) -> int {
        self.zone_dist@[y]@[x] as int
    }

    /// Whether `(y, x)` indexes a zone of the grid.
    pub open spec fn zone_in_range(y: int, x: int) -> bool {
        0 <= y < RES_Y && 0 <= x < RES_X
    }

    /// Whether the zone can anchor the localization: a positive reading
    /// below the scan's sentinel value.
    pub open spec fn anchor_candidate(self, y: int, x: int) -> bool {
        Self::zone_in_range(y, x) && 0 < self.zone(y, x) < i32::MAX
    }

    /// Whether any zone can anchor the localization.
    pub open spec fn has_anchor(self) -> bool {
        exists|y: int, x: int| self.anchor_candidate(y, x)
    }

    /// Whether `(y, x)` is the anchor zone: the first zone, in row-major
    /// scan order, among those with the smallest positive reading.
    pub open spec fn is_min_anchor(self, y: int, x: int) -> bool {
        &&& self.anchor_candidate(y, x)
        &&& forall|y2: int, x2: int|
            #[trigger] self.anchor_candidate(y2, x2) ==> self.zone(y, x) < self.zone(y2, x2) || (
            self.zone(y, x) == self.zone(y2, x2) && (y < y2 || (y == y2 && x <= x2)))
    }

    /// The coordinates `(y, x)` of the anchor zone.
    pub open spec fn min_anchor(self) -> (int, int) {
        choose|t: (int, int)| #[trigger] self.is_min_anchor(t.0, t.1)
    }

    /// The anchor zone is unique, so `min_anchor` is pinned by
    /// `is_min_anchor`.
    pub proof fn lemma_min_anchor_is(self, y: int, x: int)
        requires
            self.is_min_anchor(y, x),
        ensures
            self.min_anchor() == (y, x),
    {
        let w = (y, x);
        assert(w.0 == y && w.1 == x);
        assert(self.is_min_anchor(w.0, w.1));
        assert(exists|t: (int, int)| #[trigger] self.is_min_anchor(t.0, t.1));
        let t = choose|t: (int, int)| #[trigger] self.is_min_anchor(t.0, t.1);
        assert(self.is_min_anchor(t.0, t.1));
        assert(self.anchor_candidate(t.0, t.1));
        assert(self.anchor_candidate(y, x));
        assert(self.zone(y, x) == self.zone(t.0, t.1));
        assert(t.0 == y && t.1 == x);
    }

    /// Creates a new measurement. The time is set to zero.
    pub fn new(zone_dist: [[i32; RES_X]; RES_Y]) -> (m: Self)
        ensures
            m.zone_dist == zone_dist,
            m.time_ms == 0,
    {
        Self { zone_dist, time_ms: 0 }
    }

    /// An invalid measurement. The time is set to zero, distances are set to
    /// invalid (value `-1`).
    pub fn invalid() -> (m: Self)
        ensures
            forall|y: int, x: int| Self::zone_in_range(y, x) ==> #[trigger] m.zone(y, x) == -1,
            m.time_ms == 0,
    {
        Self { zone_dist: [[-1; RES_X]; RES_Y], time_ms: 0 }
    }

    /// Finds the position in the grid and distance value of the zone with
    /// minimal positive distance, ties broken by row-major scan order.
    ///
    /// Returns the tuple `(["x-pos in grid", "y-pos in grid"], "distance")`;
    /// with no positive reading anywhere the position is `[0, 0]` and the
    /// distance is the sentinel `i32::MAX`.
    pub fn min_dist(&self) -> (r: ([usize; 2], i32))
        ensures
            self.has_anchor() ==> self.is_min_anchor(r.0@[1] as int, r.0@[0] as int) && r.1
                == self.zone(r.0@[1] as int, r.0@[0] as int),
            !self.has_anchor() ==> r.0@[0] == 0 && r.0@[1] == 0 && r.1 == i32::MAX,
    {
        let mut ax: usize = 0;
        let mut ay: usize = 0;
        let mut ad: i32 = i32::MAX;

        for y in 0..RES_Y
            invariant
                ad == i32::MAX ==> ax == 0 && ay == 0,
                ad == i32::MAX ==> forall|y2: int, x2: int|
                    y2 < y ==> !self.anchor_candidate(y2, x2),
                ad < i32::MAX ==> ({
                    &&& self.anchor_candidate(ay as int, ax as int)
                    &&& self.zone(ay as int, ax as int) == ad
                    &&& (ay as int) < y
                    &&& forall|y2: int, x2: int|
                        y2 < y && #[trigger] self.anchor_candidate(y2, x2) ==> ad < self.zone(
                            y2,
                            x2,
                        ) || (ad == self.zone(y2, x2) && (ay < y2 || (ay == y2 && ax <= x2)))
                }),
        {
            for x in 0..RES_X
                invariant
                    y < RES_Y,
                    ad == i32::MAX ==> ax == 0 && ay == 0,
                    ad == i32::MAX ==> forall|y2: int, x2: int|
                        y2 < y || (y2 == y && x2 < x) ==> !self.anchor_candidate(y2, x2),
                    ad < i32::MAX ==> ({
                        &&& self.anchor_candidate(ay as int, ax as int)
                        &&& self.zone(ay as int, ax as int) == ad
                        &&& ((ay as int) < y || (ay as int == y && (ax as int) < x))
                        &&& forall|y2: int, x2: int|
                            (y2 < y || (y2 == y && x2 < x)) && #[trigger] self.anchor_candidate(
                                y2,
                                x2,
                            ) ==> ad < self.zone(y2, x2) || (ad == self.zone(y2, x2) && (ay < y2
                                || (ay == y2 && ax <= x2)))
                    }),
            {
                let d = self.zone_dist[y][x];
                if d > 0 && d < ad {
                    ax = x;
                    ay = y;
                    ad = d;
                }
            }
        }

        ([ax, ay], ad)
    }

    /// Finds the minimal positive distance of each column; a column without
    /// a positive reading yields the sentinel `i32::MAX`.
    pub fn min_dist_cols(&self) -> (r: [i32; RES_X])
        ensures
            forall|x: int|
                0 <= x < RES_X ==> (forall|y: int|
                    0 <= y < RES_Y && 0 < self.zone(y, x) ==> #[trigger] r@[x] <= self.zone(y, x)),
            forall|x: int|
                0 <= x < RES_X ==> (#[trigger] r@[x] == i32::MAX || exists|y: int|
                    0 <= y < RES_Y && 0 < self.zone(y, x) && r@[x] == self.zone(y, x)),
    {
        let mut columns: [i32; RES_X] = [i32::MAX; RES_X];

        for x in 0..RES_X
            invariant
                forall|x2: int|
                    0 <= x2 < x ==> (forall|y: int|
                        0 <= y < RES_Y && 0 < self.zone(y, x2) ==> #[trigger] columns@[x2]
                            <= self.zone(y, x2)),
                forall|x2: int|
                    0 <= x2 < x ==> (#[trigger] columns@[x2] == i32::MAX || exists|y: int|
                        0 <= y < RES_Y && 0 < self.zone(y, x2) && columns@[x2] == self.zone(
                            y,
                            x2,
                        )),
                forall|x2: int| x <= x2 < RES_X ==> #[trigger] columns@[x2] == i32::MAX,
        {
            let mut best: i32 = i32::MAX;
            for y in 0..RES_Y
                invariant
                    x < RES_X,
                    forall|y2: int|
                        0 <= y2 < y && 0 < #[trigger] self.zone(y2, x as int) ==> best <= self.zone(
                            y2,
                            x as int,
                        ),
                    best == i32::MAX || exists|y2: int|
                        0 <= y2 < y && 0 < #[trigger] self.zone(y2, x as int) && best == self.zone(
                            y2,
                            x as int,
                        ),
            {
                let d = self.zone_dist[y][x];
                if d > 0 && d < best {
                    best = d;
                    assert(0 <= y < RES_Y && 0 < self.zone(y as int, x as int) && best == self.zone(
                        y as int,
                        x as int,
                    ));
                }
            }
            columns[x] = best;
        }

        columns
    }

    /// Attempts to find the hand position as the weighted mean of the valid
    /// zones' Cartesian positions, anchored on the zone with the smallest
    /// positive reading: the anchor weighs `1.0`, every other valid zone
    /// weighs `100 / distance-to-anchor`, so zones near the anchor dominate.
    ///
    /// `zones_cart` carries each zone's position as a Cartesian point, as
    /// the caller's trigonometric front-end computed it from the zone's
    /// reading and viewing angles. Returns `None` when no zone has a
    /// positive reading.
    pub fn hand_pos(&self, zones_cart: &[[CoordsCartesian; RES_X]; RES_Y]) -> (c: Option<
        CoordsCartesian,
    >)
        requires
            1 <= RES_X <= 0xFFFF,
            1 <= RES_Y <= 0xFFFF,
        ensures
            !self.has_anchor() ==> c is None,
            self.has_anchor() ==> ({
                let s = centroid_sums(
                    *self,
                    *zones_cart,
                    self.min_anchor().0,
                    self.min_anchor().1,
                );
                c == Some(
                    CoordsCartesian {
                        x: trunc_div(s.wx, s.w) as i32,
                        y: trunc_div(s.wy, s.w) as i32,
                        z: trunc_div(s.wz, s.w) as i32,
                    },
                )
            }),
    {
        let (apos, ad) = self.min_dist();
        if ad == i32::MAX {
            return None;
        }
        let ax: usize = apos[0];
        let ay: usize = apos[1];
        proof {
            self.lemma_min_anchor_is(ay as int, ax as int);
        }
        let ghost zc = *zones_cart;
        let ghost total = centroid_sums(*self, zc, ay as int, ax as int);
        let anchor_cart = zones_cart[ay][ax];

        let mut wx: i128 = 0;
        let mut wy: i128 = 0;
        let mut wz: i128 = 0;
        let mut w: i128 = 0;

        for y in 0..RES_Y
            invariant
                1 <= RES_X <= 0xFFFF,
                1 <= RES_Y <= 0xFFFF,
                ax < RES_X,
                ay < RES_Y,
                zc == *zones_cart,
                anchor_cart == zc@[ay as int]@[ax as int],
                total == centroid_sums(*self, zc, ay as int, ax as int),
                wx == total.wx - grid_sums(*self, zc, ay as int, ax as int, y as int).wx,
                wy == total.wy - grid_sums(*self, zc, ay as int, ax as int, y as int).wy,
                wz == total.wz - grid_sums(*self, zc, ay as int, ax as int, y as int).wz,
                w == total.w - grid_sums(*self, zc, ay as int, ax as int, y as int).w,
        {
            for x in 0..RES_X
                invariant
                    1 <= RES_X <= 0xFFFF,
                    1 <= RES_Y <= 0xFFFF,
                    ax < RES_X,
                    ay < RES_Y,
                    y < RES_Y,
                    zc == *zones_cart,
                    anchor_cart == zc@[ay as int]@[ax as int],
                    total == centroid_sums(*self, zc, ay as int, ax as int),
                    wx == total.wx - grid_sums(*self, zc, ay as int, ax as int, y as int).wx
                        + row_sums(*self, zc, ay as int, ax as int, y as int, 0).wx - row_sums(
                        *self,
                        zc,
                        ay as int,
                        ax as int,
                        y as int,
                        x as int,
                    ).wx,
                    wy == total.wy - grid_sums(*self, zc, ay as int, ax as int, y as int).wy
                        + row_sums(*self, zc, ay as int, ax as int, y as int, 0).wy - row_sums(
                        *self,
                        zc,
                        ay as int,
                        ax as int,
                        y as int,
                        x as int,
                    ).wy,
                    wz == total.wz - grid_sums(*self, zc, ay as int, ax as int, y as int).wz
                        + row_sums(*self, zc, ay as int, ax as int, y as int, 0).wz - row_sums(
                        *self,
                        zc,
                        ay as int,
                        ax as int,
                        y as int,
                        x as int,
                    ).wz,
                    w == total.w - grid_sums(*self, zc, ay as int, ax as int, y as int).w
                        + row_sums(*self, zc, ay as int, ax as int, y as int, 0).w - row_sums(
                        *self,
                        zc,
                        ay as int,
                        ax as int,
                        y as int,
                        x as int,
                    ).w,
            {
                proof {
                    assert(row_sums(*self, zc, ay as int, ax as int, y as int, x as int)
                        == cell_sums(*self, zc, ay as int, ax as int, y as int, x as int).plus(
                        row_sums(*self, zc, ay as int, ax as int, y as int, x + 1),
                    ));
                    lemma_sums_caps::<RES_X, RES_Y>(*self, zc, ay as int, ax as int, y as int, 0);
                    lemma_sums_caps::<RES_X, RES_Y>(
                        *self,
                        zc,
                        ay as int,
                        ax as int,
                        y as int,
                        x as int,
                    );
                    lemma_sums_caps::<RES_X, RES_Y>(
                        *self,
                        zc,
                        ay as int,
                        ax as int,
                        y as int,
                        x + 1,
                    );
                    lemma_cell_sums_wf(*self, zc, ay as int, ax as int, y as int, x as int);
                }
                let d = self.zone_dist[y][x];
                if d >= 0 {
                    let czone = zones_cart[y][x];
                    let wgt: i64 = if x == ax && y == ay {
                        WEIGHT_SCALE
                    } else {
                        let dist = anchor_cart.dist_to(&czone);
                        if dist == 0 {
                            WEIGHT_FACTOR
                        } else {
                            proof {
                                vstd::arithmetic::div_mod::lemma_div_pos_is_pos(
                                    WEIGHT_FACTOR as int,
                                    dist as int,
                                );
                                vstd::arithmetic::div_mod::lemma_div_nonincreasing(
                                    WEIGHT_FACTOR as int,
                                    dist as int,
                                );
                            }
                            ((WEIGHT_FACTOR as u64) / dist) as i64
                        }
                    };
                    proof {
                        assert(wgt == zone_weight(zc, ay as int, ax as int, y as int, x as int));
                    }
                    wx = wx + (wgt as i128) * (czone.x as i128);
                    wy = wy + (wgt as i128) * (czone.y as i128);
                    wz = wz + (wgt as i128) * (czone.z as i128);
                    w = w + (wgt as i128);
                } else {
                    proof {
                        assert(cell_sums(*self, zc, ay as int, ax as int, y as int, x as int)
                            == CentroidSums::zero());
                    }
                }
            }
            proof {
                assert(row_sums(*self, zc, ay as int, ax as int, y as int, RES_X as int)
                    == CentroidSums::zero());
                assert(grid_sums(*self, zc, ay as int, ax as int, y as int) == row_sums(
                    *self,
                    zc,
                    ay as int,
                    ax as int,
                    y as int,
                    0,
                ).plus(grid_sums(*self, zc, ay as int, ax as int, y + 1)));
            }
        }

        proof {
            assert(grid_sums(*self, zc, ay as int, ax as int, RES_Y as int)
                == CentroidSums::zero());
            lemma_grid_sums_anchor_w(*self, zc, ay as int, ax as int, 0);
            lemma_grid_sums_wf(*self, zc, ay as int, ax as int, 0);
            lemma_sums_caps::<RES_X, RES_Y>(*self, zc, ay as int, ax as int, 0, 0);
        }
        let mx = crate::math::trunc_div_i128(wx, w);
        let my = crate::math::trunc_div_i128(wy, w);
        let mz = crate::math::trunc_div_i128(wz, w);
        proof {
            crate::math::lemma_trunc_div_bounds(wx as int, w as int, 0x8000_0000, 0x7FFF_FFFF);
            crate::math::lemma_trunc_div_bounds(wy as int, w as int, 0x8000_0000, 0x7FFF_FFFF);
            crate::math::lemma_trunc_div_bounds(wz as int, w as int, 0x8000_0000, 0x7FFF_FFFF);
        }
        Some(CoordsCartesian { x: mx as i32, y: my as i32, z: mz as i32 })
    }
}

/// Absolute caps on the row and grid sums, for the sizes the grid allows:
/// the weight stays below `2 ^ 50` and each weighted coordinate sum within
/// `2 ^ 81` in magnitude.
proof fn lemma_sums_caps<const RES_X: usize, const RES_Y: usize>(
    m: SensorMeasurement<RES_X, RES_Y>,
    zc: [[CoordsCartesian; RES_X]; RES_Y],
    ay: int,
    ax: int,
    y: int,
    x: int,
)
    requires
        1 <= RES_X <= 0xFFFF,
        1 <= RES_Y <= 0xFFFF,
        0 <= x <= RES_X,
    ensures
        sums_abs_ok(row_sums(m, zc, ay, ax, y, x)),
        0 <= y <= RES_Y ==> sums_abs_ok(grid_sums(m, zc, ay, ax, y)),
        sums_abs_ok(centroid_sums(m, zc, ay, ax)),
{
    assert(WEIGHT_FACTOR == 100000);
    assert(0 <= (RES_X - x) * 100000 <= 0x4_0000_0000_0000) by (nonlinear_arith)
        requires
            0 <= x <= RES_X <= 0xFFFF,
    ;
    if 0 <= y <= RES_Y {
        assert(0 <= (RES_Y - y) * (RES_X * 100000) <= 0x4_0000_0000_0000) by (nonlinear_arith)
            requires
                0 <= y <= RES_Y <= 0xFFFF,
                1 <= RES_X <= 0xFFFF,
        ;
    }
    assert(0 <= RES_Y * (RES_X * 100000) <= 0x4_0000_0000_0000) by (nonlinear_arith)
        requires
            1 <= RES_Y <= 0xFFFF,
            1 <= RES_X <= 0xFFFF,
    ;
    lemma_row_sums_wf(m, zc, ay, ax, y, x);
    lemma_sums_cap_to_abs(row_sums(m, zc, ay, ax, y, x), (RES_X - x) * WEIGHT_FACTOR);
    if 0 <= y <= RES_Y {
        lemma_grid_sums_wf(m, zc, ay, ax, y);
        lemma_sums_cap_to_abs(grid_sums(m, zc, ay, ax, y), (RES_Y - y) * (RES_X * WEIGHT_FACTOR));
    }
    lemma_grid_sums_wf(m, zc, ay, ax, 0);
    lemma_sums_cap_to_abs(centroid_sums(m, zc, ay, ax), RES_Y * (RES_X * WEIGHT_FACTOR));
}

/// Absolute bounds on well-formed sums: the weight within `[0, 2 ^ 50]`,
/// each weighted coordinate sum within `2 ^ 81` in magnitude.
pub open spec fn sums_abs_ok(s: CentroidSums) -> bool {
    &&& 0 <= s.w <= 0x4_0000_0000_0000
    &&& -0x200_0000_0000_0000_0000_0000 <= s.wx <= 0x200_0000_0000_0000_0000_0000
    &&& -0x200_0000_0000_0000_0000_0000 <= s.wy <= 0x200_0000_0000_0000_0000_0000
    &&& -0x200_0000_0000_0000_0000_0000 <= s.wz <= 0x200_0000_0000_0000_0000_0000
}

/// Well-formed sums with a cap below `2 ^ 50` obey the absolute bounds.
proof fn lemma_sums_cap_to_abs(s: CentroidSums, wcap: int)
    requires
        sums_wf(s, wcap),
        0 <= wcap <= 0x4_0000_0000_0000,
    ensures
        sums_abs_ok(s),
{
    assert(s.wx <= 0x200_0000_0000_0000_0000_0000 && -0x200_0000_0000_0000_0000_0000
        <= s.wx) by (nonlinear_arith)
        requires
            0 <= s.w <= 0x4_0000_0000_0000,
            -(s.w * 0x8000_0000) <= s.wx <= s.w * 0x7FFF_FFFF,
    ;
    assert(s.wy <= 0x200_0000_0000_0000_0000_0000 && -0x200_0000_0000_0000_0000_0000
        <= s.wy) by (nonlinear_arith)
        requires
            0 <= s.w <= 0x4_0000_0000_0000,
            -(s.w * 0x8000_0000) <= s.wy <= s.w * 0x7FFF_FFFF,
    ;
    assert(s.wz <= 0x200_0000_0000_0000_0000_0000 && -0x200_0000_0000_0000_0000_0000
        <= s.wz) by (nonlinear_arith)
        requires
            0 <= s.w <= 0x4_0000_0000_0000,
            -(s.w * 0x8000_0000) <= s.wz <= s.w * 0x7FFF_FFFF,
    ;
}

/// The scaled weight of the anchor zone in the weighted mean: stands for a
/// weight of `1.0`.
pub const WEIGHT_SCALE: i64 = 1000;

/// The factor that determines how much the distance to the anchor weighs in
/// into the average mean, scaled by `WEIGHT_SCALE`.
///
/// A zone 100 mm away from the anchor weighs in like the anchor itself; a
/// zone 200 mm away weighs in half as much.
pub const WEIGHT_FACTOR: i64 = 100 * WEIGHT_SCALE;

/// The running sums of the weighted mean: the weighted coordinate sums and
/// the total weight.
pub struct CentroidSums {
    /// The sum of `weight * x` over the valid zones.
    pub wx: int,
    /// The sum of `weight * y` over the valid zones.
    pub wy: int,
    /// The sum of `weight * z` over the valid zones.
    pub wz: int,
    /// The sum of the weights of the valid zones.
    pub w: int,
}

impl CentroidSums {
    /// All sums zero.
    pub open spec fn zero() -> CentroidSums {
        CentroidSums { wx: 0, wy: 0, wz: 0, w: 0 }
    }

    /// Component-wise addition.
    pub open spec fn plus(self, o: CentroidSums) -> CentroidSums {
        CentroidSums { wx: self.wx + o.wx, wy: self.wy + o.wy, wz: self.wz + o.wz, w: self.w + o.w }
    }
}

/// The scaled weight of the zone `(y, x)` relative to the anchor zone
/// `(ay, ax)`: the anchor weighs `WEIGHT_SCALE`, any other zone weighs
/// `WEIGHT_FACTOR` divided by its whole-millimeter distance to the anchor
/// (a zone closer than one millimeter counts like one at one millimeter).
pub open spec fn zone_weight<const RES_X: usize, const RES_Y: usize>(
    zc: [[CoordsCartesian; RES_X]; RES_Y],
    ay: int,
    ax: int,
    y: int,
    x: int,
) -> int {
    if y == ay && x == ax {
        WEIGHT_SCALE as int
    } else {
        let d = crate::math::sqrt_floor(crate::math::sq_dist(zc@[ay]@[ax], zc@[y]@[x]));
        if d <= 0 {
            WEIGHT_FACTOR as int
        } else {
            (WEIGHT_FACTOR as int) / d
        }
    }
}

/// The contribution of the zone `(y, x)` to the weighted mean: zero for an
/// invalid reading, else its weighted Cartesian position and its weight.
pub open spec fn cell_sums<const RES_X: usize, const RES_Y: usize>(
    m: SensorMeasurement<RES_X, RES_Y>,
    zc: [[CoordsCartesian; RES_X]; RES_Y],
    ay: int,
    ax: int,
    y: int,
    x: int,
) -> CentroidSums {
    if m.zone(y, x) >= 0 {
        let w = zone_weight(zc, ay, ax, y, x);
        let c = zc@[y]@[x];
        CentroidSums { wx: w * c.x, wy: w * c.y, wz: w * c.z, w }
    } else {
        CentroidSums::zero()
    }
}

/// The summed contributions of row `y` from column `x` to the right edge.
pub open spec fn row_sums<const RES_X: usize, const RES_Y: usize>(
    m: SensorMeasurement<RES_X, RES_Y>,
    zc: [[CoordsCartesian; RES_X]; RES_Y],
    ay: int,
    ax: int,
    y: int,
    x: int,
) -> CentroidSums
    decreases RES_X - x,
{
    if !(0 <= x < RES_X) {
        CentroidSums::zero()
    } else {
        cell_sums(m, zc, ay, ax, y, x).plus(row_sums(m, zc, ay, ax, y, x + 1))
    }
}

/// The summed contributions of the rows from `y` to the bottom edge.
pub open spec fn grid_sums<const RES_X: usize, const RES_Y: usize>(
    m: SensorMeasurement<RES_X, RES_Y>,
    zc: [[CoordsCartesian; RES_X]; RES_Y],
    ay: int,
    ax: int,
    y: int,
) -> CentroidSums
    decreases RES_Y - y,
{
    if !(0 <= y < RES_Y) {
        CentroidSums::zero()
    } else {
        row_sums(m, zc, ay, ax, y, 0).plus(grid_sums(m, zc, ay, ax, y + 1))
    }
}

/// The sums of the weighted mean over the whole grid.
pub open spec fn centroid_sums<const RES_X: usize, const RES_Y: usize>(
    m: SensorMeasurement<RES_X, RES_Y>,
    zc: [[CoordsCartesian; RES_X]; RES_Y],
    ay: int,
    ax: int,
) -> CentroidSums {
    grid_sums(m, zc, ay, ax, 0)
}

/// The sums are well formed up to a weight cap: the weight is within
/// `[0, wcap]` and each weighted coordinate sum is within the weight times
/// the coordinate range.
pub open spec fn sums_wf(s: CentroidSums, wcap: int) -> bool {
    &&& 0 <= s.w <= wcap
    &&& -(s.w * 0x8000_0000) <= s.wx <= s.w * 0x7FFF_FFFF
    &&& -(s.w * 0x8000_0000) <= s.wy <= s.w * 0x7FFF_FFFF
    &&& -(s.w * 0x8000_0000) <= s.wz <= s.w * 0x7FFF_FFFF
}

/// A zone's weight lies within `[0, WEIGHT_FACTOR]`.
proof fn lemma_zone_weight_bounds<const RES_X: usize, const RES_Y: usize>(
    zc: [[CoordsCartesian; RES_X]; RES_Y],
    ay: int,
    ax: int,
    y: int,
    x: int,
)
    ensures
        0 <= zone_weight(zc, ay, ax, y, x) <= WEIGHT_FACTOR,
{
    if !(y == ay && x == ax) {
        let d = crate::math::sqrt_floor(crate::math::sq_dist(zc@[ay]@[ax], zc@[y]@[x]));
        if d > 0 {
            vstd::arithmetic::div_mod::lemma_div_pos_is_pos(WEIGHT_FACTOR as int, d);
            vstd::arithmetic::div_mod::lemma_div_nonincreasing(WEIGHT_FACTOR as int, d);
        }
    }
}

/// A single cell's contribution is well formed up to `WEIGHT_FACTOR`.
proof fn lemma_cell_sums_wf<const RES_X: usize, const RES_Y: usize>(
    m: SensorMeasurement<RES_X, RES_Y>,
    zc: [[CoordsCartesian; RES_X]; RES_Y],
    ay: int,
    ax: int,
    y: int,
    x: int,
)
    ensures
        sums_wf(cell_sums(m, zc, ay, ax, y, x), WEIGHT_FACTOR as int),
{
    if m.zone(y, x) >= 0 {
        let w = zone_weight(zc, ay, ax, y, x);
        let c = zc@[y]@[x];
        lemma_zone_weight_bounds(zc, ay, ax, y, x);
        assert(-(w * 0x8000_0000) <= w * c.x <= w * 0x7FFF_FFFF) by (nonlinear_arith)
            requires
                w >= 0,
                -0x8000_0000 <= c.x <= 0x7FFF_FFFF,
        ;
        assert(-(w * 0x8000_0000) <= w * c.y <= w * 0x7FFF_FFFF) by (nonlinear_arith)
            requires
                w >= 0,
                -0x8000_0000 <= c.y <= 0x7FFF_FFFF,
        ;
        assert(-(w * 0x8000_0000) <= w * c.z <= w * 0x7FFF_FFFF) by (nonlinear_arith)
            requires
                w >= 0,
                -0x8000_0000 <= c.z <= 0x7FFF_FFFF,
        ;
    }
}

/// Well-formedness adds: the caps add.
proof fn lemma_sums_wf_plus(a: CentroidSums, b: CentroidSums, ca: int, cb: int)
    requires
        sums_wf(a, ca),
        sums_wf(b, cb),
    ensures
        sums_wf(a.plus(b), ca + cb),
{
    assert((a.w + b.w) * 0x8000_0000 == a.w * 0x8000_0000 + b.w * 0x8000_0000) by (nonlinear_arith);
    assert((a.w + b.w) * 0x7FFF_FFFF == a.w * 0x7FFF_FFFF + b.w * 0x7FFF_FFFF) by (nonlinear_arith);
}

/// A row's summed contribution is well formed up to the number of remaining
/// cells times `WEIGHT_FACTOR`.
proof fn lemma_row_sums_wf<const RES_X: usize, const RES_Y: usize>(
    m: SensorMeasurement<RES_X, RES_Y>,
    zc: [[CoordsCartesian; RES_X]; RES_Y],
    ay: int,
    ax: int,
    y: int,
    x: int,
)
    requires
        0 <= x <= RES_X,
    ensures
        sums_wf(row_sums(m, zc, ay, ax, y, x), (RES_X - x) * WEIGHT_FACTOR),
    decreases RES_X - x,
{
    if x == RES_X {
        assert(row_sums(m, zc, ay, ax, y, x) == CentroidSums::zero());
    } else {
        lemma_cell_sums_wf(m, zc, ay, ax, y, x);
        lemma_row_sums_wf(m, zc, ay, ax, y, x + 1);
        lemma_sums_wf_plus(
            cell_sums(m, zc, ay, ax, y, x),
            row_sums(m, zc, ay, ax, y, x + 1),
            WEIGHT_FACTOR as int,
            (RES_X - x - 1) * WEIGHT_FACTOR,
        );
        assert(WEIGHT_FACTOR + (RES_X - x - 1) * WEIGHT_FACTOR == (RES_X - x)
            * WEIGHT_FACTOR) by (nonlinear_arith);
    }
}

/// The grid's summed contribution is well formed up to the number of
/// remaining zones times `WEIGHT_FACTOR`.
proof fn lemma_grid_sums_wf<const RES_X: usize, const RES_Y: usize>(
    m: SensorMeasurement<RES_X, RES_Y>,
    zc: [[CoordsCartesian; RES_X]; RES_Y],
    ay: int,
    ax: int,
    y: int,
)
    requires
        0 <= y <= RES_Y,
    ensures
        sums_wf(grid_sums(m, zc, ay, ax, y), (RES_Y - y) * (RES_X * WEIGHT_FACTOR)),
    decreases RES_Y - y,
{
    if y == RES_Y {
        assert(grid_sums(m, zc, ay, ax, y) == CentroidSums::zero());
    } else {
        lemma_row_sums_wf(m, zc, ay, ax, y, 0);
        lemma_grid_sums_wf(m, zc, ay, ax, y + 1);
        lemma_sums_wf_plus(
            row_sums(m, zc, ay, ax, y, 0),
            grid_sums(m, zc, ay, ax, y + 1),
            RES_X * WEIGHT_FACTOR,
            (RES_Y - y - 1) * (RES_X * WEIGHT_FACTOR),
        );
        assert(RES_X * WEIGHT_FACTOR + (RES_Y - y - 1) * (RES_X * WEIGHT_FACTOR) == (RES_Y - y) * (
        RES_X * WEIGHT_FACTOR)) by (nonlinear_arith);
    }
}

/// A row that contains the anchor zone sums at least the anchor's weight.
proof fn lemma_row_sums_anchor_w<const RES_X: usize, const RES_Y: usize>(
    m: SensorMeasurement<RES_X, RES_Y>,
    zc: [[CoordsCartesian; RES_X]; RES_Y],
    ay: int,
    ax: int,
    x: int,
)
    requires
        0 <= x <= ax < RES_X,
        m.zone(ay, ax) >= 0,
    ensures
        row_sums(m, zc, ay, ax, ay, x).w >= WEIGHT_SCALE,
    decreases ax - x,
{
    lemma_row_sums_wf(m, zc, ay, ax, ay, x + 1);
    if x == ax {
        assert(cell_sums(m, zc, ay, ax, ay, x).w == WEIGHT_SCALE);
    } else {
        lemma_cell_sums_wf(m, zc, ay, ax, ay, x);
        lemma_row_sums_anchor_w(m, zc, ay, ax, x + 1);
    }
}

/// A grid whose remaining rows contain the anchor zone sums at least the
/// anchor's weight.
proof fn lemma_grid_sums_anchor_w<const RES_X: usize, const RES_Y: usize>(
    m: SensorMeasurement<RES_X, RES_Y>,
    zc: [[CoordsCartesian; RES_X]; RES_Y],
    ay: int,
    ax: int,
    y: int,
)
    requires
        0 <= y <= ay < RES_Y,
        0 <= ax < RES_X,
        m.zone(ay, ax) >= 0,
    ensures
        grid_sums(m, zc, ay, ax, y).w >= WEIGHT_SCALE,
    decreases ay - y,
{
    if y == ay {
        lemma_row_sums_anchor_w(m, zc, ay, ax, 0);
        lemma_grid_sums_wf(m, zc, ay, ax, y + 1);
    } else {
        lemma_row_sums_wf(m, zc, ay, ax, y, 0);
        lemma_grid_sums_anchor_w(m, zc, ay, ax, y + 1);
    }
}

/// The hand state for a localized position: the hand counts as found
/// exactly when its radial distance is positive and within the threshold;
/// `hand_pos` and `hand_pos_cart` must describe the same point, as the
/// caller's trigonometric front-end computed them.
pub fn hand_state_from_pos(
    hand_pos: CoordsSpherical,
    hand_pos_cart: CoordsCartesian,
    threshold_dist: i32,
) -> (hs: HandState)
    ensures
        0 < hand_pos.r <= threshold_dist ==> hs == (HandState::HandFound {
            hand_pos,
            hand_pos_cart,
        }),
        !(0 < hand_pos.r <= threshold_dist) ==> hs == HandState::HandNotFound,
        hs.wf(),
{
    if hand_pos.r > 0 && hand_pos.r <= threshold_dist {
        HandState::HandFound { hand_pos, hand_pos_cart }
    } else {
        HandState::HandNotFound
    }
}

/// Localization with all zones invalid finds nothing: no zone can anchor
/// the scan, so `min_dist` yields the sentinel and `hand_pos` yields
/// `None`, regardless of any parameters.
pub proof fn lemma_all_invalid_no_anchor<const RES_X: usize, const RES_Y: usize>(
    m: SensorMeasurement<RES_X, RES_Y>,
)
    requires
        forall|y: int, x: int|
            SensorMeasurement::<RES_X, RES_Y>::zone_in_range(y, x) ==> #[trigger] m.zone(y, x) < 0,
    ensures
        !m.has_anchor(),
{
    if m.has_anchor() {
        let (y, x) = choose|y: int, x: int| m.anchor_candidate(y, x);
        assert(m.anchor_candidate(y, x));
        assert(m.zone(y, x) < 0);
    }
}

/// With a single valid zone the contributions of a row reduce to that
/// zone's own weighted cell, or to nothing.
proof fn lemma_row_sums_single<const RES_X: usize, const RES_Y: usize>(
    m: SensorMeasurement<RES_X, RES_Y>,
    zc: [[CoordsCartesian; RES_X]; RES_Y],
    ay: int,
    ax: int,
    y: int,
    x: int,
)
    requires
        SensorMeasurement::<RES_X, RES_Y>::zone_in_range(ay, ax),
        forall|y2: int, x2: int|
            SensorMeasurement::<RES_X, RES_Y>::zone_in_range(y2, x2) && !(y2 == ay && x2 == ax)
                ==> #[trigger] m.zone(y2, x2) < 0,
        0 <= x <= RES_X,
        0 <= y < RES_Y,
    ensures
        row_sums(m, zc, ay, ax, y, x) == (if y == ay && x <= ax {
            cell_sums(m, zc, ay, ax, ay, ax)
        } else {
            CentroidSums::zero()
        }),
    decreases RES_X - x,
{
    if x < RES_X {
        lemma_row_sums_single(m, zc, ay, ax, y, x + 1);
        if !(y == ay && x == ax) {
            assert(m.zone(y, x) < 0);
            assert(cell_sums(m, zc, ay, ax, y, x) == CentroidSums::zero());
        }
    }
}

/// With a single valid zone the contributions of the remaining rows reduce
/// to that zone's own weighted cell, or to nothing.
proof fn lemma_grid_sums_single<const RES_X: usize, const RES_Y: usize>(
    m: SensorMeasurement<RES_X, RES_Y>,
    zc: [[CoordsCartesian; RES_X]; RES_Y],
    ay: int,
    ax: int,
    y: int,
)
    requires
        SensorMeasurement::<RES_X, RES_Y>::zone_in_range(ay, ax),
        forall|y2: int, x2: int|
            SensorMeasurement::<RES_X, RES_Y>::zone_in_range(y2, x2) && !(y2 == ay && x2 == ax)
                ==> #[trigger] m.zone(y2, x2) < 0,
        0 <= y <= RES_Y,
    ensures
        grid_sums(m, zc, ay, ax, y) == (if y <= ay {
            cell_sums(m, zc, ay, ax, ay, ax)
        } else {
            CentroidSums::zero()
        }),
    decreases RES_Y - y,
{
    if y < RES_Y {
        lemma_grid_sums_single(m, zc, ay, ax, y + 1);
        lemma_row_sums_single(m, zc, ay, ax, y, 0);
    }
}

/// Localization with a single valid zone returns exactly that zone's
/// position: with nothing to smooth against, the weighted mean is the
/// zone's own Cartesian position, and the zone is the anchor.
pub proof fn lemma_single_zone_centroid<const RES_X: usize, const RES_Y: usize>(
    m: SensorMeasurement<RES_X, RES_Y>,
    zc: [[CoordsCartesian; RES_X]; RES_Y],
    ay: int,
    ax: int,
)
    requires
        SensorMeasurement::<RES_X, RES_Y>::zone_in_range(ay, ax),
        0 < m.zone(ay, ax) < i32::MAX,
        forall|y2: int, x2: int|
            SensorMeasurement::<RES_X, RES_Y>::zone_in_range(y2, x2) && !(y2 == ay && x2 == ax)
                ==> #[trigger] m.zone(y2, x2) < 0,
    ensures
        m.has_anchor(),
        m.is_min_anchor(ay, ax),
        m.min_anchor() == (ay, ax),
        ({
            let s = centroid_sums(m, zc, ay, ax);
            &&& trunc_div(s.wx, s.w) == zc@[ay]@[ax].x
            &&& trunc_div(s.wy, s.w) == zc@[ay]@[ax].y
            &&& trunc_div(s.wz, s.w) == zc@[ay]@[ax].z
        }),
{
    assert(m.anchor_candidate(ay, ax));
    assert forall|y2: int, x2: int| #[trigger] m.anchor_candidate(y2, x2) implies m.zone(ay, ax)
        < m.zone(y2, x2) || (m.zone(ay, ax) == m.zone(y2, x2) && (ay < y2 || (ay == y2 && ax
        <= x2))) by {
        if !(y2 == ay && x2 == ax) {
            assert(m.zone(y2, x2) < 0);
        }
    }
    m.lemma_min_anchor_is(ay, ax);
    lemma_grid_sums_single(m, zc, ay, ax, 0);
    let s = centroid_sums(m, zc, ay, ax);
    let c = zc@[ay]@[ax];
    assert(zone_weight(zc, ay, ax, ay, ax) == WEIGHT_SCALE as int);
    assert(s == CentroidSums {
        wx: (WEIGHT_SCALE as int) * c.x,
        wy: (WEIGHT_SCALE as int) * c.y,
        wz: (WEIGHT_SCALE as int) * c.z,
        w: WEIGHT_SCALE as int,
    });
    crate::math::lemma_trunc_div_exact(c.x as int, WEIGHT_SCALE as int);
    crate::math::lemma_trunc_div_exact(c.y as int, WEIGHT_SCALE as int);
    crate::math::lemma_trunc_div_exact(c.z as int, WEIGHT_SCALE as int);
}

/// The position a found hand state carries; meaningful only for a found
/// hand.
pub open spec fn found_pos(hs: HandState) -> CoordsSpherical {
    match hs {
        HandState::HandFound { hand_pos, .. } => hand_pos,
        HandState::HandNotFound => CoordsSpherical::invalid_spec(),
    }
}

/// Finds the nearest found hand position among the given hand states: the
/// one with the smallest radial distance, ties broken by the earliest
/// index.
///
/// If the states contain no found hand, it returns index 0 and invalid
/// spherical coordinates.
pub fn find_nearest_hand_pos(states: &Vec<HandState>) -> (r: (usize, CoordsSpherical))
    ensures
        (exists|i: int| 0 <= i < states@.len() && (#[trigger] states@[i]) is HandFound) ==> ({
            &&& r.0 < states@.len()
            &&& states@[r.0 as int] is HandFound
            &&& r.1 == found_pos(states@[r.0 as int])
            &&& forall|i: int|
                0 <= i < states@.len() && (#[trigger] states@[i]) is HandFound ==> r.1.r
                    < found_pos(states@[i]).r || (r.1.r == found_pos(states@[i]).r && r.0 <= i)
        }),
        !(exists|i: int| 0 <= i < states@.len() && (#[trigger] states@[i]) is HandFound) ==> r.0
            == 0 && r.1 == CoordsSpherical::invalid_spec(),
{
    let mut best_i: usize = 0;
    let mut best: CoordsSpherical = CoordsSpherical::invalid();
    let mut any_found = false;

    for i in 0..states.len()
        invariant
            !any_found ==> best_i == 0 && best == CoordsSpherical::invalid_spec(),
            !any_found ==> forall|i2: int| 0 <= i2 < i ==> !((#[trigger] states@[i2]) is HandFound),
            any_found ==> ({
                &&& best_i < i
                &&& states@[best_i as int] is HandFound
                &&& best == found_pos(states@[best_i as int])
                &&& forall|i2: int|
                    0 <= i2 < i && (#[trigger] states@[i2]) is HandFound ==> best.r < found_pos(
                        states@[i2],
                    ).r || (best.r == found_pos(states@[i2]).r && best_i <= i2)
            }),
    {
        if let HandState::HandFound { hand_pos, .. } = states[i] {
            if !any_found || hand_pos.r < best.r {
                best_i = i;
                best = hand_pos;
                any_found = true;
            }
        }
    }

    (best_i, best)
}

/// The azimuth of a zone column, in millidegrees: the column's offset from
/// the grid center, scaled by the field of view per column.
pub open spec fn zone_azimuth(x: int, res_x: int, fov_mdeg: int) -> int {
    trunc_div((2 * x - res_x) * fov_mdeg, 2 * res_x)
}

/// The zenith of a zone row, in millidegrees: 90 degrees minus the row's
/// offset from the grid center scaled by the field of view per row, because
/// the z-axis points up from the center of the sensor grid.
pub open spec fn zone_zenith(y: int, res_y: int, fov_mdeg: int) -> int {
    90_000 - trunc_div((2 * y - res_y) * fov_mdeg, 2 * res_y)
}

/// Calculates the position in space for the measurement in a sensor zone.
///
/// Arguments:
/// - dist: the distance value of the measurement (mm)
/// - zone_pos_x: The x-index of the zone in the sensor grid
/// - zone_pos_y: The y-index of the zone in the sensor grid
///
/// Returns the position in spherical coordinates, with angles in
/// millidegrees; a negative distance yields the invalid coordinates.
pub fn dist_position_spher<const RES_X: usize, const RES_Y: usize>(
    dist: i32,
    zone_pos_x: usize,
    zone_pos_y: usize,
    params: &SensorParams,
) -> (c: CoordsSpherical)
    requires
        1 <= RES_X <= 0xFFFF,
        1 <= RES_Y <= 0xFFFF,
        zone_pos_x < RES_X,
        zone_pos_y < RES_Y,
    ensures
        dist < 0 ==> c == CoordsSpherical::invalid_spec(),
        dist >= 0 ==> c.r == dist && c.theta == zone_azimuth(
            zone_pos_x as int,
            RES_X as int,
            params.fov_horizontal as int,
        ) && c.phi == zone_zenith(zone_pos_y as int, RES_Y as int, params.fov_vertical as int),
{
    if dist < 0 {
        return CoordsSpherical::invalid();
    }

    proof {
        crate::math::lemma_mul_abs_bound(
            2 * (zone_pos_x as int) - (RES_X as int),
            params.fov_horizontal as int,
            RES_X as int,
            0x8000_0000,
        );
        crate::math::lemma_mul_abs_bound(
            2 * (zone_pos_y as int) - (RES_Y as int),
            params.fov_vertical as int,
            RES_Y as int,
            0x8000_0000,
        );
    }
    let num_t: i64 = (2 * (zone_pos_x as i64) - (RES_X as i64)) * (params.fov_horizontal as i64);
    let num_p: i64 = (2 * (zone_pos_y as i64) - (RES_Y as i64)) * (params.fov_vertical as i64);
    let theta64 = trunc_div_i64(num_t, 2 * (RES_X as i64));
    let phi64 = trunc_div_i64(num_p, 2 * (RES_Y as i64));
    proof {
        crate::math::lemma_trunc_div_bounds(
            num_t as int,
            2 * (RES_X as int),
            0x4000_0000,
            0x4000_0000,
        );
        crate::math::lemma_trunc_div_bounds(
            num_p as int,
            2 * (RES_Y as int),
            0x4000_0000,
            0x4000_0000,
        );
    }

    CoordsSpherical { r: dist, theta: theta64 as i32, phi: 90_000 - (phi64 as i32) }
}

} // verus!
