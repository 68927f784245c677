//! Tests for hand localization over the measurement grid.

use wave::math::CoordsCartesian;
use wave::math::CoordsSpherical;
use wave::measurements::dist_position_spher;
use wave::measurements::find_nearest_hand_pos;
use wave::measurements::hand_state_from_pos;
use wave::measurements::SensorParams;
use wave::HandState;
use wave::SensorMeasurement;

fn invalid_grid() -> [[i32; 8]; 8] {
    [[-1; 8]; 8]
}

fn flat_cart_grid() -> [[CoordsCartesian; 8]; 8] {
    let mut g = [[CoordsCartesian { x: 0, y: 0, z: 0 }; 8]; 8];
    for (y, row) in g.iter_mut().enumerate() {
        for (x, c) in row.iter_mut().enumerate() {
            *c = CoordsCartesian {
                x: (x as i32) * 10,
                y: (y as i32) * 10,
                z: 300,
            };
        }
    }
    g
}

#[test]
fn min_dist_finds_smallest_positive() {
    let mut grid = invalid_grid();
    grid[1][2] = 500;
    grid[4][6] = 120;
    grid[7][0] = 130;
    let m = SensorMeasurement::<8, 8>::new(grid);
    let (pos, d) = m.min_dist();
    assert_eq!(d, 120);
    assert_eq!(pos, [6, 4]);
}

#[test]
fn min_dist_tie_breaks_in_scan_order() {
    let mut grid = invalid_grid();
    grid[3][5] = 80;
    grid[3][1] = 80;
    grid[6][0] = 80;
    let m = SensorMeasurement::<8, 8>::new(grid);
    let (pos, d) = m.min_dist();
    assert_eq!(d, 80);
    // Row-major scan order: row 3, column 1 comes first.
    assert_eq!(pos, [1, 3]);
}

#[test]
fn min_dist_all_invalid_yields_sentinel() {
    let m = SensorMeasurement::<8, 8>::new(invalid_grid());
    let (pos, d) = m.min_dist();
    assert_eq!(d, i32::MAX);
    assert_eq!(pos, [0, 0]);
}

#[test]
fn min_dist_cols_per_column_minimum() {
    let mut grid = invalid_grid();
    grid[0][0] = 300;
    grid[5][0] = 200;
    grid[2][3] = 40;
    let m = SensorMeasurement::<8, 8>::new(grid);
    let cols = m.min_dist_cols();
    assert_eq!(cols[0], 200);
    assert_eq!(cols[3], 40);
    assert_eq!(cols[1], i32::MAX);
}

#[test]
fn single_valid_zone_yields_that_zone() {
    let mut grid = invalid_grid();
    grid[1][2] = 150;
    let m = SensorMeasurement::<8, 8>::new(grid);
    let zones_cart = flat_cart_grid();
    // With nothing to smooth against, the weighted mean is exactly the
    // zone's own position.
    assert_eq!(m.hand_pos(&zones_cart), Some(zones_cart[1][2]));
}

#[test]
fn all_zones_invalid_not_found() {
    let m = SensorMeasurement::<8, 8>::new(invalid_grid());
    assert_eq!(m.hand_pos(&flat_cart_grid()), None);
}

#[test]
fn centroid_weighs_anchor_and_neighbor() {
    let mut grid = invalid_grid();
    grid[0][0] = 100;
    grid[0][1] = 200;
    let m = SensorMeasurement::<8, 8>::new(grid);
    let mut zones_cart = [[CoordsCartesian { x: 0, y: 0, z: 0 }; 8]; 8];
    zones_cart[0][1] = CoordsCartesian { x: 100, y: 0, z: 0 };
    // The neighbor sits 100 mm from the anchor, so it weighs exactly as
    // much as the anchor itself: the mean lands halfway.
    assert_eq!(
        m.hand_pos(&zones_cart),
        Some(CoordsCartesian { x: 50, y: 0, z: 0 })
    );
}

#[test]
fn dist_position_spher_grid_angles() {
    let params = SensorParams::default_vl53l5cx();
    let c = dist_position_spher::<8, 8>(250, 0, 0, &params);
    assert_eq!(c.r, 250);
    // Column 0 of 8 at 45 degrees FOV: (2*0 - 8) * 45000 / (2*8) mdeg.
    assert_eq!(c.theta, -22_500);
    // Row 0: 90 deg plus the same offset upward.
    assert_eq!(c.phi, 112_500);

    let center = dist_position_spher::<8, 8>(250, 4, 4, &params);
    assert_eq!(center.theta, 0);
    assert_eq!(center.phi, 90_000);

    let edge = dist_position_spher::<8, 8>(250, 7, 7, &params);
    assert_eq!(edge.theta, 16_875);
    assert_eq!(edge.phi, 90_000 - 16_875);
}

#[test]
fn dist_position_spher_invalid_distance() {
    let params = SensorParams::default_vl53l5cx();
    let c = dist_position_spher::<8, 8>(-1, 3, 3, &params);
    assert_eq!(c, CoordsSpherical::invalid());
}

#[test]
fn hand_state_threshold_boundary() {
    let pos = |r: i32| CoordsSpherical { r, theta: 0, phi: 90_000 };
    let cart = CoordsCartesian { x: 0, y: 0, z: 200 };
    assert_eq!(
        hand_state_from_pos(pos(400), cart, 400),
        HandState::HandFound { hand_pos: pos(400), hand_pos_cart: cart }
    );
    assert_eq!(hand_state_from_pos(pos(401), cart, 400), HandState::HandNotFound);
    assert_eq!(hand_state_from_pos(pos(0), cart, 400), HandState::HandNotFound);
    assert_eq!(hand_state_from_pos(pos(-1), cart, 400), HandState::HandNotFound);
}

#[test]
fn nearest_hand_pos_picks_smallest_radius() {
    let pos = |r: i32| CoordsSpherical { r, theta: 0, phi: 90_000 };
    let cart = CoordsCartesian { x: 0, y: 0, z: 0 };
    let states = vec![
        HandState::HandNotFound,
        HandState::HandFound { hand_pos: pos(300), hand_pos_cart: cart },
        HandState::HandFound { hand_pos: pos(120), hand_pos_cart: cart },
        HandState::HandFound { hand_pos: pos(120), hand_pos_cart: cart },
    ];
    let (i, p) = find_nearest_hand_pos(&states);
    // Smallest radial distance wins; ties go to the earliest index.
    assert_eq!(i, 2);
    assert_eq!(p, pos(120));
}

#[test]
fn nearest_hand_pos_none_found() {
    let states = vec![HandState::HandNotFound, HandState::HandNotFound];
    let (i, p) = find_nearest_hand_pos(&states);
    assert_eq!(i, 0);
    assert!(p.is_invalid());
    assert_eq!(p, CoordsSpherical::invalid());
}

#[test]
fn min_dist_ignores_sentinel_sized_readings() {
    // A reading equal to i32::MAX cannot be told apart from the scan's
    // sentinel and never becomes the anchor.
    let mut grid = invalid_grid();
    grid[0][0] = i32::MAX;
    let m = SensorMeasurement::<8, 8>::new(grid);
    assert_eq!(m.min_dist(), ([0, 0], i32::MAX));

    grid[5][5] = 500;
    let m = SensorMeasurement::<8, 8>::new(grid);
    assert_eq!(m.min_dist(), ([5, 5], 500));
}
