//! Tests for the coordinate and grid utilities.

use wave::math::CoordsCartesian;
use wave::math::CoordsSpherical;
use wave::math::MovingAvg;

#[test]
fn matrix_2d_transpose() {
    let m = [
        [1.0, 2.0, 3.0],
        [1.5, 2.5, 3.5],
        [2.0, 3.0, 4.0],
        [2.5, 3.5, 4.5],
    ];

    assert_eq!(
        wave::math::matrix_2d_transpose(m),
        [
            [1.0, 1.5, 2.0, 2.5],
            [2.0, 2.5, 3.0, 3.5],
            [3.0, 3.5, 4.0, 4.5],
        ]
    );
}

#[test]
fn matrix_2d_rotate_90deg() {
    let m = [
        [1.0, 2.0, 3.0],
        [1.5, 2.5, 3.5],
        [2.0, 3.0, 4.0],
        [2.5, 3.5, 4.5],
    ];

    assert_eq!(
        wave::math::matrix_2d_rotate_90deg(m),
        [
            [2.5, 2.0, 1.5, 1.0],
            [3.5, 3.0, 2.5, 2.0],
            [4.5, 4.0, 3.5, 3.0],
        ]
    );
}

#[test]
fn matrix_2d_rotate_180deg() {
    let m = [
        [1.0, 2.0, 3.0],
        [1.5, 2.5, 3.5],
        [2.0, 3.0, 4.0],
        [2.5, 3.5, 4.5],
    ];

    assert_eq!(
        wave::math::matrix_2d_rotate_180deg(m),
        [
            [4.5, 3.5, 2.5],
            [4.0, 3.0, 2.0],
            [3.5, 2.5, 1.5],
            [3.0, 2.0, 1.0],
        ]
    );
}

#[test]
fn matrix_2d_rotate_270deg() {
    let m = [
        [1.0, 2.0, 3.0],
        [1.5, 2.5, 3.5],
        [2.0, 3.0, 4.0],
        [2.5, 3.5, 4.5],
    ];

    assert_eq!(
        wave::math::matrix_2d_rotate_270deg(m),
        [
            [3.0, 3.5, 4.0, 4.5],
            [2.0, 2.5, 3.0, 3.5],
            [1.0, 1.5, 2.0, 2.5]
        ]
    );
}

#[test]
fn matrix_2d_reverse_cols() {
    let m = [
        [1.0, 2.0, 3.0, 4.0],
        [1.5, 2.5, 3.5, 4.5],
        [2.0, 3.0, 4.0, 5.0],
        [2.5, 3.5, 4.5, 5.5],
    ];

    assert_eq!(
        wave::math::matrix_2d_reverse_cols(m),
        [
            [2.5, 3.5, 4.5, 5.5],
            [2.0, 3.0, 4.0, 5.0],
            [1.5, 2.5, 3.5, 4.5],
            [1.0, 2.0, 3.0, 4.0],
        ]
    );
}

#[test]
fn matrix_2d_reverse_rows() {
    let m = [
        [1.0, 2.0, 3.0, 4.0],
        [1.5, 2.5, 3.5, 4.5],
        [2.0, 3.0, 4.0, 5.0],
        [2.5, 3.5, 4.5, 5.5],
    ];

    assert_eq!(
        wave::math::matrix_2d_reverse_rows(m),
        [
            [4.0, 3.0, 2.0, 1.0],
            [4.5, 3.5, 2.5, 1.5],
            [5.0, 4.0, 3.0, 2.0],
            [5.5, 4.5, 3.5, 2.5],
        ]
    );
}

#[test]
fn matrix_2d_transpose_integers() {
    let m = [[1, 2], [3, 4], [5, 6]];
    assert_eq!(wave::math::matrix_2d_transpose(m), [[1, 3, 5], [2, 4, 6]]);
}

#[test]
fn moving_avg_window_three() {
    let mut avg = MovingAvg::new(vec![5, 2, 3, 8, 4, 1, 2, 3], 3);
    let mut got = Vec::new();
    while let Some(v) = avg.next() {
        got.push(v);
    }
    // Window sums 10, 13, 15, 13, 7, 6 divided by 3, rounded toward zero.
    assert_eq!(got, vec![3, 4, 5, 4, 2, 2]);
}

#[test]
fn moving_avg_rounds_toward_zero() {
    let mut avg = MovingAvg::new(vec![-3, 0], 2);
    // (-3 + 0) / 2 truncates toward zero: -1, not -2.
    assert_eq!(avg.next(), Some(-1));
    assert_eq!(avg.next(), None);
}

#[test]
fn moving_avg_empty_window() {
    let mut avg = MovingAvg::new(vec![1, 2, 3], 0);
    assert_eq!(avg.next(), None);
}

#[test]
fn moving_avg_window_larger_than_samples() {
    let mut avg = MovingAvg::new(vec![1, 2], 3);
    assert_eq!(avg.next(), None);
}

#[test]
fn dist_to_pythagorean() {
    let a = CoordsCartesian { x: 0, y: 0, z: 0 };
    let b = CoordsCartesian { x: 3, y: 4, z: 0 };
    assert_eq!(a.dist_to(&b), 5);
    assert_eq!(b.dist_to(&a), 5);
}

#[test]
fn dist_to_rounds_down() {
    let a = CoordsCartesian { x: 0, y: 0, z: 0 };
    let b = CoordsCartesian { x: 1, y: 1, z: 1 };
    // sqrt(3) = 1.73..., rounded down to whole millimeters.
    assert_eq!(a.dist_to(&b), 1);
}

#[test]
fn spherical_invalid_sentinel() {
    let c = CoordsSpherical::invalid();
    assert_eq!(c.r, -1);
    assert_eq!(c.theta, 0);
    assert_eq!(c.phi, 0);
    assert!(c.is_invalid());
    assert!(!CoordsSpherical::zero().is_invalid());
}

#[test]
fn cartesian_zero_is_origin() {
    let c = CoordsCartesian::zero();
    assert_eq!((c.x, c.y, c.z), (0, 0, 0));
}
