//! Scenario tests for the gesture state machine.

use wave::math::CoordsCartesian;
use wave::math::CoordsSpherical;
use wave::measurements::SensorParams;
use wave::Gesture;
use wave::GestureRecognizer;
use wave::HandState;
use wave::RecognizerParams;
use wave::RecognizerResult;
use wave::RecognizerStatus;
use wave::SensorMeasurement;

fn invalid_grid() -> [[i32; 8]; 8] {
    [[-1; 8]; 8]
}

fn measurement(time_ms: u32, grid: [[i32; 8]; 8]) -> SensorMeasurement<8, 8> {
    let mut m = SensorMeasurement::new(grid);
    m.time_ms = time_ms;
    m
}

fn found(x: i32, y: i32, z: i32) -> HandState {
    HandState::HandFound {
        hand_pos: CoordsSpherical { r: 200, theta: 0, phi: 90_000 },
        hand_pos_cart: CoordsCartesian { x, y, z },
    }
}

fn recognizer<const H: usize>() -> GestureRecognizer<8, 8, H> {
    GestureRecognizer::new(RecognizerParams::default(), SensorParams::default_vl53l5cx())
}

#[test]
fn default_params_documented_values() {
    let p = RecognizerParams::default();
    assert_eq!(p.gesture_threshold_dist, 400);
    assert_eq!(p.static_hold_time_ms, 1500);
    assert_eq!(p.static_hold_tolerance_dist, 100);
    assert_eq!(p.swipe_tolerance_dist, 120);
    assert_eq!(p.swipe_horizontal_travel_dist, 80);
    assert_eq!(p.swipe_vertical_travel_dist, 70);
    let s = SensorParams::default_vl53l5cx();
    assert_eq!(s.fov_horizontal, 45_000);
    assert_eq!(s.fov_vertical, 45_000);
    let r = RecognizerResult::default();
    assert_eq!(r.hand_state, HandState::HandNotFound);
    assert_eq!(r.gesture, Gesture::GestureNone);
}

#[test]
fn getters_return_configuration() {
    let rec = recognizer::<15>();
    assert_eq!(rec.get_params(), RecognizerParams::default());
    assert_eq!(rec.get_sensor_params(), SensorParams::default_vl53l5cx());
}

#[test]
fn static_hold_detected_and_history_cleared() {
    let mut rec = recognizer::<15>();
    let mut result = RecognizerResult::default();
    let mut grid = invalid_grid();
    grid[2][3] = 200;

    // Fifteen measurements spread over more than the 1500 ms hold time.
    for i in 1..=14u32 {
        let s = rec.update(measurement(i * 110, grid), HandState::HandNotFound, &mut result);
        assert_eq!(s, RecognizerStatus::RecognizerStatusOk);
        assert_eq!(result.gesture, Gesture::GestureNone);
    }
    // The 15th measurement completes the warm-up window and the zone has
    // been stable the whole time.
    let s = rec.update(measurement(1650, grid), HandState::HandNotFound, &mut result);
    assert_eq!(s, RecognizerStatus::RecognizerStatusOk);
    assert_eq!(result.gesture, Gesture::GestureStaticHold);

    // The detection cleared the history: the next call is warming up again.
    let s = rec.update(measurement(1700, grid), HandState::HandNotFound, &mut result);
    assert_eq!(s, RecognizerStatus::RecognizerStatusOk);
    assert_eq!(result.gesture, Gesture::GestureNone);
}

#[test]
fn static_hold_needs_stable_zone() {
    let mut rec = recognizer::<15>();
    let mut result = RecognizerResult::default();
    let mut grid = invalid_grid();
    grid[2][3] = 200;
    for i in 1..=14u32 {
        rec.update(measurement(i * 100, grid), HandState::HandNotFound, &mut result);
    }
    // The 15th reading moved beyond the hold tolerance (100 mm): no hold.
    let mut moved = invalid_grid();
    moved[2][3] = 350;
    rec.update(measurement(1500, moved), HandState::HandNotFound, &mut result);
    assert_eq!(result.gesture, Gesture::GestureNone);
}

#[test]
fn monotonicity_rejected_and_state_preserved() {
    let mut rec = recognizer::<15>();
    let mut result = RecognizerResult::default();
    let mut grid = invalid_grid();
    grid[2][3] = 200;

    for i in 1..=14u32 {
        rec.update(measurement(i * 100, grid), HandState::HandNotFound, &mut result);
    }
    // A stale timestamp is rejected outright and mutates nothing.
    let s = rec.update(measurement(1400, grid), HandState::HandNotFound, &mut result);
    assert_eq!(s, RecognizerStatus::RecognizerStatusInvalidInput);
    assert_eq!(result.hand_state, HandState::HandNotFound);
    assert_eq!(result.gesture, Gesture::GestureNone);
    let s = rec.update(measurement(900, grid), HandState::HandNotFound, &mut result);
    assert_eq!(s, RecognizerStatus::RecognizerStatusInvalidInput);

    // The prior state is intact: the next valid measurement completes the
    // hold exactly as it would have without the rejected calls.
    let s = rec.update(measurement(1500, grid), HandState::HandNotFound, &mut result);
    assert_eq!(s, RecognizerStatus::RecognizerStatusOk);
    assert_eq!(result.gesture, Gesture::GestureStaticHold);
}

#[test]
fn reset_restores_warming_up() {
    let mut rec = recognizer::<15>();
    let mut result = RecognizerResult::default();
    let mut grid = invalid_grid();
    grid[2][3] = 200;

    for i in 1..=14u32 {
        rec.update(measurement(i * 100, grid), HandState::HandNotFound, &mut result);
    }
    let s = rec.reset(
        RecognizerParams::default(),
        SensorParams::default_vl53l5cx(),
        1450,
    );
    assert_eq!(s, RecognizerStatus::RecognizerStatusOk);

    // Without the reset this measurement would have completed the hold.
    let s = rec.update(measurement(1500, grid), HandState::HandNotFound, &mut result);
    assert_eq!(s, RecognizerStatus::RecognizerStatusOk);
    assert_eq!(result.gesture, Gesture::GestureNone);
}

fn run_swipe<const H: usize>(newer: HandState) -> Gesture {
    let mut rec = recognizer::<H>();
    let mut result = RecognizerResult::default();
    // An older snapshot with the hand at the origin, then quiet frames,
    // then the newer snapshot; at the last update the first entry is about
    // 450 ms old and the newest about 0 ms.
    rec.update(measurement(1000, invalid_grid()), found(0, 0, 0), &mut result);
    rec.update(measurement(1100, invalid_grid()), HandState::HandNotFound, &mut result);
    rec.update(measurement(1200, invalid_grid()), HandState::HandNotFound, &mut result);
    rec.update(measurement(1300, invalid_grid()), HandState::HandNotFound, &mut result);
    let s = rec.update(measurement(1450, invalid_grid()), newer, &mut result);
    assert_eq!(s, RecognizerStatus::RecognizerStatusOk);
    result.gesture
}

#[test]
fn swipe_right_detected() {
    assert_eq!(run_swipe::<5>(found(0, 100, 0)), Gesture::GestureSwipeRight);
}

#[test]
fn swipe_left_detected() {
    assert_eq!(run_swipe::<5>(found(0, -100, 0)), Gesture::GestureSwipeLeft);
}

#[test]
fn swipe_up_detected() {
    assert_eq!(run_swipe::<5>(found(0, 0, 100)), Gesture::GestureSwipeUp);
}

#[test]
fn swipe_down_detected() {
    assert_eq!(run_swipe::<5>(found(0, 0, -100)), Gesture::GestureSwipeDown);
}

#[test]
fn swipe_requires_lateral_stability() {
    // The travel along y is large enough, but the hand drifted 150 mm
    // sideways: beyond the 120 mm tolerance, so no swipe.
    assert_eq!(run_swipe::<5>(found(150, 100, 0)), Gesture::GestureNone);
}

#[test]
fn swipe_requires_enough_travel() {
    // 80 mm of travel is not strictly more than the 80 mm threshold.
    assert_eq!(run_swipe::<5>(found(0, 80, 0)), Gesture::GestureNone);
}

#[test]
fn swipe_detection_clears_history() {
    let mut rec = recognizer::<5>();
    let mut result = RecognizerResult::default();
    rec.update(measurement(1000, invalid_grid()), found(0, 0, 0), &mut result);
    rec.update(measurement(1100, invalid_grid()), HandState::HandNotFound, &mut result);
    rec.update(measurement(1200, invalid_grid()), HandState::HandNotFound, &mut result);
    rec.update(measurement(1300, invalid_grid()), HandState::HandNotFound, &mut result);
    rec.update(measurement(1450, invalid_grid()), found(0, 100, 0), &mut result);
    assert_eq!(result.gesture, Gesture::GestureSwipeRight);

    // The detection cleared the history: the same pair cannot fire again.
    rec.update(measurement(1500, invalid_grid()), found(0, 200, 0), &mut result);
    assert_eq!(result.gesture, Gesture::GestureNone);
}

#[test]
fn history_overwrites_oldest_entries() {
    // The same sequence of five updates, in a buffer that holds five
    // entries and in one that holds only four. In the larger buffer the
    // first entry still anchors a right swipe; the smaller buffer has
    // already overwritten it, so nothing is found.
    let mut large = recognizer::<5>();
    let mut small = recognizer::<4>();
    let mut result = RecognizerResult::default();

    for rec_step in 0..5u32 {
        let (m, hs) = match rec_step {
            0 => (measurement(1000, invalid_grid()), found(0, 0, 0)),
            1 => (measurement(1100, invalid_grid()), HandState::HandNotFound),
            2 => (measurement(1200, invalid_grid()), HandState::HandNotFound),
            3 => (measurement(1300, invalid_grid()), HandState::HandNotFound),
            _ => (measurement(1450, invalid_grid()), found(0, 100, 0)),
        };
        large.update(m, hs, &mut result);
        let g_large = result.gesture;
        small.update(m, hs, &mut result);
        let g_small = result.gesture;
        if rec_step == 4 {
            assert_eq!(g_large, Gesture::GestureSwipeRight);
            assert_eq!(g_small, Gesture::GestureNone);
        } else {
            assert_eq!(g_large, Gesture::GestureNone);
            assert_eq!(g_small, Gesture::GestureNone);
        }
    }
}

#[test]
fn static_hold_takes_priority_over_swipe() {
    let mut rec = recognizer::<15>();
    let mut result = RecognizerResult::default();
    let mut grid = invalid_grid();
    grid[0][0] = 200;

    for i in 1..=14u32 {
        let hs = if i == 10 {
            found(0, 0, 0)
        } else {
            HandState::HandNotFound
        };
        rec.update(measurement(i * 100, grid), hs, &mut result);
    }
    // The final update both completes the hold and forms a qualifying
    // swipe pair with the entry at age 500 ms; the hold wins.
    rec.update(measurement(1500, grid), found(0, 100, 0), &mut result);
    assert_eq!(result.gesture, Gesture::GestureStaticHold);
}

#[test]
fn update_reports_hand_state() {
    let mut rec = recognizer::<5>();
    let mut result = RecognizerResult::default();
    let hs = found(10, 20, 30);
    let s = rec.update(measurement(50, invalid_grid()), hs, &mut result);
    assert_eq!(s, RecognizerStatus::RecognizerStatusOk);
    assert_eq!(result.hand_state, hs);
    assert_eq!(result.gesture, Gesture::GestureNone);
}
