//! Gesture recognizer.
//!
//! All distance values are considered to be in millimeter. The recognizer
//! keeps a fixed-capacity history of the last measurements, newest first,
//! and matches time windows of that history against a static-hold predicate
//! and a swipe predicate.

use vstd::prelude::*;

use crate::measurements::HandState;
use crate::measurements::SensorMeasurement;
use crate::measurements::SensorParams;

verus! {

/// Represents a hand gesture.
#[derive(Debug, Clone, Copy, PartialEq, Eq, Structural, PartialOrd, Ord)]
#[non_exhaustive]
pub enum Gesture {
    /// No recognized gesture.
    GestureNone,
    /// A static hold.
    GestureStaticHold,
    /// A right swipe.
    GestureSwipeRight,
    /// A left swipe.
    GestureSwipeLeft,
    /// A up swipe.
    GestureSwipeUp,
    /// A down swipe.
    GestureSwipeDown,
}

/// A gesture prediction result.
#[derive(Debug, Clone, Copy, PartialEq, Eq, Structural)]
pub struct RecognizerResult {
    /// The current hand state.
    pub hand_state: HandState,
    /// The recognized gesture, `GestureNone` if no gesture was recognized.
    pub gesture: Gesture,
}

impl RecognizerResult {
    /// The default result as a spec value: no hand found, no gesture.
    pub open spec fn default_spec() -> RecognizerResult {
        RecognizerResult { hand_state: HandState::HandNotFound, gesture: Gesture::GestureNone }
    }
}

impl Default for RecognizerResult {
    /// The default result: no hand found and no gesture recognized.
    fn default() -> (r: Self)
        ensures
            r == Self::default_spec(),
    {
        Self { hand_state: HandState::HandNotFound, gesture: Gesture::GestureNone }
    }
}

/// Parameters for gesture recognition. Distances are in millimeters, times
/// in milliseconds.
#[derive(Debug, Clone, Copy, PartialEq, Eq, Structural)]
pub struct RecognizerParams {
    /// The furthest hand distance for gesture recognition.
    pub gesture_threshold_dist: i32,
    /// The time the hand has to be still to recognize a static hold.
    pub static_hold_time_ms: u32,
    /// How much the hand can move towards / away from the sensor while doing a static hold.
    pub static_hold_tolerance_dist: i32,
    /// How much the hand can move towards / away from the sensor while doing a swipe.
    pub swipe_tolerance_dist: i32,
    /// How much distance the hand has to travel to detect a horizontal swipe.
    pub swipe_horizontal_travel_dist: i32,
    /// How much distance the hand has to travel to detect a vertical swipe.
    pub swipe_vertical_travel_dist: i32,
}

impl Default for RecognizerParams {
    /// Default tunables: threshold 400 mm, hold time 1500 ms, hold
    /// tolerance 100 mm, swipe lateral tolerance 120 mm, horizontal travel
    /// 80 mm, vertical travel 70 mm.
    fn default() -> (p: Self)
        ensures
            p.gesture_threshold_dist == 400,
            p.static_hold_time_ms == 1500,
            p.static_hold_tolerance_dist == 100,
            p.swipe_tolerance_dist == 120,
            p.swipe_horizontal_travel_dist == 80,
            p.swipe_vertical_travel_dist == 70,
    {
        Self {
            gesture_threshold_dist: 400,
            static_hold_time_ms: 1500,
            static_hold_tolerance_dist: 100,
            swipe_tolerance_dist: 120,
            swipe_horizontal_travel_dist: 80,
            swipe_vertical_travel_dist: 70,
        }
    }
}

/// The status of the gesture recognizer.
#[derive(Debug, Clone, Copy, PartialEq, Eq, Structural)]
#[non_exhaustive]
pub enum RecognizerStatus {
    /// Ok.
    RecognizerStatusOk,
    /// Indicates a failure while the recognizer was initialized.
    RecognizerStatusInitFailure,
    /// Indicates invalid input to the recognizer.
    RecognizerStatusInvalidInput,
}

/// One slot of the history: a measurement together with the hand state that
/// was recognized from it.
#[derive(Debug, Clone, Copy)]
pub struct HistoryEntry<const RES_X: usize, const RES_Y: usize> {
    /// The stored measurement.
    pub measurement: SensorMeasurement<RES_X, RES_Y>,
    /// The hand state recognized from the measurement.
    pub hand_state: HandState,
}

/// An invalid history slot: an invalid measurement (all readings -1, time
/// 0) and no hand found.
pub open spec fn is_invalid_entry<const RES_X: usize, const RES_Y: usize>(
    e: HistoryEntry<RES_X, RES_Y>,
) -> bool {
    &&& e.measurement.time_ms == 0
    &&& forall|y: int, x: int|
        SensorMeasurement::<RES_X, RES_Y>::zone_in_range(y, x) ==> #[trigger] e.measurement.zone(
            y,
            x,
        ) == -1
    &&& e.hand_state is HandNotFound
}

impl<const RES_X: usize, const RES_Y: usize> HistoryEntry<RES_X, RES_Y> {
    /// The invalid history slot.
    pub fn invalid() -> (e: Self)
        ensures
            is_invalid_entry(e),
    {
        Self { measurement: SensorMeasurement::invalid(), hand_state: HandState::HandNotFound }
    }
}

/// The age of the timestamp `t` on a clock that reads `now`, with the
/// unsigned wraparound of the caller's monotonic millisecond clock.
pub open spec fn age_ms(now: u32, t: u32) -> int {
    if t <= now {
        now - t
    } else {
        now + 0x1_0000_0000 - t
    }
}

/// The age of the timestamp `t` on a clock that reads `now`.
fn age_of(now: u32, t: u32) -> (a: u32)
    ensures
        a == age_ms(now, t),
{
    if t <= now {
        now - t
    } else {
        now + ((u32::MAX - t) + 1)
    }
}

/// How many measurements must have been received before the gesture
/// predicates run: 15, or the whole history size if that is smaller.
pub open spec fn warm_threshold(history_size: int) -> int {
    if history_size < 15 {
        history_size
    } else {
        15
    }
}

/// Whether the recognizer is still warming up: fewer measurements received
/// since the last reset than the warm threshold.
pub open spec fn warming(received: int, history_size: int) -> bool {
    received < warm_threshold(history_size)
}

/// The history after a push: the new entry in front, every other slot one
/// place older, the oldest discarded.
pub open spec fn history_push<const RES_X: usize, const RES_Y: usize>(
    h: Seq<HistoryEntry<RES_X, RES_Y>>,
    e: HistoryEntry<RES_X, RES_Y>,
) -> Seq<HistoryEntry<RES_X, RES_Y>> {
    seq![e] + h.drop_last()
}

/// Whether history entry `i` is younger than `window_ms` at time `now`.
pub open spec fn in_window<const RES_X: usize, const RES_Y: usize>(
    h: Seq<HistoryEntry<RES_X, RES_Y>>,
    now: u32,
    window_ms: u32,
    i: int,
) -> bool {
    0 <= i < h.len() && age_ms(now, h[i].measurement.time_ms) < window_ms
}

/// A zone of a window entry that could anchor a hold: the entry is in the
/// window and the zone reading is positive.
pub open spec fn window_candidate<const RES_X: usize, const RES_Y: usize>(
    h: Seq<HistoryEntry<RES_X, RES_Y>>,
    now: u32,
    window_ms: u32,
    i: int,
    y: int,
    x: int,
) -> bool {
    in_window(h, now, window_ms, i) && h[i].measurement.anchor_candidate(y, x)
}

/// Whether any window entry has a zone that could anchor a hold.
pub open spec fn has_window_anchor<const RES_X: usize, const RES_Y: usize>(
    h: Seq<HistoryEntry<RES_X, RES_Y>>,
    now: u32,
    window_ms: u32,
) -> bool {
    exists|i: int, y: int, x: int| #[trigger] window_candidate(h, now, window_ms, i, y, x)
}

/// Whether `(i, y, x)` is the globally nearest zone over the window: the
/// smallest positive reading, ties broken first by the newer entry, then by
/// row-major zone order.
pub open spec fn is_window_anchor<const RES_X: usize, const RES_Y: usize>(
    h: Seq<HistoryEntry<RES_X, RES_Y>>,
    now: u32,
    window_ms: u32,
    i: int,
    y: int,
    x: int,
) -> bool {
    &&& window_candidate(h, now, window_ms, i, y, x)
    &&& forall|i2: int, y2: int, x2: int|
        #[trigger] window_candidate(h, now, window_ms, i2, y2, x2) ==> h[i].measurement.zone(y, x)
            < h[i2].measurement.zone(y2, x2) || (h[i].measurement.zone(y, x)
            == h[i2].measurement.zone(y2, x2) && (i < i2 || (i == i2 && (y < y2 || (y == y2 && x
            <= x2)))))
}

/// The `(entry, row, column)` coordinates of the nearest zone over the
/// window.
pub open spec fn window_anchor<const RES_X: usize, const RES_Y: usize>(
    h: Seq<HistoryEntry<RES_X, RES_Y>>,
    now: u32,
    window_ms: u32,
) -> (int, int, int) {
    choose|t: (int, int, int)| #[trigger] is_window_anchor(h, now, window_ms, t.0, t.1, t.2)
}

/// The nearest zone over the window is unique, so `window_anchor` is pinned
/// by `is_window_anchor`.
pub proof fn lemma_window_anchor_is<const RES_X: usize, const RES_Y: usize>(
    h: Seq<HistoryEntry<RES_X, RES_Y>>,
    now: u32,
    window_ms: u32,
    i: int,
    y: int,
    x: int,
)
    requires
        is_window_anchor(h, now, window_ms, i, y, x),
    ensures
        window_anchor(h, now, window_ms) == (i, y, x),
{
    let w = (i, y, x);
    assert(w.0 == i && w.1 == y && w.2 == x);
    assert(is_window_anchor(h, now, window_ms, w.0, w.1, w.2));
    assert(exists|t: (int, int, int)| #[trigger] is_window_anchor(h, now, window_ms, t.0, t.1, t.2));
    let t = choose|t: (int, int, int)| #[trigger] is_window_anchor(h, now, window_ms, t.0, t.1, t.2);
    assert(is_window_anchor(h, now, window_ms, t.0, t.1, t.2));
    assert(window_candidate(h, now, window_ms, t.0, t.1, t.2));
    assert(window_candidate(h, now, window_ms, i, y, x));
    assert(h[i].measurement.zone(y, x) == h[t.0].measurement.zone(t.1, t.2));
    assert(t.0 == i && t.1 == y && t.2 == x);
}

/// Whether a measurement keeps the hold at the anchor zone: the reading at
/// the anchor's coordinates is positive, within the gesture threshold, and
/// within the hold tolerance around the anchor distance.
pub open spec fn hold_band_ok<const RES_X: usize, const RES_Y: usize>(
    m: SensorMeasurement<RES_X, RES_Y>,
    y: int,
    x: int,
    anchor_dist: int,
    p: RecognizerParams,
) -> bool {
    &&& 0 < m.zone(y, x) <= p.gesture_threshold_dist
    &&& anchor_dist - p.static_hold_tolerance_dist <= m.zone(y, x) <= anchor_dist
        + p.static_hold_tolerance_dist
}

/// The static-hold predicate: once warmed up, the nearest zone over the
/// hold window must be within the gesture threshold, and every window entry
/// must read, at that zone's coordinates, a positive distance within the
/// threshold and within the hold tolerance around the anchor distance.
pub open spec fn static_hold_spec<const RES_X: usize, const RES_Y: usize>(
    h: Seq<HistoryEntry<RES_X, RES_Y>>,
    received: int,
    p: RecognizerParams,
    now: u32,
) -> bool {
    &&& !warming(received, h.len() as int)
    &&& has_window_anchor(h, now, p.static_hold_time_ms)
    &&& ({
        let t = window_anchor(h, now, p.static_hold_time_ms);
        let ad = h[t.0].measurement.zone(t.1, t.2);
        &&& ad <= p.gesture_threshold_dist
        &&& forall|j: int|
            #[trigger] in_window(h, now, p.static_hold_time_ms, j) ==> hold_band_ok(
                h[j].measurement,
                t.1,
                t.2,
                ad,
                p,
            )
    })
}

/// The youngest age of the swipe's "older" sub-window: candidate starting
/// positions are at least this old.
pub const SWIPE_OLDER_MIN_AGE_MS: u32 = 300;

/// The oldest age the swipe considers at all: candidate starting positions
/// are younger than this.
pub const SWIPE_OLDER_MAX_AGE_MS: u32 = 600;

/// The Cartesian position of a stored hand state; meaningful only when the
/// hand was found.
pub open spec fn entry_cart<const RES_X: usize, const RES_Y: usize>(
    e: HistoryEntry<RES_X, RES_Y>,
) -> crate::math::CoordsCartesian {
    match e.hand_state {
        HandState::HandFound { hand_pos_cart, .. } => hand_pos_cart,
        HandState::HandNotFound => crate::math::CoordsCartesian { x: 0i32, y: 0i32, z: 0i32 },
    }
}

/// Whether entry `i` is a candidate starting position for a swipe: its age
/// is within the older sub-window and it carries a found hand.
pub open spec fn swipe_older_eligible<const RES_X: usize, const RES_Y: usize>(
    h: Seq<HistoryEntry<RES_X, RES_Y>>,
    now: u32,
    i: int,
) -> bool {
    &&& 0 <= i < h.len()
    &&& SWIPE_OLDER_MIN_AGE_MS <= age_ms(now, h[i].measurement.time_ms) < SWIPE_OLDER_MAX_AGE_MS
    &&& h[i].hand_state is HandFound
}

/// Whether entry `j` is a candidate ending position for a swipe: younger
/// than the older sub-window and carrying a found hand.
pub open spec fn swipe_newer_eligible<const RES_X: usize, const RES_Y: usize>(
    h: Seq<HistoryEntry<RES_X, RES_Y>>,
    now: u32,
    j: int,
) -> bool {
    &&& 0 <= j < h.len()
    &&& age_ms(now, h[j].measurement.time_ms) < SWIPE_OLDER_MIN_AGE_MS
    &&& h[j].hand_state is HandFound
}

/// The gesture a qualifying (older, newer) position pair shows: the pair
/// qualifies only when the newer x stays within the lateral tolerance of
/// the older x; travel along y beyond the horizontal threshold is a
/// right/left swipe, else travel along z beyond the vertical threshold is
/// an up/down swipe.
pub open spec fn pair_gesture(
    oc: crate::math::CoordsCartesian,
    nc: crate::math::CoordsCartesian,
    p: RecognizerParams,
) -> Gesture {
    if oc.x - p.swipe_tolerance_dist <= nc.x < oc.x + p.swipe_tolerance_dist {
        if nc.y - oc.y > p.swipe_horizontal_travel_dist {
            Gesture::GestureSwipeRight
        } else if nc.y - oc.y < -p.swipe_horizontal_travel_dist {
            Gesture::GestureSwipeLeft
        } else if nc.z - oc.z > p.swipe_vertical_travel_dist {
            Gesture::GestureSwipeUp
        } else if nc.z - oc.z < -p.swipe_vertical_travel_dist {
            Gesture::GestureSwipeDown
        } else {
            Gesture::GestureNone
        }
    } else {
        Gesture::GestureNone
    }
}

/// The first gesture that the older position `oc` forms with an eligible
/// newer entry at index `j` or later, in buffer order.
pub open spec fn swipe_inner<const RES_X: usize, const RES_Y: usize>(
    h: Seq<HistoryEntry<RES_X, RES_Y>>,
    now: u32,
    oc: crate::math::CoordsCartesian,
    p: RecognizerParams,
    j: int,
) -> Gesture
    decreases h.len() - j,
{
    if !(0 <= j < h.len()) {
        Gesture::GestureNone
    } else if swipe_newer_eligible(h, now, j) && pair_gesture(oc, entry_cart(h[j]), p)
        != Gesture::GestureNone {
        pair_gesture(oc, entry_cart(h[j]), p)
    } else {
        swipe_inner(h, now, oc, p, j + 1)
    }
}

/// The first gesture that any eligible older entry at index `i` or later
/// forms with any eligible newer entry, older entries scanned outer, newer
/// inner, both in buffer order.
pub open spec fn swipe_outer<const RES_X: usize, const RES_Y: usize>(
    h: Seq<HistoryEntry<RES_X, RES_Y>>,
    now: u32,
    p: RecognizerParams,
    i: int,
) -> Gesture
    decreases h.len() - i,
{
    if !(0 <= i < h.len()) {
        Gesture::GestureNone
    } else if swipe_older_eligible(h, now, i) && swipe_inner(h, now, entry_cart(h[i]), p, 0)
        != Gesture::GestureNone {
        swipe_inner(h, now, entry_cart(h[i]), p, 0)
    } else {
        swipe_outer(h, now, p, i + 1)
    }
}

/// The swipe predicate: once warmed up, the first qualifying pair of a
/// found hand in the older sub-window and a found hand in the newer
/// sub-window decides the gesture; no qualifying pair means no gesture.
pub open spec fn find_swipe_spec<const RES_X: usize, const RES_Y: usize>(
    h: Seq<HistoryEntry<RES_X, RES_Y>>,
    received: int,
    p: RecognizerParams,
    now: u32,
) -> Gesture {
    if warming(received, h.len() as int) {
        Gesture::GestureNone
    } else {
        swipe_outer(h, now, p, 0)
    }
}

/// The history after pushing the entries of `es` one after the other,
/// `es[0]` first.
pub open spec fn history_push_all<const RES_X: usize, const RES_Y: usize>(
    h: Seq<HistoryEntry<RES_X, RES_Y>>,
    es: Seq<HistoryEntry<RES_X, RES_Y>>,
) -> Seq<HistoryEntry<RES_X, RES_Y>>
    decreases es.len(),
{
    if es.len() == 0 {
        h
    } else {
        history_push_all(history_push(h, es[0]), es.drop_first())
    }
}

/// Pushing keeps the capacity, and each slot holds the pushed entries
/// newest first, with the prior contents behind them.
pub proof fn lemma_history_push_all_index<const RES_X: usize, const RES_Y: usize>(
    h: Seq<HistoryEntry<RES_X, RES_Y>>,
    es: Seq<HistoryEntry<RES_X, RES_Y>>,
)
    requires
        h.len() >= 1,
    ensures
        history_push_all(h, es).len() == h.len(),
        forall|i: int|
            0 <= i < h.len() ==> history_push_all(h, es)[i] == (if i < es.len() {
                es[es.len() - 1 - i]
            } else {
                h[i - es.len()]
            }),
    decreases es.len(),
{
    if es.len() > 0 {
        let h1 = history_push(h, es[0]);
        assert(h1.len() == h.len());
        lemma_history_push_all_index(h1, es.drop_first());
        assert forall|i: int| 0 <= i < h.len() implies history_push_all(h, es)[i] == (if i
            < es.len() {
            es[es.len() - 1 - i]
        } else {
            h[i - es.len()]
        }) by {
            let es1 = es.drop_first();
            assert(history_push_all(h, es) == history_push_all(h1, es1));
            if i < es1.len() {
                assert(es1[es1.len() - 1 - i] == es[es.len() - 1 - i]);
            } else if i == es1.len() {
                assert(h1[i - es1.len()] == es[0]);
            } else {
                assert(h1[i - es1.len()] == h[i - es.len()]);
            }
        }
    }
}

/// The history buffer wraps correctly: after pushing at least as many
/// entries as the buffer holds, the buffer holds exactly the most recent
/// `capacity` entries, the newest at index 0.
pub proof fn lemma_history_wraps<const RES_X: usize, const RES_Y: usize>(
    h: Seq<HistoryEntry<RES_X, RES_Y>>,
    es: Seq<HistoryEntry<RES_X, RES_Y>>,
)
    requires
        h.len() >= 1,
        es.len() >= h.len(),
    ensures
        history_push_all(h, es).len() == h.len(),
        forall|i: int|
            0 <= i < h.len() ==> history_push_all(h, es)[i] == es[es.len() - 1 - i],
{
    lemma_history_push_all_index(h, es);
}

/// After a `reset` or a positive detection the recognizer is warming up
/// again: the received count is zero, so the history the very next update
/// evaluates has count one, and no gesture can be detected by it (for any
/// history capacity of at least two).
pub proof fn lemma_no_gesture_while_warming<const RES_X: usize, const RES_Y: usize>(
    h: Seq<HistoryEntry<RES_X, RES_Y>>,
    received: int,
    p: RecognizerParams,
    now: u32,
)
    requires
        h.len() >= 2,
        received < 2,
    ensures
        gesture_spec(h, received, p, now) == Gesture::GestureNone,
{
    assert(warming(received, h.len() as int));
}

/// The gesture the history shows at time `now`: evaluated in strict
/// priority order, the static hold first, then the swipe.
pub open spec fn gesture_spec<const RES_X: usize, const RES_Y: usize>(
    h: Seq<HistoryEntry<RES_X, RES_Y>>,
    received: int,
    p: RecognizerParams,
    now: u32,
) -> Gesture {
    if static_hold_spec(h, received, p, now) {
        Gesture::GestureStaticHold
    } else {
        find_swipe_spec(h, received, p, now)
    }
}

/// The gesture recognizer.
///
/// Is initially configured through parameters and gets fed measurements
/// (together with the hand state its caller localized from them) and
/// predicts gestures.
#[derive(Debug, Clone)]
pub struct GestureRecognizer<const RES_X: usize, const RES_Y: usize, const HISTORY_SIZE: usize> {
    params: RecognizerParams,
    sensor_params: SensorParams,
    start_time: u32,
    history: [HistoryEntry<RES_X, RES_Y>; HISTORY_SIZE],
    received_measurements: usize,
}

impl<const RES_X: usize, const RES_Y: usize, const HISTORY_SIZE: usize> GestureRecognizer<
    RES_X,
    RES_Y,
    HISTORY_SIZE,
> {
    /// The configured recognizer parameters.
    pub closed spec fn params_spec(&self) -> RecognizerParams {
        self.params
    }

    /// The configured sensor parameters.
    pub closed spec fn sensor_params_spec(&self) -> SensorParams {
        self.sensor_params
    }

    /// The time of the last reset.
    pub closed spec fn start_time_spec(&self) -> u32 {
        self.start_time
    }

    /// The stored history, newest entry first.
    pub closed spec fn history_spec(&self) -> Seq<HistoryEntry<RES_X, RES_Y>> {
        self.history@
    }

    /// The number of measurements received since the last reset.
    pub closed spec fn received_spec(&self) -> int {
        self.received_measurements as int
    }

    /// The history has its fixed capacity and every stored hand state is
    /// well formed.
    pub open spec fn wf(&self) -> bool {
        &&& self.history_spec().len() == HISTORY_SIZE
        &&& forall|i: int|
            0 <= i < HISTORY_SIZE ==> (#[trigger] self.history_spec()[i]).hand_state.wf()
    }

    /// A new gesture recognizer with the given parameters.
    ///
    /// The sensor parameters have preconfigured defaults for common
    /// TOF-Sensors such as the ST VL53L5CX.
    pub fn new(params: RecognizerParams, sensor_params: SensorParams) -> (r: Self)
        ensures
            r.params_spec() == params,
            r.sensor_params_spec() == sensor_params,
            r.start_time_spec() == 0,
            r.received_spec() == 0,
            forall|i: int| 0 <= i < HISTORY_SIZE ==> is_invalid_entry(#[trigger] r.history_spec()[i]),
            r.wf(),
    {
        Self {
            params,
            sensor_params,
            start_time: 0,
            history: [HistoryEntry::invalid(); HISTORY_SIZE],
            received_measurements: 0,
        }
    }

    /// Gets the current configured sensor parameters.
    pub fn get_sensor_params(&self) -> (p: SensorParams)
        ensures
            p == self.sensor_params_spec(),
    {
        self.sensor_params
    }

    /// Gets the current configured gesture recognizer parameters.
    pub fn get_params(&self) -> (p: RecognizerParams)
        ensures
            p == self.params_spec(),
    {
        self.params
    }

    /// Pushes an entry to the history: the entry becomes the newest slot,
    /// the oldest is discarded, and the received count grows by one (it
    /// saturates at the machine limit, which only ever gates the warm-up).
    fn push_to_history(&mut self, entry: HistoryEntry<RES_X, RES_Y>)
        requires
            HISTORY_SIZE >= 1,
        ensures
            final(self).history_spec() == history_push(old(self).history_spec(), entry),
            final(self).received_spec() == (if old(self).received_spec() < usize::MAX {
                old(self).received_spec() + 1
            } else {
                old(self).received_spec()
            }),
            final(self).params_spec() == old(self).params_spec(),
            final(self).sensor_params_spec() == old(self).sensor_params_spec(),
            final(self).start_time_spec() == old(self).start_time_spec(),
    {
        let ghost h0 = self.history@;
        let mut i: usize = HISTORY_SIZE - 1;
        while i >= 1
            invariant
                i < HISTORY_SIZE,
                self.history@.len() == HISTORY_SIZE,
                forall|j: int| 0 <= j <= i ==> self.history@[j] == h0[j],
                forall|j: int| i < j < HISTORY_SIZE ==> self.history@[j] == h0[j - 1],
                self.params == old(self).params,
                self.sensor_params == old(self).sensor_params,
                self.start_time == old(self).start_time,
                self.received_measurements == old(self).received_measurements,
            decreases i,
        {
            self.history[i] = self.history[i - 1];
            i = i - 1;
        }
        self.history[0] = entry;
        proof {
            assert(self.history@ =~= history_push(h0, entry));
        }
        if self.received_measurements < usize::MAX {
            self.received_measurements = self.received_measurements + 1;
        }
    }

    /// Clears the history, filling it with invalid entries, and resets the
    /// received count.
    fn clear_history(&mut self)
        ensures
            forall|i: int|
                0 <= i < HISTORY_SIZE ==> is_invalid_entry(#[trigger] final(self).history_spec()[i]),
            final(self).received_spec() == 0,
            final(self).params_spec() == old(self).params_spec(),
            final(self).sensor_params_spec() == old(self).sensor_params_spec(),
            final(self).start_time_spec() == old(self).start_time_spec(),
    {
        let mut i: usize = 0;
        while i < HISTORY_SIZE
            invariant
                i <= HISTORY_SIZE,
                self.history@.len() == HISTORY_SIZE,
                forall|j: int| 0 <= j < i ==> is_invalid_entry(#[trigger] self.history@[j]),
                self.params == old(self).params,
                self.sensor_params == old(self).sensor_params,
                self.start_time == old(self).start_time,
            decreases HISTORY_SIZE - i,
        {
            self.history[i] = HistoryEntry::invalid();
            i = i + 1;
        }
        self.received_measurements = 0;
    }

    /// Resets the gesture recognizer with the given parameters.
    ///
    /// Clears the history, ongoing predictions and resets the internal
    /// state. Always succeeds.
    pub fn reset(&mut self, params: RecognizerParams, sensor_params: SensorParams, now: u32) -> (s:
        RecognizerStatus)
        ensures
            s == RecognizerStatus::RecognizerStatusOk,
            final(self).params_spec() == params,
            final(self).sensor_params_spec() == sensor_params,
            final(self).start_time_spec() == now,
            final(self).received_spec() == 0,
            forall|i: int|
                0 <= i < HISTORY_SIZE ==> is_invalid_entry(#[trigger] final(self).history_spec()[i]),
            final(self).wf(),
    {
        self.params = params;
        self.sensor_params = sensor_params;
        self.start_time = now;
        self.clear_history();

        RecognizerStatus::RecognizerStatusOk
    }

    /// Attempts to recognize a static hold.
    ///
    /// Returns true when a hold is recognized, else false.
    fn find_static_hold(&self, now: u32) -> (r: bool)
        ensures
            r == static_hold_spec(
                self.history_spec(),
                self.received_spec(),
                self.params_spec(),
                now,
            ),
    {
        let warm: usize = if HISTORY_SIZE < 15 {
            HISTORY_SIZE
        } else {
            15
        };
        if self.received_measurements < warm {
            return false;
        }
        let ghost h = self.history@;
        let wnd = self.params.static_hold_time_ms;

        let mut bi: usize = 0;
        let mut by: usize = 0;
        let mut bx: usize = 0;
        let mut bd: i32 = i32::MAX;

        for i in 0..HISTORY_SIZE
            invariant
                bd == i32::MAX ==> bi == 0 && by == 0 && bx == 0,
                bd == i32::MAX ==> forall|i2: int, y2: int, x2: int|
                    i2 < i ==> !window_candidate(h, now, wnd, i2, y2, x2),
                bd < i32::MAX ==> ({
                    &&& window_candidate(h, now, wnd, bi as int, by as int, bx as int)
                    &&& h[bi as int].measurement.zone(by as int, bx as int) == bd
                    &&& (bi as int) < i
                    &&& forall|i2: int, y2: int, x2: int|
                        i2 < i && #[trigger] window_candidate(h, now, wnd, i2, y2, x2) ==> bd < h[
                            i2
                        ].measurement.zone(y2, x2) || (bd == h[i2].measurement.zone(y2, x2) && (bi
                            < i2 || (bi == i2 && (by < y2 || (by == y2 && bx <= x2)))))
                }),
        {
            let age = age_of(now, self.history[i].measurement.time_ms);
            if age < wnd {
                let (pos, d) = self.history[i].measurement.min_dist();
                if d < bd {
                    bi = i;
                    bx = pos[0];
                    by = pos[1];
                    bd = d;
                }
            }
        }

        if bd == i32::MAX {
            proof {
                assert(!has_window_anchor(h, now, wnd));
            }
            return false;
        }
        proof {
            assert(is_window_anchor(h, now, wnd, bi as int, by as int, bx as int));
            lemma_window_anchor_is(h, now, wnd, bi as int, by as int, bx as int);
        }
        if bd <= 0 || bd > self.params.gesture_threshold_dist {
            return false;
        }

        // Only recognize a hold if all window entries keep the band at the
        // anchor's coordinates.
        for j in 0..HISTORY_SIZE
            invariant
                forall|j2: int|
                    0 <= j2 < j && #[trigger] in_window(h, now, wnd, j2) ==> hold_band_ok(
                        h[j2].measurement,
                        by as int,
                        bx as int,
                        bd as int,
                        self.params,
                    ),
        {
            let age = age_of(now, self.history[j].measurement.time_ms);
            if age < wnd {
                let v = self.history[j].measurement.zone_dist[by][bx];
                let tol = self.params.static_hold_tolerance_dist;
                if v <= 0 || v > self.params.gesture_threshold_dist || (v as i64) > (bd as i64) + (
                tol as i64) || (v as i64) < (bd as i64) - (tol as i64) {
                    proof {
                        assert(in_window(h, now, wnd, j as int));
                        assert(!hold_band_ok(
                            h[j as int].measurement,
                            by as int,
                            bx as int,
                            bd as int,
                            self.params,
                        ));
                    }
                    return false;
                }
            }
        }

        true
    }

    /// Tries to recognize a swipe gesture.
    ///
    /// Returns one of the swipe gestures, or `GestureNone` if no swipe was
    /// found.
    fn find_swipe(&self, now: u32) -> (g: Gesture)
        ensures
            g == find_swipe_spec(
                self.history_spec(),
                self.received_spec(),
                self.params_spec(),
                now,
            ),
    {
        let warm: usize = if HISTORY_SIZE < 15 {
            HISTORY_SIZE
        } else {
            15
        };
        if self.received_measurements < warm {
            return Gesture::GestureNone;
        }
        let ghost h = self.history@;

        for i in 0..HISTORY_SIZE
            invariant
                swipe_outer(h, now, self.params, 0) == swipe_outer(h, now, self.params, i as int),
        {
            let age = age_of(now, self.history[i].measurement.time_ms);
            if age >= SWIPE_OLDER_MIN_AGE_MS && age < SWIPE_OLDER_MAX_AGE_MS {
                if let HandState::HandFound { hand_pos_cart: oc, .. } = self.history[i].hand_state {
                    proof {
                        assert(swipe_older_eligible(h, now, i as int));
                        assert(oc == entry_cart(h[i as int]));
                    }
                    for j in 0..HISTORY_SIZE
                        invariant
                            oc == entry_cart(h[i as int]),
                            swipe_inner(h, now, oc, self.params, 0) == swipe_inner(
                                h,
                                now,
                                oc,
                                self.params,
                                j as int,
                            ),
                    {
                        let age_n = age_of(now, self.history[j].measurement.time_ms);
                        if age_n < SWIPE_OLDER_MIN_AGE_MS {
                            if let HandState::HandFound {
                                hand_pos_cart: nc,
                                ..
                            } = self.history[j].hand_state {
                                proof {
                                    assert(swipe_newer_eligible(h, now, j as int));
                                    assert(nc == entry_cart(h[j as int]));
                                }
                                let tol = self.params.swipe_tolerance_dist as i64;
                                let ht = self.params.swipe_horizontal_travel_dist as i64;
                                let vt = self.params.swipe_vertical_travel_dist as i64;
                                // Preconditions for a detected swipe in any
                                // direction: lateral stability first.
                                if (nc.x as i64) >= (oc.x as i64) - tol && (nc.x as i64) < (oc.x
                                    as i64) + tol {
                                    let dy = (nc.y as i64) - (oc.y as i64);
                                    let dz = (nc.z as i64) - (oc.z as i64);

                                    // Detect right swipe.
                                    if dy > ht {
                                        return Gesture::GestureSwipeRight;
                                    }
                                    // Detect left swipe.
                                    if dy < -ht {
                                        return Gesture::GestureSwipeLeft;
                                    }
                                    // Detect up swipe.
                                    if dz > vt {
                                        return Gesture::GestureSwipeUp;
                                    }
                                    // Detect down swipe.
                                    if dz < -vt {
                                        return Gesture::GestureSwipeDown;
                                    }
                                }
                                proof {
                                    assert(pair_gesture(oc, entry_cart(h[j as int]), self.params)
                                        == Gesture::GestureNone);
                                }
                            }
                        }
                    }
                    proof {
                        assert(swipe_inner(h, now, oc, self.params, HISTORY_SIZE as int)
                            == Gesture::GestureNone);
                    }
                }
            }
        }

        Gesture::GestureNone
    }
    /// Attempts to recognize a gesture from the stored history, the static
    /// hold taking priority over a swipe; a positive detection clears the
    /// history (a detected gesture cannot be immediately re-detected from
    /// the same window).
    fn recognize_gesture(&mut self, now: u32) -> (g: Gesture)
        ensures
            g == gesture_spec(
                old(self).history_spec(),
                old(self).received_spec(),
                old(self).params_spec(),
                now,
            ),
            g is GestureNone ==> *final(self) == *old(self),
            !(g is GestureNone) ==> ({
                &&& final(self).params_spec() == old(self).params_spec()
                &&& final(self).sensor_params_spec() == old(self).sensor_params_spec()
                &&& final(self).start_time_spec() == old(self).start_time_spec()
                &&& final(self).received_spec() == 0
                &&& forall|i: int|
                    0 <= i < HISTORY_SIZE ==> is_invalid_entry(
                        #[trigger] final(self).history_spec()[i],
                    )
            }),
    {
        if self.find_static_hold(now) {
            self.clear_history();
            return Gesture::GestureStaticHold;
        }

        let swipe_gesture = self.find_swipe(now);
        if swipe_gesture != Gesture::GestureNone {
            self.clear_history();
            return swipe_gesture;
        }

        Gesture::GestureNone
    }

    /// Updates the gesture recognizer with a new measurement, together with
    /// the hand state that the caller's localization front-end recognized
    /// from it (see `SensorMeasurement::hand_pos` and
    /// `hand_state_from_pos`).
    ///
    /// The time in the measurement must be strictly greater than the most
    /// recently stored timestamp (usually coming from a systick timer):
    /// otherwise the call is rejected with `RecognizerStatusInvalidInput`
    /// and nothing changes. Otherwise the pair is stored, the result
    /// carries the hand state and the gesture the updated history shows,
    /// and a positive detection clears the history.
    pub fn update(
        &mut self,
        measurement: SensorMeasurement<RES_X, RES_Y>,
        hand_state: HandState,
        recognizer_result: &mut RecognizerResult,
    ) -> (status: RecognizerStatus)
        requires
            HISTORY_SIZE >= 1,
            hand_state.wf(),
            old(self).wf(),
        ensures
            final(self).wf(),
            ({
                let rejected = measurement.time_ms <= old(self).history_spec()[0].measurement.time_ms;
                &&& (status is RecognizerStatusInvalidInput <==> rejected)
                &&& (rejected ==> *final(self) == *old(self) && *final(recognizer_result)
                    == RecognizerResult::default_spec())
                &&& (!rejected ==> ({
                    let entry = HistoryEntry { measurement, hand_state };
                    let h1 = history_push(old(self).history_spec(), entry);
                    let rcv1 = if old(self).received_spec() < usize::MAX {
                        old(self).received_spec() + 1
                    } else {
                        old(self).received_spec()
                    };
                    let g = gesture_spec(h1, rcv1, old(self).params_spec(), measurement.time_ms);
                    &&& status is RecognizerStatusOk
                    &&& final(recognizer_result).hand_state == hand_state
                    &&& final(recognizer_result).gesture == g
                    &&& final(self).params_spec() == old(self).params_spec()
                    &&& final(self).sensor_params_spec() == old(self).sensor_params_spec()
                    &&& final(self).start_time_spec() == old(self).start_time_spec()
                    &&& (g is GestureNone ==> final(self).history_spec() == h1 && final(self).received_spec() == rcv1)
                    &&& (!(g is GestureNone) ==> final(self).received_spec() == 0 && forall|i: int|
                        0 <= i < HISTORY_SIZE ==> is_invalid_entry(
                            #[trigger] final(self).history_spec()[i],
                        ))
                }))
            }),
    {
        *recognizer_result = RecognizerResult::default();
        let now = measurement.time_ms;

        // Time must be monotonically increasing with respect to the most
        // recently stored measurement.
        if measurement.time_ms <= self.history[0].measurement.time_ms {
            return RecognizerStatus::RecognizerStatusInvalidInput;
        }

        let entry = HistoryEntry { measurement, hand_state };
        self.push_to_history(entry);

        recognizer_result.hand_state = hand_state;
        recognizer_result.gesture = self.recognize_gesture(now);

        RecognizerStatus::RecognizerStatusOk
    }
}

} // verus!
