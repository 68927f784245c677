//! Gesture recognition for low-resolution time-of-flight depth sensors.
//!
//! The crate turns a grid of per-zone distance readings (integer millimeters)
//! into an estimated hand position and a recognized gesture: a static hold or
//! one of four directional swipes. All geometry is carried out on integer
//! millimeter coordinates; trigonometric conversions between the spherical and
//! Cartesian representations are left to the embedding application.

#![verifier::loop_isolation(false)]

use vstd::prelude::*;

pub mod math;
pub mod measurements;
pub mod recognizer;

pub use measurements::HandState;
pub use measurements::SensorMeasurement;
pub use recognizer::Gesture;
pub use recognizer::GestureRecognizer;
pub use recognizer::RecognizerParams;
pub use recognizer::RecognizerResult;
pub use recognizer::RecognizerStatus;
