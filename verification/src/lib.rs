//! A verified work-hour tracking library.
//!
//! Given a start time, an optional end time, break intervals, and a daily or
//! weekly work-hour goal, this library parses the inputs, accumulates break
//! time, and computes a report: elapsed work time, remaining time towards the
//! goal, percent of the goal completed, and projected clock-out times under
//! fixed policy thresholds.
//!
//! All times are points on the current local calendar day; all spans are
//! counted in whole seconds.

pub mod clock;
pub mod duration;
pub mod parse;
pub mod render;
pub mod report;
pub mod timestamp;
