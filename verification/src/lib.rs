//! Decision core of an unattended, load- and heat-driven fan controller.
//!
//! Once per tick the caller hands in the load of every core and the reading
//! of every temperature sensor. The core smooths the busiest core and the
//! hottest matching sensor over several windows, remembers the lowest safe
//! limit that a sensor reported, and decides whether the fan runs. Reading
//! the machine and driving the output are left to the caller.
//!
//! Readings are fixed-point integers (`i32`) in a unit that the caller picks
//! once and keeps: thousandths of a degree, thousandths of a percent, or
//! whole units. Every average is kept as an exact fraction, so that no
//! comparison against a threshold or against another average ever rounds.
//!
//! - [`average`]: exact averages and their comparisons.
//! - [`measurement`]: a rolling average over a window of the latest readings.
//! - [`sensor`]: what a tick distils from the raw readings.
//! - [`usage`]: the banks of rolling averages and the lowest safe limit.
//! - [`control`]: the decision and the controller that makes it every tick.

pub mod average;
pub mod control;
pub mod measurement;
pub mod sensor;
pub mod usage;
