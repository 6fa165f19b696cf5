//! Verified core of a battery time-series tracker.
//!
//! A host-specific front end reads the battery sensor and the display; this
//! crate holds everything in between: encoding one observation as a delimited
//! record line, parsing the append-only log back into a plottable time
//! series plus a device-info snapshot, the fixed-bounds chart geometry with
//! its axis labels, and the sampler's interval bookkeeping.
//!
//! Fractional quantities are carried as fixed-point integers: percentages,
//! energies and voltages in hundredths of their unit (the log stores two
//! decimal places), and chart x-coordinates in 1/6000 of an hour, so that
//! `hour + minute/60` is exact for any two-decimal hour and minute field.

pub mod chart;
pub mod digits;
pub mod fields;
pub mod fixed;
pub mod loader;
pub mod record;
pub mod sample;
pub mod sampler;
