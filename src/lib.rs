//! Prayer observance tracking: daily completion records, calendar views over
//! them, and the nearest / next prayer of a daily schedule.

pub mod date;
pub mod store;
pub mod calendar;
pub mod schedule;
pub mod model;
pub mod heatmap;
