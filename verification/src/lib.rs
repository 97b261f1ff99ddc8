//! A small sensor daemon library: model one round of climate and light
//! measurements, encode it in the textual line format of a time-series
//! database, build the HTTP write request for it, and drive the
//! sample-publish-sleep loop as a verified state machine.

pub mod config;
pub mod daemon;
pub mod line;
pub mod model;
