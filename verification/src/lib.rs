//! Verified core of a score-function search over the holes of a program
//! sketch.
//!
//! The search fills the six holes of a fixed sketch by sampling candidates,
//! scoring them against input/output pairs, and moving the parameters of one
//! distribution per hole along a sampled gradient. This crate holds what the
//! search decides on integers and on the order of things, proved against
//! contracts: the random source and the draws each sample gets, the category
//! a draw selects, the decoding of a candidate into a program, the traces of
//! a batch, and the schedule of a whole run. The arithmetic on scores,
//! weights, means and deviations belongs to the driver, which performs the
//! actions that a schedule hands out; its scalar type is a parameter here.

pub mod categorical;
pub mod config;
pub mod health;
pub mod operators;
pub mod rng;
pub mod sampling;
pub mod schedule;
pub mod sketch;
pub mod trace;
