//! History of commits across many independently managed git repositories.
//!
//! The crate holds the decision logic of the scan: which commit of a walk is
//! included, when a walk stops early, how the per-repository results are merged
//! into one snapshot that is ordered by commit time, and the rules around it.
//! Reading repositories, running worker threads and drawing the terminal
//! interface are left to the program that uses the crate.

pub mod calendar;
pub mod commit_time;
pub mod config;
pub mod history;
pub mod laws;
pub mod model;
pub mod progress;
pub mod report;
pub mod scan;
pub mod seqs;
pub mod sorting;
pub mod styles;
pub mod text;
pub mod ui;
pub mod utils;
pub mod views;
