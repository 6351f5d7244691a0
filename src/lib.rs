//! Monthly pull-request analytics: filtering, size classification, weekly and
//! per-repository bucketing, and the rollups that a month report is made of.
//!
//! Timestamps are whole seconds since 1970-01-01T00:00:00Z and durations are
//! whole seconds.

pub mod cache;
pub mod calendar;
pub mod cli;
pub mod config;
pub mod data;
pub mod github;
pub mod input;
pub mod laws;
pub mod ranking;
pub mod view;
