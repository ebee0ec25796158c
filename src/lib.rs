//! # mine_stats
//!
//! Aggregated GitHub activity for a user (stars, commits, pull requests,
//! issues, contributions, followers, top languages), a letter rank derived
//! from it, and a time-bounded cache that keeps those results between requests.

pub mod cache;
pub mod cards;
pub mod codec;
pub mod config;
pub mod github;
pub mod humantime;
pub mod status;
pub mod utils;
