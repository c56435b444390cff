//! Timed, multi-phase naming events for many independent guilds.
//!
//! Each guild runs at most one event at a time. An event collects name
//! submissions, opens a vote over them, and repeats the vote among the leaders
//! while they tie, until a single winner remains.

pub mod name_rules;
pub mod model;
pub mod tally;
pub mod phase;
pub mod machine;
pub mod laws;
pub mod tasks;
