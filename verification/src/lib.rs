//! Synchronises tracked time entries into work packages of an issue tracker.
//!
//! The library holds the rules of one run: which entries are taken, which
//! work package each belongs to, which of them the tracker already holds,
//! and what is posted for the others. Transport and prompting are left to
//! the caller.

pub mod decimal;
pub mod parser;
pub mod toggl;
pub mod reconcile;
pub mod openproject;
pub mod lookup;
pub mod sync;
