//! Standings engine for a small sports league.
//!
//! The engine folds the immutable results of a league's games into one
//! tally per team (`aggregate`), ranks the teams under a configurable
//! tie-break strategy (`ranking`), plans what has to be written so that
//! the standings agree with the games (`plan`), and steers the loop that
//! carries the plan out, with its retries (`reconcile`, `backoff`). The
//! resources it works on are in `model`, `status` and `condition`; the
//! manifests that a cluster needs to run it are in `manifest` and `rbac`.
//!
//! Every function states what it returns in terms of the values that the
//! resources hold, and is proved to do so. The engine reads no clock and
//! performs no input or output: time, random numbers and what the store
//! answered are handed to it as plain values.

pub mod aggregate;
pub mod backoff;
pub mod condition;
pub mod manifest;
pub mod model;
pub mod names;
pub mod permutation;
pub mod plan;
pub mod ranking;
pub mod rbac;
pub mod reconcile;
pub mod search;
pub mod status;
