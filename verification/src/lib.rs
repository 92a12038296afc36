//! A verified core for a time-tracking backend.
//!
//! Users group work under named projects and record time-track entries
//! (intervals of worked time) against them. The engines in this crate keep a
//! project's aggregate duration and active/inactive status consistent with its
//! time-track entries across create, start, stop, edit and delete operations.
//! All timestamps are UTC Unix seconds and all durations are whole seconds.

use vstd::prelude::*;

pub mod cli_support;
pub mod clock;
pub mod consistency;
pub mod db;
pub mod dtos;
pub mod ids;
pub mod project_model;
pub mod project_service;
pub mod time_track_model;
pub mod time_track_service;
pub mod user_model;
pub mod user_service;
pub mod validation;

verus! {

/// Whether two string slices hold the same characters.
pub fn str_eq(a: &str, b: &str) -> (r: bool)
    ensures
        r == (a@ == b@),
{
    let x: String = a.to_owned();
    let y: String = b.to_owned();
    x == y
}

/// The number of whole seconds in the interval from `started_at` to
/// `stopped_at`, clamped to zero when `stopped_at` lies before `started_at`.
pub open spec fn spec_interval_seconds(started_at: u64, stopped_at: u64) -> int {
    if stopped_at >= started_at {
        stopped_at - started_at
    } else {
        0
    }
}

/// Computes the duration of an interval in whole seconds. An interval whose
/// end lies before its start has duration zero.
pub fn interval_seconds(started_at: u64, stopped_at: u64) -> (d: u64)
    ensures
        d == spec_interval_seconds(started_at, stopped_at),
{
    if stopped_at >= started_at {
        stopped_at - started_at
    } else {
        0
    }
}

} // verus!
