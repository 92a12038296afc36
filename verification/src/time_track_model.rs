//! The time-track record: one interval of worked time against a project.

use vstd::prelude::*;

use crate::clock;
use crate::ids;
use crate::user_model::User;

verus! {

/// Whether a time-track entry is still running or has been stopped.
#[derive(Clone, Copy, Debug, PartialEq, Eq, Structural)]
pub enum TimeTrackStatus {
    InProgress,
    Finished,
}

impl TimeTrackStatus {
    /// The canonical wire name of the status.
    pub fn as_str(&self) -> (s: &'static str)
        ensures
            *self is InProgress ==> s@ == "IN_PROGRESS"@,
            *self is Finished ==> s@ == "FINISHED"@,
    {
        match self {
            TimeTrackStatus::InProgress => "IN_PROGRESS",
            TimeTrackStatus::Finished => "FINISHED",
        }
    }
}

/// The error returned when a string is not a time-track status name.
#[derive(Clone, Copy, Debug, PartialEq, Eq, Structural)]
pub enum ParseTimeTrackingStatusError {
    InvalidStatus,
}

impl ParseTimeTrackingStatusError {
    /// A short description of the error.
    pub fn message(&self) -> (m: &'static str)
        ensures
            m@ == "Invalid time tracking status"@,
    {
        "Invalid time tracking status"
    }
}

/// Parses the canonical wire name of a time-track status.
pub fn parse_time_track_status(s: &str) -> (r: Result<
    TimeTrackStatus,
    ParseTimeTrackingStatusError,
>)
    ensures
        s@ == "IN_PROGRESS"@ ==> r == Ok::<TimeTrackStatus, ParseTimeTrackingStatusError>(
            TimeTrackStatus::InProgress,
        ),
        s@ == "FINISHED"@ ==> r == Ok::<TimeTrackStatus, ParseTimeTrackingStatusError>(
            TimeTrackStatus::Finished,
        ),
        s@ != "IN_PROGRESS"@ && s@ != "FINISHED"@ ==> r == Err::<
            TimeTrackStatus,
            ParseTimeTrackingStatusError,
        >(ParseTimeTrackingStatusError::InvalidStatus),
{
    proof {
        reveal_strlit("IN_PROGRESS");
        reveal_strlit("FINISHED");
        assert("IN_PROGRESS"@.len() == 11);
        assert("FINISHED"@.len() == 8);
    }
    if crate::str_eq(s, "IN_PROGRESS") {
        Ok(TimeTrackStatus::InProgress)
    } else if crate::str_eq(s, "FINISHED") {
        Ok(TimeTrackStatus::Finished)
    } else {
        Err(ParseTimeTrackingStatusError::InvalidStatus)
    }
}

impl core::str::FromStr for TimeTrackStatus {
    type Err = ParseTimeTrackingStatusError;

    fn from_str(s: &str) -> Result<Self, Self::Err> {
        parse_time_track_status(s)
    }
}

/// One interval of worked time, owned by the project it names.
///
/// `stopped_at` is present exactly when the status is Finished, and a
/// finished entry's `total_duration` is the whole seconds between its two
/// instants; an in-progress entry persists a duration of zero and its live
/// elapsed time is computed at read time.
#[derive(Debug)]
#[verifier::ext_equal]
pub struct TimeTrack {
    pub id: String,
    pub project_id: String,
    pub status: TimeTrackStatus,
    pub comment: Option<String>,
    pub started_at: u64,
    pub stopped_at: Option<u64>,
    pub total_duration: u64,
    pub created_by: String,
}

impl Clone for TimeTrack {
    fn clone(&self) -> (res: Self)
        ensures
            res == *self,
    {
        let res = TimeTrack {
            id: self.id.clone(),
            project_id: self.project_id.clone(),
            status: self.status,
            comment: self.comment.clone(),
            started_at: self.started_at,
            stopped_at: self.stopped_at,
            total_duration: self.total_duration,
            created_by: self.created_by.clone(),
        };
        proof {
            assert(res.comment == self.comment);
        }
        res
    }
}

impl TimeTrack {
    /// A fresh in-progress entry for the given project, started now,
    /// stamped with a new identifier and created by the given user.
    pub fn new(project_id: &str, user: &User, comment: Option<String>) -> (t: TimeTrack)
        ensures
            t.id@.len() == 36,
            t.project_id@ == project_id@,
            t.status is InProgress,
            t.comment == comment,
            t.stopped_at is None,
            t.total_duration == 0,
            t.created_by@ == user.id@,
    {
        TimeTrack {
            id: ids::fresh_uuid(),
            project_id: project_id.to_owned(),
            status: TimeTrackStatus::InProgress,
            comment,
            started_at: clock::now_seconds(),
            stopped_at: None,
            total_duration: 0,
            created_by: user.id.clone(),
        }
    }
}

} // verus!
