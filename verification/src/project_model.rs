//! The project record and its status.

use vstd::prelude::*;

use crate::clock;
use crate::ids;

verus! {

/// Whether a project currently has a time-track entry in progress.
#[derive(Clone, Copy, Debug, PartialEq, Eq, Structural)]
pub enum ProjectStatus {
    Active,
    Inactive,
}

impl ProjectStatus {
    /// The canonical wire name of the status.
    pub fn as_str(&self) -> (s: &'static str)
        ensures
            *self is Active ==> s@ == "ACTIVE"@,
            *self is Inactive ==> s@ == "INACTIVE"@,
    {
        match self {
            ProjectStatus::Active => "ACTIVE",
            ProjectStatus::Inactive => "INACTIVE",
        }
    }
}

/// The error returned when a string is not a project status name.
#[derive(Clone, Copy, Debug, PartialEq, Eq, Structural)]
pub enum ParseProjectStatusError {
    InvalidStatus,
}

impl ParseProjectStatusError {
    /// A short description of the error.
    pub fn message(&self) -> (m: &'static str)
        ensures
            m@ == "Invalid project status"@,
    {
        "Invalid project status"
    }
}

/// Parses the canonical wire name of a project status.
pub fn parse_project_status(s: &str) -> (r: Result<ProjectStatus, ParseProjectStatusError>)
    ensures
        s@ == "ACTIVE"@ ==> r == Ok::<ProjectStatus, ParseProjectStatusError>(
            ProjectStatus::Active,
        ),
        s@ == "INACTIVE"@ ==> r == Ok::<ProjectStatus, ParseProjectStatusError>(
            ProjectStatus::Inactive,
        ),
        s@ != "ACTIVE"@ && s@ != "INACTIVE"@ ==> r == Err::<
            ProjectStatus,
            ParseProjectStatusError,
        >(ParseProjectStatusError::InvalidStatus),
{
    proof {
        reveal_strlit("ACTIVE");
        reveal_strlit("INACTIVE");
        assert("ACTIVE"@.len() == 6);
        assert("INACTIVE"@.len() == 8);
    }
    if crate::str_eq(s, "ACTIVE") {
        Ok(ProjectStatus::Active)
    } else if crate::str_eq(s, "INACTIVE") {
        Ok(ProjectStatus::Inactive)
    } else {
        Err(ParseProjectStatusError::InvalidStatus)
    }
}

impl core::str::FromStr for ProjectStatus {
    type Err = ParseProjectStatusError;

    fn from_str(s: &str) -> Result<Self, Self::Err> {
        parse_project_status(s)
    }
}

/// A project: a named bucket of tracked time, owned by one user.
///
/// `total_duration` is the persisted aggregate of the durations of all
/// finished time-track entries of the project; the live elapsed time of an
/// in-progress entry is never folded into it. Timestamps are UTC Unix
/// seconds and durations whole seconds.
#[derive(Debug)]
#[verifier::ext_equal]
pub struct Project {
    pub id: String,
    pub name: String,
    pub status: ProjectStatus,
    pub total_duration: u64,
    pub created_at: u64,
    pub created_by: String,
    pub modified_at: Option<u64>,
    pub modified_by: Option<String>,
}

impl Clone for Project {
    fn clone(&self) -> (res: Self)
        ensures
            res == *self,
    {
        let res = Project {
            id: self.id.clone(),
            name: self.name.clone(),
            status: self.status,
            total_duration: self.total_duration,
            created_at: self.created_at,
            created_by: self.created_by.clone(),
            modified_at: self.modified_at,
            modified_by: self.modified_by.clone(),
        };
        proof {
            assert(res.modified_by == self.modified_by);
        }
        res
    }
}

impl Project {
    /// A fresh project: inactive, with no tracked time, stamped with a new
    /// identifier and the current instant.
    pub fn new(project_name: String, created_by: &str) -> (p: Project)
        ensures
            p.id@.len() == 36,
            p.name == project_name,
            p.status is Inactive,
            p.total_duration == 0,
            p.created_by@ == created_by@,
            p.modified_at is None,
            p.modified_by is None,
    {
        Project {
            id: ids::fresh_uuid(),
            name: project_name,
            status: ProjectStatus::Inactive,
            total_duration: 0,
            created_at: clock::now_seconds(),
            created_by: created_by.to_owned(),
            modified_at: None,
            modified_by: None,
        }
    }
}

} // verus!
