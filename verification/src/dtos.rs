//! The request bodies the HTTP layer hands to the engines, with their
//! validation rules. Reading them off the wire is plumbing and stays
//! outside; the rules themselves are checked here.

use vstd::prelude::*;
use vstd::string::StrSliceExecFns;

use crate::user_model::UserRole;
use crate::validation;

verus! {

/// Whether a project or user name has an accepted length: between 1 and 25
/// characters.
pub open spec fn spec_name_length_ok(name: Seq<char>) -> bool {
    1 <= name.len() <= 25
}

/// Whether an optional comment has an accepted length: at most 1000
/// characters.
pub open spec fn spec_comment_ok(comment: Option<String>) -> bool {
    comment matches Some(c) ==> c@.len() <= 1000
}

/// Checks the accepted length of a project or user name.
pub fn name_length_ok(name: &str) -> (ok: bool)
    ensures
        ok == spec_name_length_ok(name@),
{
    let n = name.unicode_len();
    1 <= n && n <= 25
}

/// Checks the accepted length of an optional comment.
pub fn comment_ok(comment: &Option<String>) -> (ok: bool)
    ensures
        ok == spec_comment_ok(*comment),
{
    match comment {
        None => true,
        Some(c) => c.as_str().unicode_len() <= 1000,
    }
}

/// The body of a request that creates a project.
#[derive(Debug)]
pub struct CreateProjectDto {
    pub name: String,
}

impl CreateProjectDto {
    /// Whether the request is acceptable: the name is 1 to 25 characters.
    pub fn validate(&self) -> (ok: bool)
        ensures
            ok == spec_name_length_ok(self.name@),
    {
        name_length_ok(self.name.as_str())
    }
}

/// The body of a request that creates a project, under the name the older
/// route knows it by.
#[derive(Debug)]
pub struct NewProjectDto {
    pub name: String,
}

impl NewProjectDto {
    /// Whether the request is acceptable: the name is 1 to 25 characters.
    pub fn validate(&self) -> (ok: bool)
        ensures
            ok == spec_name_length_ok(self.name@),
    {
        name_length_ok(self.name.as_str())
    }
}

/// The body of a request that starts tracking time.
#[derive(Debug)]
pub struct StartTimeTrackDto {
    pub comment: Option<String>,
}

impl StartTimeTrackDto {
    /// Whether the request is acceptable: a comment, if any, is at most
    /// 1000 characters.
    pub fn validate(&self) -> (ok: bool)
        ensures
            ok == spec_comment_ok(self.comment),
    {
        comment_ok(&self.comment)
    }
}

/// The body of a request that records a back-dated entry. Timestamps are
/// UTC Unix seconds.
#[derive(Debug)]
pub struct CreateTimeTrackDto {
    pub project_id: String,
    pub started_at: u64,
    pub stopped_at: u64,
    pub comment: Option<String>,
}

impl CreateTimeTrackDto {
    /// Whether the request is acceptable: the project identifier is a UUID
    /// and a comment, if any, is at most 1000 characters.
    pub fn validate(&self) -> (ok: bool)
        ensures
            ok == (validation::is_uuid_text(self.project_id@) && spec_comment_ok(self.comment)),
    {
        validation::valid_uuid(self.project_id.as_str()) && comment_ok(&self.comment)
    }
}

/// The body of a request that creates a user.
#[derive(Debug)]
pub struct CreateUserDto {
    pub name: String,
    pub role: UserRole,
}

impl CreateUserDto {
    /// Whether the request is acceptable: the name is 1 to 25 characters.
    pub fn validate(&self) -> (ok: bool)
        ensures
            ok == spec_name_length_ok(self.name@),
    {
        name_length_ok(self.name.as_str())
    }
}

} // verus!
