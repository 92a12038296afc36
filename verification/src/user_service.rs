//! The user-management error vocabulary. User records live in external
//! storage and their management is plumbing; the engines only read an
//! already-authenticated identity. The error type is kept so that callers
//! can map storage and project-engine faults into one vocabulary.

use vstd::prelude::*;
use vstd::string::StringExecFns;

use crate::db::{spec_db_error_message, DbError};
use crate::project_service::{spec_project_error_message, ProjectError};

verus! {

/// An error met while managing users.
#[derive(Debug, PartialEq, Eq)]
pub enum UserError {
    /// The user was not found.
    NotFound,
    /// The user lacks the permissions the action needs.
    Forbidden,
    /// Any other fault; the payload is logged, never interpreted.
    Unknown(String),
    /// An error of the project engine, met while cascading a deletion.
    ProjectError(ProjectError),
}

/// The description of a user error.
pub open spec fn spec_user_error_message(e: UserError) -> Seq<char> {
    match e {
        UserError::NotFound => "User not found"@,
        UserError::Forbidden => "User does have the required permissions to perform this action"@,
        UserError::Unknown(msg) => "Unknown error: "@ + msg@,
        UserError::ProjectError(inner) => "Project error: "@ + spec_project_error_message(inner),
    }
}

impl UserError {
    /// Renders the error as text.
    pub fn message(&self) -> (m: String)
        ensures
            m@ == spec_user_error_message(*self),
    {
        match self {
            UserError::NotFound => "User not found".to_owned(),
            UserError::Forbidden => {
                "User does have the required permissions to perform this action".to_owned()
            },
            UserError::Unknown(msg) => {
                let mut m: String = "Unknown error: ".to_owned();
                m.append(msg.as_str());
                m
            },
            UserError::ProjectError(inner) => {
                let mut m: String = "Project error: ".to_owned();
                let inner_text = inner.message();
                m.append(inner_text.as_str());
                m
            },
        }
    }

    /// Maps a storage fault into the user vocabulary.
    pub fn from_db_error(e: DbError) -> (r: UserError)
        ensures
            e is NotFound ==> r == UserError::NotFound,
            e matches DbError::Unknown(msg) ==> (r matches UserError::Unknown(m) && m@ == msg@),
            e matches DbError::Convertion { .. } ==> (r matches UserError::Unknown(m) && m@
                == "Something went wrong"@),
    {
        match e {
            DbError::NotFound => UserError::NotFound,
            DbError::Unknown(msg) => UserError::Unknown(msg),
            DbError::Convertion { .. } => UserError::Unknown("Something went wrong".to_owned()),
        }
    }

    /// Wraps a project-engine error.
    pub fn from_project_error(e: ProjectError) -> (r: UserError)
        ensures
            r == UserError::ProjectError(e),
    {
        UserError::ProjectError(e)
    }
}

} // verus!
