//! The storage-level error vocabulary.
//!
//! The engines keep their state in memory, so they never produce these
//! themselves; the type exists so that callers that persist records through
//! an external store can map its faults into the engines' error vocabulary.

use vstd::prelude::*;
use vstd::string::StringExecFns;

verus! {

/// A fault reported by a record store.
#[derive(Debug, PartialEq, Eq)]
pub enum DbError {
    /// The record was not found.
    NotFound,
    /// A stored record could not be converted back into a model value.
    Convertion { table: String, id: String },
    /// Any other storage or transport fault.
    Unknown(String),
}

/// The description of a storage fault, used when one is wrapped into an
/// engine's error.
pub open spec fn spec_db_error_message(e: DbError) -> Seq<char> {
    match e {
        DbError::NotFound => "The item was not found"@,
        DbError::Convertion { table, id } => "Conversion error in table '"@ + table@ + "' for id '"@
            + id@ + "'"@,
        DbError::Unknown(msg) => msg@,
    }
}

impl DbError {
    /// Renders the fault as text.
    pub fn message(&self) -> (m: String)
        ensures
            m@ == spec_db_error_message(*self),
    {
        match self {
            DbError::NotFound => "The item was not found".to_owned(),
            DbError::Convertion { table, id } => {
                let mut m: String = "Conversion error in table '".to_owned();
                m.append(table.as_str());
                m.append("' for id '");
                m.append(id.as_str());
                m.append("'");
                m
            },
            DbError::Unknown(msg) => msg.clone(),
        }
    }
}

} // verus!
