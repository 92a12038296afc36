//! The user record: the identity that projects and time-track entries are
//! scoped to. User management itself is out of scope here; the engines only
//! read a user's identifier and role.

use rand::Rng;
use vstd::prelude::*;

use crate::clock;
use crate::ids;

verus! {

/// The role of a user; administrators are exempt from the project cap.
#[derive(Clone, Copy, Debug, PartialEq, Eq, Structural)]
pub enum UserRole {
    Admin,
    User,
}

impl UserRole {
    /// The canonical wire name of the role.
    pub fn as_str(&self) -> (s: &'static str)
        ensures
            *self is Admin ==> s@ == "ADMIN"@,
            *self is User ==> s@ == "USER"@,
    {
        match self {
            UserRole::Admin => "ADMIN",
            UserRole::User => "USER",
        }
    }
}

/// Parses the canonical wire name of a user role.
pub fn parse_user_role(s: &str) -> (r: Result<UserRole, ()>)
    ensures
        s@ == "ADMIN"@ ==> r == Ok::<UserRole, ()>(UserRole::Admin),
        s@ == "USER"@ ==> r == Ok::<UserRole, ()>(UserRole::User),
        s@ != "ADMIN"@ && s@ != "USER"@ ==> r == Err::<UserRole, ()>(()),
{
    proof {
        reveal_strlit("ADMIN");
        reveal_strlit("USER");
        assert("ADMIN"@.len() == 5);
        assert("USER"@.len() == 4);
    }
    if crate::str_eq(s, "ADMIN") {
        Ok(UserRole::Admin)
    } else if crate::str_eq(s, "USER") {
        Ok(UserRole::User)
    } else {
        Err(())
    }
}

impl core::str::FromStr for UserRole {
    type Err = ();

    fn from_str(s: &str) -> Result<Self, Self::Err> {
        parse_user_role(s)
    }
}

/// Whether a byte is an ASCII digit or letter.
pub open spec fn is_alphanumeric_byte(b: u8) -> bool {
    (48 <= b <= 57) || (65 <= b <= 90) || (97 <= b <= 122)
}

/// Relies on rand::thread_rng and rand::distributions::Alphanumeric: a string
/// of exactly `length` characters, each sampled uniformly from the ASCII
/// digits and letters. The values are random, so nothing more is promised.
#[verifier::external_body]
fn generate_api_key(length: usize) -> (r: String)
    ensures
        r@.len() == length,
        forall|i: int| 0 <= i < r@.len() ==> is_alphanumeric_byte(#[trigger] r@[i] as u8),
{
    rand::thread_rng()
        .sample_iter(&rand::distributions::Alphanumeric)
        .take(length)
        .map(char::from)
        .collect()
}

/// An authenticated identity.
#[derive(Debug)]
#[verifier::ext_equal]
pub struct User {
    pub id: String,
    pub name: String,
    pub role: UserRole,
    pub api_key: Option<String>,
    pub created_at: u64,
    pub created_by: String,
}

impl Clone for User {
    fn clone(&self) -> (res: Self)
        ensures
            res == *self,
    {
        let res = User {
            id: self.id.clone(),
            name: self.name.clone(),
            role: self.role,
            api_key: self.api_key.clone(),
            created_at: self.created_at,
            created_by: self.created_by.clone(),
        };
        proof {
            assert(res.api_key == self.api_key);
        }
        res
    }
}

impl User {
    /// A fresh user with a new identifier and a random 32-character API key.
    pub fn new(name: &str, role: &UserRole, created_by: &str) -> (u: User)
        ensures
            u.id@.len() == 36,
            u.name@ == name@,
            u.role == *role,
            u.api_key matches Some(k) && k@.len() == 32,
            u.created_by@ == created_by@,
    {
        User {
            id: ids::fresh_uuid(),
            name: name.to_owned(),
            role: *role,
            api_key: Some(generate_api_key(32)),
            created_at: clock::now_seconds(),
            created_by: created_by.to_owned(),
        }
    }
}

} // verus!
