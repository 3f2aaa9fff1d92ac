//! Account records exchanged with the surrounding application.

use vstd::prelude::*;

verus! {

/// An existing account, as handed back to the caller.
#[derive(Debug, Clone)]
pub struct UserDTO {
    pub username: String,
    pub email: Option<String>,
    pub role: Option<String>,
    pub created_at: Option<String>,
}

/// A new account, as handed in by the caller.
#[derive(Debug, Clone)]
pub struct NewUserDTO {
    pub username: String,
    pub email: Option<String>,
    pub password: String,
    pub role: Option<String>,
    pub created_at: Option<String>,
}

} // verus!
