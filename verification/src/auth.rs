//! Authorization decisions over already-extracted request identity: the
//! gateway in front of the service injects the acting user and role as
//! plain values, and these functions decide what they permit.

use vstd::prelude::*;

use crate::error::FileError;
use crate::text::streq;

verus! {

/// The identity the gateway injected into a request.
#[derive(Debug)]
pub struct UserInfo {
    pub user_id: i64,
    pub username: String,
    pub role: String,
}

/// The acting user's id, or Unauthorized when the request carried none.
pub fn get_current_user_id(user_id: Option<i32>) -> (r: Result<i32, FileError>)
    ensures
        match r {
            Ok(id) => user_id == Some(id),
            Err(e) => user_id is None && e == FileError::Unauthorized,
        },
{
    match user_id {
        Some(id) => Ok(id),
        None => Err(FileError::Unauthorized),
    }
}

/// Whether a role string grants administrator rights.
pub fn is_admin(role: &str) -> (r: bool)
    ensures
        r == (role@ == "admin"@),
{
    streq(role, "admin")
}

/// Accepts exactly the administrator role; anything else is Forbidden.
pub fn require_admin(role: &str) -> (r: Result<(), FileError>)
    ensures
        match r {
            Ok(_) => role@ == "admin"@,
            Err(e) => role@ != "admin"@ && e == FileError::Forbidden,
        },
{
    if is_admin(role) {
        Ok(())
    } else {
        Err(FileError::Forbidden)
    }
}

} // verus!
