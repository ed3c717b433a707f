//! The sample program's own logic: signing a user in and processing data.
use vstd::prelude::*;
use crate::text::copy_str;

verus! {

/// A signed-in user of the sample program.
#[derive(Debug, Clone)]
pub struct User {
    pub username: String,
    pub is_authenticated: bool,
}

/// What can go wrong in the sample program.
#[derive(Debug, Clone, Copy, PartialEq, Eq, Structural)]
pub enum AppError {
    AuthenticationError,
    ProcessingError,
}

/// Signs a user in. Every password is accepted.
pub fn authenticate_user(username: &str, password: &str) -> (r: User)
    ensures
        r.username@ == username@,
        r.is_authenticated,
{
    User { username: copy_str(username), is_authenticated: true }
}

/// Processes the user's data when the user is signed in.
pub fn process_data(user: &User) -> (r: String)
    ensures
        user.is_authenticated ==> r@ == "Data processed successfully"@,
        !user.is_authenticated ==> r@ == "Authentication required"@,
{
    if user.is_authenticated {
        copy_str("Data processed successfully")
    } else {
        copy_str("Authentication required")
    }
}

} // verus!
