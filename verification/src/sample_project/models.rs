//! Users and sessions of the sample project.
use vstd::prelude::*;
use crate::clock::{id_string, id_text, is_v4_id, new_id, now, Timestamp};
use crate::text::{contains_char, copy_str, has_char};

verus! {

/// A user account.
#[derive(Debug, Clone)]
pub struct User {
    pub id: u32,
    pub username: String,
    pub email: String,
    pub is_active: bool,
}

/// What is wrong with a user, if anything: an empty name, or an e-mail
/// address without `@`.
pub open spec fn user_problem(u: User) -> Option<Seq<char>> {
    if u.username@.len() == 0 {
        Some("Username cannot be empty"@)
    } else if !has_char(u.email@, '@') {
        Some("Invalid email format"@)
    } else {
        None
    }
}

impl User {
    /// A new active user; the database sets the id later, so it is 0.
    pub fn new(username: String, email: String) -> (r: Self)
        ensures
            r.id == 0,
            r.username == username,
            r.email == email,
            r.is_active,
    {
        User { id: 0, username, email, is_active: true }
    }

    /// Checks the user.
    pub fn validate(&self) -> (r: Result<(), String>)
        ensures
            match user_problem(*self) {
                None => r is Ok,
                Some(msg) => r matches Err(m) && m@ == msg,
            },
    {
        if self.username.as_str().is_empty() {
            return Err(copy_str("Username cannot be empty"));
        }
        if !contains_char(self.email.as_str(), '@') {
            return Err(copy_str("Invalid email format"));
        }
        Ok(())
    }
}

/// A login session of a user, valid for 24 hours.
#[derive(Debug, Clone)]
pub struct Session {
    pub id: String,
    pub user_id: u32,
    pub created_at: Timestamp,
    pub expires_at: Timestamp,
}

impl Session {
    /// A session of `user_id` that starts now and expires 24 hours later,
    /// with a fresh random id in hyphenated form.
    pub fn new(user_id: u32) -> (r: Self)
        ensures
            r.user_id == user_id,
            exists|id: u128| is_v4_id(id) && r.id@ == id_text(id),
            0 <= r.created_at.seconds,
            r.created_at.nanos < 1_000_000_000,
            r.expires_at.seconds == r.created_at.seconds + 86400,
            r.expires_at.nanos == r.created_at.nanos,
    {
        let raw = new_id();
        let id = id_string(raw);
        let created_at = now();
        let expires_at = Timestamp { seconds: created_at.seconds + 86400, nanos: created_at.nanos };
        Session { id, user_id, created_at, expires_at }
    }

    /// Whether the session is still valid at the time `at`.
    pub fn is_valid_at(&self, at: Timestamp) -> (r: bool)
        ensures
            r == at.before(self.expires_at),
    {
        at.is_before(&self.expires_at)
    }

    /// Whether the session is still valid now. The clock is read, so the
    /// answer is that of some moment the clock can show.
    pub fn is_valid(&self) -> (r: bool)
        ensures
            exists|t: Timestamp|
                0 <= t.seconds && t.nanos < 1_000_000_000 && r == t.before(self.expires_at),
    {
        let t = now();
        self.is_valid_at(t)
    }
}

} // verus!
