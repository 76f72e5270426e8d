//! The registry's rows and the pure parts of the account and website
//! operations: building the row to insert (with a fresh identifier)
//! and checking a sign-in password against the stored one. Reading
//! and writing the relational store itself stays outside the library.

use vstd::prelude::*;

verus! {

/// Connection configuration for the relational registry store.
pub struct Config {
    pub db_url: String,
}

impl Config {
    /// A configuration pointing at the given registry store.
    pub fn new(db_url: String) -> (c: Config)
        ensures
            c.db_url@ == db_url@,
    {
        Config { db_url }
    }
}

/// One account row of the registry.
#[derive(Clone, Debug)]
pub struct User {
    pub id: String,
    pub username: String,
    pub password: String,
}

/// One monitored website row of the registry. The insertion time is
/// held as microseconds since the epoch.
#[derive(Clone, Debug)]
pub struct Website {
    pub id: String,
    pub url: String,
    pub user_id: String,
    pub time_added_micros: i64,
}

/// Relies on `uuid::Uuid::new_v4` and its `Display` form: a fresh
/// random identifier, rendered in the hyphenated format of exactly 36
/// characters. Nothing else is assumed of the value.
#[verifier::external_body]
fn fresh_id() -> (r: String)
    ensures
        r@.len() == 36,
{
    uuid::Uuid::new_v4().to_string()
}

/// Build the account row for a sign-up: a fresh identifier and the
/// given credentials.
pub fn new_user(username: String, password: String) -> (u: User)
    ensures
        u.id@.len() == 36,
        u.username@ == username@,
        u.password@ == password@,
{
    User { id: fresh_id(), username, password }
}

/// Build the website row for a registration: a fresh identifier, the
/// given URL and owner, and the given insertion time.
pub fn new_website(user_id: String, url: String, time_added_micros: i64) -> (w: Website)
    ensures
        w.id@.len() == 36,
        w.url@ == url@,
        w.user_id@ == user_id@,
        w.time_added_micros == time_added_micros,
{
    Website { id: fresh_id(), url, user_id, time_added_micros }
}

/// Whether a sign-in attempt's password matches the stored one.
pub fn check_password(stored: &String, given: &String) -> (r: bool)
    ensures
        r == (stored@ == given@),
{
    stored.eq(given)
}

} // verus!
