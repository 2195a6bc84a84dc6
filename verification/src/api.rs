//! Plain payload types carried across the service boundary.
//!
//! These hold session, login and statistics data as owned values; the
//! service layer around the library converts them to and from its wire
//! formats.

use vstd::prelude::*;

verus! {

/// Credentials posted by a client to open a portal session.
pub struct CampusLoginData {
    pub username: String,
    pub password: String,
}

/// The claims carried by a session token: expiry, issue time, and the
/// encrypted session state with its nonce.
pub struct Claims {
    pub exp: usize,
    pub iat: usize,
    pub nonce: String,
    pub cipher: String,
}

/// The answer to a successful login: the session token and basic user data.
pub struct LoginResponse {
    pub token: String,
    pub user: UserBasicInfo,
}

/// Authenticated session state: the portal cookie and the user's identity.
#[derive(Debug, Clone)]
pub struct CdAuthData {
    pub cookie: String,
    pub hash: String,
    pub user: String,
    pub password: String,
}

/// Basic identity data of the signed-in student.
#[derive(Debug, Clone)]
pub struct UserBasicInfo {
    pub first_name: String,
    pub last_name: String,
    pub seminar_group: String,
    pub seminar_name: String,
    pub user: String,
}

/// Aggregate examination statistics as reported by the portal.
#[derive(Debug, Clone)]
pub struct CdExamStats {
    pub total: i64,
    pub successful: i64,
    pub unsuccessful: i64,
    pub unassessed: i64,
    pub booked: i64,
    pub finished: i64,
    pub ronmodus: i64,
}

/// One timetable entry, with millisecond timestamps for start and end.
#[derive(Debug, Clone)]
pub struct StundenplanItem {
    pub all_day: bool,
    pub color: String,
    pub description: String,
    pub editable: bool,
    pub end: i64,
    pub instructor: String,
    pub remarks: String,
    pub room: String,
    pub sinstructor: String,
    pub sroom: String,
    pub start: i64,
    pub title: String,
}

} // verus!
